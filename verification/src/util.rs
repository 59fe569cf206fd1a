//! Line-oriented key/value lookup and small URL helpers.
//!
//! Configuration sources outside the handshake (kernel command lines, lease
//! files) are plain text of `key<delim>value` lines. `key_lookup` finds the
//! value of the first line whose key matches exactly; the caller hands the
//! file's contents in as text.

use vstd::prelude::*;

use crate::scan::{find_at, find_char, find_sub, lemma_find_at, lemma_find_at_shift, matches_at, matches_at_exec};

verus! {

/// Value of a `key<delim>value` line: everything after the first delimiter,
/// provided what stands before it (delimiter included) is exactly
/// `key` followed by the delimiter.
pub open spec fn key_lookup_line_spec(delim: char, key: Seq<char>, line: Seq<char>) -> Option<
    Seq<char>,
> {
    match find_at(line, seq![delim], 0) {
        None => None,
        Some(i) => {
            if line.subrange(0, i + 1) == key + seq![delim] {
                Some(line.subrange(i + 1, line.len() as int))
            } else {
                None
            }
        },
    }
}

/// Looks `key` up in a single line, split at the first `delim`.
pub fn key_lookup_line(delim: char, key: &str, line: &str) -> (r: Option<String>)
    ensures
        match r {
            Some(v) => key_lookup_line_spec(delim, key@, line@) == Some(v@),
            None => key_lookup_line_spec(delim, key@, line@) is None,
        },
{
    let ln = line.unicode_len();
    let kn = key.unicode_len();
    match find_char(line, delim, 0) {
        None => None,
        Some(i) => {
            proof {
                lemma_find_at(line@, seq![delim], 0);
                assert(matches_at(line@, seq![delim], i as int));
                assert(line@[i as int] == delim) by {
                    assert(line@[i as int + 0] == seq![delim][0]);
                }
            }
            if i == kn && matches_at_exec(line, key, 0) {
                proof {
                    assert(line@.subrange(0, i + 1) =~= key@ + seq![delim]);
                }
                Some(line.substring_char(i + 1, ln).to_owned())
            } else {
                proof {
                    if line@.subrange(0, i + 1) == key@ + seq![delim] {
                        assert(line@.subrange(0, i + 1).len() == i + 1);
                        assert(i == kn);
                        assert forall|j: int| 0 <= j < kn implies line@[j] == key@[j] by {
                            assert(line@.subrange(0, i + 1)[j] == (key@ + seq![delim])[j]);
                            assert(line@.subrange(0, i + 1)[j] == line@[j]);
                            assert((key@ + seq![delim])[j] == key@[j]);
                        }
                        assert(matches_at(line@, key@, 0));
                    }
                }
                None
            }
        },
    }
}

/// A line body with one trailing carriage return removed, as line-oriented
/// readers strip `\r\n` endings.
pub open spec fn strip_cr(line: Seq<char>) -> Seq<char> {
    if line.len() > 0 && line.last() == '\r' {
        line.drop_last()
    } else {
        line
    }
}

/// Value of the first line of `s` whose key matches, lines being separated
/// by `\n` with an optional `\r` before it.
pub open spec fn key_lookup_spec(delim: char, key: Seq<char>, s: Seq<char>) -> Option<Seq<char>>
    decreases s.len(),
{
    if s.len() == 0 {
        None
    } else {
        match find_at(s, seq!['\n'], 0) {
            Some(j) => {
                if 0 <= j < s.len() {
                    match key_lookup_line_spec(delim, key, strip_cr(s.subrange(0, j))) {
                        Some(v) => Some(v),
                        None => key_lookup_spec(delim, key, s.subrange(j + 1, s.len() as int)),
                    }
                } else {
                    None
                }
            },
            None => key_lookup_line_spec(delim, key, strip_cr(s)),
        }
    }
}

/// A copy of `line` with one trailing carriage return removed.
pub fn strip_cr_exec(line: &str) -> (r: String)
    ensures
        r@ == strip_cr(line@),
{
    let n = line.unicode_len();
    if n > 0 && line.get_char(n - 1) == '\r' {
        line.substring_char(0, n - 1).to_owned()
    } else {
        line.to_owned()
    }
}

/// Looks `key` up in `contents`, line by line: the value of the first line
/// whose text before its first `delim` is exactly `key`, with line endings
/// (`\n` or `\r\n`) stripped before matching.
pub fn key_lookup(delim: char, key: &str, contents: &str) -> (r: Option<String>)
    ensures
        match r {
            Some(v) => key_lookup_spec(delim, key@, contents@) == Some(v@),
            None => key_lookup_spec(delim, key@, contents@) is None,
        },
{
    let n = contents.unicode_len();
    let mut p: usize = 0;
    proof {
        assert(contents@.subrange(0, n as int) =~= contents@);
    }
    while p < n
        invariant
            p <= n,
            n == contents@.len(),
            key_lookup_spec(delim, key@, contents@) == key_lookup_spec(
                delim,
                key@,
                contents@.subrange(p as int, n as int),
            ),
        decreases n - p,
    {
        let ghost suf = contents@.subrange(p as int, n as int);
        match find_char(contents, '\n', p) {
            Some(j) => {
                proof {
                    lemma_find_at(contents@, seq!['\n'], p as int);
                    assert(matches_at(contents@, seq!['\n'], j as int));
                    lemma_find_at_shift(contents@, seq!['\n'], p as int, 0);
                    assert(contents@.subrange(p as int, j as int) =~= suf.subrange(0, j - p));
                    assert(suf.subrange(j - p + 1, suf.len() as int) =~= contents@.subrange(
                        j + 1,
                        n as int,
                    ));
                }
                let line = strip_cr_exec(contents.substring_char(p, j));
                match key_lookup_line(delim, key, line.as_str()) {
                    Some(v) => {
                        return Some(v);
                    },
                    None => {},
                }
                p = j + 1;
            },
            None => {
                proof {
                    lemma_find_at_shift(contents@, seq!['\n'], p as int, 0);
                }
                let line = strip_cr_exec(contents.substring_char(p, n));
                return key_lookup_line(delim, key, line.as_str());
            },
        }
    }
    proof {
        assert(contents@.subrange(n as int, n as int) =~= Seq::<char>::empty());
    }
    None
}

/// Scheme of a URL written before `://`, if the URL has that separator.
pub open spec fn url_scheme_spec(url: Seq<char>) -> Option<Seq<char>> {
    match find_at(url, seq![':', '/', '/'], 0) {
        Some(i) => Some(url.subrange(0, i)),
        None => None,
    }
}

/// The scheme part of `url`: what stands before the first `://`.
pub fn url_scheme(url: &str) -> (r: Option<String>)
    ensures
        match r {
            Some(v) => url_scheme_spec(url@) == Some(v@),
            None => url_scheme_spec(url@) is None,
        },
{
    proof {
        reveal_strlit("://");
        assert("://"@ =~= seq![':', '/', '/']);
    }
    match find_sub(url, "://") {
        Some(i) => {
            proof {
                lemma_find_at(url@, seq![':', '/', '/'], 0);
                assert(matches_at(url@, seq![':', '/', '/'], i as int));
            }
            Some(url.substring_char(0, i).to_owned())
        },
        None => None,
    }
}

} // verus!
