//! Substring scanning over character sequences.
//!
//! The protocol documents the agent consumes (goal-state XML, version lists,
//! PEM text, key/value files) are all scanned with the same primitive: the
//! position of the first occurrence of a needle at or after a starting
//! offset. The spec-level definition is `find_at`; `lemma_find_at` gives its
//! first-match characterization, and the executable functions are proved
//! equal to it.

use vstd::prelude::*;

verus! {

/// `needle` occurs in `hay` starting at position `i`.
pub open spec fn matches_at(hay: Seq<char>, needle: Seq<char>, i: int) -> bool {
    &&& 0 <= i
    &&& i + needle.len() <= hay.len()
    &&& forall|j: int| 0 <= j < needle.len() ==> hay[i + j] == needle[j]
}

/// `needle` occurs somewhere in `hay`.
pub open spec fn contains_sub(hay: Seq<char>, needle: Seq<char>) -> bool {
    exists|i: int| matches_at(hay, needle, i)
}

/// Position of the first occurrence of `needle` in `hay` at or after `from`,
/// if there is one.
pub open spec fn find_at(hay: Seq<char>, needle: Seq<char>, from: int) -> Option<int>
    decreases hay.len() - from,
{
    if from < 0 || from + needle.len() > hay.len() {
        None
    } else if matches_at(hay, needle, from) {
        Some(from)
    } else {
        find_at(hay, needle, from + 1)
    }
}

/// `find_at` returns the first match: a position at or after `from` where
/// the needle occurs and before which it does not, and `None` exactly when
/// the needle occurs nowhere at or after `from`.
pub proof fn lemma_find_at(hay: Seq<char>, needle: Seq<char>, from: int)
    requires
        0 <= from,
    ensures
        match find_at(hay, needle, from) {
            Some(i) => from <= i && matches_at(hay, needle, i) && (forall|j: int|
                from <= j < i ==> !matches_at(hay, needle, j)),
            None => forall|j: int| from <= j ==> !matches_at(hay, needle, j),
        },
    decreases hay.len() - from,
{
    if from + needle.len() > hay.len() {
        assert forall|j: int| from <= j implies !matches_at(hay, needle, j) by {
            assert(j + needle.len() >= from + needle.len());
        }
    } else if matches_at(hay, needle, from) {
    } else {
        lemma_find_at(hay, needle, from + 1);
    }
}

/// Whether `needle` occurs in `hay` starting at position `at`.
pub fn matches_at_exec(hay: &str, needle: &str, at: usize) -> (b: bool)
    ensures
        b == matches_at(hay@, needle@, at as int),
{
    let hlen = hay.unicode_len();
    let nlen = needle.unicode_len();
    if nlen > hlen || at > hlen - nlen {
        assert(!matches_at(hay@, needle@, at as int));
        return false;
    }
    let mut j: usize = 0;
    while j < nlen
        invariant
            0 <= j <= nlen,
            at + nlen <= hlen,
            hlen == hay@.len(),
            nlen == needle@.len(),
            forall|k: int| 0 <= k < j ==> hay@[at + k] == needle@[k],
        decreases nlen - j,
    {
        if hay.get_char(at + j) != needle.get_char(j) {
            assert(!matches_at(hay@, needle@, at as int));
            return false;
        }
        j += 1;
    }
    true
}

/// Position of the first occurrence of `needle` in `hay` at or after `from`.
pub fn find_sub_from(hay: &str, needle: &str, from: usize) -> (r: Option<usize>)
    ensures
        match r {
            Some(i) => find_at(hay@, needle@, from as int) == Some(i as int),
            None => find_at(hay@, needle@, from as int) is None,
        },
{
    let hlen = hay.unicode_len();
    let nlen = needle.unicode_len();
    proof {
        lemma_find_at(hay@, needle@, from as int);
    }
    if nlen > hlen || from > hlen - nlen {
        assert(forall|j: int| from <= j ==> !matches_at(hay@, needle@, j)) by {
            assert(forall|j: int| matches_at(hay@, needle@, j) ==> j + needle@.len()
                <= hay@.len());
        }
        return None;
    }
    let mut i = from;
    while i <= hlen - nlen
        invariant
            from <= i,
            nlen <= hlen,
            hlen == hay@.len(),
            nlen == needle@.len(),
            forall|j: int| from <= j < i ==> !matches_at(hay@, needle@, j),
        decreases hlen + 1 - i,
    {
        if matches_at_exec(hay, needle, i) {
            proof {
                lemma_find_at(hay@, needle@, from as int);
                match find_at(hay@, needle@, from as int) {
                    Some(w) => {
                        assert(!(w < i));
                        assert(!(w > i));
                    },
                    None => {
                        assert(matches_at(hay@, needle@, i as int));
                    },
                }
            }
            return Some(i);
        }
        i += 1;
    }
    proof {
        assert forall|j: int| from <= j implies !matches_at(hay@, needle@, j) by {
            if j + needle@.len() <= hay@.len() {
                assert(j <= hlen - nlen < i);
            }
        }
    }
    None
}

/// Position of the first occurrence of `needle` anywhere in `hay`.
pub fn find_sub(hay: &str, needle: &str) -> (r: Option<usize>)
    ensures
        match r {
            Some(i) => find_at(hay@, needle@, 0) == Some(i as int),
            None => find_at(hay@, needle@, 0) is None,
        },
{
    find_sub_from(hay, needle, 0)
}

/// A match in a suffix is the same match shifted in the whole sequence.
pub proof fn lemma_matches_at_shift(s: Seq<char>, needle: Seq<char>, p: int, j: int)
    requires
        0 <= p <= s.len(),
        0 <= j,
    ensures
        matches_at(s.subrange(p, s.len() as int), needle, j) == matches_at(s, needle, p + j),
{
    let suf = s.subrange(p, s.len() as int);
    if matches_at(suf, needle, j) {
        assert forall|k: int| 0 <= k < needle.len() implies s[p + j + k] == needle[k] by {
            assert(suf[j + k] == needle[k]);
        }
        assert(matches_at(s, needle, p + j));
    }
    if matches_at(s, needle, p + j) {
        assert forall|k: int| 0 <= k < needle.len() implies suf[j + k] == needle[k] by {
            assert(s[p + j + k] == needle[k]);
        }
        assert(matches_at(suf, needle, j));
    }
}

/// The first match in a suffix is the first match in the whole sequence,
/// shifted.
pub proof fn lemma_find_at_shift(s: Seq<char>, needle: Seq<char>, p: int, from: int)
    requires
        0 <= p <= s.len(),
        0 <= from,
    ensures
        find_at(s.subrange(p, s.len() as int), needle, from) == (match find_at(
            s,
            needle,
            p + from,
        ) {
            Some(i) => Some(i - p),
            None => None::<int>,
        }),
{
    let suf = s.subrange(p, s.len() as int);
    lemma_find_at(s, needle, p + from);
    lemma_find_at(suf, needle, from);
    match find_at(s, needle, p + from) {
        Some(i) => {
            lemma_matches_at_shift(s, needle, p, i - p);
            assert(matches_at(suf, needle, i - p));
            match find_at(suf, needle, from) {
                Some(w) => {
                    lemma_matches_at_shift(s, needle, p, w);
                    assert(matches_at(s, needle, p + w));
                    assert(!(p + w < i));
                    assert(!(w > i - p));
                },
                None => {
                    assert(!matches_at(suf, needle, i - p));
                },
            }
        },
        None => {
            match find_at(suf, needle, from) {
                Some(w) => {
                    lemma_matches_at_shift(s, needle, p, w);
                    assert(matches_at(s, needle, p + w));
                    assert(!matches_at(s, needle, p + w));
                },
                None => {},
            }
        },
    }
}

/// Whether two pieces of text are equal character for character.
pub fn str_eq(a: &str, b: &str) -> (r: bool)
    ensures
        r == (a@ == b@),
{
    let an = a.unicode_len();
    let bn = b.unicode_len();
    if an != bn {
        proof {
            if a@ == b@ {
                assert(a@.len() == b@.len());
            }
        }
        return false;
    }
    let m = matches_at_exec(a, b, 0);
    proof {
        if m {
            assert(a@ =~= b@);
        } else if a@ == b@ {
            assert(matches_at(a@, b@, 0));
        }
    }
    m
}

/// Position of the first occurrence of the character `c` in `hay` at or
/// after `from`.
pub fn find_char(hay: &str, c: char, from: usize) -> (r: Option<usize>)
    ensures
        match r {
            Some(i) => find_at(hay@, seq![c], from as int) == Some(i as int),
            None => find_at(hay@, seq![c], from as int) is None,
        },
{
    let n = hay.unicode_len();
    proof {
        lemma_find_at(hay@, seq![c], from as int);
    }
    let mut i = from;
    while i < n
        invariant
            from <= i,
            n == hay@.len(),
            forall|j: int| from <= j < i ==> !matches_at(hay@, seq![c], j),
        decreases n - i,
    {
        if hay.get_char(i) == c {
            proof {
                lemma_find_at(hay@, seq![c], from as int);
                assert(hay@[i as int + 0] == seq![c][0]);
                assert(matches_at(hay@, seq![c], i as int));
                match find_at(hay@, seq![c], from as int) {
                    Some(w) => {
                        assert(!(w < i));
                        assert(!(w > i));
                    },
                    None => {
                        assert(matches_at(hay@, seq![c], i as int));
                    },
                }
            }
            return Some(i);
        }
        proof {
            assert(!matches_at(hay@, seq![c], i as int)) by {
                assert(hay@[i as int + 0] != seq![c][0]);
            }
        }
        i += 1;
    }
    proof {
        lemma_find_at(hay@, seq![c], from as int);
        assert forall|j: int| from <= j implies !matches_at(hay@, seq![c], j) by {
            if j + 1 <= hay@.len() {
                assert(j < n);
            }
        }
    }
    None
}

/// Whether `needle` occurs anywhere in `hay`.
pub fn contains_sub_exec(hay: &str, needle: &str) -> (b: bool)
    ensures
        b == contains_sub(hay@, needle@),
{
    proof {
        lemma_find_at(hay@, needle@, 0);
    }
    match find_sub(hay, needle) {
        Some(_) => true,
        None => {
            assert forall|i: int| !matches_at(hay@, needle@, i) by {
                if 0 <= i {
                    assert(!matches_at(hay@, needle@, i));
                }
            }
            false
        },
    }
}

} // verus!
