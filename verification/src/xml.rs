//! Element extraction from the platform's XML documents.
//!
//! The agent reads only a handful of leaf elements out of the documents the
//! platform serves (version lists, goal state); everything else is opaque
//! passthrough. An element's text is what stands between the first
//! occurrence of its opening tag and the next occurrence of its closing
//! tag. Values may carry the five predefined XML character entities, which
//! `unescape_xml` decodes.

use vstd::prelude::*;

use crate::scan::{find_at, find_sub_from, lemma_find_at, lemma_find_at_shift, lemma_matches_at_shift, matches_at, matches_at_exec};

verus! {

pub open spec fn open_tag(tag: Seq<char>) -> Seq<char> {
    seq!['<'] + tag + seq!['>']
}

pub open spec fn close_tag(tag: Seq<char>) -> Seq<char> {
    seq!['<', '/'] + tag + seq!['>']
}

/// Text of the first `tag` element of `doc`: what stands between the first
/// occurrence of `<tag>` and the next `</tag>` after it.
pub open spec fn element_text_spec(doc: Seq<char>, tag: Seq<char>) -> Option<Seq<char>> {
    match find_at(doc, open_tag(tag), 0) {
        None => None,
        Some(i) => {
            let start = i + open_tag(tag).len();
            match find_at(doc, close_tag(tag), start) {
                None => None,
                Some(j) => Some(doc.subrange(start, j)),
            }
        },
    }
}

/// Builds `<tag>` in executable code.
fn open_tag_exec(tag: &str) -> (r: String)
    ensures
        r@ == open_tag(tag@),
{
    let r = String::from_str("<").concat(tag).concat(">");
    proof {
        reveal_strlit("<");
        reveal_strlit(">");
        assert(r@ =~= open_tag(tag@));
    }
    r
}

/// Builds `</tag>` in executable code.
fn close_tag_exec(tag: &str) -> (r: String)
    ensures
        r@ == close_tag(tag@),
{
    let r = String::from_str("</").concat(tag).concat(">");
    proof {
        reveal_strlit("</");
        reveal_strlit(">");
        assert(r@ =~= close_tag(tag@));
    }
    r
}

/// Text of the first `tag` element of `doc`, if the document has one.
pub fn element_text(doc: &str, tag: &str) -> (r: Option<String>)
    ensures
        match r {
            Some(v) => element_text_spec(doc@, tag@) == Some(v@),
            None => element_text_spec(doc@, tag@) is None,
        },
{
    let ot = open_tag_exec(tag);
    let ct = close_tag_exec(tag);
    let dn = doc.unicode_len();
    match find_sub_from(doc, ot.as_str(), 0) {
        None => None,
        Some(i) => {
            proof {
                lemma_find_at(doc@, ot@, 0);
                assert(matches_at(doc@, ot@, i as int));
            }
            let start = i + ot.as_str().unicode_len();
            match find_sub_from(doc, ct.as_str(), start) {
                None => None,
                Some(j) => {
                    proof {
                        lemma_find_at(doc@, ct@, start as int);
                    }
                    let v = doc.substring_char(start, j).to_owned();
                    Some(v)
                },
            }
        },
    }
}

/// Texts of every `tag` element of `doc`, in document order.
pub open spec fn elements_text_spec(doc: Seq<char>, tag: Seq<char>) -> Seq<Seq<char>>
    decreases doc.len(),
{
    match find_at(doc, open_tag(tag), 0) {
        None => Seq::empty(),
        Some(i) => {
            let start = i + open_tag(tag).len();
            match find_at(doc, close_tag(tag), start) {
                None => Seq::empty(),
                Some(j) => {
                    let next = j + close_tag(tag).len();
                    if 0 <= start <= j && next <= doc.len() {
                        seq![doc.subrange(start, j)] + elements_text_spec(
                            doc.subrange(next, doc.len() as int),
                            tag,
                        )
                    } else {
                        Seq::empty()
                    }
                },
            }
        },
    }
}

/// Texts of every `tag` element of `doc`, in document order.
pub fn elements_text(doc: &str, tag: &str) -> (r: Vec<String>)
    ensures
        r@.len() == elements_text_spec(doc@, tag@).len(),
        forall|k: int| 0 <= k < r@.len() ==> r@[k]@ == elements_text_spec(doc@, tag@)[k],
{
    let ot = open_tag_exec(tag);
    let ct = close_tag_exec(tag);
    let n = doc.unicode_len();
    let mut v: Vec<String> = Vec::new();
    let mut p: usize = 0;
    proof {
        assert(doc@.subrange(0, n as int) =~= doc@);
        assert(v@.map_values(|x: String| x@) + elements_text_spec(
            doc@.subrange(0, n as int),
            tag@,
        ) =~= elements_text_spec(doc@, tag@));
    }
    while p < n
        invariant
            p <= n,
            n == doc@.len(),
            ot@ == open_tag(tag@),
            ct@ == close_tag(tag@),
            elements_text_spec(doc@, tag@) == v@.map_values(|x: String| x@)
                + elements_text_spec(doc@.subrange(p as int, n as int), tag@),
        ensures
            elements_text_spec(doc@, tag@) == v@.map_values(|x: String| x@),
        decreases n - p,
    {
        let ghost suf = doc@.subrange(p as int, n as int);
        let ghost old_v = v@;
        match find_sub_from(doc, ot.as_str(), p) {
            None => {
                proof {
                    lemma_find_at_shift(doc@, ot@, p as int, 0);
                    assert(elements_text_spec(suf, tag@) =~= Seq::<Seq<char>>::empty());
                    assert(old_v.map_values(|x: String| x@) + Seq::<Seq<char>>::empty()
                        =~= old_v.map_values(|x: String| x@));
                }
                break;
            },
            Some(i) => {
                proof {
                    lemma_find_at(doc@, ot@, p as int);
                    assert(matches_at(doc@, ot@, i as int));
                    lemma_find_at_shift(doc@, ot@, p as int, 0);
                }
                let start = i + ot.as_str().unicode_len();
                match find_sub_from(doc, ct.as_str(), start) {
                    None => {
                        proof {
                            lemma_find_at_shift(doc@, ct@, p as int, start - p);
                            assert(elements_text_spec(suf, tag@) =~= Seq::<Seq<char>>::empty());
                            assert(old_v.map_values(|x: String| x@) + Seq::<Seq<char>>::empty()
                                =~= old_v.map_values(|x: String| x@));
                        }
                        break;
                    },
                    Some(j) => {
                        proof {
                            lemma_find_at(doc@, ct@, start as int);
                            assert(matches_at(doc@, ct@, j as int));
                            lemma_find_at_shift(doc@, ct@, p as int, start - p);
                            assert(doc@.subrange(start as int, j as int) =~= suf.subrange(
                                start - p,
                                j - p,
                            ));
                        }
                        let first = doc.substring_char(start, j).to_owned();
                        let ghost gfirst = first@;
                        let next = j + ct.as_str().unicode_len();
                        proof {
                            assert(suf.subrange(j - p + ct@.len(), suf.len() as int)
                                =~= doc@.subrange(next as int, n as int));
                            assert(elements_text_spec(suf, tag@) == seq![gfirst]
                                + elements_text_spec(doc@.subrange(next as int, n as int), tag@));
                        }
                        v.push(first);
                        proof {
                            assert(v@.map_values(|x: String| x@) =~= old_v.map_values(
                                |x: String| x@,
                            ) + seq![gfirst]);
                            assert(old_v.map_values(|x: String| x@) + (seq![gfirst]
                                + elements_text_spec(doc@.subrange(next as int, n as int), tag@))
                                =~= v@.map_values(|x: String| x@) + elements_text_spec(
                                doc@.subrange(next as int, n as int),
                                tag@,
                            ));
                        }
                        p = next;
                    },
                }
            },
        }
    }
    proof {
        if p >= n {
            assert(doc@.subrange(n as int, n as int) =~= Seq::<char>::empty());
        }
        match_values_align(v@, elements_text_spec(doc@, tag@));
    }
    v
}

/// A vector whose views concatenate to a list element for element agrees
/// with it in length and members.
proof fn match_values_align(v: Seq<String>, all: Seq<Seq<char>>)
    requires
        all == v.map_values(|x: String| x@),
    ensures
        all.len() == v.len(),
        forall|k: int| 0 <= k < v.len() ==> v[k]@ == all[k],
{
    assert forall|k: int| 0 <= k < v.len() implies v[k]@ == all[k] by {
        assert(all[k] == v.map_values(|x: String| x@)[k]);
    }
}

pub open spec fn entity_amp() -> Seq<char> {
    seq!['&', 'a', 'm', 'p', ';']
}

pub open spec fn entity_lt() -> Seq<char> {
    seq!['&', 'l', 't', ';']
}

pub open spec fn entity_gt() -> Seq<char> {
    seq!['&', 'g', 't', ';']
}

pub open spec fn entity_quot() -> Seq<char> {
    seq!['&', 'q', 'u', 'o', 't', ';']
}

pub open spec fn entity_apos() -> Seq<char> {
    seq!['&', 'a', 'p', 'o', 's', ';']
}

/// Decoding of the five predefined XML character entities; all other text
/// passes through unchanged.
pub open spec fn unescape_spec(s: Seq<char>) -> Seq<char>
    decreases s.len(),
{
    if s.len() == 0 {
        Seq::empty()
    } else if matches_at(s, entity_amp(), 0) {
        seq!['&'] + unescape_spec(s.skip(5))
    } else if matches_at(s, entity_lt(), 0) {
        seq!['<'] + unescape_spec(s.skip(4))
    } else if matches_at(s, entity_gt(), 0) {
        seq!['>'] + unescape_spec(s.skip(4))
    } else if matches_at(s, entity_quot(), 0) {
        seq!['"'] + unescape_spec(s.skip(6))
    } else if matches_at(s, entity_apos(), 0) {
        seq!['\''] + unescape_spec(s.skip(6))
    } else {
        seq![s[0]] + unescape_spec(s.skip(1))
    }
}

/// Decodes the five predefined XML character entities of `s`.
pub fn unescape_xml(s: &str) -> (r: String)
    ensures
        r@ == unescape_spec(s@),
{
    let n = s.unicode_len();
    let mut out = String::new();
    let mut p: usize = 0;
    proof {
        assert(s@.subrange(0, n as int) =~= s@);
        assert(out@ + unescape_spec(s@.subrange(0, n as int)) =~= unescape_spec(s@));
    }
    while p < n
        invariant
            p <= n,
            n == s@.len(),
            unescape_spec(s@) == out@ + unescape_spec(s@.subrange(p as int, n as int)),
        decreases n - p,
    {
        proof {
            reveal_strlit("&amp;");
            reveal_strlit("&lt;");
            reveal_strlit("&gt;");
            reveal_strlit("&quot;");
            reveal_strlit("&apos;");
            reveal_strlit("&");
            reveal_strlit("<");
            reveal_strlit(">");
            reveal_strlit("\"");
            reveal_strlit("'");
            assert("&amp;"@ =~= entity_amp());
            assert("&lt;"@ =~= entity_lt());
            assert("&gt;"@ =~= entity_gt());
            assert("&quot;"@ =~= entity_quot());
            assert("&apos;"@ =~= entity_apos());
            lemma_matches_at_shift(s@, entity_amp(), p as int, 0);
            lemma_matches_at_shift(s@, entity_lt(), p as int, 0);
            lemma_matches_at_shift(s@, entity_gt(), p as int, 0);
            lemma_matches_at_shift(s@, entity_quot(), p as int, 0);
            lemma_matches_at_shift(s@, entity_apos(), p as int, 0);
        }
        let ghost suf = s@.subrange(p as int, n as int);
        let ghost old_out = out@;
        if matches_at_exec(s, "&amp;", p) {
            proof {
                assert(unescape_spec(suf) == seq!['&'] + unescape_spec(suf.skip(5)));
                assert(suf.skip(5) =~= s@.subrange(p + 5, n as int));
            }
            out.append("&");
            proof {
                assert(out@ =~= old_out + seq!['&']);
                assert(out@ + unescape_spec(s@.subrange(p + 5, n as int)) =~= unescape_spec(s@));
            }
            p += 5;
        } else if matches_at_exec(s, "&lt;", p) {
            proof {
                assert(unescape_spec(suf) == seq!['<'] + unescape_spec(suf.skip(4)));
                assert(suf.skip(4) =~= s@.subrange(p + 4, n as int));
            }
            out.append("<");
            proof {
                assert(out@ =~= old_out + seq!['<']);
                assert(out@ + unescape_spec(s@.subrange(p + 4, n as int)) =~= unescape_spec(s@));
            }
            p += 4;
        } else if matches_at_exec(s, "&gt;", p) {
            proof {
                assert(unescape_spec(suf) == seq!['>'] + unescape_spec(suf.skip(4)));
                assert(suf.skip(4) =~= s@.subrange(p + 4, n as int));
            }
            out.append(">");
            proof {
                assert(out@ =~= old_out + seq!['>']);
                assert(out@ + unescape_spec(s@.subrange(p + 4, n as int)) =~= unescape_spec(s@));
            }
            p += 4;
        } else if matches_at_exec(s, "&quot;", p) {
            proof {
                assert(unescape_spec(suf) == seq!['"'] + unescape_spec(suf.skip(6)));
                assert(suf.skip(6) =~= s@.subrange(p + 6, n as int));
            }
            out.append("\"");
            proof {
                assert(out@ =~= old_out + seq!['"']);
                assert(out@ + unescape_spec(s@.subrange(p + 6, n as int)) =~= unescape_spec(s@));
            }
            p += 6;
        } else if matches_at_exec(s, "&apos;", p) {
            proof {
                assert(unescape_spec(suf) == seq!['\''] + unescape_spec(suf.skip(6)));
                assert(suf.skip(6) =~= s@.subrange(p + 6, n as int));
            }
            out.append("'");
            proof {
                assert(out@ =~= old_out + seq!['\'']);
                assert(out@ + unescape_spec(s@.subrange(p + 6, n as int)) =~= unescape_spec(s@));
            }
            p += 6;
        } else {
            proof {
                assert(suf.len() > 0);
                assert(unescape_spec(suf) == seq![suf[0]] + unescape_spec(suf.skip(1)));
                assert(suf.skip(1) =~= s@.subrange(p + 1, n as int));
            }
            let c = s.substring_char(p, p + 1);
            out.append(c);
            proof {
                assert(c@ =~= seq![suf[0]]);
                assert(out@ =~= old_out + seq![suf[0]]);
                assert(out@ + unescape_spec(s@.subrange(p + 1, n as int)) =~= unescape_spec(s@));
            }
            p += 1;
        }
    }
    proof {
        assert(s@.subrange(n as int, n as int) =~= Seq::<char>::empty());
        assert(unescape_spec(Seq::<char>::empty()) =~= Seq::<char>::empty());
        assert(out@ =~= unescape_spec(s@));
    }
    out
}

} // verus!
