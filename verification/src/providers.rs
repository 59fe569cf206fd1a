//! Provider capabilities over plain metadata endpoints.
//!
//! Besides the handshake, providers expose simple capabilities — host name,
//! SSH keys, instance attributes — served by REST-style endpoints that
//! return text or JSON directly. The transport fetches; the decisions about
//! what a response means are verified here: which statuses are absence
//! rather than failure, how a public-keys index is read, and which fields
//! are lifted out of the identity and metadata documents.

use vstd::prelude::*;

use crate::scan::{find_at, find_char, find_sub_from, lemma_find_at, lemma_find_at_shift, matches_at};
use crate::sshkey::{SshKeyData, SshPublicKey};
use crate::util::{strip_cr, strip_cr_exec};

verus! {

/// Why a metadata capability failed.
#[derive(Debug, PartialEq, Eq, Structural)]
pub enum MetadataError {
    /// An endpoint answered with a status that is neither success nor
    /// absence.
    Status { code: u16 },
    /// The transport exhausted its retry budget without any response.
    Transport,
    /// The provisioning handshake ended in a fatal protocol state.
    Handshake { error: crate::engine::ProtocolError },
    /// A public-keys index line has no separator.
    MalformedKeyList,
    /// An authorized-keys entry could not be parsed.
    KeyParse,
    /// The metadata document lacks a required field.
    MissingField,
}

/// How a capability reads one optional fetch: a success status yields the
/// body, absence (404) yields nothing — a valid, empty result — and every
/// other status is a propagated error.
pub fn interpret_optional_fetch(status: u16, body: String) -> (r: Result<Option<String>, MetadataError>)
    ensures
        status == 404 ==> r == Ok::<Option<String>, MetadataError>(None),
        200 <= status < 300 ==> r == Ok::<Option<String>, MetadataError>(Some(body)),
        !(status == 404 || 200 <= status < 300) ==> r == Err::<Option<String>, MetadataError>(
            MetadataError::Status { code: status },
        ),
{
    if status == 404 {
        Ok(None)
    } else if 200 <= status && status < 300 {
        Ok(Some(body))
    } else {
        Err(MetadataError::Status { code: status })
    }
}

/// Index of one line of the public-keys listing: what stands before the
/// first `=`, if the line has one.
pub open spec fn index_of_line(line: Seq<char>) -> Option<Seq<char>> {
    match find_at(line, seq!['='], 0) {
        Some(i) => Some(line.subrange(0, i)),
        None => None,
    }
}

/// The key indexes of a public-keys listing: one per non-empty
/// `index=name` line, or nothing when some non-empty line has no `=`.
pub open spec fn key_indexes_spec(s: Seq<char>) -> Option<Seq<Seq<char>>>
    decreases s.len(),
{
    if s.len() == 0 {
        Some(Seq::empty())
    } else {
        match find_at(s, seq!['\n'], 0) {
            Some(j) => {
                if 0 <= j < s.len() {
                    let line = strip_cr(s.subrange(0, j));
                    let rest = key_indexes_spec(s.subrange(j + 1, s.len() as int));
                    if line.len() == 0 {
                        rest
                    } else {
                        match (index_of_line(line), rest) {
                            (Some(ix), Some(rs)) => Some(seq![ix] + rs),
                            _ => None,
                        }
                    }
                } else {
                    None
                }
            },
            None => {
                let line = strip_cr(s);
                if line.len() == 0 {
                    Some(Seq::empty())
                } else {
                    match index_of_line(line) {
                        Some(ix) => Some(seq![ix]),
                        None => None,
                    }
                }
            },
        }
    }
}

/// Reads a public-keys listing of `index=name` lines into the list of
/// indexes, in order; a non-empty line without `=` makes the listing
/// malformed.
pub fn parse_public_keys_index(body: &str) -> (r: Result<Vec<String>, MetadataError>)
    ensures
        match r {
            Ok(v) => {
                &&& key_indexes_spec(body@) matches Some(ix)
                &&& key_indexes_spec(body@) matches Some(ix) ==> v@.len() == ix.len() && (forall|
                    k: int,
                |
                    0 <= k < v@.len() ==> v@[k]@ == ix[k])
            },
            Err(e) => key_indexes_spec(body@) is None && e == MetadataError::MalformedKeyList,
        },
{
    let n = body.unicode_len();
    let mut v: Vec<String> = Vec::new();
    let mut p: usize = 0;
    proof {
        assert(body@.subrange(0, n as int) =~= body@);
        assert(v@.map_values(|x: String| x@) =~= Seq::<Seq<char>>::empty());
    }
    while p < n
        invariant
            p <= n,
            n == body@.len(),
            key_indexes_spec(body@) == (match key_indexes_spec(
                body@.subrange(p as int, n as int),
            ) {
                Some(rs) => Some(v@.map_values(|x: String| x@) + rs),
                None => None::<Seq<Seq<char>>>,
            }),
        decreases n - p,
    {
        let ghost suf = body@.subrange(p as int, n as int);
        let ghost old_v = v@;
        match find_char(body, '\n', p) {
            Some(j) => {
                proof {
                    lemma_find_at(body@, seq!['\n'], p as int);
                    assert(matches_at(body@, seq!['\n'], j as int));
                    lemma_find_at_shift(body@, seq!['\n'], p as int, 0);
                    assert(body@.subrange(p as int, j as int) =~= suf.subrange(0, j - p));
                    assert(suf.subrange(j - p + 1, suf.len() as int) =~= body@.subrange(
                        j + 1,
                        n as int,
                    ));
                }
                let line = strip_cr_exec(body.substring_char(p, j));
                if line.as_str().unicode_len() == 0 {
                    p = j + 1;
                } else {
                    match find_char(line.as_str(), '=', 0) {
                        Some(i) => {
                            proof {
                                lemma_find_at(line@, seq!['='], 0);
                                assert(matches_at(line@, seq!['='], i as int));
                            }
                            let ix = line.as_str().substring_char(0, i).to_owned();
                            let ghost gix = ix@;
                            v.push(ix);
                            proof {
                                assert(v@.map_values(|x: String| x@) =~= old_v.map_values(
                                    |x: String| x@,
                                ) + seq![gix]);
                                match key_indexes_spec(body@.subrange(j + 1, n as int)) {
                                    Some(rs) => {
                                        assert(key_indexes_spec(suf) == Some(seq![gix] + rs));
                                        assert(old_v.map_values(|x: String| x@) + (seq![gix] + rs)
                                            =~= v@.map_values(|x: String| x@) + rs);
                                    },
                                    None => {},
                                }
                            }
                            p = j + 1;
                        },
                        None => {
                            proof {
                                lemma_find_at(line@, seq!['='], 0);
                                assert(key_indexes_spec(suf) is None);
                            }
                            return Err(MetadataError::MalformedKeyList);
                        },
                    }
                }
            },
            None => {
                proof {
                    lemma_find_at_shift(body@, seq!['\n'], p as int, 0);
                }
                let line = strip_cr_exec(body.substring_char(p, n));
                if line.as_str().unicode_len() == 0 {
                    proof {
                        assert(key_indexes_spec(suf) == Some(Seq::<Seq<char>>::empty()));
                        assert(body@.subrange(n as int, n as int) =~= Seq::<char>::empty());
                        assert(v@.map_values(|x: String| x@) + Seq::<Seq<char>>::empty()
                            =~= v@.map_values(|x: String| x@));
                    }
                    p = n;
                } else {
                    match find_char(line.as_str(), '=', 0) {
                        Some(i) => {
                            proof {
                                lemma_find_at(line@, seq!['='], 0);
                                assert(matches_at(line@, seq!['='], i as int));
                            }
                            let ix = line.as_str().substring_char(0, i).to_owned();
                            let ghost gix = ix@;
                            v.push(ix);
                            proof {
                                assert(key_indexes_spec(suf) == Some(seq![gix]));
                                assert(v@.map_values(|x: String| x@) =~= old_v.map_values(
                                    |x: String| x@,
                                ) + seq![gix]);
                                assert(body@.subrange(n as int, n as int)
                                    =~= Seq::<char>::empty());
                                assert(old_v.map_values(|x: String| x@) + seq![gix]
                                    =~= v@.map_values(|x: String| x@) + Seq::<Seq<char>>::empty());
                            }
                            p = n;
                        },
                        None => {
                            proof {
                                lemma_find_at(line@, seq!['='], 0);
                                assert(key_indexes_spec(suf) is None);
                            }
                            return Err(MetadataError::MalformedKeyList);
                        },
                    }
                }
            },
        }
    }
    proof {
        assert(body@.subrange(n as int, n as int) =~= Seq::<char>::empty());
        assert(key_indexes_spec(Seq::<char>::empty()) == Some(Seq::<Seq<char>>::empty()));
        assert(v@.map_values(|x: String| x@) + Seq::<Seq<char>>::empty() =~= v@.map_values(
            |x: String| x@,
        ));
        match key_indexes_spec(body@) {
            Some(all) => {
                assert(all == v@.map_values(|x: String| x@));
                assert forall|k: int| 0 <= k < v@.len() implies v@[k]@ == all[k] by {
                    assert(all[k] == v@.map_values(|x: String| x@)[k]);
                }
            },
            None => {},
        }
    }
    Ok(v)
}

/// What parsing one authorized-keys entry yields; the result depends on the
/// entry's text alone.
pub uninterp spec fn authorized_key_of(s: Seq<char>) -> Result<SshPublicKey, MetadataError>;

/// Relies on `openssh_keys::PublicKey::parse`: reads one authorized-keys
/// entry — options, key data, comment — deterministically from its text.
/// The parser's options-splitting fallback counts characters but slices
/// bytes, and so can panic on multibyte text; ASCII input, which the
/// authorized-keys wire format is, stays out of that fallback's reach.
#[verifier::external_body]
fn parse_authorized_key(text: &str) -> (r: Result<SshPublicKey, MetadataError>)
    requires
        vstd::utf8::is_ascii_chars(text@),
    ensures
        r == authorized_key_of(text@),
{
    let key = match openssh_keys::PublicKey::parse(text) {
        Ok(k) => k,
        Err(_) => return Err(MetadataError::KeyParse),
    };
    let algorithm = key.keytype().to_string();
    let data = match key.data {
        openssh_keys::Data::Rsa { exponent, modulus } => SshKeyData::Rsa { exponent, modulus },
        _ => SshKeyData::Other { algorithm },
    };
    Ok(SshPublicKey { options: key.options, data, comment: key.comment })
}

/// Parses each fetched authorized-keys body into a key, keeping order. A
/// body that is not ASCII text is rejected as unparsable, although a
/// comment may legally hold other characters: the parser's options
/// fallback byte-slices at a character count and would panic on multibyte
/// text, and the key material itself is always ASCII. The first entry that
/// fails fails the whole capability.
pub fn parse_ssh_keys(bodies: &Vec<String>) -> (r: Result<Vec<SshPublicKey>, MetadataError>)
    ensures
        match r {
            Ok(keys) => keys@.len() == bodies@.len() && (forall|k: int|
                0 <= k < keys@.len() ==> vstd::utf8::is_ascii_chars(#[trigger] bodies@[k]@)) && (
            forall|k: int|
                0 <= k < keys@.len() ==> #[trigger] authorized_key_of(bodies@[k]@) == Ok::<
                    SshPublicKey,
                    MetadataError,
                >(keys@[k])),
            Err(e) => exists|k: int|
                0 <= k < bodies@.len() && ((!vstd::utf8::is_ascii_chars(bodies@[k]@) && e
                    == MetadataError::KeyParse) || (vstd::utf8::is_ascii_chars(bodies@[k]@)
                    && authorized_key_of(bodies@[k]@) == Err::<SshPublicKey, MetadataError>(e))),
        },
{
    let mut keys: Vec<SshPublicKey> = Vec::new();
    let mut i: usize = 0;
    while i < bodies.len()
        invariant
            0 <= i <= bodies@.len(),
            keys@.len() == i,
            forall|k: int| 0 <= k < i ==> vstd::utf8::is_ascii_chars(#[trigger] bodies@[k]@),
            forall|k: int|
                0 <= k < i ==> #[trigger] authorized_key_of(bodies@[k]@) == Ok::<
                    SshPublicKey,
                    MetadataError,
                >(keys@[k]),
        decreases bodies@.len() - i,
    {
        if !bodies[i].as_str().is_ascii() {
            return Err(MetadataError::KeyParse);
        }
        assert(vstd::utf8::is_ascii_chars(bodies@[i as int]@));
        match parse_authorized_key(bodies[i].as_str()) {
            Ok(key) => {
                let ghost gkey = key;
                keys.push(key);
                proof {
                    assert(keys@[i as int] == gkey);
                    assert(authorized_key_of(bodies@[i as int]@) == Ok::<
                        SshPublicKey,
                        MetadataError,
                    >(gkey));
                }
            },
            Err(e) => return Err(e),
        }
        i += 1;
    }
    Ok(keys)
}

/// JSON insignificant whitespace.
pub open spec fn is_json_ws(c: char) -> bool {
    c == ' ' || c == '\t' || c == '\n' || c == '\r'
}

/// Index of the last non-whitespace character before position `i`, or -1
/// when only whitespace (or nothing) stands there.
pub open spec fn prev_non_ws(doc: Seq<char>, i: int) -> int
    decreases i,
{
    if i <= 0 {
        -1
    } else if is_json_ws(doc[i - 1]) {
        prev_non_ws(doc, i - 1)
    } else {
        i - 1
    }
}

/// Whether an occurrence at `i` stands where a JSON object key does: the
/// last non-whitespace character before it opens the object or ends the
/// previous member.
pub open spec fn anchored_at(doc: Seq<char>, i: int) -> bool {
    let p = prev_non_ws(doc, i);
    p >= 0 && (doc[p] == '{' || doc[p] == ',')
}

/// Position of the first anchored occurrence of `qname` at or after
/// `from`.
pub open spec fn find_anchored(doc: Seq<char>, qname: Seq<char>, from: int) -> Option<int>
    decreases doc.len() - from,
{
    match find_at(doc, qname, from) {
        None => None,
        Some(i) => {
            if anchored_at(doc, i) {
                Some(i)
            } else if from <= i && i < doc.len() {
                find_anchored(doc, qname, i + 1)
            } else {
                None
            }
        },
    }
}

/// Index of the last non-whitespace character before position `i`.
fn prev_non_ws_exec(doc: &str, i: usize) -> (r: Option<usize>)
    requires
        i <= doc@.len(),
    ensures
        match r {
            Some(p) => p < i && prev_non_ws(doc@, i as int) == p as int,
            None => prev_non_ws(doc@, i as int) == -1,
        },
{
    let mut q = i;
    while q > 0
        invariant
            q <= i,
            i <= doc@.len(),
            prev_non_ws(doc@, i as int) == prev_non_ws(doc@, q as int),
        decreases q,
    {
        let c = doc.get_char(q - 1);
        if !(c == ' ' || c == '\t' || c == '\n' || c == '\r') {
            return Some(q - 1);
        }
        q -= 1;
    }
    None
}

/// Whether an occurrence at `at` stands where a JSON object key does.
fn anchored_exec(doc: &str, at: usize) -> (b: bool)
    requires
        at <= doc@.len(),
    ensures
        b == anchored_at(doc@, at as int),
{
    match prev_non_ws_exec(doc, at) {
        None => false,
        Some(p) => {
            let c = doc.get_char(p);
            c == '{' || c == ','
        },
    }
}

/// Position of the first anchored occurrence of `qname` at or after
/// `from`.
fn find_anchored_exec(doc: &str, qname: &str, from: usize) -> (r: Option<usize>)
    requires
        qname@.len() >= 1,
    ensures
        match r {
            Some(i) => find_anchored(doc@, qname@, from as int) == Some(i as int) && matches_at(
                doc@,
                qname@,
                i as int,
            ),
            None => find_anchored(doc@, qname@, from as int) is None,
        },
{
    let n = doc.unicode_len();
    let mut f = from;
    while f <= n
        invariant
            n == doc@.len(),
            qname@.len() >= 1,
            from <= f,
            find_anchored(doc@, qname@, from as int) == find_anchored(doc@, qname@, f as int),
        decreases n + 1 - f,
    {
        match find_sub_from(doc, qname, f) {
            None => {
                return None;
            },
            Some(i) => {
                proof {
                    lemma_find_at(doc@, qname@, f as int);
                    assert(matches_at(doc@, qname@, i as int));
                    assert(i as int + qname@.len() <= n as int);
                    assert(i < n);
                }
                if anchored_exec(doc, i) {
                    return Some(i);
                }
                f = i + 1;
            },
        }
    }
    proof {
        lemma_find_at(doc@, qname@, f as int);
        assert(find_at(doc@, qname@, f as int) is None);
    }
    None
}

/// Value of a string field of a flat JSON document: the text between the
/// quotes that follow the first anchored `"name"` key and its next colon.
/// Anchoring keeps an earlier string value that merely contains the quoted
/// name from being mistaken for the key. The value ends at the next quote,
/// so a value holding a backslash-escaped quote is read only up to it; the
/// identity and metadata documents this reads carry no escaped quotes.
pub open spec fn json_string_field_spec(doc: Seq<char>, name: Seq<char>) -> Option<Seq<char>> {
    let qname = seq!['"'] + name + seq!['"'];
    match find_anchored(doc, qname, 0) {
        None => None,
        Some(i) => match find_at(doc, seq![':'], i + qname.len()) {
            None => None,
            Some(c) => match find_at(doc, seq!['"'], c + 1) {
                None => None,
                Some(o) => match find_at(doc, seq!['"'], o + 1) {
                    None => None,
                    Some(e) => Some(doc.subrange(o + 1, e)),
                },
            },
        },
    }
}

/// Looks a string field up in a flat JSON document.
pub fn json_string_field(doc: &str, name: &str) -> (r: Option<String>)
    ensures
        match r {
            Some(v) => json_string_field_spec(doc@, name@) == Some(v@),
            None => json_string_field_spec(doc@, name@) is None,
        },
{
    let n = doc.unicode_len();
    let mut qname = String::from_str("\"");
    qname.append(name);
    qname.append("\"");
    proof {
        reveal_strlit("\"");
        assert(qname@ =~= seq!['"'] + name@ + seq!['"']);
    }
    let i = match find_anchored_exec(doc, qname.as_str(), 0) {
        None => {
            return None;
        },
        Some(i) => i,
    };
    let c = match find_char(doc, ':', i + qname.as_str().unicode_len()) {
        None => {
            return None;
        },
        Some(c) => c,
    };
    proof {
        lemma_find_at(doc@, seq![':'], i as int + qname@.len() as int);
        assert(matches_at(doc@, seq![':'], c as int));
    }
    let o = match find_char(doc, '"', c + 1) {
        None => {
            return None;
        },
        Some(o) => o,
    };
    proof {
        lemma_find_at(doc@, seq!['"'], c as int + 1);
        assert(matches_at(doc@, seq!['"'], o as int));
    }
    let e = match find_char(doc, '"', o + 1) {
        None => {
            return None;
        },
        Some(e) => e,
    };
    proof {
        lemma_find_at(doc@, seq!['"'], o as int + 1);
        assert(matches_at(doc@, seq!['"'], e as int));
    }
    Some(doc.substring_char(o + 1, e).to_owned())
}

/// The host name an identity document announces, read from its `vmName`
/// field.
pub fn parse_identity_hostname(body: &str) -> (r: Option<String>)
    ensures
        match r {
            Some(v) => json_string_field_spec(body@, "vmName"@) == Some(v@),
            None => json_string_field_spec(body@, "vmName"@) is None,
        },
{
    json_string_field(body, "vmName")
}

/// The attribute pairs of a metadata document: absent document (the
/// endpoint answered 404) means no attributes; a present document must
/// carry its instance identifier, published under the platform's attribute
/// name.
pub fn instance_attributes(meta: Option<&str>) -> (r: Result<Vec<(String, String)>, MetadataError>)
    ensures
        meta is None ==> (r matches Ok(v) && v@.len() == 0),
        match meta {
            Some(doc) => match json_string_field_spec(doc@, "uuid"@) {
                Some(u) => r matches Ok(v) && v@.len() == 1 && v@[0].1@ == u && v@[0].0@
                    == "OPENSTACK_INSTANCE_UUID"@,
                None => r == Err::<Vec<(String, String)>, MetadataError>(
                    MetadataError::MissingField,
                ),
            },
            None => true,
        },
{
    match meta {
        None => Ok(Vec::new()),
        Some(doc) => match json_string_field(doc, "uuid") {
            Some(u) => {
                let mut v: Vec<(String, String)> = Vec::new();
                v.push((String::from_str("OPENSTACK_INSTANCE_UUID"), u));
                Ok(v)
            },
            None => Err(MetadataError::MissingField),
        },
    }
}

/// The capability interface every platform provider offers. The handshake
/// provider of this crate is one implementation; simpler REST providers
/// implement the same four capabilities over their own transport shape.
pub trait MetadataProvider {
    /// Runs the full provisioning handshake to completion.
    fn boot_checkin(&self) -> Result<(), MetadataError>;

    /// The instance's host name, when the platform publishes one.
    fn hostname(&self) -> Result<Option<String>, MetadataError>;

    /// The instance's SSH public keys; an absent endpoint is an empty list.
    fn ssh_keys(&self) -> Result<Vec<SshPublicKey>, MetadataError>;

    /// The instance's attribute pairs; an absent document is an empty list.
    fn attributes(&self) -> Result<Vec<(String, String)>, MetadataError>;
}

} // verus!
