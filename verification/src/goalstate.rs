//! The platform's goal-state document.
//!
//! Each provisioning cycle fetches one goal-state document: XML carrying the
//! protocol version, the configuration incarnation that every health report
//! must echo back verbatim, and, when encrypted secrets are pending, the URL
//! of the secrets-retrieval endpoint. A document without the secrets element
//! is a valid goal state meaning no secrets are pending; a document without
//! an incarnation, or with one that is not a decimal number, is malformed.

use vstd::prelude::*;

use crate::num::{parse_u64, parse_u64_spec};
use crate::xml::{element_text, element_text_spec, unescape_spec, unescape_xml};

verus! {

/// One platform-issued configuration revision, as the agent reads it.
/// Constructed fresh from each parsed document and never mutated.
pub struct GoalState {
    /// Protocol version the document declares.
    pub protocol_version: String,
    /// Configuration revision counter, echoed back in the health report.
    pub incarnation: u64,
    /// Secrets-retrieval URL; `None` exactly when the document has no
    /// secrets element, which means no encrypted secrets are pending.
    pub certs_endpoint: Option<String>,
}

/// Why a goal-state document was rejected.
#[derive(Debug, PartialEq, Eq, Structural)]
pub enum ParseError {
    /// The document has no incarnation element.
    MissingIncarnation,
    /// The incarnation element is not decimal text that fits in a `u64`.
    BadIncarnation,
    /// The document has no version element.
    MissingVersion,
}

pub open spec fn version_tag() -> Seq<char> {
    seq!['V', 'e', 'r', 's', 'i', 'o', 'n']
}

pub open spec fn incarnation_tag() -> Seq<char> {
    seq!['I', 'n', 'c', 'a', 'r', 'n', 'a', 't', 'i', 'o', 'n']
}

pub open spec fn certificates_tag() -> Seq<char> {
    seq!['C', 'e', 'r', 't', 'i', 'f', 'i', 'c', 'a', 't', 'e', 's']
}

/// What parsing a goal-state document yields: protocol version, incarnation
/// and optional secrets endpoint (entities decoded), or the first error in
/// the order incarnation-missing, incarnation-malformed, version-missing.
pub open spec fn parse_goal_state_spec(doc: Seq<char>) -> Result<
    (Seq<char>, u64, Option<Seq<char>>),
    ParseError,
> {
    match element_text_spec(doc, incarnation_tag()) {
        None => Err(ParseError::MissingIncarnation),
        Some(itext) => match parse_u64_spec(itext) {
            None => Err(ParseError::BadIncarnation),
            Some(inc) => match element_text_spec(doc, version_tag()) {
                None => Err(ParseError::MissingVersion),
                Some(ver) => Ok(
                    (
                        ver,
                        inc,
                        match element_text_spec(doc, certificates_tag()) {
                            None => None,
                            Some(c) => Some(unescape_spec(c)),
                        },
                    ),
                ),
            },
        },
    }
}

/// Decodes a goal-state document into a `GoalState`: the incarnation must be
/// present and decimal, the version present; the secrets endpoint is taken
/// when its element is present and its absence is success with
/// `certs_endpoint` `None`, all other content untouched.
pub fn parse_goal_state(doc: &str) -> (r: Result<GoalState, ParseError>)
    ensures
        ({
            let m = parse_goal_state_spec(doc@);
            match r {
                Ok(gs) => {
                    &&& m matches Ok(f)
                    &&& m matches Ok(f) ==> {
                        &&& f.0 == gs.protocol_version@
                        &&& f.1 == gs.incarnation
                        &&& match gs.certs_endpoint {
                            Some(u) => f.2 == Some(u@),
                            None => f.2 is None,
                        }
                    }
                },
                Err(e) => m == Err::<(Seq<char>, u64, Option<Seq<char>>), ParseError>(e),
            }
        }),
{
    proof {
        reveal_strlit("Incarnation");
        reveal_strlit("Version");
        reveal_strlit("Certificates");
        assert("Incarnation"@ =~= incarnation_tag());
        assert("Version"@ =~= version_tag());
        assert("Certificates"@ =~= certificates_tag());
    }
    let itext = match element_text(doc, "Incarnation") {
        None => {
            return Err(ParseError::MissingIncarnation);
        },
        Some(t) => t,
    };
    let incarnation = match parse_u64(itext.as_str()) {
        None => {
            return Err(ParseError::BadIncarnation);
        },
        Some(v) => v,
    };
    let protocol_version = match element_text(doc, "Version") {
        None => {
            return Err(ParseError::MissingVersion);
        },
        Some(t) => t,
    };
    let certs_endpoint = match element_text(doc, "Certificates") {
        None => None,
        Some(c) => Some(unescape_xml(c.as_str())),
    };
    Ok(GoalState { protocol_version, incarnation, certs_endpoint })
}

impl GoalState {
    /// The configuration revision this goal state carries.
    pub fn incarnation(&self) -> (r: u64)
        ensures
            r == self.incarnation,
    {
        self.incarnation
    }

    /// The secrets-retrieval URL, when the platform left secrets pending.
    pub fn certs_endpoint(&self) -> (r: Option<String>)
        ensures
            r == self.certs_endpoint,
    {
        match &self.certs_endpoint {
            Some(u) => Some(u.clone()),
            None => None,
        }
    }

    /// The protocol version the document declared.
    pub fn protocol_version(&self) -> (r: &String)
        ensures
            r == self.protocol_version,
    {
        &self.protocol_version
    }
}

} // verus!
