//! The provisioning handshake, as an explicit state machine.
//!
//! One engine instance drives one boot check-in: discover the protocol
//! versions the platform supports, pick the one the agent speaks, fetch and
//! parse the goal state, unwrap the encrypted credential when one is
//! pending, and report readiness with the goal state's incarnation echoed
//! verbatim. The machine is a pure transition function from state and event
//! to next state and requested action; the caller performs each action
//! (network or cryptography) and feeds the outcome back in as the next
//! event. Every step is sequential: each state's output is an input of the
//! next.

use vstd::prelude::*;

use crate::goalstate::{parse_goal_state, parse_goal_state_spec, GoalState, ParseError};
use crate::num::{dec_str, u64_to_string};
use crate::scan::{contains_sub, matches_at, str_eq};
use crate::sshkey::SshPublicKey;
use crate::xml::{element_text, element_text_spec, elements_text, elements_text_spec};

verus! {

/// Why a handshake ended without a completed check-in.
#[derive(Debug, PartialEq, Eq, Structural)]
pub enum ProtocolError {
    /// The platform supports no protocol version the agent speaks.
    NoCommonVersion,
    /// The goal-state document was rejected by the parser.
    BadGoalState { error: ParseError },
    /// The transport exhausted its retry budget.
    TransportExhausted,
    /// Credential generation, decryption, or container parsing failed.
    CryptoFailed,
    /// An event arrived that the current state cannot consume.
    UnexpectedEvent,
}

/// Where one handshake stands.
pub enum EngineState {
    /// Nothing has happened yet; the version discovery request is owed.
    Start,
    /// A mutually supported protocol version was picked.
    VersionNegotiated { version: String },
    /// The goal state announced a secrets endpoint; the credential fetch
    /// and unwrap are in flight.
    CertsPending { version: String, goal: GoalState },
    /// All inputs of the health report are at hand.
    ReadyToReport { version: String, incarnation: u64, key: Option<SshPublicKey> },
    /// The platform accepted the health report.
    Done { key: Option<SshPublicKey> },
    /// Terminal failure; nothing further is attempted.
    Fatal { error: ProtocolError },
}

/// What the engine asks its driver to do next.
pub enum Action {
    /// Request the version-discovery document.
    FetchVersions,
    /// Request the goal state, advertising `version`.
    FetchGoalState { version: String },
    /// Generate a fresh ephemeral credential, advertise its stripped
    /// certificate, request `endpoint`, decrypt the envelope and extract
    /// the key.
    FetchCertificates { endpoint: String, version: String },
    /// Submit the health report `body` under `version`.
    PostHealth { version: String, body: String },
    /// Terminal state: nothing further to do.
    Halt,
}

/// What the driver reports back after performing an action.
pub enum Event {
    /// The transport delivered a successful response.
    Response { body: String },
    /// The transport gave up after exhausting its retry budget.
    TransportFailed,
    /// The certificate step finished: a key was extracted, or the platform
    /// legitimately has none.
    CertificatesReady { key: Option<SshPublicKey> },
    /// The certificate step failed; such failures are never retried.
    CryptoFailed,
}

/// The one protocol version this agent speaks.
pub open spec fn agent_version() -> Seq<char> {
    seq!['2', '0', '1', '2', '-', '1', '1', '-', '3', '0']
}

/// The element that carries the platform's supported versions; entries
/// elsewhere in the discovery document (a preferred block, say) do not
/// count as supported.
pub open spec fn supported_tag() -> Seq<char> {
    seq!['S', 'u', 'p', 'p', 'o', 'r', 't', 'e', 'd']
}

/// Version negotiation: the agent's version must be among the versions the
/// document's supported block lists; the choice is then that version. (The
/// agent knows a single version, so the highest mutually supported one is
/// that version whenever any overlap exists.)
pub open spec fn negotiate_version_spec(doc: Seq<char>) -> Option<Seq<char>> {
    match element_text_spec(doc, supported_tag()) {
        None => None,
        Some(block) => {
            if elements_text_spec(block, crate::goalstate::version_tag()).contains(
                agent_version(),
            ) {
                Some(agent_version())
            } else {
                None
            }
        },
    }
}

/// Picks the protocol version to speak from a version-discovery document:
/// the agent's own version when the document's supported block lists it,
/// and `NoCommonVersion` otherwise.
pub fn negotiate_version(doc: &str) -> (r: Result<String, ProtocolError>)
    ensures
        match r {
            Ok(v) => negotiate_version_spec(doc@) == Some(v@),
            Err(e) => negotiate_version_spec(doc@) is None && e == ProtocolError::NoCommonVersion,
        },
{
    proof {
        reveal_strlit("2012-11-30");
        assert("2012-11-30"@ =~= agent_version());
        reveal_strlit("Supported");
        assert("Supported"@ =~= supported_tag());
    }
    let block = match element_text(doc, "Supported") {
        None => {
            return Err(ProtocolError::NoCommonVersion);
        },
        Some(b) => b,
    };
    let supported = elements_text(block.as_str(), "Version");
    proof {
        reveal_strlit("Version");
        assert("Version"@ =~= crate::goalstate::version_tag());
    }
    let ghost selems = elements_text_spec(block@, crate::goalstate::version_tag());
    let mut k: usize = 0;
    while k < supported.len()
        invariant
            0 <= k <= supported.len(),
            element_text_spec(doc@, supported_tag()) == Some(block@),
            selems == elements_text_spec(block@, crate::goalstate::version_tag()),
            supported@.len() == selems.len(),
            forall|j: int| 0 <= j < supported@.len() ==> supported@[j]@ == selems[j],
            forall|j: int| 0 <= j < k ==> selems[j] != agent_version(),
        decreases supported.len() - k,
    {
        proof {
            reveal_strlit("2012-11-30");
            assert("2012-11-30"@ =~= agent_version());
        }
        if str_eq(supported[k].as_str(), "2012-11-30") {
            assert(selems[k as int] == agent_version());
            assert(selems.contains(agent_version()));
            return Ok(String::from_str("2012-11-30"));
        }
        k += 1;
    }
    proof {
        if selems.contains(agent_version()) {
            let w = choose|w: int| 0 <= w < selems.len() && selems[w] == agent_version();
            assert(selems[w] != agent_version());
        }
    }
    Err(ProtocolError::NoCommonVersion)
}

/// Opening of the health report, up to the echoed incarnation.
pub open spec fn health_head() -> Seq<char> {
    "<?xml version=\"1.0\" encoding=\"utf-8\"?><Health>"@
}

/// The incarnation echo element: the goal state's incarnation, verbatim.
pub open spec fn incarnation_echo(incarnation: u64) -> Seq<char> {
    "<GoalStateIncarnation>"@ + dec_str(incarnation as nat) + "</GoalStateIncarnation>"@
}

/// The status marker every health report carries.
pub open spec fn ready_marker() -> Seq<char> {
    "<State>Ready</State>"@
}

/// Closing of the health report, after the status marker.
pub open spec fn health_tail() -> Seq<char> {
    "</Health>"@
}

/// The full health-report body for one incarnation.
pub open spec fn health_body_spec(incarnation: u64) -> Seq<char> {
    health_head() + incarnation_echo(incarnation) + ready_marker() + health_tail()
}

/// Builds the health-report body: a ready status and the incarnation echoed
/// verbatim.
pub fn build_health_report(incarnation: u64) -> (r: String)
    ensures
        r@ == health_body_spec(incarnation),
{
    let mut s = String::from_str("<?xml version=\"1.0\" encoding=\"utf-8\"?><Health>");
    s.append("<GoalStateIncarnation>");
    s.append(u64_to_string(incarnation).as_str());
    s.append("</GoalStateIncarnation>");
    s.append("<State>Ready</State>");
    s.append("</Health>");
    assert(s@ =~= health_body_spec(incarnation));
    s
}

/// Every health report carries the ready marker and echoes its incarnation:
/// both stand in the body at known positions.
pub proof fn lemma_health_report_markers(incarnation: u64)
    ensures
        contains_sub(health_body_spec(incarnation), ready_marker()),
        contains_sub(health_body_spec(incarnation), incarnation_echo(incarnation)),
{
    let body = health_body_spec(incarnation);
    let ri = health_head().len() + incarnation_echo(incarnation).len();
    assert(matches_at(body, ready_marker(), ri as int)) by {
        assert(forall|j: int|
            0 <= j < ready_marker().len() ==> body[ri + j] == ready_marker()[j]);
    }
    let ei = health_head().len();
    assert(matches_at(body, incarnation_echo(incarnation), ei as int)) by {
        assert(forall|j: int|
            0 <= j < incarnation_echo(incarnation).len() ==> body[ei + j] == incarnation_echo(
                incarnation,
            )[j]);
    }
}

/// The transition relation of the handshake, relating a state and an event
/// to the next state and the action owed. Text fields of the outcome are
/// pinned by their character sequences.
pub open spec fn step_rel(state: EngineState, event: Event, next: EngineState, action: Action) -> bool {
    match state {
        EngineState::Start => match event {
            Event::Response { body } => match negotiate_version_spec(body@) {
                Some(v) => {
                    &&& next matches EngineState::VersionNegotiated { version } && version@ == v
                    &&& action matches Action::FetchGoalState { version } && version@ == v
                },
                None => {
                    &&& next == (EngineState::Fatal { error: ProtocolError::NoCommonVersion })
                    &&& action is Halt
                },
            },
            Event::TransportFailed => {
                &&& next == (EngineState::Fatal { error: ProtocolError::TransportExhausted })
                &&& action is Halt
            },
            _ => {
                &&& next == (EngineState::Fatal { error: ProtocolError::UnexpectedEvent })
                &&& action is Halt
            },
        },
        EngineState::VersionNegotiated { version: v } => match event {
            Event::Response { body } => match parse_goal_state_spec(body@) {
                Err(e) => {
                    &&& next == (EngineState::Fatal { error: ProtocolError::BadGoalState { error: e } })
                    &&& action is Halt
                },
                Ok(f) => match f.2 {
                    Some(url) => {
                        &&& next matches EngineState::CertsPending { version, goal } && version
                            == v && goal.protocol_version@ == f.0 && goal.incarnation == f.1 && (
                        goal.certs_endpoint matches Some(u) && u@ == url)
                        &&& action matches Action::FetchCertificates { endpoint, version }
                            && endpoint@ == url && version == v
                    },
                    None => {
                        &&& next matches EngineState::ReadyToReport { version, incarnation, key }
                            && version == v && incarnation == f.1 && key is None
                        &&& action matches Action::PostHealth { version, body } && version == v
                            && body@ == health_body_spec(f.1)
                    },
                },
            },
            Event::TransportFailed => {
                &&& next == (EngineState::Fatal { error: ProtocolError::TransportExhausted })
                &&& action is Halt
            },
            _ => {
                &&& next == (EngineState::Fatal { error: ProtocolError::UnexpectedEvent })
                &&& action is Halt
            },
        },
        EngineState::CertsPending { version: v, goal } => match event {
            Event::CertificatesReady { key } => {
                &&& next matches EngineState::ReadyToReport { version, incarnation, key: k }
                    && version == v && incarnation == goal.incarnation && k == key
                &&& action matches Action::PostHealth { version, body } && version == v && body@
                    == health_body_spec(goal.incarnation)
            },
            Event::CryptoFailed => {
                &&& next == (EngineState::Fatal { error: ProtocolError::CryptoFailed })
                &&& action is Halt
            },
            Event::TransportFailed => {
                &&& next == (EngineState::Fatal { error: ProtocolError::TransportExhausted })
                &&& action is Halt
            },
            _ => {
                &&& next == (EngineState::Fatal { error: ProtocolError::UnexpectedEvent })
                &&& action is Halt
            },
        },
        EngineState::ReadyToReport { version: v, incarnation, key } => match event {
            Event::Response { body } => {
                &&& next == (EngineState::Done { key })
                &&& action is Halt
            },
            Event::TransportFailed => {
                &&& next == (EngineState::Fatal { error: ProtocolError::TransportExhausted })
                &&& action is Halt
            },
            _ => {
                &&& next == (EngineState::Fatal { error: ProtocolError::UnexpectedEvent })
                &&& action is Halt
            },
        },
        EngineState::Done { key } => {
            &&& next == (EngineState::Done { key })
            &&& action is Halt
        },
        EngineState::Fatal { error } => {
            &&& next == (EngineState::Fatal { error })
            &&& action is Halt
        },
    }
}

/// A handshake whose goal state announces a secrets endpoint: after the
/// version response, the goal-state response, and the certificate step, the
/// engine has asked for exactly the goal state, the certificates (at the
/// parsed endpoint), and the health post — whose body is the full report
/// for the goal state's incarnation, ready marker and echo included.
pub proof fn lemma_handshake_with_certs(
    vbody: String,
    gbody: String,
    key: Option<SshPublicKey>,
    s1: EngineState,
    a1: Action,
    s2: EngineState,
    a2: Action,
    s3: EngineState,
    a3: Action,
)
    requires
        negotiate_version_spec(vbody@) is Some,
        parse_goal_state_spec(gbody@) matches Ok(f) && f.2 is Some,
        step_rel(EngineState::Start, Event::Response { body: vbody }, s1, a1),
        step_rel(s1, Event::Response { body: gbody }, s2, a2),
        step_rel(s2, Event::CertificatesReady { key }, s3, a3),
    ensures
        a1 is FetchGoalState,
        a2 is FetchCertificates,
        s3 is ReadyToReport,
        parse_goal_state_spec(gbody@) matches Ok(f) ==> {
            &&& a2 matches Action::FetchCertificates { endpoint, .. } && f.2 == Some(endpoint@)
            &&& a3 matches Action::PostHealth { body, .. } && body@ == health_body_spec(f.1)
                && contains_sub(body@, ready_marker()) && contains_sub(
                body@,
                incarnation_echo(f.1),
            )
        },
{
    match parse_goal_state_spec(gbody@) {
        Ok(f) => {
            lemma_health_report_markers(f.1);
        },
        Err(_) => {},
    }
}

/// A handshake whose goal state has no secrets element: the run completes
/// through goal-state fetch, health post, and the platform's answer alone —
/// ending in the completed state — and no certificate fetch is ever
/// requested at any step.
pub proof fn lemma_handshake_without_certs(
    vbody: String,
    gbody: String,
    hbody: String,
    s1: EngineState,
    a1: Action,
    s2: EngineState,
    a2: Action,
    s3: EngineState,
    a3: Action,
)
    requires
        negotiate_version_spec(vbody@) is Some,
        parse_goal_state_spec(gbody@) matches Ok(f) && f.2 is None,
        step_rel(EngineState::Start, Event::Response { body: vbody }, s1, a1),
        step_rel(s1, Event::Response { body: gbody }, s2, a2),
        step_rel(s2, Event::Response { body: hbody }, s3, a3),
    ensures
        a1 is FetchGoalState,
        s2 is ReadyToReport,
        s3 is Done,
        a3 is Halt,
        !(a1 is FetchCertificates),
        !(a2 is FetchCertificates),
        !(a3 is FetchCertificates),
        parse_goal_state_spec(gbody@) matches Ok(f) ==> a2 matches Action::PostHealth {
            body,
            ..
        } && body@ == health_body_spec(f.1),
{
}

/// A fresh engine: nothing negotiated, version discovery owed first.
pub fn start() -> (r: (EngineState, Action))
    ensures
        r.0 is Start,
        r.1 is FetchVersions,
{
    (EngineState::Start, Action::FetchVersions)
}

/// One transition of the handshake. Consumes the current state and the
/// event the driver observed; yields the next state and the action owed.
pub fn step(state: EngineState, event: Event) -> (r: (EngineState, Action))
    ensures
        step_rel(state, event, r.0, r.1),
{
    match state {
        EngineState::Start => match event {
            Event::Response { body } => match negotiate_version(body.as_str()) {
                Ok(version) => {
                    let action_version = version.clone();
                    (
                        EngineState::VersionNegotiated { version },
                        Action::FetchGoalState { version: action_version },
                    )
                },
                Err(error) => (EngineState::Fatal { error }, Action::Halt),
            },
            Event::TransportFailed => (
                EngineState::Fatal { error: ProtocolError::TransportExhausted },
                Action::Halt,
            ),
            _ => (EngineState::Fatal { error: ProtocolError::UnexpectedEvent }, Action::Halt),
        },
        EngineState::VersionNegotiated { version } => match event {
            Event::Response { body } => match parse_goal_state(body.as_str()) {
                Err(error) => (
                    EngineState::Fatal { error: ProtocolError::BadGoalState { error } },
                    Action::Halt,
                ),
                Ok(goal) => match goal.certs_endpoint() {
                    Some(endpoint) => {
                        let action_version = version.clone();
                        (
                            EngineState::CertsPending { version, goal },
                            Action::FetchCertificates { endpoint, version: action_version },
                        )
                    },
                    None => {
                        let body = build_health_report(goal.incarnation());
                        let action_version = version.clone();
                        (
                            EngineState::ReadyToReport {
                                version,
                                incarnation: goal.incarnation,
                                key: None,
                            },
                            Action::PostHealth { version: action_version, body },
                        )
                    },
                },
            },
            Event::TransportFailed => (
                EngineState::Fatal { error: ProtocolError::TransportExhausted },
                Action::Halt,
            ),
            _ => (EngineState::Fatal { error: ProtocolError::UnexpectedEvent }, Action::Halt),
        },
        EngineState::CertsPending { version, goal } => match event {
            Event::CertificatesReady { key } => {
                let body = build_health_report(goal.incarnation());
                let action_version = version.clone();
                (
                    EngineState::ReadyToReport { version, incarnation: goal.incarnation, key },
                    Action::PostHealth { version: action_version, body },
                )
            },
            Event::CryptoFailed => (
                EngineState::Fatal { error: ProtocolError::CryptoFailed },
                Action::Halt,
            ),
            Event::TransportFailed => (
                EngineState::Fatal { error: ProtocolError::TransportExhausted },
                Action::Halt,
            ),
            _ => (EngineState::Fatal { error: ProtocolError::UnexpectedEvent }, Action::Halt),
        },
        EngineState::ReadyToReport { version, incarnation, key } => match event {
            Event::Response { body: _ } => (EngineState::Done { key }, Action::Halt),
            Event::TransportFailed => (
                EngineState::Fatal { error: ProtocolError::TransportExhausted },
                Action::Halt,
            ),
            _ => (EngineState::Fatal { error: ProtocolError::UnexpectedEvent }, Action::Halt),
        },
        EngineState::Done { key } => (EngineState::Done { key }, Action::Halt),
        EngineState::Fatal { error } => (EngineState::Fatal { error }, Action::Halt),
    }
}

} // verus!
