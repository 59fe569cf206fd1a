//! The handshake driven end to end against recorded platform documents.

use bootagent::engine::{self, Action, EngineState, Event};
use bootagent::engine::ProtocolError;
use bootagent::sshkey::{SshKeyData, SshPublicKey};
use bootagent::retry::{RetryPolicy, RetryStep};

/// Response body for goalstate (with certificates endpoint).
static GOALSTATE_BODY: &str = r#"<?xml version="1.0" encoding="utf-8"?>
<GoalState xmlns:xsi="http://www.w3.org/2001/XMLSchema-instance" xsi:noNamespaceSchemaLocation="goalstate10.xsd">
  <Version>2012-11-30</Version>
  <Incarnation>42</Incarnation>
  <Machine>
    <ExpectedState>Started</ExpectedState>
    <StopRolesDeadlineHint>300000</StopRolesDeadlineHint>
    <LBProbePorts>
      <Port>16001</Port>
    </LBProbePorts>
    <ExpectHealthReport>FALSE</ExpectHealthReport>
  </Machine>
  <Container>
    <ContainerId>a511aa6d-29e7-4f53-8788-55655dfe848f</ContainerId>
    <RoleInstanceList>
      <RoleInstance>
        <InstanceId>f6cd1d7ef1644557b9059345e5ba890c.lars-test-1</InstanceId>
        <State>Started</State>
        <Configuration>
          <HostingEnvironmentConfig>http://100.115.176.3:80/machine/a511aa6d-29e7-4f53-8788-55655dfe848f/f6cd1d7ef1644557b9059345e5ba890c.lars%2Dtest%2D1?comp=config&amp;type=hostingEnvironmentConfig&amp;incarnation=1</HostingEnvironmentConfig>
          <SharedConfig>http://100.115.176.3:80/machine/a511aa6d-29e7-4f53-8788-55655dfe848f/f6cd1d7ef1644557b9059345e5ba890c.lars%2Dtest%2D1?comp=config&amp;type=sharedConfig&amp;incarnation=1</SharedConfig>
          <ExtensionsConfig>http://100.115.176.3:80/machine/a511aa6d-29e7-4f53-8788-55655dfe848f/f6cd1d7ef1644557b9059345e5ba890c.lars%2Dtest%2D1?comp=config&amp;type=extensionsConfig&amp;incarnation=1</ExtensionsConfig>
          <FullConfig>http://100.115.176.3:80/machine/a511aa6d-29e7-4f53-8788-55655dfe848f/f6cd1d7ef1644557b9059345e5ba890c.lars%2Dtest%2D1?comp=config&amp;type=fullConfig&amp;incarnation=1</FullConfig>
          <Certificates>http://100.115.176.3:80/machine/a511aa6d-29e7-4f53-8788-55655dfe848f/f6cd1d7ef1644557b9059345e5ba890c.lars%2Dtest%2D1?comp=certificates&amp;incarnation=1</Certificates>
          <ConfigName>f6cd1d7ef1644557b9059345e5ba890c.0.f6cd1d7ef1644557b9059345e5ba890c.0.lars-test-1.1.xml</ConfigName>
        </Configuration>
      </RoleInstance>
    </RoleInstanceList>
  </Container>
</GoalState>
"#;

/// Response body for goalstate (without certificates endpoint).
static GOALSTATE_BODY_NO_CERTS: &str = r#"<?xml version="1.0" encoding="utf-8"?>
<GoalState xmlns:xsi="http://www.w3.org/2001/XMLSchema-instance" xsi:noNamespaceSchemaLocation="goalstate10.xsd">
  <Version>2012-11-30</Version>
  <Incarnation>42</Incarnation>
  <Machine>
    <ExpectedState>Started</ExpectedState>
    <StopRolesDeadlineHint>300000</StopRolesDeadlineHint>
    <LBProbePorts>
      <Port>16001</Port>
    </LBProbePorts>
    <ExpectHealthReport>FALSE</ExpectHealthReport>
  </Machine>
  <Container>
    <ContainerId>a511aa6d-29e7-4f53-8788-55655dfe848f</ContainerId>
    <RoleInstanceList>
      <RoleInstance>
        <InstanceId>f6cd1d7ef1644557b9059345e5ba890c.lars-test-1</InstanceId>
        <State>Started</State>
        <Configuration>
          <HostingEnvironmentConfig>http://100.115.176.3:80/machine/a511aa6d-29e7-4f53-8788-55655dfe848f/f6cd1d7ef1644557b9059345e5ba890c.lars%2Dtest%2D1?comp=config&amp;type=hostingEnvironmentConfig&amp;incarnation=1</HostingEnvironmentConfig>
          <SharedConfig>http://100.115.176.3:80/machine/a511aa6d-29e7-4f53-8788-55655dfe848f/f6cd1d7ef1644557b9059345e5ba890c.lars%2Dtest%2D1?comp=config&amp;type=sharedConfig&amp;incarnation=1</SharedConfig>
          <ExtensionsConfig>http://100.115.176.3:80/machine/a511aa6d-29e7-4f53-8788-55655dfe848f/f6cd1d7ef1644557b9059345e5ba890c.lars%2Dtest%2D1?comp=config&amp;type=extensionsConfig&amp;incarnation=1</ExtensionsConfig>
          <FullConfig>http://100.115.176.3:80/machine/a511aa6d-29e7-4f53-8788-55655dfe848f/f6cd1d7ef1644557b9059345e5ba890c.lars%2Dtest%2D1?comp=config&amp;type=fullConfig&amp;incarnation=1</FullConfig>
          <ConfigName>f6cd1d7ef1644557b9059345e5ba890c.0.f6cd1d7ef1644557b9059345e5ba890c.0.lars-test-1.1.xml</ConfigName>
        </Configuration>
      </RoleInstance>
    </RoleInstanceList>
  </Container>
</GoalState>
"#;

fn version_body() -> &'static str {
    r#"<?xml version="1.0" encoding="utf-8"?>
<Versions>
  <Preferred>
    <Version>2015-04-05</Version>
  </Preferred>
  <Supported>
    <Version>2015-04-05</Version>
    <Version>2012-11-30</Version>
    <Version>2012-09-15</Version>
    <Version>2012-05-15</Version>
    <Version>2011-12-31</Version>
    <Version>2011-10-15</Version>
    <Version>2011-08-31</Version>
    <Version>2011-04-07</Version>
    <Version>2010-12-15</Version>
    <Version>2010-28-10</Version>
  </Supported>
</Versions>"#
}

#[test]
fn test_boot_checkin() {
    let (s0, a0) = engine::start();
    assert!(matches!(a0, Action::FetchVersions));

    let (s1, a1) = engine::step(s0, Event::Response { body: version_body().to_string() });
    match &a1 {
        Action::FetchGoalState { version } => assert_eq!(version, "2012-11-30"),
        other => panic!("expected a goal-state fetch, got {:?}", action_name(other)),
    }

    let (s2, a2) = engine::step(s1, Event::Response { body: GOALSTATE_BODY.to_string() });
    match &a2 {
        Action::FetchCertificates { endpoint, version } => {
            assert_eq!(version, "2012-11-30");
            assert!(endpoint.starts_with("http://"));
        },
        other => panic!("expected a certificates fetch, got {:?}", action_name(other)),
    }

    let (s3, a3) = engine::step(s2, Event::CertificatesReady { key: None });
    match &a3 {
        Action::PostHealth { version, body } => {
            assert_eq!(version, "2012-11-30");
            assert!(body.contains("<State>Ready</State>"));
            assert!(body.contains("<GoalStateIncarnation>42</GoalStateIncarnation>"));
        },
        other => panic!("expected a health post, got {:?}", action_name(other)),
    }

    let (s4, a4) = engine::step(s3, Event::Response { body: String::new() });
    assert!(matches!(s4, EngineState::Done { .. }));
    assert!(matches!(a4, Action::Halt));

    // Check error logic, but fail fast without re-trying.
    let policy = RetryPolicy::new(7).max_retries(0);
    assert!(matches!(policy.after_failure(0), RetryStep::GiveUp));
    let (s, a) = engine::step(EngineState::Start, Event::TransportFailed);
    assert!(matches!(s, EngineState::Fatal { .. }));
    assert!(matches!(a, Action::Halt));
}

fn action_name(a: &Action) -> &'static str {
    match a {
        Action::FetchVersions => "FetchVersions",
        Action::FetchGoalState { .. } => "FetchGoalState",
        Action::FetchCertificates { .. } => "FetchCertificates",
        Action::PostHealth { .. } => "PostHealth",
        Action::Halt => "Halt",
    }
}

#[test]
fn test_identity() {
    let json_response = r#"{"subscriptionId":"testID","vmName":"testName"}"#;
    let hostname = bootagent::providers::parse_identity_hostname(json_response).unwrap();
    assert_eq!(hostname, "testName");
}

#[test]
fn test_hostname() {
    let json_response = r#"{"subscriptionId":"testID","vmName":"testName"}"#;
    let hostname = bootagent::providers::parse_identity_hostname(json_response).unwrap();
    assert_eq!(hostname, "testName");
}

#[test]
fn test_goalstate_certs() {
    let goalstate = bootagent::goalstate::parse_goal_state(GOALSTATE_BODY).unwrap();
    assert_eq!(goalstate.incarnation(), 42);
    let ep = goalstate.certs_endpoint().unwrap();
    let scheme = bootagent::util::url_scheme(&ep).unwrap();
    assert_eq!(scheme, "http");
    // The endpoint's XML entities are decoded on the way out.
    assert!(ep.contains("comp=certificates&incarnation=1"));
}

#[test]
fn test_goalstate_no_certs() {
    let goalstate = bootagent::goalstate::parse_goal_state(GOALSTATE_BODY_NO_CERTS).unwrap();
    assert_eq!(goalstate.certs_endpoint(), None);
    assert_eq!(goalstate.incarnation(), 42);
}

#[test]
fn handshake_without_certs_posts_health_directly() {
    let (s0, _a0) = engine::start();
    let (s1, _a1) = engine::step(s0, Event::Response { body: version_body().to_string() });
    let (s2, a2) = engine::step(s1, Event::Response { body: GOALSTATE_BODY_NO_CERTS.to_string() });
    match &a2 {
        Action::PostHealth { version, body } => {
            assert_eq!(version, "2012-11-30");
            assert!(body.contains("<GoalStateIncarnation>42</GoalStateIncarnation>"));
            assert!(body.contains("<State>Ready</State>"));
        },
        other => panic!("expected an immediate health post, got {:?}", action_name(other)),
    }
    let (s3, a3) = engine::step(s2, Event::Response { body: String::new() });
    assert!(matches!(s3, EngineState::Done { key: None }));
    assert!(matches!(a3, Action::Halt));
}

#[test]
fn handshake_without_common_version_is_fatal() {
    let lonely = "<Versions><Supported><Version>1999-01-01</Version></Supported></Versions>";
    let (s0, _a0) = engine::start();
    let (s1, a1) = engine::step(s0, Event::Response { body: lonely.to_string() });
    assert!(matches!(
        s1,
        EngineState::Fatal { error: bootagent::engine::ProtocolError::NoCommonVersion }
    ));
    assert!(matches!(a1, Action::Halt));
}

#[test]
fn preferred_but_unsupported_version_is_no_overlap() {
    let trap = "<Versions><Preferred><Version>2012-11-30</Version></Preferred>\
<Supported><Version>1999-01-01</Version></Supported></Versions>";
    let (s0, _a0) = engine::start();
    let (s1, a1) = engine::step(s0, Event::Response { body: trap.to_string() });
    assert!(matches!(s1, EngineState::Fatal { error: ProtocolError::NoCommonVersion }));
    assert!(matches!(a1, Action::Halt));
}

#[test]
fn discovery_without_supported_block_is_no_overlap() {
    let doc = "<Versions><Preferred><Version>2012-11-30</Version></Preferred></Versions>";
    let (s0, _a0) = engine::start();
    let (s1, _a1) = engine::step(s0, Event::Response { body: doc.to_string() });
    assert!(matches!(s1, EngineState::Fatal { error: ProtocolError::NoCommonVersion }));
}

#[test]
fn handshake_rejects_malformed_goal_state() {
    let (s0, _a0) = engine::start();
    let (s1, _a1) = engine::step(s0, Event::Response { body: version_body().to_string() });
    let (s2, a2) = engine::step(s1, Event::Response { body: "<GoalState></GoalState>".to_string() });
    match s2 {
        EngineState::Fatal { error: bootagent::engine::ProtocolError::BadGoalState { error } } => {
            assert_eq!(error, bootagent::goalstate::ParseError::MissingIncarnation);
        },
        _ => panic!("expected a fatal state on a malformed goal state"),
    }
    assert!(matches!(a2, Action::Halt));
}

#[test]
fn health_report_body_is_exact() {
    let body = engine::build_health_report(42);
    assert_eq!(
        body,
        "<?xml version=\"1.0\" encoding=\"utf-8\"?><Health><GoalStateIncarnation>42</GoalStateIncarnation><State>Ready</State></Health>"
    );
}

#[test]
fn crypto_failure_during_certs_step_is_fatal() {
    let (s0, _a0) = engine::start();
    let (s1, _a1) = engine::step(s0, Event::Response { body: version_body().to_string() });
    let (s2, _a2) = engine::step(s1, Event::Response { body: GOALSTATE_BODY.to_string() });
    let (s3, a3) = engine::step(s2, Event::CryptoFailed);
    assert!(matches!(s3, EngineState::Fatal { error: ProtocolError::CryptoFailed }));
    assert!(matches!(a3, Action::Halt));
}

#[test]
fn transport_exhaustion_is_fatal_in_every_waiting_state() {
    let (s0, _a0) = engine::start();
    let (s1, _a1) = engine::step(s0, Event::Response { body: version_body().to_string() });
    let (s2, a2) = engine::step(s1, Event::TransportFailed);
    assert!(matches!(s2, EngineState::Fatal { error: ProtocolError::TransportExhausted }));
    assert!(matches!(a2, Action::Halt));
}

#[test]
fn unexpected_events_are_fatal() {
    let (s1, a1) = engine::step(EngineState::Start, Event::CertificatesReady { key: None });
    assert!(matches!(s1, EngineState::Fatal { error: ProtocolError::UnexpectedEvent }));
    assert!(matches!(a1, Action::Halt));
    // Terminal states absorb whatever else arrives.
    let (s2, a2) = engine::step(s1, Event::TransportFailed);
    assert!(matches!(s2, EngineState::Fatal { error: ProtocolError::UnexpectedEvent }));
    assert!(matches!(a2, Action::Halt));
}

#[test]
fn health_report_renders_every_incarnation_exactly() {
    assert!(engine::build_health_report(0).contains("<GoalStateIncarnation>0</GoalStateIncarnation>"));
    assert!(engine::build_health_report(7).contains("<GoalStateIncarnation>7</GoalStateIncarnation>"));
    assert!(engine::build_health_report(u64::MAX)
        .contains("<GoalStateIncarnation>18446744073709551615</GoalStateIncarnation>"));
}

#[test]
fn extracted_key_is_carried_through_to_completion() {
    let key = SshPublicKey::from_rsa(vec![1, 0, 1], vec![0xab; 256]);
    assert_eq!(key.options, None);
    assert_eq!(key.comment, None);
    assert!(matches!(key.data, SshKeyData::Rsa { .. }));

    let (s0, _a0) = engine::start();
    let (s1, _a1) = engine::step(s0, Event::Response { body: version_body().to_string() });
    let (s2, _a2) = engine::step(s1, Event::Response { body: GOALSTATE_BODY.to_string() });
    let (s3, _a3) = engine::step(s2, Event::CertificatesReady { key: Some(key) });
    let (s4, _a4) = engine::step(s3, Event::Response { body: String::new() });
    match s4 {
        EngineState::Done { key: Some(k) } => match k.data {
            SshKeyData::Rsa { exponent, modulus } => {
                assert_eq!(exponent, vec![1, 0, 1]);
                assert_eq!(modulus.len(), 256);
            },
            SshKeyData::Other { .. } => panic!("expected the RSA key back"),
        },
        _ => panic!("expected completion with the extracted key"),
    }
}

#[test]
fn retry_policy_budget_is_exact() {
    let policy = RetryPolicy::new(2);
    assert!(matches!(policy.after_failure(0), RetryStep::BackoffThenRetry));
    assert!(matches!(policy.after_failure(1), RetryStep::BackoffThenRetry));
    assert!(matches!(policy.after_failure(2), RetryStep::GiveUp));
    let overridden = RetryPolicy::new(2).mock_base_url("http://localhost:1".to_string());
    assert!(matches!(overridden.after_failure(1), RetryStep::BackoffThenRetry));
    assert!(matches!(overridden.after_failure(2), RetryStep::GiveUp));
}
