use rusm::auth::{auth_envelope, delegated_verdict, parse_verdict, AuthRequest, AuthVerdict};

#[test]
fn header_lookup_is_case_insensitive() {
    let req = AuthRequest {
        headers: vec![("Authorization".into(), "Bearer x".into())],
        ..Default::default()
    };
    assert_eq!(req.header("authorization"), Some("Bearer x"));
    assert_eq!(req.header("AUTHORIZATION"), Some("Bearer x"));
    assert_eq!(req.header("cookie"), None);
}

#[test]
fn query_param_extracts_the_named_value() {
    let req = AuthRequest {
        query: "token=abc&page=2".into(),
        ..Default::default()
    };
    assert_eq!(req.query_param("token"), Some("abc"));
    assert_eq!(req.query_param("page"), Some("2"));
    assert_eq!(req.query_param("missing"), None);
}

#[test]
fn query_param_takes_the_first_occurrence_and_needs_an_equals_sign() {
    let req = AuthRequest {
        query: "flag&a=1&a=2&b==x".into(),
        ..Default::default()
    };
    assert_eq!(req.query_param("flag"), None);
    assert_eq!(req.query_param("a"), Some("1"));
    assert_eq!(req.query_param("b"), Some("=x"));
}

#[test]
fn parse_verdict_allows_only_an_explicit_allow_object() {
    assert!(matches!(
        parse_verdict(br#"id:{"allow":{"app_id":"acme"}}"#),
        AuthVerdict::Allow(c) if c == [("app_id".to_string(), "acme".to_string())]
    ));
    assert!(matches!(parse_verdict(br#"id:{"deny":true}"#), AuthVerdict::Deny));
    assert!(matches!(parse_verdict(br#"id:null"#), AuthVerdict::Deny));
    assert!(matches!(parse_verdict(b"id:not json"), AuthVerdict::Deny));
    assert!(matches!(parse_verdict(b"no-colon"), AuthVerdict::Deny));
}

#[test]
fn parse_verdict_keeps_only_string_claims() {
    assert!(matches!(
        parse_verdict(br#"x:{"allow":{"a":"1","n":2,"b":"two"}}"#),
        AuthVerdict::Allow(c) if c == [("a".to_string(), "1".to_string()), ("b".to_string(), "two".to_string())]
    ));
    assert!(matches!(
        parse_verdict(br#"{"allow":{}}"#),
        AuthVerdict::Deny
    ));
    assert!(matches!(
        parse_verdict(br#":{"allow":{}}"#),
        AuthVerdict::Allow(c) if c.is_empty()
    ));
}

#[test]
fn a_delegated_hook_sends_the_runner_envelope_and_fails_closed() {
    assert_eq!(
        auth_envelope(br#"[{"method":"GET"}]"#, 17, 3),
        br#"{"fn":"authenticate","args":[{"method":"GET"}],"replyTo":{"pid":"17","callId":"rusm-auth-3"}}"#.to_vec()
    );
    assert!(matches!(delegated_verdict(None), AuthVerdict::Deny));
    assert!(matches!(
        delegated_verdict(Some(br#"rusm-auth-3:{"allow":{"app_id":"acme"}}"#)),
        AuthVerdict::Allow(c) if c == [("app_id".to_string(), "acme".to_string())]
    ));
}
