use rusm::protocol::{EvalOutcome, NodeSnapshot, ProcessInfo, ServerMessage};

#[test]
fn from_error_carries_only_the_message() {
    let outcome = EvalOutcome::from_error("boom");
    assert_eq!(outcome.error.as_deref(), Some("boom"));
    assert!(outcome.value.is_empty() && outcome.output.is_empty());
}

#[test]
fn into_message_maps_every_field() {
    let outcome = EvalOutcome {
        value: "42".into(),
        output: vec!["hi".into()],
        error: None,
    };
    assert_eq!(
        outcome.into_message(),
        ServerMessage::EvalResult {
            value: "42".into(),
            output: vec!["hi".into()],
            error: None,
        }
    );
}

#[test]
fn server_message_accessors_match_the_variant() {
    let snapshot = NodeSnapshot {
        uptime_ms: 1_234,
        process_count: 1,
        processes: vec![ProcessInfo {
            pid: 7,
            label: Some("worker".into()),
            names: vec!["reg".into()],
            links: 1,
            monitors: 0,
            mailbox_depth: 2,
            trap_exit: false,
        }],
    };
    let tick = ServerMessage::Snapshot { snapshot: snapshot.clone() };
    assert_eq!(tick.snapshot(), Some(&snapshot));
    assert_eq!(tick.node(), None);

    let hello = ServerMessage::Hello { node: "n1".into() };
    assert_eq!(hello.node(), Some("n1"));
    assert!(hello.snapshot().is_none());

    let error = ServerMessage::Error { message: "boom".into() };
    assert!(error.snapshot().is_none() && error.node().is_none());

    let result = EvalOutcome::default().into_message();
    assert!(result.snapshot().is_none() && result.node().is_none());
    assert_eq!(
        result,
        ServerMessage::EvalResult { value: String::new(), output: Vec::new(), error: None }
    );
}
