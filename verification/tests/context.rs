use rusm::context::ProcessContext;

#[test]
fn set_get_roundtrip_and_emptiness() {
    let mut ctx = ProcessContext::new();
    assert!(ctx.is_empty());
    assert_eq!(ctx.get("app_id"), None);
    ctx.set("app_id", "acme");
    assert!(!ctx.is_empty());
    assert_eq!(ctx.get("app_id"), Some("acme"));
    ctx.set("app_id", "globex"); // replace
    assert_eq!(ctx.get("app_id"), Some("globex"));
}

#[test]
fn builds_from_claims_and_iterates_in_key_order() {
    let ctx = ProcessContext::from_iter(vec![
        ("b".to_string(), "2".to_string()),
        ("a".to_string(), "1".to_string()),
    ]);
    assert_eq!(ctx.iter(), [("a", "1"), ("b", "2")]);
}

#[test]
fn a_clone_is_an_independent_snapshot() {
    let mut parent = ProcessContext::new();
    parent.set("app_id", "acme");
    let mut child = parent.clone();
    child.set("app_id", "globex");
    child.set("scope", "read");
    assert_eq!(parent.get("app_id"), Some("acme"));
    assert_eq!(parent.get("scope"), None);
    assert_eq!(child.get("app_id"), Some("globex"));
}

#[test]
fn a_later_claim_for_the_same_key_wins() {
    let ctx = ProcessContext::from_iter(vec![
        ("tenant".to_string(), "acme".to_string()),
        ("tenant".to_string(), "globex".to_string()),
    ]);
    assert_eq!(ctx.get("tenant"), Some("globex"));
    assert_eq!(ctx.iter(), [("tenant", "globex")]);
}

#[test]
fn keys_order_by_their_bytes() {
    let mut ctx = ProcessContext::default();
    assert!(ctx.is_empty());
    ctx.set("b", "3");
    ctx.set("a", "2");
    ctx.set("B", "1");
    ctx.set("ab", "4");
    assert_eq!(ctx.iter(), [("B", "1"), ("a", "2"), ("ab", "4"), ("b", "3")]);
    assert_eq!(ctx.get("A"), None);
}
