use rusm::actor::Pid;
use rusm::http::{fetch_method, fetch_scheme, plan_fetch, reply_target, split_url, FetchMethod, FetchScheme, Params};
use rusm::text::parse_u64;

#[test]
fn split_url_parses_scheme_authority_and_path() {
    assert_eq!(
        split_url("https://api.example.com/v1/items?q=1"),
        Some(("https", "api.example.com".into(), "/v1/items?q=1".into()))
    );
    assert_eq!(
        split_url("http://host:8080"),
        Some(("http", "host:8080".into(), "/".into())) // path defaults to "/"
    );
    assert_eq!(split_url("no-scheme/path"), None);
}

#[test]
fn split_url_cuts_at_the_first_scheme_separator() {
    assert_eq!(
        split_url("a://b://c/d"),
        Some(("a", "b:".into(), "//c/d".into()))
    );
    assert_eq!(split_url("://"), Some(("", "".into(), "/".into())));
}

#[test]
fn params_get_returns_the_first_exact_match() {
    let params = Params::new(vec![
        ("id".to_string(), "7".to_string()),
        ("ID".to_string(), "8".to_string()),
        ("id".to_string(), "9".to_string()),
    ]);
    assert_eq!(params.get("id"), Some("7"));
    assert_eq!(params.get("ID"), Some("8"));
    assert_eq!(params.get("name"), None);
}

#[test]
fn a_reply_needs_a_numeric_sender_and_a_ref() {
    assert_eq!(reply_target(Some("42"), Some(3)), Some((Pid(42), 3)));
    assert_eq!(reply_target(Some("+42"), Some(3)), Some((Pid(42), 3)));
    assert_eq!(reply_target(Some("x42"), Some(3)), None);
    assert_eq!(reply_target(Some("42"), None), None);
    assert_eq!(reply_target(None, Some(3)), None);
}

#[test]
fn decimal_parsing_follows_the_standard_library() {
    for s in ["0", "7", "+7", "18446744073709551615", "", "+", "-1", " 7", "7 ", "18446744073709551616", "99999999999999999999"] {
        assert_eq!(parse_u64(s), s.parse::<u64>().ok(), "input {s:?}");
    }
}

#[test]
fn outbound_requests_are_planned_from_the_url() {
    let plan = plan_fetch("https://api.example.com/v1?q=1", "POST").unwrap();
    assert_eq!(plan.scheme, FetchScheme::Https);
    assert_eq!(plan.method, FetchMethod::Post);
    assert_eq!(plan.authority, "api.example.com");
    assert_eq!(plan.path, "/v1?q=1");
    let err = plan_fetch("no-scheme/path", "GET").err().unwrap();
    assert_eq!(err, "bad URL \"no-scheme/path\"");
    assert_eq!(fetch_scheme("http"), FetchScheme::Http);
    assert_eq!(fetch_scheme("HTTP"), FetchScheme::Other("HTTP".into()));
    assert_eq!(fetch_method("get"), FetchMethod::Other("get".into()));
    assert_eq!(fetch_method("OPTIONS"), FetchMethod::Options);
    assert_eq!(fetch_method("DELETE"), FetchMethod::Delete);
}
