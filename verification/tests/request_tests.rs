use webhook_service::detect::{detect_webhook_type, source_of, WebhookSource};
use webhook_service::headers::Headers;
use webhook_service::json::JsonValue;
use webhook_service::session::session_candidates;
use webhook_service::text::{bytes_eq_ignore_ascii_case, header_value_to_str, str_eq};

fn obj(members: Vec<(&str, JsonValue)>) -> JsonValue {
    JsonValue::Object(members.into_iter().map(|(k, v)| (k.to_string(), v)).collect())
}

fn s(t: &str) -> JsonValue {
    JsonValue::Str(t.to_string())
}

fn headers_with(pairs: &[(&str, &[u8])]) -> Headers {
    let mut h = Headers::new();
    for (n, v) in pairs {
        h.append(n, v);
    }
    h
}

#[test]
fn github_event_header_names_the_type() {
    let h = headers_with(&[("x-github-event", b"push")]);
    assert_eq!(detect_webhook_type(&h, &JsonValue::Null), "GitHub push");
}

#[test]
fn github_header_wins_over_body() {
    let h = headers_with(&[("x-gitlab-event", b"Push Hook"), ("x-github-event", b"issues")]);
    let body = obj(vec![("type", s("charge.succeeded"))]);
    assert_eq!(detect_webhook_type(&h, &body), "GitHub issues");
}

#[test]
fn gitlab_and_bitbucket_headers() {
    let h = headers_with(&[("x-gitlab-event", b"Merge Request Hook")]);
    assert_eq!(detect_webhook_type(&h, &JsonValue::Null), "GitLab Merge Request Hook");
    let h = headers_with(&[("x-bitbucket-event", b"repo:push")]);
    assert_eq!(detect_webhook_type(&h, &JsonValue::Null), "Bitbucket repo:push");
}

#[test]
fn non_text_event_header_is_unknown() {
    let h = headers_with(&[("x-github-event", &[0xff])]);
    assert_eq!(detect_webhook_type(&h, &JsonValue::Null), "GitHub unknown");
}

#[test]
fn stripe_type_member() {
    let h = Headers::new();
    assert_eq!(detect_webhook_type(&h, &obj(vec![("type", s("invoice.paid"))])), "Stripe invoice.paid");
    let numeric = obj(vec![("type", JsonValue::Number("7".to_string()))]);
    assert_eq!(detect_webhook_type(&h, &numeric), "Stripe unknown");
}

#[test]
fn ping_hook_and_unknown() {
    let h = Headers::new();
    assert_eq!(detect_webhook_type(&h, &obj(vec![("zen", s("Design for failure."))])), "GitHub Ping");
    assert_eq!(detect_webhook_type(&h, &obj(vec![("hook_id", JsonValue::Null)])), "Generic Hook");
    assert_eq!(detect_webhook_type(&h, &obj(vec![("other", JsonValue::Bool(true))])), "Unknown");
    assert_eq!(detect_webhook_type(&h, &JsonValue::Array(vec![s("type")])), "Unknown");
}

#[test]
fn dispatch_by_type_prefix() {
    assert_eq!(source_of("GitHub push"), WebhookSource::GitHub);
    assert_eq!(source_of("GitHub Ping"), WebhookSource::GitHub);
    assert_eq!(source_of("GitLab Push Hook"), WebhookSource::GitLab);
    assert_eq!(source_of("Bitbucket repo:push"), WebhookSource::Bitbucket);
    assert_eq!(source_of("Stripe invoice.paid"), WebhookSource::Stripe);
    assert_eq!(source_of("Generic Hook"), WebhookSource::Generic);
    assert_eq!(source_of("Unknown"), WebhookSource::Generic);
    assert_eq!(source_of(""), WebhookSource::Generic);
}

#[test]
fn detected_ping_is_dispatched_to_github() {
    let h = Headers::new();
    let t = detect_webhook_type(&h, &obj(vec![("zen", s("x"))]));
    assert_eq!(source_of(&t), WebhookSource::GitHub);
}

#[test]
fn header_lookup_returns_first_value() {
    let h = headers_with(&[("accept", b"a"), ("accept", b"b")]);
    assert_eq!(h.get("accept"), Some(&b"a"[..]));
    assert!(h.contains_key("accept"));
    assert!(!h.contains_key("host"));
    assert_eq!(h.get("host"), None);
}

#[test]
fn string_map_keeps_last_value_of_each_name() {
    let h = headers_with(&[("accept", b"a"), ("host", b"example.org"), ("accept", b"b"), ("x-bin", &[0x01])]);
    let m = h.to_string_map();
    assert_eq!(m.len(), 3);
    let find = |k: &str| m.iter().find(|(n, _)| n == k).map(|(_, v)| v.clone());
    assert_eq!(find("accept"), Some("b".to_string()));
    assert_eq!(find("host"), Some("example.org".to_string()));
    assert_eq!(find("x-bin"), Some(String::new()));
}

#[test]
fn json_member_lookup() {
    let v = obj(vec![("a", s("x")), ("b", JsonValue::Null)]);
    assert!(v.get("a").is_some());
    assert_eq!(v.get("a").and_then(|x| x.as_str()), Some("x"));
    assert!(v.get("b").unwrap().as_str().is_none());
    assert!(v.get("c").is_none());
    assert!(s("a").get("a").is_none());
}

#[test]
fn header_value_text() {
    assert_eq!(header_value_to_str(b"hello\tworld"), Some("hello\tworld".to_string()));
    assert_eq!(header_value_to_str(b"bad\n"), None);
    assert_eq!(header_value_to_str(&[0xc3, 0xa9]), None);
    assert_eq!(header_value_to_str(b""), Some(String::new()));
}

#[test]
fn text_comparisons() {
    assert!(str_eq("abc", "abc"));
    assert!(!str_eq("abc", "abd"));
    assert!(bytes_eq_ignore_ascii_case(b"DeadBeef", b"deadbeef"));
    assert!(!bytes_eq_ignore_ascii_case(b"dead", b"deadbeef"));
}

#[test]
fn session_ids_from_cookie_header() {
    let h = headers_with(&[("cookie", b"theme=dark; session_id=abc ;session_id=def;other=1")]);
    assert_eq!(session_candidates(&h), vec!["abc".to_string(), "def".to_string()]);
}

#[test]
fn session_ids_edge_cases() {
    assert!(session_candidates(&Headers::new()).is_empty());
    let h = headers_with(&[("cookie", b"session_id=")]);
    assert_eq!(session_candidates(&h), vec![String::new()]);
    let h = headers_with(&[("cookie", b"xsession_id=1; Session_id=2")]);
    assert!(session_candidates(&h).is_empty());
    let h = headers_with(&[("cookie", &[0x80])]);
    assert!(session_candidates(&h).is_empty());
    let h = headers_with(&[("cookie", b"\tsession_id=q1 ")]);
    assert_eq!(session_candidates(&h), vec!["q1".to_string()]);
}
