use hmac::Mac;
use webhook_service::config::{parse_usize_text, Config, ConfigError};
use webhook_service::events::{receipt, receive_for_webhook, receive_generic, receive_named, retention_offset, Arrival};
use webhook_service::headers::Headers;
use webhook_service::json::JsonValue;
use webhook_service::models::{DbError, Timestamp, UpdateWebhookRequest, Webhook};
use webhook_service::pages::{dashboard_page, static_page};
use webhook_service::secret::{generate_secret, secret_from_draws};
use webhook_service::status::StatusCode;
use webhook_service::webhooks::{
    deletion_status, event_count_or_zero, found_or_status, ok_or_server_error, listing_bounds, page_bounds,
    require_user, update_params, webhook_response, webhook_responses, webhook_url,
};

fn env(pairs: &[(&str, &str)]) -> Vec<(String, String)> {
    pairs.iter().map(|(a, b)| (a.to_string(), b.to_string())).collect()
}

#[test]
fn config_defaults() {
    let c = Config::from_env(&env(&[("DATABASE_URL", "postgres://db/hooks")])).unwrap();
    assert_eq!(c.database_url, "postgres://db/hooks");
    assert_eq!(c.bind_address, "0.0.0.0:3000");
    assert_eq!(c.base_url, "http://localhost:5050");
    assert_eq!(c.webhook_secret, None);
    assert_eq!(c.max_events, 1000);
}

#[test]
fn config_from_variables() {
    let c = Config::from_env(&env(&[
        ("BIND_ADDRESS", "127.0.0.1:8080"),
        ("DATABASE_URL", "postgres://x"),
        ("BASE_URL", "https://hooks.example.com"),
        ("WEBHOOK_SECRET", "topsecret"),
        ("MAX_EVENTS", "250"),
    ]))
    .unwrap();
    assert_eq!(c.bind_address, "127.0.0.1:8080");
    assert_eq!(c.base_url, "https://hooks.example.com");
    assert_eq!(c.webhook_secret.as_deref(), Some("topsecret"));
    assert_eq!(c.max_events, 250);
    let c = Config::from_env(&env(&[("DATABASE_URL", "d"), ("MAX_EVENTS", "lots")])).unwrap();
    assert_eq!(c.max_events, 1000);
}

#[test]
fn config_requires_database_url() {
    let e = Config::from_env(&env(&[("BIND_ADDRESS", "0.0.0.0:1")])).unwrap_err();
    assert_eq!(e, ConfigError::MissingDatabaseUrl);
    assert_eq!(e.message(), "DATABASE_URL environment variable is required");
}

#[test]
fn parsing_numbers_like_std() {
    for t in ["0", "+7", "1000", "18446744073709551615", "", "+", "-1", " 1", "1a", "18446744073709551616", "99999999999999999999999"] {
        assert_eq!(parse_usize_text(t), t.parse::<u64>().ok().map(|v| v as usize), "{t}");
    }
}

fn stamp(s: i64) -> Timestamp {
    Timestamp { seconds: s, nanos: 5 }
}

fn hook() -> Webhook {
    Webhook {
        id: 0x1234,
        user_id: Some(9),
        name: "CI".to_string(),
        endpoint: "ci-builds".to_string(),
        secret: "s3cr3t".to_string(),
        description: Some("builds".to_string()),
        is_active: true,
        created_at: stamp(1),
        updated_at: stamp(2),
    }
}

#[test]
fn webhook_urls_and_responses() {
    assert_eq!(webhook_url("http://localhost:5050", "abc"), "http://localhost:5050/webhook/abc");
    let r = webhook_response(&hook(), "https://h.io", 12);
    assert_eq!(r.id, 0x1234);
    assert_eq!(r.url, "https://h.io/webhook/ci-builds");
    assert_eq!(r.name, "CI");
    assert_eq!(r.secret, "s3cr3t");
    assert_eq!(r.description.as_deref(), Some("builds"));
    assert_eq!(r.event_count, 12);
    assert_eq!(r.created_at, stamp(1));
    let all = webhook_responses(&vec![hook(), hook()], "b");
    assert_eq!(all.len(), 2);
    assert!(all.iter().all(|w| w.event_count == 0 && w.url == "b/webhook/ci-builds"));
}

#[test]
fn outcome_mapping() {
    assert_eq!(event_count_or_zero(Ok(5)), 5);
    assert_eq!(event_count_or_zero(Err(DbError { message: "x".into() })), 0);
    assert_eq!(require_user(Some(3)), Ok(3));
    assert_eq!(require_user(None), Err(StatusCode::Unauthorized));
    assert_eq!(found_or_status(Ok(Some(1u8))), Ok(1u8));
    assert_eq!(found_or_status::<u8>(Ok(None)), Err(StatusCode::NotFound));
    assert_eq!(found_or_status::<u8>(Err(DbError { message: "x".into() })), Err(StatusCode::InternalServerError));
    assert_eq!(ok_or_server_error(Ok(2u8)), Ok(2u8));
    assert_eq!(ok_or_server_error::<u8>(Err(DbError { message: "x".into() })), Err(StatusCode::InternalServerError));
    assert_eq!(deletion_status(Ok(())), Ok(StatusCode::NoContent));
    assert_eq!(deletion_status(Err(DbError { message: "x".into() })), Err(StatusCode::InternalServerError));
}

#[test]
fn update_parameters() {
    let p = update_params(&UpdateWebhookRequest { name: None, description: None, is_active: None });
    assert_eq!(p.name, "");
    assert_eq!(p.description, "");
    assert!(p.is_active);
    let p = update_params(&UpdateWebhookRequest {
        name: Some("n".into()),
        description: Some("d".into()),
        is_active: Some(false),
    });
    assert_eq!((p.name.as_str(), p.description.as_str(), p.is_active), ("n", "d", false));
}

#[test]
fn paging_defaults() {
    assert_eq!(page_bounds(None, None), (100, 0));
    assert_eq!(page_bounds(Some(5), Some(10)), (5, 10));
    assert_eq!(page_bounds(None, Some(3)), (100, 3));
}

#[test]
fn listing_has_no_default_limit() {
    assert_eq!(listing_bounds(None, None), (None, 0));
    assert_eq!(listing_bounds(Some(5), Some(10)), (Some(5), 10));
}

#[test]
fn secrets_are_32_alphanumerics() {
    let a = generate_secret();
    let b = generate_secret();
    assert_eq!(a.len(), 32);
    assert!(a.chars().all(|c| c.is_ascii_alphanumeric()));
    assert_ne!(a, b);
}

fn arrival() -> Arrival {
    Arrival { id: 77, timestamp: stamp(10), created_at: stamp(11), source_ip: Some("10.0.0.1".to_string()) }
}

fn signed(secret: &str, body: &[u8]) -> Headers {
    let mut mac = <hmac::Hmac<sha2::Sha256> as Mac>::new_from_slice(secret.as_bytes()).unwrap();
    mac.update(body);
    let sig = format!("sha256={}", hex::encode(mac.finalize().into_bytes()));
    let mut h = Headers::new();
    h.append("x-hub-signature-256", sig.as_bytes());
    h.append("x-github-event", b"push");
    h
}

#[test]
fn delivery_to_a_webhook_is_recorded() {
    let body = br#"{"ref":"main"}"#;
    let h = signed("s3cr3t", body);
    let e = receive_for_webhook(&hook(), "ci-builds".to_string(), &h, body, arrival()).unwrap();
    assert_eq!(e.body.get("ref").and_then(|v| v.as_str()), Some("main"));
    assert_eq!(e.id, 77);
    assert_eq!(e.user_id, Some(9));
    assert_eq!(e.webhook_id, Some(0x1234));
    assert_eq!(e.endpoint, "ci-builds");
    assert_eq!(e.event_type.as_deref(), Some("GitHub push"));
    assert_eq!(e.status_code, 200);
    assert_eq!(e.timestamp, stamp(10));
    assert_eq!(e.created_at, stamp(11));
    assert_eq!(e.source_ip.as_deref(), Some("10.0.0.1"));
    assert_eq!(e.headers.len(), 2);
    let r = receipt(&e);
    assert_eq!((r.id, r.endpoint.as_str(), r.webhook_id), (77, "ci-builds", Some(0x1234)));
}

#[test]
fn delivery_checks_come_in_order() {
    let body = b"not json";
    // Wrong signature: refused before the body is looked at.
    let h = signed("other", body);
    assert_eq!(receive_for_webhook(&hook(), "ci".into(), &h, body, arrival()).err(), Some(StatusCode::Unauthorized));
    // Right signature, body that is not JSON: bad request.
    let h = signed("s3cr3t", body);
    assert_eq!(receive_for_webhook(&hook(), "ci".into(), &h, body, arrival()).err(), Some(StatusCode::BadRequest));
}

#[test]
fn generic_delivery() {
    let body = br#"{"hook_id":1}"#;
    let e = receive_generic(None, &Headers::new(), body, arrival()).unwrap();
    assert!(matches!(e.body.get("hook_id"), Some(JsonValue::Number(n)) if n == "1"));
    assert_eq!(e.endpoint, "generic");
    assert_eq!(e.user_id, None);
    assert_eq!(e.webhook_id, None);
    assert_eq!(e.event_type.as_deref(), Some("Generic Hook"));
    assert_eq!(receipt(&e).webhook_id, None);
    let secret = "gs".to_string();
    assert_eq!(
        receive_generic(Some(&secret), &Headers::new(), body, arrival()).err(),
        Some(StatusCode::Unauthorized)
    );
    assert_eq!(receive_generic(None, &Headers::new(), b"{oops", arrival()).err(), Some(StatusCode::BadRequest));
}

#[test]
fn pages() {
    assert_eq!(dashboard_page(Some("<p>hi</p>".into())), "<p>hi</p>");
    assert_eq!(dashboard_page(None), "<h1>Dashboard not found</h1>");
    assert_eq!(static_page(Some("x".into())), Ok("x".to_string()));
    assert_eq!(static_page(None), Err(StatusCode::NotFound));
}

#[test]
fn retention_keeps_max_events() {
    assert_eq!(retention_offset(1000), 1000);
    assert_eq!(retention_offset(0), 0);
    assert_eq!(retention_offset(usize::MAX), i64::MAX);
}

#[test]
fn secret_spelled_by_draws() {
    assert_eq!(secret_from_draws(&vec![0, 25, 26, 51, 52, 61]), "AZaz09");
    let draws: Vec<usize> = (0..32).map(|i| (i * 7) % 62).collect();
    let s = secret_from_draws(&draws);
    assert_eq!(s.len(), 32);
    assert_eq!(&s[..4], "AHOV");
}

#[test]
fn named_endpoint_without_registered_webhook_uses_service_secret() {
    let body = br#"{"zen":"Practicality beats purity."}"#;
    let secret = "service-secret".to_string();
    let h = signed("service-secret", body);
    let e = receive_named(Ok(None), Some(&secret), "github".into(), &h, body, arrival()).unwrap();
    assert_eq!(e.endpoint, "github");
    assert_eq!(e.user_id, None);
    assert_eq!(e.webhook_id, None);
    assert_eq!(e.event_type.as_deref(), Some("GitHub push"));
    // unsigned delivery while a service secret is set
    assert_eq!(
        receive_named(Ok(None), Some(&secret), "github".into(), &Headers::new(), body, arrival()).err(),
        Some(StatusCode::Unauthorized)
    );
    // no service secret: accepted unsigned
    assert!(receive_named(Ok(None), None, "github".into(), &Headers::new(), body, arrival()).is_ok());
    // a registered webhook's own secret decides, not the service secret
    assert_eq!(
        receive_named(Ok(Some(hook())), Some(&secret), "ci-builds".into(), &h, body, arrival()).err(),
        Some(StatusCode::Unauthorized)
    );
    let own = signed("s3cr3t", body);
    let e = receive_named(Ok(Some(hook())), Some(&secret), "ci-builds".into(), &own, body, arrival()).unwrap();
    assert_eq!(e.webhook_id, Some(0x1234));
    assert_eq!(
        receive_named(Err(DbError { message: "down".into() }), None, "x".into(), &h, body, arrival()).err(),
        Some(StatusCode::InternalServerError)
    );
}

#[test]
fn deactivated_webhook_refuses_deliveries() {
    let body = br#"{"ref":"main"}"#;
    let mut off = hook();
    off.is_active = false;
    let own = signed("s3cr3t", body);
    let secret = "service-secret".to_string();
    // refused whatever the signature, and whether a service secret is set
    assert_eq!(
        receive_named(Ok(Some(off.clone())), Some(&secret), "ci-builds".into(), &own, body, arrival()).err(),
        Some(StatusCode::NotFound)
    );
    assert_eq!(
        receive_named(Ok(Some(off.clone())), None, "ci-builds".into(), &Headers::new(), body, arrival()).err(),
        Some(StatusCode::NotFound)
    );
    assert_eq!(
        receive_named(Ok(Some(off)), None, "ci-builds".into(), &own, b"not json", arrival()).err(),
        Some(StatusCode::NotFound)
    );
}

#[test]
fn delivery_body_is_the_parsed_json() {
    let body = br#"{"a":[1,true,null,"x"],"b":{"c":-2.5}}"#;
    let e = receive_generic(None, &Headers::new(), body, arrival()).unwrap();
    match e.body.get("a") {
        Some(JsonValue::Array(items)) => {
            assert_eq!(items.len(), 4);
            assert!(matches!(&items[0], JsonValue::Number(n) if n == "1"));
            assert!(matches!(&items[1], JsonValue::Bool(true)));
            assert!(matches!(&items[2], JsonValue::Null));
            assert_eq!(items[3].as_str(), Some("x"));
        }
        other => panic!("unexpected {:?}", other),
    }
    assert!(matches!(e.body.get("b").and_then(|b| b.get("c")), Some(JsonValue::Number(n)) if n == "-2.5"));
    assert!(e.body.get("missing").is_none());
}
