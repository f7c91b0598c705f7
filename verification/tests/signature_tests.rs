use hmac::Mac;
use webhook_service::headers::Headers;
use webhook_service::signature::verify_webhook_signature;
use webhook_service::status::StatusCode;

fn hex_hmac(secret: &str, body: &[u8]) -> String {
    let mut mac = <hmac::Hmac<sha2::Sha256> as Mac>::new_from_slice(secret.as_bytes()).unwrap();
    mac.update(body);
    hex::encode(mac.finalize().into_bytes())
}

fn headers_with(pairs: &[(&str, &[u8])]) -> Headers {
    let mut h = Headers::new();
    for (n, v) in pairs {
        h.append(n, v);
    }
    h
}

#[test]
fn no_secret_accepts_anything() {
    let h = Headers::new();
    assert_eq!(verify_webhook_signature(&h, b"{}", None), Ok(()));
}

#[test]
fn missing_signature_is_unauthorized() {
    let secret = "s3cret".to_string();
    let h = headers_with(&[("content-type", b"application/json")]);
    assert_eq!(verify_webhook_signature(&h, b"{}", Some(&secret)), Err(StatusCode::Unauthorized));
}

#[test]
fn github_style_signature_is_accepted() {
    let secret = "s3cret".to_string();
    let body = br#"{"zen":"Keep it simple"}"#;
    let value = format!("sha256={}", hex_hmac(&secret, body));
    let h = headers_with(&[("x-hub-signature-256", value.as_bytes())]);
    assert_eq!(verify_webhook_signature(&h, body, Some(&secret)), Ok(()));
}

#[test]
fn known_hmac_vector_is_accepted() {
    // RFC-style test vector of HMAC-SHA256.
    let secret = "key".to_string();
    let body = b"The quick brown fox jumps over the lazy dog";
    let h = headers_with(&[(
        "x-signature-256",
        b"f7bc83f430538424b13298e6aa6fb143ef4d59a14946175997479dbc2d1a3cd8",
    )]);
    assert_eq!(verify_webhook_signature(&h, body, Some(&secret)), Ok(()));
    let wrong = headers_with(&[(
        "x-signature-256",
        b"f7bc83f430538424b13298e6aa6fb143ef4d59a14946175997479dbc2d1a3cd9",
    )]);
    assert_eq!(verify_webhook_signature(&wrong, body, Some(&secret)), Err(StatusCode::Unauthorized));
}

#[test]
fn upper_case_hex_is_accepted() {
    let secret = "k".to_string();
    let body = b"payload";
    let value = format!("sha256={}", hex_hmac(&secret, body).to_uppercase());
    let h = headers_with(&[("x-hub-signature-256", value.as_bytes())]);
    assert_eq!(verify_webhook_signature(&h, body, Some(&secret)), Ok(()));
}

#[test]
fn gitlab_token_without_prefix_is_accepted() {
    let secret = "gl".to_string();
    let body = b"[1,2,3]";
    let value = hex_hmac(&secret, body);
    let h = headers_with(&[("x-gitlab-token", value.as_bytes())]);
    assert_eq!(verify_webhook_signature(&h, body, Some(&secret)), Ok(()));
}

#[test]
fn first_present_signature_header_decides() {
    let secret = "abc".to_string();
    let body = b"x";
    let good = hex_hmac(&secret, body);
    let h = headers_with(&[("x-hub-signature-256", b"sha256=00"), ("x-signature-256", good.as_bytes())]);
    assert_eq!(verify_webhook_signature(&h, body, Some(&secret)), Err(StatusCode::Unauthorized));
}

#[test]
fn wrong_body_is_unauthorized() {
    let secret = "abc".to_string();
    let value = format!("sha256={}", hex_hmac(&secret, b"original"));
    let h = headers_with(&[("x-hub-signature-256", value.as_bytes())]);
    assert_eq!(verify_webhook_signature(&h, b"tampered", Some(&secret)), Err(StatusCode::Unauthorized));
}

#[test]
fn non_text_signature_is_unauthorized() {
    let secret = "abc".to_string();
    let h = headers_with(&[("x-hub-signature-256", &[0x80, 0x81])]);
    assert_eq!(verify_webhook_signature(&h, b"x", Some(&secret)), Err(StatusCode::Unauthorized));
}

#[test]
fn status_numbers() {
    assert_eq!(StatusCode::Success.as_u16(), 200);
    assert_eq!(StatusCode::NoContent.as_u16(), 204);
    assert_eq!(StatusCode::BadRequest.as_u16(), 400);
    assert_eq!(StatusCode::Unauthorized.as_u16(), 401);
    assert_eq!(StatusCode::NotFound.as_u16(), 404);
    assert_eq!(StatusCode::InternalServerError.as_u16(), 500);
}
