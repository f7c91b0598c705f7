use webhook_service::auth::{
    session_for, check_auth, login_check, login_finish, logout, register_after_lookup, register_finish,
    register_validate, LoginStep, RegisterStep,
};
use webhook_service::models::{DbError, LoginRequest, RegisterRequest, Timestamp, User};
use webhook_service::session::{known_session_user, session_candidates};
use webhook_service::headers::Headers;
use webhook_service::status::StatusCode;

fn reg(u: &str, p: &str) -> RegisterRequest {
    RegisterRequest { username: u.to_string(), password: p.to_string() }
}

fn user(id: u128, hash: &str, active: bool) -> User {
    let t = Timestamp { seconds: 1_700_000_000, nanos: 0 };
    User {
        id,
        username: "alice".to_string(),
        password_hash: hash.to_string(),
        created_at: t,
        updated_at: t,
        is_active: active,
    }
}

fn db_err() -> DbError {
    DbError { message: "connection refused".to_string() }
}

#[test]
fn registration_form_checks() {
    let r = register_validate(&reg("ab", "secret123")).unwrap();
    assert!(!r.success);
    assert_eq!(r.message, "Username must be between 3 and 50 characters");
    assert_eq!(r.user_id, None);
    let long = "x".repeat(51);
    assert_eq!(register_validate(&reg(&long, "secret123")).unwrap().message, "Username must be between 3 and 50 characters");
    assert!(register_validate(&reg(&"x".repeat(50), "secret123")).is_none());
    assert!(register_validate(&reg("abc", "123456")).is_none());
    let r = register_validate(&reg("abc", "12345")).unwrap();
    assert_eq!(r.message, "Password must be at least 6 characters");
}

#[test]
fn registration_lengths_count_bytes() {
    // "éé" is two characters but four bytes.
    assert!(register_validate(&reg("éé", "secret123")).is_none());
    // "ééé" is six bytes: a long enough password.
    assert!(register_validate(&reg("alice", "ééé")).is_none());
}

#[test]
fn taken_username_is_refused() {
    let step = register_after_lookup(&reg("alice", "secret123"), Ok(Some(user(1, "x", true))));
    match step {
        RegisterStep::Reply(r) => {
            assert!(!r.success);
            assert_eq!(r.message, "Username already exists");
        }
        _ => panic!("expected a refusal"),
    }
}

#[test]
fn free_username_gets_a_verifying_hash() {
    let step = register_after_lookup(&reg("alice", "secret123"), Ok(None));
    match step {
        RegisterStep::Create { username, password_hash } => {
            assert_eq!(username, "alice");
            assert_ne!(password_hash, "secret123");
            assert_eq!(password_hash.len(), 60);
            assert!(password_hash.starts_with("$2b$12$"));
            assert!(bcrypt::verify("secret123", &password_hash).unwrap());
            assert!(!bcrypt::verify("secret124", &password_hash).unwrap());
        }
        _ => panic!("expected a user to create"),
    }
}

#[test]
fn registration_finish() {
    let r = register_finish(Ok(user(42, "h", true))).unwrap();
    assert!(r.success);
    assert_eq!(r.message, "User registered successfully");
    assert_eq!(r.user_id, Some(42));
    assert_eq!(register_finish(Err(db_err())).unwrap_err(), StatusCode::InternalServerError);
}

fn login(p: &str) -> LoginRequest {
    LoginRequest { username: "alice".to_string(), password: p.to_string() }
}

#[test]
fn login_refusals() {
    match login_check(&login("pw"), Ok(None)) {
        LoginStep::Reply(r) => assert_eq!(r.message, "Invalid username or password"),
        _ => panic!(),
    }
    match login_check(&login("pw"), Err(db_err())) {
        LoginStep::Fail(s) => assert_eq!(s, StatusCode::InternalServerError),
        _ => panic!(),
    }
    match login_check(&login("pw"), Ok(Some(user(1, "not a hash", false)))) {
        LoginStep::Reply(r) => assert_eq!(r.message, "Account is disabled"),
        _ => panic!(),
    }
    match login_check(&login("pw"), Ok(Some(user(1, "not a hash", true)))) {
        LoginStep::Reply(r) => {
            assert!(!r.success);
            assert_eq!(r.message, "Invalid username or password");
        }
        _ => panic!(),
    }
}

#[test]
fn login_with_right_password_opens_a_session() {
    let hash = bcrypt::hash("hunter22", 4).unwrap();
    match login_check(&login("hunter22"), Ok(Some(user(7, &hash, true)))) {
        LoginStep::StartSession(p) => {
            assert_eq!(p.user_id, 7);
            assert_eq!(p.session_id.len(), 36);
            assert!(uuid::Uuid::parse_str(&p.session_id).is_ok());
            // version 4, RFC variant
            assert_eq!(p.session_id.as_bytes()[14], b'4');
            assert!(b"89ab".contains(&p.session_id.as_bytes()[19]));
            assert_eq!(
                p.cookie,
                format!("session_id={}; Path=/; HttpOnly; SameSite=Strict; Max-Age=86400", p.session_id)
            );
            // The browser sends the pair back; it names the same session.
            let pair = format!("session_id={}", p.session_id);
            let mut h = Headers::new();
            h.append("cookie", pair.as_bytes());
            assert_eq!(session_candidates(&h), vec![p.session_id.clone()]);
            let reply = login_finish(p, Ok(())).unwrap();
            assert!(reply.body.success);
            assert_eq!(reply.body.message, "Login successful");
            assert_eq!(reply.body.user_id, Some(7));
            assert!(reply.set_cookie.starts_with("session_id="));
        }
        _ => panic!("expected a session"),
    }
    match login_check(&login("hunter23"), Ok(Some(user(7, &hash, true)))) {
        LoginStep::Reply(r) => assert_eq!(r.message, "Invalid username or password"),
        _ => panic!(),
    }
}

#[test]
fn session_store_failure_is_server_error() {
    let hash = bcrypt::hash("hunter22", 4).unwrap();
    match login_check(&login("hunter22"), Ok(Some(user(7, &hash, true)))) {
        LoginStep::StartSession(p) => {
            assert_eq!(login_finish(p, Err(db_err())).err(), Some(StatusCode::InternalServerError));
        }
        _ => panic!(),
    }
}

#[test]
fn logout_and_check_auth_answers() {
    let r = logout();
    assert!(r.success);
    assert_eq!(r.message, "Logged out successfully");
    assert_eq!(r.user_id, None);
    let r = check_auth();
    assert!(!r.success);
    assert_eq!(r.message, "Not authenticated");
    assert_eq!(r.user_id, None);
}

#[test]
fn registered_password_logs_in() {
    let request = reg("carol", "correct horse");
    assert!(register_validate(&request).is_none());
    let hash = match register_after_lookup(&request, Err(db_err())) {
        RegisterStep::Create { password_hash, .. } => password_hash,
        _ => panic!("a failed lookup still lets the registration go on"),
    };
    let stored = user(11, &hash, true);
    match login_check(&login("correct horse"), Ok(Some(stored))) {
        LoginStep::StartSession(p) => {
            assert_eq!(p.user_id, 11);
            assert!(p.cookie.bytes().all(|b| (32..127).contains(&b)));
        }
        _ => panic!("the registered password must log in"),
    }
}

#[test]
fn session_from_drawn_uuid() {
    let p = session_for(5, 0x0123456789abcdef0011223344556677);
    assert_eq!(p.user_id, 5);
    assert_eq!(p.session_id, "01234567-89ab-cdef-0011-223344556677");
    assert_eq!(
        p.cookie,
        "session_id=01234567-89ab-cdef-0011-223344556677; Path=/; HttpOnly; SameSite=Strict; Max-Age=86400"
    );
}

#[test]
fn session_lookup_steps() {
    assert_eq!(known_session_user(Ok(Some(9))), Some(9));
    assert_eq!(known_session_user(Ok(None)), None);
    assert_eq!(known_session_user(Err(db_err())), None);
}
