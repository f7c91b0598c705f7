use vstd::prelude::*;
use crate::json::JsonValue;

verus! {

/// A point in time, in UTC: whole seconds since the Unix epoch and the
/// nanoseconds past that second.
#[derive(Clone, Copy, Debug, PartialEq, Eq, Structural)]
pub struct Timestamp {
    pub seconds: i64,
    pub nanos: u32,
}

/// A registered account. Identifiers are the 128-bit values of UUIDs.
#[derive(Clone, Debug)]
pub struct User {
    pub id: u128,
    pub username: String,
    pub password_hash: String,
    pub created_at: Timestamp,
    pub updated_at: Timestamp,
    pub is_active: bool,
}

/// The body of a login request.
#[derive(Clone, Debug)]
pub struct LoginRequest {
    pub username: String,
    pub password: String,
}

/// The body of a registration request.
#[derive(Clone, Debug)]
pub struct RegisterRequest {
    pub username: String,
    pub password: String,
}

/// The answer to a registration, login, logout or session check.
#[derive(Clone, Debug)]
pub struct AuthResponse {
    pub success: bool,
    pub message: String,
    pub user_id: Option<u128>,
}

/// A webhook endpoint owned by a user.
#[derive(Clone, Debug)]
pub struct Webhook {
    pub id: u128,
    pub user_id: Option<u128>,
    pub name: String,
    pub endpoint: String,
    pub secret: String,
    pub description: Option<String>,
    pub is_active: bool,
    pub created_at: Timestamp,
    pub updated_at: Timestamp,
}

/// The body of a request that creates a webhook.
#[derive(Clone, Debug)]
pub struct CreateWebhookRequest {
    pub name: String,
    pub endpoint: String,
    pub description: Option<String>,
}

/// The body of a request that changes a webhook; absent fields are left as
/// they are, except as `update_params` says.
#[derive(Clone, Debug)]
pub struct UpdateWebhookRequest {
    pub name: Option<String>,
    pub description: Option<String>,
    pub is_active: Option<bool>,
}

/// A webhook as the API shows it: with its public URL and its event count.
#[derive(Clone, Debug)]
pub struct WebhookResponse {
    pub id: u128,
    pub name: String,
    pub endpoint: String,
    pub url: String,
    pub secret: String,
    pub description: Option<String>,
    pub is_active: bool,
    pub created_at: Timestamp,
    pub updated_at: Timestamp,
    pub event_count: i64,
}

/// A received webhook delivery, as it is stored. The headers are a map from
/// name to text, each name once.
#[derive(Debug)]
pub struct WebhookEvent {
    pub id: u128,
    pub user_id: Option<u128>,
    pub webhook_id: Option<u128>,
    pub timestamp: Timestamp,
    pub headers: Vec<(String, String)>,
    pub body: JsonValue,
    pub source_ip: Option<String>,
    pub endpoint: String,
    pub event_type: Option<String>,
    pub status_code: i32,
    pub created_at: Timestamp,
}

/// The query of a request that lists events.
#[derive(Clone, Debug)]
pub struct ListQuery {
    pub limit: Option<i64>,
    pub offset: Option<i64>,
    pub webhook: Option<u128>,
}

/// The failure of a database operation, with the database's own words.
#[derive(Clone, Debug)]
pub struct DbError {
    pub message: String,
}

} // verus!
