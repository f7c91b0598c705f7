use vstd::prelude::*;
use crate::models::{DbError, UpdateWebhookRequest, Webhook, WebhookResponse};
use crate::status::StatusCode;

verus! {

broadcast use vstd::seq_lib::group_seq_properties;

/// The public URL at which a webhook receives deliveries.
pub open spec fn webhook_url_text(base_url: Seq<char>, endpoint: Seq<char>) -> Seq<char> {
    base_url + "/webhook/"@ + endpoint
}

/// The public URL of a webhook: the service's base URL, `/webhook/`, and
/// the webhook's endpoint.
pub fn webhook_url(base_url: &str, endpoint: &str) -> (r: String)
    ensures
        r@ == webhook_url_text(base_url@, endpoint@),
{
    let mut s = base_url.to_owned();
    s.append("/webhook/");
    s.append(endpoint);
    s
}

/// The view of an optional string.
pub open spec fn opt_view(s: Option<String>) -> Option<Seq<char>> {
    match s {
        Some(t) => Some(t@),
        None => None,
    }
}

/// `r` shows the webhook `w` with the event count `count`, under the base
/// URL `base_url`.
pub open spec fn shows_webhook(r: WebhookResponse, w: Webhook, base_url: Seq<char>, count: i64) -> bool {
    &&& r.id == w.id
    &&& r.name@ == w.name@
    &&& r.endpoint@ == w.endpoint@
    &&& r.url@ == webhook_url_text(base_url, w.endpoint@)
    &&& r.secret@ == w.secret@
    &&& opt_view(r.description) == opt_view(w.description)
    &&& r.is_active == w.is_active
    &&& r.created_at == w.created_at
    &&& r.updated_at == w.updated_at
    &&& r.event_count == count
}

/// A webhook is shown as it is stored: a response that shows `w` carries
/// `w`'s own id, name, endpoint, secret, description, times and activity
/// flag (an inactive webhook is shown inactive), its public URL is the base
/// URL followed by `/webhook/` and the endpoint, and its event count is the
/// one given.
pub proof fn lemma_response_shows_the_webhook(r: WebhookResponse, w: Webhook, base_url: Seq<char>, count: i64)
    requires
        shows_webhook(r, w, base_url, count),
    ensures
        r.id == w.id,
        r.name@ == w.name@,
        r.endpoint@ == w.endpoint@,
        r.secret@ == w.secret@,
        opt_view(r.description) == opt_view(w.description),
        r.is_active == w.is_active,
        r.created_at == w.created_at,
        r.updated_at == w.updated_at,
        r.url@ == base_url + "/webhook/"@ + w.endpoint@,
        r.event_count == count,
{
}

/// A copy of an optional string.
fn clone_opt(s: &Option<String>) -> (r: Option<String>)
    ensures
        opt_view(r) == opt_view(*s),
{
    match s {
        Some(t) => Some(t.clone()),
        None => None,
    }
}

/// How the API shows a webhook: its fields, its public URL and its event
/// count.
pub fn webhook_response(webhook: &Webhook, base_url: &str, event_count: i64) -> (r: WebhookResponse)
    ensures
        shows_webhook(r, *webhook, base_url@, event_count),
        r.id == webhook.id,
        r.is_active == webhook.is_active,
        r.secret@ == webhook.secret@,
        r.url@ == base_url@ + "/webhook/"@ + webhook.endpoint@,
        r.event_count == event_count,
{
    WebhookResponse {
        id: webhook.id,
        name: webhook.name.clone(),
        endpoint: webhook.endpoint.clone(),
        url: webhook_url(base_url, webhook.endpoint.as_str()),
        secret: webhook.secret.clone(),
        description: clone_opt(&webhook.description),
        is_active: webhook.is_active,
        created_at: webhook.created_at,
        updated_at: webhook.updated_at,
        event_count,
    }
}

/// The listing of a user's webhooks, in the order given, each with an
/// event count of 0 (the listing does not count events).
pub fn webhook_responses(webhooks: &Vec<Webhook>, base_url: &str) -> (r: Vec<WebhookResponse>)
    ensures
        r@.len() == webhooks@.len(),
        forall|i: int| 0 <= i < r@.len() ==> shows_webhook(#[trigger] r@[i], webhooks@[i], base_url@, 0),
        forall|i: int| 0 <= i < r@.len() ==> (#[trigger] r@[i]).is_active == webhooks@[i].is_active,
{
    let mut out: Vec<WebhookResponse> = Vec::new();
    let n = webhooks.len();
    let mut i: usize = 0;
    while i < n
        invariant
            n == webhooks@.len(),
            i <= n,
            out@.len() == i,
            forall|j: int| 0 <= j < i ==> shows_webhook(#[trigger] out@[j], webhooks@[j], base_url@, 0),
        decreases n - i,
    {
        out.push(webhook_response(&webhooks[i], base_url, 0));
        i = i + 1;
    }
    out
}

/// The event count of a webhook, or 0 when counting failed.
pub fn event_count_or_zero(count: Result<i64, DbError>) -> (r: i64)
    ensures
        count matches Ok(c) ==> r == c,
        count is Err ==> r == 0,
{
    match count {
        Ok(c) => c,
        Err(_) => 0,
    }
}

/// A protected request goes on only with a signed-in user; without one it
/// is unauthorized.
pub fn require_user(user: Option<u128>) -> (r: Result<u128, StatusCode>)
    ensures
        user matches Some(u) ==> r == Ok::<u128, StatusCode>(u),
        user is None ==> r == Err::<u128, StatusCode>(StatusCode::Unauthorized),
{
    match user {
        Some(u) => Ok(u),
        None => Err(StatusCode::Unauthorized),
    }
}

/// The outcome of a lookup of one record: the record, `NotFound` when there
/// is none, `InternalServerError` when the lookup failed.
pub fn found_or_status<T>(lookup: Result<Option<T>, DbError>) -> (r: Result<T, StatusCode>)
    ensures
        lookup matches Ok(Some(t)) ==> (r matches Ok(u) && u == t),
        lookup matches Ok(None) ==> (r matches Err(s) && s == StatusCode::NotFound),
        lookup is Err ==> (r matches Err(s) && s == StatusCode::InternalServerError),
{
    match lookup {
        Ok(Some(t)) => Ok(t),
        Ok(None) => Err(StatusCode::NotFound),
        Err(_) => Err(StatusCode::InternalServerError),
    }
}

/// The outcome of a database operation: its result, or
/// `InternalServerError` when it failed.
pub fn ok_or_server_error<T>(result: Result<T, DbError>) -> (r: Result<T, StatusCode>)
    ensures
        result matches Ok(t) ==> (r matches Ok(u) && u == t),
        result is Err ==> (r matches Err(s) && s == StatusCode::InternalServerError),
{
    match result {
        Ok(t) => Ok(t),
        Err(_) => Err(StatusCode::InternalServerError),
    }
}

/// The answer to a deletion: `NoContent` once done, whether or not the
/// webhook existed; `InternalServerError` when the deletion failed.
pub fn deletion_status(result: Result<(), DbError>) -> (r: Result<StatusCode, StatusCode>)
    ensures
        result is Ok ==> r == Ok::<StatusCode, StatusCode>(StatusCode::NoContent),
        result is Err ==> r == Err::<StatusCode, StatusCode>(StatusCode::InternalServerError),
{
    match result {
        Ok(()) => Ok(StatusCode::NoContent),
        Err(_) => Err(StatusCode::InternalServerError),
    }
}

/// The parameters of a webhook update as the database statement takes
/// them: an absent name or description is sent as the empty string, which
/// the statement reads as "keep the stored one"; an absent `is_active` is
/// sent as `true`, so an update that does not mention it re-activates the
/// webhook.
pub struct UpdateParams {
    pub name: String,
    pub description: String,
    pub is_active: bool,
}

pub fn update_params(request: &UpdateWebhookRequest) -> (r: UpdateParams)
    ensures
        r.name@ == (match request.name {
            Some(n) => n@,
            None => Seq::<char>::empty(),
        }),
        r.description@ == (match request.description {
            Some(d) => d@,
            None => Seq::<char>::empty(),
        }),
        r.is_active == (match request.is_active {
            Some(b) => b,
            None => true,
        }),
{
    let name = match &request.name {
        Some(n) => n.clone(),
        None => String::new(),
    };
    let description = match &request.description {
        Some(d) => d.clone(),
        None => String::new(),
    };
    let is_active = match request.is_active {
        Some(b) => b,
        None => true,
    };
    UpdateParams { name, description, is_active }
}

/// The page of a user's or a webhook's events to read: at most `limit`
/// events, 100 when no limit is given, skipping `offset` (0 when not given).
pub fn page_bounds(limit: Option<i64>, offset: Option<i64>) -> (r: (i64, i64))
    ensures
        r.0 == (match limit {
            Some(l) => l,
            None => 100,
        }),
        r.1 == (match offset {
            Some(o) => o,
            None => 0,
        }),
{
    let l = match limit {
        Some(l) => l,
        None => 100,
    };
    let o = match offset {
        Some(o) => o,
        None => 0,
    };
    (l, o)
}

/// The page of the listing of all stored events: at most `limit` events
/// when a limit is given and all of them otherwise (the database statement
/// reads a missing limit as no limit), skipping `offset` (0 when not given).
pub fn listing_bounds(limit: Option<i64>, offset: Option<i64>) -> (r: (Option<i64>, i64))
    ensures
        r.0 == limit,
        r.1 == (match offset {
            Some(o) => o,
            None => 0,
        }),
{
    let o = match offset {
        Some(o) => o,
        None => 0,
    };
    (limit, o)
}

} // verus!
