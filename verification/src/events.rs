use vstd::prelude::*;
use crate::detect::{detect_webhook_type, detected_type};
use crate::headers::{is_string_map_of, pairs_view, Headers};
use crate::json::{json_document, parse_json, JsonValue};
use crate::models::{DbError, Timestamp, Webhook, WebhookEvent};
use crate::signature::{secret_view, signature_verdict, verify_webhook_signature};
use crate::status::StatusCode;
use crate::webhooks::opt_view;

verus! {

/// What the receiving side knows of a delivery besides its content: the
/// fresh id for its record, when it arrived (the event time and the record
/// time, taken one after the other), and the address it came from.
pub struct Arrival {
    pub id: u128,
    pub timestamp: Timestamp,
    pub created_at: Timestamp,
    pub source_ip: Option<String>,
}

/// `e` records the delivery with headers `h` and body `body`, arriving as
/// `arrival`, for `endpoint` and the given owner and webhook.
pub open spec fn records_delivery(
    e: WebhookEvent,
    h: Headers,
    body: JsonValue,
    arrival: Arrival,
    endpoint: Seq<char>,
    user_id: Option<u128>,
    webhook_id: Option<u128>,
) -> bool {
    &&& e.id == arrival.id
    &&& e.user_id == user_id
    &&& e.webhook_id == webhook_id
    &&& e.timestamp == arrival.timestamp
    &&& e.created_at == arrival.created_at
    &&& is_string_map_of(pairs_view(e.headers@), h@)
    &&& e.body == body
    &&& opt_view(e.source_ip) == opt_view(arrival.source_ip)
    &&& e.endpoint@ == endpoint
    &&& e.event_type matches Some(t) && t@ == detected_type(h@, body)
    &&& e.status_code == 200
}

/// The decision on a delivery with headers `headers` and raw body `raw`:
/// the signature is checked first, against the raw body and `secret`; a
/// body that is not a JSON document is then a bad request; otherwise the
/// delivery is recorded, with its JSON body, its detected type and status
/// 200, for `endpoint` and the given owner and webhook.
pub open spec fn decides_delivery(
    r: Result<WebhookEvent, StatusCode>,
    headers: Headers,
    raw: Seq<u8>,
    secret: Option<Seq<char>>,
    arrival: Arrival,
    endpoint: Seq<char>,
    user_id: Option<u128>,
    webhook_id: Option<u128>,
) -> bool {
    match signature_verdict(headers@, raw, secret) {
        Err(s) => r == Err::<WebhookEvent, StatusCode>(s),
        Ok(()) => match json_document(raw) {
            None => r == Err::<WebhookEvent, StatusCode>(StatusCode::BadRequest),
            Some(body) => r matches Ok(e) && records_delivery(
                e,
                headers,
                body,
                arrival,
                endpoint,
                user_id,
                webhook_id,
            ),
        },
    }
}

/// A recorded delivery keeps what came with it, whoever owns it: its
/// headers (each name with its last value), its body as the JSON document
/// of the raw bytes, status 200, and the owner and webhook given (none for
/// the generic endpoint); and it was recorded only because its signature
/// passed.
pub proof fn lemma_recorded_delivery_keeps_request(
    r: Result<WebhookEvent, StatusCode>,
    headers: Headers,
    raw: Seq<u8>,
    secret: Option<Seq<char>>,
    arrival: Arrival,
    endpoint: Seq<char>,
    user_id: Option<u128>,
    webhook_id: Option<u128>,
)
    requires
        decides_delivery(r, headers, raw, secret, arrival, endpoint, user_id, webhook_id),
        r is Ok,
    ensures
        is_string_map_of(pairs_view(r->Ok_0.headers@), headers@),
        json_document(raw) == Some(r->Ok_0.body),
        r->Ok_0.status_code == 200,
        r->Ok_0.user_id == user_id,
        r->Ok_0.webhook_id == webhook_id,
        r->Ok_0.endpoint@ == endpoint,
        r->Ok_0.id == arrival.id,
        signature_verdict(headers@, raw, secret) is Ok,
{
}

/// The decision on a delivery, as `decides_delivery` states it: the body is
/// parsed as JSON only once the signature holds.
pub fn receive_event(
    headers: &Headers,
    raw_body: &[u8],
    secret: Option<&String>,
    endpoint: String,
    user_id: Option<u128>,
    webhook_id: Option<u128>,
    arrival: Arrival,
) -> (r: Result<WebhookEvent, StatusCode>)
    ensures
        decides_delivery(r, *headers, raw_body@, secret_view(secret), arrival, endpoint@, user_id, webhook_id),
        r is Ok ==> is_string_map_of(pairs_view(r->Ok_0.headers@), headers@),
        r is Ok ==> r->Ok_0.user_id == user_id && r->Ok_0.webhook_id == webhook_id,
        r is Ok ==> json_document(raw_body@) == Some(r->Ok_0.body),
{
    if let Err(status) = verify_webhook_signature(headers, raw_body, secret) {
        return Err(status);
    }
    let body = match parse_json(raw_body) {
        Some(b) => b,
        None => {
            return Err(StatusCode::BadRequest);
        },
    };
    let headers_map = headers.to_string_map();
    let event_type = detect_webhook_type(headers, &body);
    Ok(
        WebhookEvent {
            id: arrival.id,
            user_id,
            webhook_id,
            timestamp: arrival.timestamp,
            headers: headers_map,
            body,
            source_ip: arrival.source_ip,
            endpoint,
            event_type: Some(event_type),
            status_code: 200,
            created_at: arrival.created_at,
        },
    )
}

/// A delivery to a webhook's own endpoint: checked against the webhook's
/// secret and recorded for the webhook and its owner.
pub fn receive_for_webhook(
    webhook: &Webhook,
    endpoint: String,
    headers: &Headers,
    raw_body: &[u8],
    arrival: Arrival,
) -> (r: Result<WebhookEvent, StatusCode>)
    ensures
        decides_delivery(
            r,
            *headers,
            raw_body@,
            Some(webhook.secret@),
            arrival,
            endpoint@,
            webhook.user_id,
            Some(webhook.id),
        ),
{
    receive_event(headers, raw_body, Some(&webhook.secret), endpoint, webhook.user_id, Some(webhook.id), arrival)
}

/// A delivery to a named endpoint, given the lookup of the webhook
/// registered for it, active or not (an active one where there is one):
/// - a failed lookup is a server error;
/// - a webhook that is registered but inactive refuses deliveries with
///   `NotFound`, and nothing is examined or recorded;
/// - an active webhook's delivery is checked against that webhook's secret
///   and recorded for it and its owner;
/// - a delivery to an endpoint that no webhook was registered for (such as
///   `github` in a deployment that uses the service-wide secret) is checked
///   against the service-wide secret, when one is configured, and recorded
///   under the endpoint's name with no owner and no webhook.
pub fn receive_named(
    lookup: Result<Option<Webhook>, DbError>,
    service_secret: Option<&String>,
    endpoint: String,
    headers: &Headers,
    raw_body: &[u8],
    arrival: Arrival,
) -> (r: Result<WebhookEvent, StatusCode>)
    ensures
        lookup is Err ==> r == Err::<WebhookEvent, StatusCode>(StatusCode::InternalServerError),
        lookup is Ok && lookup->Ok_0 is Some && !lookup->Ok_0->0.is_active ==> r == Err::<
            WebhookEvent,
            StatusCode,
        >(StatusCode::NotFound),
        lookup is Ok && lookup->Ok_0 is Some && lookup->Ok_0->0.is_active ==> decides_delivery(
            r,
            *headers,
            raw_body@,
            Some(lookup->Ok_0->0.secret@),
            arrival,
            endpoint@,
            lookup->Ok_0->0.user_id,
            Some(lookup->Ok_0->0.id),
        ),
        r is Ok ==> lookup is Ok,
        r is Ok ==> is_string_map_of(pairs_view(r->Ok_0.headers@), headers@),
        r is Ok && lookup->Ok_0 is Some ==> lookup->Ok_0->0.is_active && signature_verdict(
            headers@,
            raw_body@,
            Some(lookup->Ok_0->0.secret@),
        ) is Ok,
        r is Ok && lookup->Ok_0 is None ==> signature_verdict(
            headers@,
            raw_body@,
            secret_view(service_secret),
        ) is Ok,
        lookup is Ok && lookup->Ok_0 is None ==> decides_delivery(
            r,
            *headers,
            raw_body@,
            secret_view(service_secret),
            arrival,
            endpoint@,
            None,
            None,
        ),
{
    match lookup {
        Err(_) => Err(StatusCode::InternalServerError),
        Ok(Some(webhook)) => {
            if webhook.is_active {
                receive_for_webhook(&webhook, endpoint, headers, raw_body, arrival)
            } else {
                Err(StatusCode::NotFound)
            }
        },
        Ok(None) => receive_event(headers, raw_body, service_secret, endpoint, None, None, arrival),
    }
}

/// A delivery to the generic endpoint: checked against the service-wide
/// secret when one is configured, and recorded under the endpoint name
/// `generic` with no owner and no webhook.
pub fn receive_generic(
    secret: Option<&String>,
    headers: &Headers,
    raw_body: &[u8],
    arrival: Arrival,
) -> (r: Result<WebhookEvent, StatusCode>)
    ensures
        decides_delivery(r, *headers, raw_body@, secret_view(secret), arrival, "generic"@, None, None),
        r is Ok ==> is_string_map_of(pairs_view(r->Ok_0.headers@), headers@),
{
    receive_event(headers, raw_body, secret, "generic".to_owned(), None, None, arrival)
}

/// How many of the most recent events the store keeps, as the database
/// statement that removes older ones takes it: `max_events`, or the largest
/// `i64` where `max_events` is larger.
pub fn retention_offset(max_events: usize) -> (r: i64)
    ensures
        max_events <= i64::MAX ==> r == max_events as i64,
        max_events > i64::MAX ==> r == i64::MAX,
{
    if (max_events as u64) <= (i64::MAX as u64) {
        max_events as i64
    } else {
        i64::MAX
    }
}

/// The acknowledgement of a stored delivery.
pub struct Receipt {
    pub id: u128,
    pub timestamp: Timestamp,
    pub endpoint: String,
    pub webhook_id: Option<u128>,
}

/// The acknowledgement of a stored delivery: status `received`, the
/// record's id and time, the endpoint, and the webhook when there is one.
pub fn receipt(event: &WebhookEvent) -> (r: Receipt)
    ensures
        r.id == event.id,
        r.timestamp == event.timestamp,
        r.endpoint@ == event.endpoint@,
        r.webhook_id == event.webhook_id,
{
    Receipt {
        id: event.id,
        timestamp: event.timestamp,
        endpoint: event.endpoint.clone(),
        webhook_id: event.webhook_id,
    }
}

} // verus!
