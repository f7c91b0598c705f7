use vstd::prelude::*;
use crate::headers::{header_get, HeaderSeq, Headers};
use crate::json::{json_get, JsonValue};
use crate::text::{concat, header_text, header_value_to_str};

verus! {

broadcast use vstd::seq_lib::group_seq_properties;

/// The text of a header, or `unknown` when it is absent or not text.
pub open spec fn header_text_or_unknown(h: HeaderSeq, name: Seq<char>) -> Seq<char> {
    match header_get(h, name) {
        Some(v) => match header_text(v) {
            Some(t) => t,
            None => "unknown"@,
        },
        None => "unknown"@,
    }
}

/// The text of a JSON string, or `unknown` for any other JSON value.
pub open spec fn json_text_or_unknown(v: JsonValue) -> Seq<char> {
    match v {
        JsonValue::Str(s) => s@,
        _ => "unknown"@,
    }
}

/// The type of a webhook delivery, named after its sender: the event
/// headers of GitHub, GitLab and Bitbucket are looked at first, in that
/// order; then a `type` member of the body marks a Stripe event, a `zen`
/// member a GitHub ping and a `hook_id` member a generic hook.
pub open spec fn detected_type(h: HeaderSeq, body: JsonValue) -> Seq<char> {
    if header_get(h, "x-github-event"@) is Some {
        "GitHub "@ + header_text_or_unknown(h, "x-github-event"@)
    } else if header_get(h, "x-gitlab-event"@) is Some {
        "GitLab "@ + header_text_or_unknown(h, "x-gitlab-event"@)
    } else if header_get(h, "x-bitbucket-event"@) is Some {
        "Bitbucket "@ + header_text_or_unknown(h, "x-bitbucket-event"@)
    } else if json_get(body, "type"@) is Some {
        "Stripe "@ + json_text_or_unknown(json_get(body, "type"@).unwrap())
    } else if json_get(body, "zen"@) is Some {
        "GitHub Ping"@
    } else if json_get(body, "hook_id"@) is Some {
        "Generic Hook"@
    } else {
        "Unknown"@
    }
}

/// The text of a header, or `unknown`.
fn header_or_unknown(headers: &Headers, name: &str) -> (r: String)
    ensures
        r@ == header_text_or_unknown(headers@, name@),
{
    match headers.get(name) {
        Some(v) => match header_value_to_str(v) {
            Some(t) => t,
            None => "unknown".to_owned(),
        },
        None => "unknown".to_owned(),
    }
}

/// Names the type of a webhook delivery from its headers and body.
pub fn detect_webhook_type(headers: &Headers, body: &JsonValue) -> (r: String)
    ensures
        r@ == detected_type(headers@, *body),
{
    if headers.contains_key("x-github-event") {
        let t = header_or_unknown(headers, "x-github-event");
        concat("GitHub ", t.as_str())
    } else if headers.contains_key("x-gitlab-event") {
        let t = header_or_unknown(headers, "x-gitlab-event");
        concat("GitLab ", t.as_str())
    } else if headers.contains_key("x-bitbucket-event") {
        let t = header_or_unknown(headers, "x-bitbucket-event");
        concat("Bitbucket ", t.as_str())
    } else if let Some(stripe_event) = body.get("type") {
        let t = match stripe_event.as_str() {
            Some(s) => s,
            None => "unknown",
        };
        concat("Stripe ", t)
    } else if body.get("zen").is_some() {
        "GitHub Ping".to_owned()
    } else if body.get("hook_id").is_some() {
        "Generic Hook".to_owned()
    } else {
        "Unknown".to_owned()
    }
}

/// The sender family that a delivery's follow-up handling is chosen by.
#[derive(Clone, Copy, Debug, PartialEq, Eq, Structural)]
pub enum WebhookSource {
    GitHub,
    GitLab,
    Bitbucket,
    Stripe,
    Generic,
}

/// `s` begins with `p`.
pub open spec fn has_prefix(s: Seq<char>, p: Seq<char>) -> bool {
    p.len() <= s.len() && s.take(p.len() as int) == p
}

/// The sender family of a detected type, by its leading word, as the
/// service dispatches a delivery for follow-up handling.
pub open spec fn source_of_type(t: Seq<char>) -> WebhookSource {
    if has_prefix(t, "GitHub"@) {
        WebhookSource::GitHub
    } else if has_prefix(t, "GitLab"@) {
        WebhookSource::GitLab
    } else if has_prefix(t, "Bitbucket"@) {
        WebhookSource::Bitbucket
    } else if has_prefix(t, "Stripe"@) {
        WebhookSource::Stripe
    } else {
        WebhookSource::Generic
    }
}

/// Whether `s` begins with `p`, compared character by character.
fn starts_with(s: &str, p: &str) -> (r: bool)
    ensures
        r == has_prefix(s@, p@),
{
    let n = s.unicode_len();
    let m = p.unicode_len();
    if m > n {
        return false;
    }
    let mut i: usize = 0;
    while i < m
        invariant
            n == s@.len(),
            m == p@.len(),
            m <= n,
            0 <= i <= m,
            forall|j: int| 0 <= j < i ==> s@[j] == p@[j],
        decreases m - i,
    {
        if s.get_char(i) != p.get_char(i) {
            assert(s@.take(m as int)[i as int] != p@[i as int]);
            return false;
        }
        i = i + 1;
    }
    assert(s@.take(m as int) =~= p@);
    true
}

/// The sender family of a detected webhook type.
pub fn source_of(event_type: &str) -> (r: WebhookSource)
    ensures
        r == source_of_type(event_type@),
{
    if starts_with(event_type, "GitHub") {
        WebhookSource::GitHub
    } else if starts_with(event_type, "GitLab") {
        WebhookSource::GitLab
    } else if starts_with(event_type, "Bitbucket") {
        WebhookSource::Bitbucket
    } else if starts_with(event_type, "Stripe") {
        WebhookSource::Stripe
    } else {
        WebhookSource::Generic
    }
}

/// The sender family of a delivery, read off its headers and body.
pub open spec fn source_of_request(h: HeaderSeq, body: JsonValue) -> WebhookSource {
    if header_get(h, "x-github-event"@) is Some {
        WebhookSource::GitHub
    } else if header_get(h, "x-gitlab-event"@) is Some {
        WebhookSource::GitLab
    } else if header_get(h, "x-bitbucket-event"@) is Some {
        WebhookSource::Bitbucket
    } else if json_get(body, "type"@) is Some {
        WebhookSource::Stripe
    } else if json_get(body, "zen"@) is Some {
        WebhookSource::GitHub
    } else {
        WebhookSource::Generic
    }
}

/// Dispatching on the detected type agrees with the sender that detection
/// recognised: a GitHub, GitLab or Bitbucket event header, a Stripe `type`
/// member or a GitHub `zen` ping each lead to their own sender's handling,
/// and anything else to the generic handling.
pub proof fn lemma_dispatch_follows_detection(h: HeaderSeq, body: JsonValue)
    ensures
        source_of_type(detected_type(h, body)) == source_of_request(h, body),
{
    reveal_strlit("GitHub ");
    reveal_strlit("GitLab ");
    reveal_strlit("Bitbucket ");
    reveal_strlit("Stripe ");
    reveal_strlit("GitHub Ping");
    reveal_strlit("Generic Hook");
    reveal_strlit("Unknown");
    reveal_strlit("GitHub");
    reveal_strlit("GitLab");
    reveal_strlit("Bitbucket");
    reveal_strlit("Stripe");
    let t = detected_type(h, body);
    if header_get(h, "x-github-event"@) is Some {
        assert(t.take(6) =~= "GitHub"@);
    } else if header_get(h, "x-gitlab-event"@) is Some {
        assert(t.take(6) =~= "GitLab"@);
        assert(t.take(6)[3] != ("GitHub"@)[3]);
    } else if header_get(h, "x-bitbucket-event"@) is Some {
        assert(t.take(9) =~= "Bitbucket"@);
        assert(t.take(6)[0] != ("GitHub"@)[0]);
        assert(t.take(6)[0] != ("GitLab"@)[0]);
    } else if json_get(body, "type"@) is Some {
        assert(t.take(6) =~= "Stripe"@);
        assert(t.take(6)[0] != ("GitHub"@)[0]);
        assert(t.take(6)[0] != ("GitLab"@)[0]);
        if t.len() >= 9 {
            assert(t.take(9)[0] != ("Bitbucket"@)[0]);
        }
    } else if json_get(body, "zen"@) is Some {
        assert(t.take(6) =~= "GitHub"@);
    } else if json_get(body, "hook_id"@) is Some {
        assert(t == "Generic Hook"@);
        assert(t.len() == 12);
        assert(t.take(6)[3] != ("GitHub"@)[3]);
        assert(t.take(6)[3] != ("GitLab"@)[3]);
        assert(t.take(9)[0] != ("Bitbucket"@)[0]);
        assert(t.take(6)[0] != ("Stripe"@)[0]);
    } else {
        assert(t.len() == 7);
        assert(t.take(6)[0] != ("GitHub"@)[0]);
        assert(t.take(6)[0] != ("GitLab"@)[0]);
        assert(t.len() < 9);
        assert(t.take(6)[0] != ("Stripe"@)[0]);
    }
}

} // verus!
