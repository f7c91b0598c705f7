use vstd::prelude::*;
use vstd::utf8::encode_utf8;
use hmac::Mac;
use crate::headers::{header_get, HeaderSeq, Headers};
use crate::status::StatusCode;
use crate::text::{
    all_visible_ascii, bytes_eq, bytes_eq_ignore_ascii_case, check_visible_ascii,
    eq_ignore_ascii_case, is_visible_ascii,
};

verus! {

broadcast use vstd::seq_lib::group_seq_properties;

/// The error of `hmac::Mac::new_from_slice` of the `hmac` crate.
#[verifier::external_type_specification]
#[verifier::external_body]
pub struct ExInvalidLength(hmac::digest::InvalidLength);

/// The HMAC-SHA256 tag of `message` under `key`, as the `hmac` crate with
/// `sha2::Sha256` computes it.
pub uninterp spec fn hmac_sha256_tag(key: Seq<u8>, message: Seq<u8>) -> Seq<u8>;

/// HMAC-SHA256 through the `hmac` crate: `Hmac::<Sha256>::new_from_slice`
/// with the key, `update` with the message, `finalize` and its bytes.
/// Claimed: the result is the tag named `hmac_sha256_tag` of the key and the
/// message, 32 bytes long, and key setup never fails (`HmacCore` accepts a key
/// of any length and always answers `Ok`).
#[verifier::external_body]
fn hmac_sha256(key: &[u8], message: &[u8]) -> (tag: Result<Vec<u8>, hmac::digest::InvalidLength>)
    ensures
        tag is Ok,
        tag matches Ok(t) ==> t@ == hmac_sha256_tag(key@, message@) && t@.len() == 32,
{
    match <hmac::Hmac<sha2::Sha256> as Mac>::new_from_slice(key) {
        Ok(mut mac) => {
            mac.update(message);
            Ok(mac.finalize().into_bytes().to_vec())
        },
        Err(e) => Err(e),
    }
}

/// The ASCII code of the lower-case hexadecimal digit for `n` (0 to 15).
pub open spec fn hex_digit(n: int) -> u8 {
    if n < 10 {
        (48 + n) as u8
    } else {
        (87 + n) as u8
    }
}

/// Lower-case hexadecimal text of bytes, two digits per byte, high nibble
/// first.
pub open spec fn lower_hex(bytes: Seq<u8>) -> Seq<u8>
    decreases bytes.len(),
{
    if bytes.len() == 0 {
        Seq::empty()
    } else {
        seq![hex_digit(bytes[0] as int / 16), hex_digit(bytes[0] as int % 16)] + lower_hex(
            bytes.drop_first(),
        )
    }
}

/// `hex::encode` of the `hex` crate, as bytes of its text. Claimed: lower-case
/// hexadecimal, two digits per byte, high nibble first (its table
/// `HEX_CHARS_LOWER` and `byte2hex`).
#[verifier::external_body]
fn hex_encode(bytes: &[u8]) -> (text: Vec<u8>)
    ensures
        text@ == lower_hex(bytes@),
{
    hex::encode(bytes).into_bytes()
}

/// A lower-case hexadecimal digit.
pub open spec fn is_lower_hex_digit(b: u8) -> bool {
    (48 <= b && b <= 57) || (97 <= b && b <= 102)
}

/// Hexadecimal text has two digits per byte, each a lower-case hex digit.
pub proof fn lemma_lower_hex_digits(bytes: Seq<u8>)
    ensures
        lower_hex(bytes).len() == 2 * bytes.len(),
        forall|i: int| 0 <= i < lower_hex(bytes).len() ==> is_lower_hex_digit(#[trigger] lower_hex(bytes)[i]),
    decreases bytes.len(),
{
    if bytes.len() > 0 {
        lemma_lower_hex_digits(bytes.drop_first());
        let head = seq![hex_digit(bytes[0] as int / 16), hex_digit(bytes[0] as int % 16)];
        assert(lower_hex(bytes) == head + lower_hex(bytes.drop_first()));
        assert forall|i: int| 0 <= i < lower_hex(bytes).len() implies is_lower_hex_digit(
            #[trigger] lower_hex(bytes)[i],
        ) by {
            if i >= 2 {
                assert(lower_hex(bytes)[i] == lower_hex(bytes.drop_first())[i - 2]);
            }
        }
    }
}

/// The bytes of the prefix `sha256=` that GitHub puts before the digest.
pub open spec fn sha256_prefix() -> Seq<u8> {
    encode_utf8("sha256="@)
}

/// The value of the first signature header present, looked up in the order
/// `x-hub-signature-256`, `x-signature-256`, `x-gitlab-token`.
pub open spec fn signature_header(h: HeaderSeq) -> Option<Seq<u8>> {
    match header_get(h, "x-hub-signature-256"@) {
        Some(v) => Some(v),
        None => match header_get(h, "x-signature-256"@) {
            Some(v) => Some(v),
            None => header_get(h, "x-gitlab-token"@),
        },
    }
}

/// A presented signature with a leading `sha256=` removed.
pub open spec fn strip_signature_prefix(s: Seq<u8>) -> Seq<u8> {
    let p = sha256_prefix();
    if s.len() >= p.len() && s.take(p.len() as int) == p {
        s.skip(p.len() as int)
    } else {
        s
    }
}

/// The signature that a body must carry under a secret: the lower-case hex
/// text of the HMAC-SHA256 tag of the body, keyed with the secret's bytes.
pub open spec fn expected_signature(secret: Seq<char>, body: Seq<u8>) -> Seq<u8> {
    lower_hex(hmac_sha256_tag(encode_utf8(secret), body))
}

/// The verdict on a request: with no secret configured, every request
/// passes; otherwise the first signature header present must be text and,
/// after an optional `sha256=`, equal the expected signature up to ASCII
/// case. Every other request is unauthorized.
pub open spec fn signature_verdict(h: HeaderSeq, body: Seq<u8>, secret: Option<Seq<char>>) -> Result<(), StatusCode> {
    match secret {
        None => Ok(()),
        Some(key) => match signature_header(h) {
            None => Err(StatusCode::Unauthorized),
            Some(raw) => if all_visible_ascii(raw) && eq_ignore_ascii_case(
                strip_signature_prefix(raw),
                expected_signature(key, body),
            ) {
                Ok(())
            } else {
                Err(StatusCode::Unauthorized)
            },
        },
    }
}

/// The view of an optional secret.
pub open spec fn secret_view(secret: Option<&String>) -> Option<Seq<char>> {
    match secret {
        Some(s) => Some(s@),
        None => None,
    }
}

/// The first signature header present.
fn find_signature_header(headers: &Headers) -> (r: Option<&[u8]>)
    ensures
        r matches Some(v) ==> signature_header(headers@) == Some(v@),
        r is None ==> signature_header(headers@) is None,
{
    match headers.get("x-hub-signature-256") {
        Some(v) => Some(v),
        None => match headers.get("x-signature-256") {
            Some(v) => Some(v),
            None => headers.get("x-gitlab-token"),
        },
    }
}

/// Removes a leading `sha256=`.
fn strip_prefix_sha256(sig: &[u8]) -> (r: &[u8])
    ensures
        r@ == strip_signature_prefix(sig@),
{
    let prefix = "sha256=".as_bytes();
    if sig.len() >= prefix.len() {
        let (head, tail) = sig.split_at(prefix.len());
        if bytes_eq(head, prefix) {
            return tail;
        }
    }
    sig
}

/// Checks the signature of a webhook request: with no secret, the request
/// passes; otherwise the signature in the first of `x-hub-signature-256`,
/// `x-signature-256` and `x-gitlab-token` that is present, after an
/// optional `sha256=`, must equal the hex HMAC-SHA256 of the body under the
/// secret, in either case. A missing, non-text or wrong signature answers
/// `Unauthorized`.
pub fn verify_webhook_signature(headers: &Headers, body: &[u8], secret: Option<&String>) -> (r: Result<(), StatusCode>)
    ensures
        r == signature_verdict(headers@, body@, secret_view(secret)),
        secret_view(secret) is Some && signature_header(headers@) is Some && all_visible_ascii(
            signature_header(headers@)->0,
        ) ==> hmac_sha256_tag(encode_utf8(secret_view(secret)->0), body@).len() == 32,
        secret is None ==> r is Ok,
        secret is Some ==> (r is Ok <==> signature_header(headers@) is Some && all_visible_ascii(
            signature_header(headers@)->0,
        ) && eq_ignore_ascii_case(
            strip_signature_prefix(signature_header(headers@)->0),
            lower_hex(hmac_sha256_tag(encode_utf8(secret_view(secret)->0), body@)),
        )),
        r is Err ==> r == Err::<(), StatusCode>(StatusCode::Unauthorized),
{
    let secret = match secret {
        None => {
            return Ok(());
        },
        Some(s) => s,
    };
    let raw = match find_signature_header(headers) {
        None => {
            return Err(StatusCode::Unauthorized);
        },
        Some(v) => v,
    };
    if !check_visible_ascii(raw) {
        return Err(StatusCode::Unauthorized);
    }
    let presented = strip_prefix_sha256(raw);
    let key = secret.as_str().as_bytes();
    let tag = match hmac_sha256(key, body) {
        Ok(t) => t,
        Err(_) => {
            return Err(StatusCode::InternalServerError);
        },
    };
    let expected = hex_encode(tag.as_slice());
    if bytes_eq_ignore_ascii_case(presented, expected.as_slice()) {
        Ok(())
    } else {
        Err(StatusCode::Unauthorized)
    }
}

/// A request whose first signature header holds the lower-case hex text of
/// the HMAC-SHA256 of its body, keyed with the configured secret's own UTF-8
/// bytes (whatever their case), with or without the `sha256=` prefix, is
/// accepted.
pub proof fn lemma_signed_request_accepted(h: HeaderSeq, body: Seq<u8>, secret: Seq<char>, with_prefix: bool)
    requires
        signature_header(h) == Some(
            if with_prefix {
                sha256_prefix() + lower_hex(hmac_sha256_tag(encode_utf8(secret), body))
            } else {
                lower_hex(hmac_sha256_tag(encode_utf8(secret), body))
            },
        ),
    ensures
        signature_verdict(h, body, Some(secret)) == Ok::<(), StatusCode>(()),
{
    let e = expected_signature(secret, body);
    let p = sha256_prefix();
    lemma_lower_hex_digits(hmac_sha256_tag(encode_utf8(secret), body));
    reveal_strlit("sha256=");
    vstd::utf8::is_ascii_chars_encode_utf8("sha256="@);
    assert(p.len() == 7);
    assert(p[0] == 115u8);
    assert forall|i: int| 0 <= i < p.len() implies is_visible_ascii(#[trigger] p[i]) by {
        assert(p[i] == ("sha256="@)[i] as u8);
    }
    assert forall|i: int| 0 <= i < e.len() implies is_visible_ascii(#[trigger] e[i]) by {
        assert(is_lower_hex_digit(e[i]));
    }
    if with_prefix {
        let raw = p + e;
        assert forall|i: int| 0 <= i < raw.len() implies is_visible_ascii(#[trigger] raw[i]) by {
            if i < p.len() {
                assert(raw[i] == p[i]);
            } else {
                assert(raw[i] == e[i - p.len()]);
            }
        }
        assert(raw.take(p.len() as int) =~= p);
        assert(raw.skip(p.len() as int) =~= e);
        assert(strip_signature_prefix(raw) == e);
    } else {
        if e.len() >= p.len() {
            assert(is_lower_hex_digit(e[0]));
            assert(e.take(p.len() as int)[0] != p[0]);
        }
        assert(strip_signature_prefix(e) == e);
    }
}

/// The verdict under a configured secret, in terms of the HMAC itself: a
/// request is accepted exactly when its first signature header is present,
/// is visible text, and, after an optional `sha256=`, equals up to ASCII
/// case the lower-case hex text of the HMAC-SHA256 tag of the body keyed
/// with the secret's own UTF-8 bytes; every other request is unauthorized.
/// With no secret configured every request is accepted.
pub proof fn lemma_verdict_keyed_with_secret_bytes(h: HeaderSeq, body: Seq<u8>, secret: Seq<char>)
    ensures
        signature_verdict(h, body, Some(secret)) is Ok <==> signature_header(h) is Some && all_visible_ascii(
            signature_header(h)->0,
        ) && eq_ignore_ascii_case(
            strip_signature_prefix(signature_header(h)->0),
            lower_hex(hmac_sha256_tag(encode_utf8(secret), body)),
        ),
        signature_verdict(h, body, Some(secret)) is Err ==> signature_verdict(h, body, Some(secret))
            == Err::<(), StatusCode>(StatusCode::Unauthorized),
        signature_verdict(h, body, None) == Ok::<(), StatusCode>(()),
{
}

} // verus!
