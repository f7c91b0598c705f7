use vstd::prelude::*;
use rand::Rng;
use crate::text::{lemma_ascii_chars_encode, string_from_utf8};

verus! {

/// The thread-local random number generator of the `rand` crate.
#[verifier::external_type_specification]
#[verifier::external_body]
pub struct ExThreadRng(rand::rngs::ThreadRng);

/// `rand::thread_rng` of the `rand` crate: a handle to the thread's
/// generator. Nothing is claimed of it.
#[verifier::external_body]
fn thread_rng() -> (rng: rand::rngs::ThreadRng) {
    rand::thread_rng()
}

/// `Rng::gen_range(0..bound)` of the `rand` crate: a random index. It
/// panics on an empty range, so `bound` must be positive. Claimed: the
/// index is below `bound`; which one it is, is chance.
#[verifier::external_body]
fn gen_index(rng: &mut rand::rngs::ThreadRng, bound: usize) -> (i: usize)
    requires
        bound > 0,
    ensures
        i < bound,
{
    rng.gen_range(0..bound)
}

/// The length of a webhook secret.
pub const SECRET_LEN: usize = 32;

/// The number of characters that a webhook secret is drawn from.
pub const ALPHABET_LEN: usize = 62;

/// The alphabet of webhook secrets, in order: `A`-`Z`, `a`-`z`, `0`-`9`.
pub open spec fn alphabet_byte(i: int) -> u8 {
    if i < 26 {
        (65 + i) as u8
    } else if i < 52 {
        (97 + (i - 26)) as u8
    } else {
        (48 + (i - 52)) as u8
    }
}

/// An ASCII letter or digit.
pub open spec fn is_alphanumeric(c: char) -> bool {
    ('A' <= c && c <= 'Z') || ('a' <= c && c <= 'z') || ('0' <= c && c <= '9')
}

/// Entry `i` of the alphabet.
fn alphabet_at(i: usize) -> (b: u8)
    requires
        i < ALPHABET_LEN,
    ensures
        b == alphabet_byte(i as int),
{
    if i < 26 {
        65 + i as u8
    } else if i < 52 {
        97 + (i - 26) as u8
    } else {
        48 + (i - 52) as u8
    }
}

/// The secret that a list of draws from the alphabet spells.
pub open spec fn secret_text(draws: Seq<usize>) -> Seq<char> {
    Seq::new(draws.len(), |i: int| alphabet_byte(draws[i] as int) as char)
}

/// Every alphabet entry is a letter or a digit.
proof fn lemma_alphabet_alphanumeric(a: int)
    requires
        0 <= a < ALPHABET_LEN,
    ensures
        alphabet_byte(a) < 128,
        is_alphanumeric(alphabet_byte(a) as char),
{
}

/// The secret spelled by draws from the alphabet: character `i` is the
/// alphabet entry at `draws[i]`.
pub fn secret_from_draws(draws: &Vec<usize>) -> (s: String)
    requires
        forall|i: int| 0 <= i < draws@.len() ==> #[trigger] draws@[i] < ALPHABET_LEN,
    ensures
        s@ == secret_text(draws@),
        forall|i: int| 0 <= i < s@.len() ==> is_alphanumeric(#[trigger] s@[i]),
{
    let n = draws.len();
    let mut bytes: Vec<u8> = Vec::new();
    let mut k: usize = 0;
    while k < n
        invariant
            n == draws@.len(),
            forall|i: int| 0 <= i < draws@.len() ==> #[trigger] draws@[i] < ALPHABET_LEN,
            k <= n,
            bytes@.len() == k,
            forall|j: int| 0 <= j < k ==> #[trigger] bytes@[j] == alphabet_byte(draws@[j] as int),
        decreases n - k,
    {
        let b = alphabet_at(draws[k]);
        bytes.push(b);
        k = k + 1;
    }
    let ghost view = bytes@;
    proof {
        assert forall|j: int| 0 <= j < view.len() implies #[trigger] view[j] < 128 by {
            lemma_alphabet_alphanumeric(draws@[j] as int);
        }
        lemma_ascii_chars_encode(view);
    }
    match string_from_utf8(bytes) {
        Some(s) => {
            proof {
                assert forall|i: int| 0 <= i < s@.len() implies s@[i] == secret_text(draws@)[i]
                    && is_alphanumeric(#[trigger] s@[i]) by {
                    assert(s@[i] == view[i] as char);
                    lemma_alphabet_alphanumeric(draws@[i] as int);
                }
                assert(s@ =~= secret_text(draws@));
            }
            s
        },
        None => {
            proof {
                assert(false);
            }
            String::new()
        },
    }
}

/// A fresh webhook secret: 32 characters, each drawn at random from the
/// letters and digits. Which entries are drawn is chance; the secret is the
/// one that `secret_from_draws` spells from them.
pub fn generate_secret() -> (s: String)
    ensures
        s@.len() == SECRET_LEN,
        exists|draws: Seq<usize>| draws.len() == SECRET_LEN && (forall|i: int| 0 <= i < draws.len() ==> #[trigger] draws[i] < ALPHABET_LEN) && s@ == secret_text(draws),
        forall|i: int| 0 <= i < s@.len() ==> is_alphanumeric(#[trigger] s@[i]),
{
    let mut rng = thread_rng();
    let mut draws: Vec<usize> = Vec::new();
    let mut k: usize = 0;
    while k < SECRET_LEN
        invariant
            k <= SECRET_LEN,
            draws@.len() == k,
            forall|j: int| 0 <= j < k ==> #[trigger] draws@[j] < ALPHABET_LEN,
        decreases SECRET_LEN - k,
    {
        let idx = gen_index(&mut rng, ALPHABET_LEN);
        draws.push(idx);
        k = k + 1;
    }
    secret_from_draws(&draws)
}

} // verus!
