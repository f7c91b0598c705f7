use vstd::prelude::*;
use crate::text::str_eq;

verus! {

broadcast use vstd::seq_lib::group_seq_properties;

/// The settings of the service.
#[derive(Clone, Debug)]
pub struct Config {
    /// The address to listen on (`BIND_ADDRESS`).
    pub bind_address: String,
    /// The database to connect to (`DATABASE_URL`).
    pub database_url: String,
    /// The public base URL of the service, that webhook URLs start with
    /// (`BASE_URL`).
    pub base_url: String,
    /// The secret that deliveries to the generic endpoint must be signed
    /// with (`WEBHOOK_SECRET`); none means they are not checked.
    pub webhook_secret: Option<String>,
    /// The largest number of events kept (`MAX_EVENTS`).
    pub max_events: usize,
}

/// Why the settings could not be read.
#[derive(Clone, Copy, Debug, PartialEq, Eq, Structural)]
pub enum ConfigError {
    /// `DATABASE_URL` is not set.
    MissingDatabaseUrl,
}

impl ConfigError {
    /// The message that reports the error.
    pub fn message(&self) -> (m: String)
        ensures
            m@ == "DATABASE_URL environment variable is required"@,
    {
        match self {
            ConfigError::MissingDatabaseUrl => "DATABASE_URL environment variable is required".to_owned(),
        }
    }
}

/// The model of an environment: (name, value) pairs.
pub type EnvSeq = Seq<(Seq<char>, Seq<char>)>;

/// The view of environment pairs.
pub open spec fn env_view(env: Seq<(String, String)>) -> EnvSeq {
    env.map_values(|p: (String, String)| (p.0@, p.1@))
}

/// The value of a variable, as `std::env::var` gives it: the first pair
/// with that name.
pub open spec fn env_get(env: EnvSeq, name: Seq<char>) -> Option<Seq<char>>
    decreases env.len(),
{
    if env.len() == 0 {
        None
    } else if env[0].0 == name {
        Some(env[0].1)
    } else {
        env_get(env.drop_first(), name)
    }
}

/// A decimal digit.
pub open spec fn is_digit(c: char) -> bool {
    '0' <= c && c <= '9'
}

/// The number that decimal digits spell.
pub open spec fn digits_value(s: Seq<char>) -> nat
    decreases s.len(),
{
    if s.len() == 0 {
        0
    } else {
        digits_value(s.drop_last()) * 10 + ((s.last() as int - 48) as nat)
    }
}

/// All characters are decimal digits.
pub open spec fn all_digits(s: Seq<char>) -> bool {
    forall|i: int| 0 <= i < s.len() ==> is_digit(#[trigger] s[i])
}

/// The digits of a number text, after an optional `+`.
pub open spec fn unsigned_digits(s: Seq<char>) -> Seq<char> {
    if s.len() > 0 && s[0] == '+' {
        s.drop_first()
    } else {
        s
    }
}

/// A `usize` read from text, as `str::parse::<usize>` reads it: an
/// optional `+` and at least one decimal digit, nothing else, and a value
/// that fits.
pub open spec fn parse_usize(s: Seq<char>) -> Option<usize> {
    let d = unsigned_digits(s);
    if d.len() > 0 && all_digits(d) && digits_value(d) <= usize::MAX {
        Some(digits_value(d) as usize)
    } else {
        None
    }
}

/// The default address to listen on.
pub open spec fn default_bind_address() -> Seq<char> {
    "0.0.0.0:3000"@
}

/// The default public base URL.
pub open spec fn default_base_url() -> Seq<char> {
    "http://localhost:5050"@
}

/// The default largest number of events kept.
pub const DEFAULT_MAX_EVENTS: usize = 1000;

/// A longer run of digits is worth at least as much as its prefix.
proof fn lemma_digits_prefix(d: Seq<char>, k: int)
    requires
        0 <= k <= d.len(),
        all_digits(d),
    ensures
        digits_value(d.take(k)) <= digits_value(d),
    decreases d.len() - k,
{
    if k < d.len() {
        lemma_digits_prefix(d, k + 1);
        let t = d.take(k + 1);
        assert(t.drop_last() =~= d.take(k));
        assert(is_digit(d[k]));
        assert(t.last() == d[k]);
    } else {
        assert(d.take(k) =~= d);
    }
}

/// Reads a `usize` from text, as `str::parse::<usize>` does.
pub fn parse_usize_text(s: &str) -> (r: Option<usize>)
    ensures
        r == parse_usize(s@),
{
    let n = s.unicode_len();
    let mut start: usize = 0;
    if n > 0 && s.get_char(0) == '+' {
        start = 1;
    }
    let ghost d = unsigned_digits(s@);
    assert(d =~= s@.skip(start as int));
    if start == n {
        return None;
    }
    let mut acc: usize = 0;
    let mut i: usize = start;
    assert(d.take(0) =~= Seq::<char>::empty());
    while i < n
        invariant
            n == s@.len(),
            start <= i <= n,
            d == s@.skip(start as int),
            d == unsigned_digits(s@),
            acc as nat == digits_value(d.take(i - start)),
            all_digits(d.take(i - start)),
        decreases n - i,
    {
        let c = s.get_char(i);
        proof {
            assert(d[i - start] == c);
            assert(d.take(i - start + 1).drop_last() =~= d.take(i - start));
            assert(d.take(i - start + 1).last() == c);
        }
        if !('0' <= c && c <= '9') {
            assert(!is_digit(d[i - start]));
            return None;
        }
        let digit = (c as u32 - 48) as usize;
        proof {
            assert(all_digits(d.take(i - start + 1))) by {
                assert forall|j: int| 0 <= j < i - start + 1 implies is_digit(#[trigger] d.take(i - start + 1)[j]) by {
                    if j < i - start {
                        assert(d.take(i - start + 1)[j] == d.take(i - start)[j]);
                    }
                }
            }
        }
        let next = match acc.checked_mul(10) {
            Some(m) => m.checked_add(digit),
            None => None,
        };
        match next {
            Some(v) => {
                acc = v;
            },
            None => {
                proof {
                    assert(digits_value(d.take(i - start + 1)) == acc * 10 + digit);
                    if all_digits(d) {
                        lemma_digits_prefix(d, i - start + 1);
                    }
                }
                return None;
            },
        }
        i = i + 1;
    }
    assert(d.take(n - start) =~= d);
    Some(acc)
}

/// The value of a variable in the environment pairs.
fn env_var(env: &Vec<(String, String)>, name: &str) -> (r: Option<String>)
    ensures
        r matches Some(v) ==> env_get(env_view(env@), name@) == Some(v@),
        r is None ==> env_get(env_view(env@), name@) is None,
{
    let n = env.len();
    let mut i: usize = 0;
    let ghost ev = env_view(env@);
    assert(ev.skip(0) =~= ev);
    while i < n
        invariant
            n == env@.len(),
            ev == env_view(env@),
            i <= n,
            env_get(ev, name@) == env_get(ev.skip(i as int), name@),
        decreases n - i,
    {
        assert(ev.skip(i as int).drop_first() =~= ev.skip(i + 1));
        assert(ev.skip(i as int)[0] == ev[i as int]);
        if str_eq(env[i].0.as_str(), name) {
            return Some(env[i].1.clone());
        }
        i = i + 1;
    }
    assert(ev.skip(n as int).len() == 0);
    None
}

/// The view of an optional string.
pub open spec fn opt_text(s: Option<String>) -> Option<Seq<char>> {
    match s {
        Some(t) => Some(t@),
        None => None,
    }
}

impl Config {
    /// Reads the settings from the environment, given as its (name, value)
    /// pairs: `DATABASE_URL` is required; `BIND_ADDRESS` defaults to
    /// `0.0.0.0:3000`, `BASE_URL` to `http://localhost:5050`, `MAX_EVENTS`
    /// to 1000 (also when it is not a number); `WEBHOOK_SECRET` is optional.
    pub fn from_env(env: &Vec<(String, String)>) -> (r: Result<Config, ConfigError>)
        ensures
            env_get(env_view(env@), "DATABASE_URL"@) is None ==> r == Err::<Config, ConfigError>(
                ConfigError::MissingDatabaseUrl,
            ),
            env_get(env_view(env@), "DATABASE_URL"@) matches Some(db) ==> (r matches Ok(c) && c.database_url@
                == db && c.bind_address@ == (match env_get(env_view(env@), "BIND_ADDRESS"@) {
                Some(v) => v,
                None => default_bind_address(),
            }) && c.base_url@ == (match env_get(env_view(env@), "BASE_URL"@) {
                Some(v) => v,
                None => default_base_url(),
            }) && opt_text(c.webhook_secret) == env_get(env_view(env@), "WEBHOOK_SECRET"@)
                && c.max_events == (match env_get(env_view(env@), "MAX_EVENTS"@) {
                Some(v) => match parse_usize(v) {
                    Some(m) => m,
                    None => DEFAULT_MAX_EVENTS,
                },
                None => DEFAULT_MAX_EVENTS,
            })),
    {
        let bind_address = match env_var(env, "BIND_ADDRESS") {
            Some(v) => v,
            None => "0.0.0.0:3000".to_owned(),
        };
        let database_url = match env_var(env, "DATABASE_URL") {
            Some(v) => v,
            None => {
                return Err(ConfigError::MissingDatabaseUrl);
            },
        };
        let base_url = match env_var(env, "BASE_URL") {
            Some(v) => v,
            None => "http://localhost:5050".to_owned(),
        };
        let webhook_secret = env_var(env, "WEBHOOK_SECRET");
        let max_events = match env_var(env, "MAX_EVENTS") {
            Some(v) => match parse_usize_text(v.as_str()) {
                Some(m) => m,
                None => DEFAULT_MAX_EVENTS,
            },
            None => DEFAULT_MAX_EVENTS,
        };
        Ok(Config { bind_address, database_url, base_url, webhook_secret, max_events })
    }
}

} // verus!
