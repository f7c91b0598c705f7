use vstd::prelude::*;
use vstd::arithmetic::power::pow;
use crate::models::{AuthResponse, DbError, LoginRequest, RegisterRequest, User};
use crate::status::StatusCode;
use crate::text::{byte_len, concat};

verus! {

// ---------------------------------------------------------------------------
// Passwords: the `bcrypt` crate

/// The error of the `bcrypt` crate.
#[verifier::external_type_specification]
#[verifier::external_body]
pub struct ExBcryptError(bcrypt::BcryptError);

/// What `bcrypt::verify` answers for a password and a stored hash: whether
/// the password matches (`Some`), or `None` where it fails (a hash that it
/// cannot parse).
pub uninterp spec fn bcrypt_verify_outcome(password: Seq<char>, hash: Seq<char>) -> Option<bool>;

/// `bcrypt::verify` of the `bcrypt` crate. Claimed: its answer is the one
/// named `bcrypt_verify_outcome` of the password and the hash.
#[verifier::external_body]
fn bcrypt_verify(password: &str, hash: &str) -> (r: Result<bool, bcrypt::BcryptError>)
    ensures
        r matches Ok(b) ==> bcrypt_verify_outcome(password@, hash@) == Some(b),
        r is Err ==> bcrypt_verify_outcome(password@, hash@) is None,
{
    bcrypt::verify(password, hash)
}

/// The start of every hash that `bcrypt::hash` writes with its default cost:
/// version `2b` and cost `12`.
pub open spec fn bcrypt_hash_prefix() -> Seq<char> {
    "$2b$12$"@
}

/// `bcrypt::hash` of the `bcrypt` crate with its `DEFAULT_COST`. The salt is
/// random, so the rest of the text is chance. Claimed: a hash that it
/// returns is 60 characters, `$2b$12$` followed by the 22-character salt and
/// the 31-character digest (`format_for_version` with `Version::TwoB` and
/// cost 12, both parts in unpadded base64 of 16 and 23 bytes); and it
/// verifies the password it was made from (`verify` splits the hash into the
/// cost and salt that `hash` wrote, hashes the password again with them and
/// compares).
#[verifier::external_body]
fn bcrypt_hash(password: &str) -> (r: Result<String, bcrypt::BcryptError>)
    ensures
        r matches Ok(h) ==> bcrypt_verify_outcome(password@, h@) == Some(true),
        r matches Ok(h) ==> h@.len() == 60 && h@.take(7) == bcrypt_hash_prefix(),
{
    bcrypt::hash(password, bcrypt::DEFAULT_COST)
}

// ---------------------------------------------------------------------------
// Session identifiers: the `uuid` crate

/// `uuid::Uuid::new_v4` of the `uuid` crate, as its 128-bit value. Its bits
/// are random, so which value comes is left unsaid. Claimed: the bits that
/// `new_v4` sets whatever the draw (it masks the random `u128` with
/// `0xFFFFFFFFFFFF4FFFBFFFFFFFFFFFFFFF` and sets `0x40008000000000000000`,
/// and `as_u128` reads back the big-endian bytes that `from_u128` stored):
/// version 4 and the RFC variant.
#[verifier::external_body]
fn new_uuid() -> (id: u128)
    ensures
        is_v4(id),
{
    uuid::Uuid::new_v4().as_u128()
}

/// The hexadecimal digit `n` (0 to 15) in lower case.
pub open spec fn hex_char(n: int) -> char {
    if n < 10 {
        (48 + n) as char
    } else {
        (87 + n) as char
    }
}

/// Hex digit `k` (0 to 31, most significant first) of a 128-bit value.
pub open spec fn nibble(id: u128, k: int) -> int {
    (id as int / pow(16, (31 - k) as nat)) % 16
}

/// A version-4 UUID of the RFC variant: hex digit 12 (the version) is `4`,
/// and hex digit 16 is one of `8`, `9`, `a`, `b` (its top bits `10`).
pub open spec fn is_v4(id: u128) -> bool {
    nibble(id, 12) == 4 && 8 <= nibble(id, 16) <= 11
}

/// The hyphenated lower-case text of a UUID, `8-4-4-4-12` hex digits.
pub open spec fn uuid_text(id: u128) -> Seq<char> {
    Seq::new(
        36,
        |i: int|
            if i == 8 || i == 13 || i == 18 || i == 23 {
                '-'
            } else {
                let hyphens: int = if i < 8 {
                    0
                } else if i < 13 {
                    1
                } else if i < 18 {
                    2
                } else if i < 23 {
                    3
                } else {
                    4
                };
                hex_char(nibble(id, i - hyphens))
            },
    )
}

/// `Uuid::from_u128(id).to_string()` of the `uuid` crate. Claimed: the
/// hyphenated lower-case text of the UUID (`Display` goes through
/// `LowerHex`, which formats `as_hyphenated`, over the big-endian bytes
/// that `from_u128` stores).
#[verifier::external_body]
fn uuid_to_string(id: u128) -> (s: String)
    ensures
        s@ == uuid_text(id),
{
    uuid::Uuid::from_u128(id).to_string()
}

/// The characters of a UUID's text are hex digits and hyphens.
pub proof fn lemma_uuid_text_chars(id: u128)
    ensures
        uuid_text(id).len() == 36,
        forall|i: int| 0 <= i < 36 ==> is_token_char(#[trigger] uuid_text(id)[i]),
{
    assert forall|i: int| 0 <= i < 36 implies is_token_char(#[trigger] uuid_text(id)[i]) by {
        if !(i == 8 || i == 13 || i == 18 || i == 23) {
            let k: int = if i < 8 {
                i
            } else if i < 13 {
                i - 1
            } else if i < 18 {
                i - 2
            } else if i < 23 {
                i - 3
            } else {
                i - 4
            };
            vstd::arithmetic::power::lemma_pow_positive(16, (31 - k) as nat);
            let n = nibble(id, k);
            assert(0 <= n < 16);
        }
    }
}

/// A character that may stand in a cookie value without quoting and without
/// being mistaken for a separator: an ASCII letter, digit or hyphen.
pub open spec fn is_token_char(c: char) -> bool {
    ('0' <= c && c <= '9') || ('a' <= c && c <= 'z') || ('A' <= c && c <= 'Z') || c == '-'
}

// ---------------------------------------------------------------------------
// Responses

impl View for AuthResponse {
    type V = (bool, Seq<char>, Option<u128>);

    open spec fn view(&self) -> (bool, Seq<char>, Option<u128>) {
        (self.success, self.message@, self.user_id)
    }
}

/// An answer with its message.
fn reply(success: bool, message: &str, user_id: Option<u128>) -> (r: AuthResponse)
    ensures
        r@ == (success, message@, user_id),
{
    AuthResponse { success, message: message.to_owned(), user_id }
}

/// The answer to a logout, which always succeeds.
pub fn logout() -> (r: AuthResponse)
    ensures
        r@ == (true, "Logged out successfully"@, None::<u128>),
{
    reply(true, "Logged out successfully", None)
}

/// The answer to a session check, which reports no session.
pub fn check_auth() -> (r: AuthResponse)
    ensures
        r@ == (false, "Not authenticated"@, None::<u128>),
{
    reply(false, "Not authenticated", None)
}

// ---------------------------------------------------------------------------
// Registration

/// A username of 3 to 50 bytes.
pub open spec fn username_ok(username: Seq<char>) -> bool {
    3 <= byte_len(username) <= 50
}

/// A password of at least 6 bytes.
pub open spec fn password_ok(password: Seq<char>) -> bool {
    6 <= byte_len(password)
}

/// The next thing to do for a registration after the username lookup.
pub enum RegisterStep {
    /// Answer with this body.
    Reply(AuthResponse),
    /// Answer with this status and no body.
    Fail(StatusCode),
    /// Store a new user with this name and password hash.
    Create { username: String, password_hash: String },
}

/// Checks the form of a registration: a username of 3 to 50 bytes and a
/// password of at least 6. Answers the refusal, or nothing when the request
/// may go on to the username lookup.
pub fn register_validate(request: &RegisterRequest) -> (r: Option<AuthResponse>)
    ensures
        !username_ok(request.username@) ==> (r matches Some(a)
            && a@ == (false, "Username must be between 3 and 50 characters"@, None::<u128>)),
        username_ok(request.username@) && !password_ok(request.password@) ==> (r matches Some(a)
            && a@ == (false, "Password must be at least 6 characters"@, None::<u128>)),
        username_ok(request.username@) && password_ok(request.password@) ==> r is None,
        3 <= byte_len(request.username@) <= 50 && 6 <= byte_len(request.password@) ==> r is None,
        3 <= byte_len(request.username@) <= 50 && byte_len(request.password@) < 6 ==> (r matches Some(a)
            && a@ == (false, "Password must be at least 6 characters"@, None::<u128>)),
        !(3 <= byte_len(request.username@) <= 50) ==> (r matches Some(a)
            && a@ == (false, "Username must be between 3 and 50 characters"@, None::<u128>)),
{
    let ulen = request.username.as_str().len();
    if ulen < 3 || ulen > 50 {
        return Some(reply(false, "Username must be between 3 and 50 characters", None));
    }
    if request.password.as_str().len() < 6 {
        return Some(reply(false, "Password must be at least 6 characters", None));
    }
    None
}

/// After the username lookup: a name that is taken is refused; otherwise
/// (also when the lookup failed) the password is hashed, and a failure to
/// hash is a server error; else a user is to be created with the hash.
pub fn register_after_lookup(request: &RegisterRequest, lookup: Result<Option<User>, DbError>) -> (r: RegisterStep)
    ensures
        (lookup matches Ok(Some(_))) ==> (r matches RegisterStep::Reply(a)
            && a@ == (false, "Username already exists"@, None::<u128>)),
        !(lookup matches Ok(Some(_))) ==> (r is Fail || r is Create),
        r matches RegisterStep::Fail(s) ==> s == StatusCode::InternalServerError,
        r matches RegisterStep::Create { username, password_hash } ==> username@ == request.username@
            && bcrypt_verify_outcome(request.password@, password_hash@) == Some(true)
            && password_hash@.len() == 60 && password_hash@.take(7) == bcrypt_hash_prefix()
            && (request.password@.len() != 60 || request.password@.take(7) != bcrypt_hash_prefix()
                ==> password_hash@ != request.password@),
{
    if let Ok(Some(_)) = lookup {
        return RegisterStep::Reply(reply(false, "Username already exists", None));
    }
    match bcrypt_hash(request.password.as_str()) {
        Ok(h) => RegisterStep::Create { username: request.username.clone(), password_hash: h },
        Err(_) => RegisterStep::Fail(StatusCode::InternalServerError),
    }
}

/// After storing the new user: success with the user's id, or a server
/// error.
pub fn register_finish(created: Result<User, DbError>) -> (r: Result<AuthResponse, StatusCode>)
    ensures
        created matches Ok(u) ==> (r matches Ok(a) && a@ == (true, "User registered successfully"@, Some(u.id))),
        created is Err ==> r == Err::<AuthResponse, StatusCode>(StatusCode::InternalServerError),
{
    match created {
        Ok(u) => Ok(reply(true, "User registered successfully", Some(u.id))),
        Err(_) => Err(StatusCode::InternalServerError),
    }
}

// ---------------------------------------------------------------------------
// Login

/// The `Set-Cookie` value that opens a session.
pub open spec fn session_cookie_text(session_id: Seq<char>) -> Seq<char> {
    "session_id="@ + session_id + "; Path=/; HttpOnly; SameSite=Strict; Max-Age=86400"@
}

/// Text made of visible ASCII characters only, which `HeaderValue::from_str`
/// of the `http` crate accepts as a header value.
pub open spec fn is_visible_text(s: Seq<char>) -> bool {
    forall|i: int| 0 <= i < s.len() ==> ' ' <= #[trigger] s[i] && s[i] <= '~'
}

/// The cookie of a session whose id is made of letters, digits and hyphens
/// is visible ASCII text.
proof fn lemma_session_cookie_visible(sid: Seq<char>)
    requires
        forall|i: int| 0 <= i < sid.len() ==> is_token_char(#[trigger] sid[i]),
    ensures
        is_visible_text(session_cookie_text(sid)),
{
    reveal_strlit("session_id=");
    reveal_strlit("; Path=/; HttpOnly; SameSite=Strict; Max-Age=86400");
    let a = "session_id="@;
    let b = "; Path=/; HttpOnly; SameSite=Strict; Max-Age=86400"@;
    let c = session_cookie_text(sid);
    assert(is_visible_text(a));
    assert(is_visible_text(b));
    assert forall|i: int| 0 <= i < c.len() implies ' ' <= #[trigger] c[i] && c[i] <= '~' by {
        if i < a.len() {
            assert(c[i] == a[i]);
        } else if i < a.len() + sid.len() {
            assert(c[i] == sid[i - a.len()]);
        } else {
            assert(c[i] == b[i - a.len() - sid.len()]);
        }
    }
}

/// A session about to be stored: its id, the user, and the cookie that
/// carries the id to the browser.
pub struct PendingSession {
    pub session_id: String,
    pub user_id: u128,
    pub cookie: String,
}

/// The next thing to do for a login after the user lookup.
pub enum LoginStep {
    /// Answer with this body and no cookie.
    Reply(AuthResponse),
    /// Answer with this status and no body.
    Fail(StatusCode),
    /// Store this session, then finish with `login_finish`.
    StartSession(PendingSession),
}

/// How a login attempt is decided, from the password given and the lookup
/// of the user.
pub enum LoginDecision {
    ServerError,
    InvalidCredentials,
    Disabled,
    Accepted,
}

pub open spec fn login_decision(password: Seq<char>, lookup: Result<Option<User>, DbError>) -> LoginDecision {
    match lookup {
        Err(_) => LoginDecision::ServerError,
        Ok(None) => LoginDecision::InvalidCredentials,
        Ok(Some(u)) => if !u.is_active {
            LoginDecision::Disabled
        } else if bcrypt_verify_outcome(password, u.password_hash@) == Some(true) {
            LoginDecision::Accepted
        } else {
            LoginDecision::InvalidCredentials
        },
    }
}

/// The session for a user under a drawn UUID: the UUID's hyphenated text is
/// the session id, and the cookie carries it.
pub fn session_for(user_id: u128, id: u128) -> (p: PendingSession)
    ensures
        p.user_id == user_id,
        p.session_id@ == uuid_text(id),
        p.cookie@ == session_cookie_text(p.session_id@),
        is_visible_text(p.cookie@),
{
    let session_id = uuid_to_string(id);
    proof {
        lemma_uuid_text_chars(id);
        lemma_session_cookie_visible(session_id@);
    }
    let mut cookie = concat("session_id=", session_id.as_str());
    cookie.append("; Path=/; HttpOnly; SameSite=Strict; Max-Age=86400");
    PendingSession { session_id, user_id, cookie }
}

/// After the user lookup: a failed lookup is a server error; an unknown
/// user or a wrong password is refused alike, and a disabled account is
/// refused as such; otherwise a session is opened for the user.
pub fn login_check(request: &LoginRequest, lookup: Result<Option<User>, DbError>) -> (r: LoginStep)
    ensures
        login_decision(request.password@, lookup) is ServerError ==> r == LoginStep::Fail(
            StatusCode::InternalServerError,
        ),
        login_decision(request.password@, lookup) is InvalidCredentials ==> (r matches LoginStep::Reply(a)
            && a@ == (false, "Invalid username or password"@, None::<u128>)),
        login_decision(request.password@, lookup) is Disabled ==> (r matches LoginStep::Reply(a) && a@ == (
            false,
            "Account is disabled"@,
            None::<u128>,
        )),
        login_decision(request.password@, lookup) is Accepted ==> (r matches LoginStep::StartSession(p)
            && lookup matches Ok(Some(u)) && p.user_id == u.id
            && (exists|id: u128| is_v4(id) && p.session_id@ == uuid_text(id))
            && p.cookie@ == session_cookie_text(p.session_id@) && is_visible_text(p.cookie@)),
        lookup is Err ==> r == LoginStep::Fail(StatusCode::InternalServerError),
        lookup is Ok && lookup->Ok_0 is None ==> (r matches LoginStep::Reply(a) && a@ == (
            false,
            "Invalid username or password"@,
            None::<u128>,
        )),
        lookup is Ok && lookup->Ok_0 is Some && !lookup->Ok_0->0.is_active ==> (r matches LoginStep::Reply(a)
            && a@ == (false, "Account is disabled"@, None::<u128>)),
        lookup is Ok && lookup->Ok_0 is Some && lookup->Ok_0->0.is_active && bcrypt_verify_outcome(
            request.password@,
            lookup->Ok_0->0.password_hash@,
        ) != Some(true) ==> (r matches LoginStep::Reply(a) && a@ == (
            false,
            "Invalid username or password"@,
            None::<u128>,
        )),
        lookup is Ok && lookup->Ok_0 is Some && lookup->Ok_0->0.is_active && bcrypt_verify_outcome(
            request.password@,
            lookup->Ok_0->0.password_hash@,
        ) == Some(true) ==> (r matches LoginStep::StartSession(p) && p.user_id == lookup->Ok_0->0.id),
{
    let user = match lookup {
        Ok(Some(user)) => user,
        Ok(None) => {
            return LoginStep::Reply(reply(false, "Invalid username or password", None));
        },
        Err(_) => {
            return LoginStep::Fail(StatusCode::InternalServerError);
        },
    };
    if !user.is_active {
        return LoginStep::Reply(reply(false, "Account is disabled", None));
    }
    let is_valid = match bcrypt_verify(request.password.as_str(), user.password_hash.as_str()) {
        Ok(valid) => valid,
        Err(_) => false,
    };
    if !is_valid {
        return LoginStep::Reply(reply(false, "Invalid username or password", None));
    }
    let id = new_uuid();
    LoginStep::StartSession(session_for(user.id, id))
}

/// The answer to a successful login: the cookie to set and the body.
pub struct LoginReply {
    pub set_cookie: String,
    pub body: AuthResponse,
}

/// After storing the session: success with the cookie and the user's id,
/// or a server error.
pub fn login_finish(pending: PendingSession, stored: Result<(), DbError>) -> (r: Result<LoginReply, StatusCode>)
    ensures
        stored is Ok ==> (r matches Ok(reply) && reply.set_cookie@ == pending.cookie@ && reply.body@ == (
            true,
            "Login successful"@,
            Some(pending.user_id),
        )),
        stored is Err ==> r is Err && r->Err_0 == StatusCode::InternalServerError,
{
    match stored {
        Ok(()) => Ok(
            LoginReply {
                set_cookie: pending.cookie,
                body: reply(true, "Login successful", Some(pending.user_id)),
            },
        ),
        Err(_) => Err(StatusCode::InternalServerError),
    }
}

/// A password that registration hashed logs its owner in while the account
/// is active: the hash that `register_after_lookup` stores with a new user
/// verifies the password of the registration, so a login with that password
/// against the stored user is accepted.
pub proof fn lemma_registered_password_logs_in(password: Seq<char>, password_hash: Seq<char>, stored: User)
    requires
        bcrypt_verify_outcome(password, password_hash) == Some(true),
        stored.password_hash@ == password_hash,
        stored.is_active,
    ensures
        login_decision(password, Ok(Some(stored))) is Accepted,
{
}

/// The form checks of a registration are length bounds in bytes: a
/// username passes exactly when it has 3 to 50 bytes, and a password
/// exactly when it has at least 6, however long it is; so a password at
/// least as long as one that passes passes too.
pub proof fn lemma_form_checks_are_byte_lengths(username: Seq<char>, password: Seq<char>, longer: Seq<char>)
    ensures
        username_ok(username) <==> 3 <= byte_len(username) && byte_len(username) <= 50,
        password_ok(password) <==> byte_len(password) >= 6,
        password_ok(password) && byte_len(longer) >= byte_len(password) ==> password_ok(longer),
{
}

/// A found but disabled account is refused as disabled whatever password is
/// given, right or wrong; only an active account can be let in, and only
/// with a password that bcrypt verifies against its stored hash.
pub proof fn lemma_disabled_account_refused_whatever_password(u: User, password: Seq<char>, other: Seq<char>)
    ensures
        !u.is_active ==> login_decision(password, Ok(Some(u))) is Disabled,
        (login_decision(password, Ok(Some(u))) is Disabled) == (login_decision(other, Ok(Some(u))) is Disabled),
        login_decision(password, Ok(Some(u))) is Disabled <==> !u.is_active,
        login_decision(password, Ok(Some(u))) is Accepted <==> u.is_active && bcrypt_verify_outcome(
            password,
            u.password_hash@,
        ) == Some(true),
{
}

} // verus!
