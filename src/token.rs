use vstd::prelude::*;

verus! {

/// The identity that an authenticated request carries.
#[derive(Clone, Copy, Debug, PartialEq, Eq, Structural)]
pub struct AuthUser {
    pub user_id: u128,
}

/// The decoded payload of a session token.
#[derive(Clone, Copy, Debug, PartialEq, Eq, Structural)]
pub struct Claims {
    pub sub: u128,
    pub exp: u64,
}

/// Why a token was not accepted, or could not be made.
#[derive(Clone, Copy, Debug, PartialEq, Eq, Structural)]
pub enum TokenError {
    /// The token does not have the shape or the claims of a session token.
    MalformedToken,
    /// The signature does not match the secret.
    InvalidSignature,
    /// The expiry has passed.
    Expired,
    /// The token could not be signed.
    SigningFailed,
}

/// How long a session token stays valid, in seconds.
pub const TOKEN_LIFETIME_SECS: u64 = 86400;

#[verifier::external_type_specification]
#[verifier::external_body]
pub struct ExJwtError(jsonwebtoken::errors::Error);

/// A lower-case hexadecimal digit.
pub open spec fn hex_digit(d: int) -> char {
    if 0 <= d < 10 {
        ('0' as u32 + d) as char
    } else {
        ('a' as u32 + (d - 10)) as char
    }
}

pub open spec fn pow16(n: nat) -> int
    decreases n,
{
    if n == 0 {
        1
    } else {
        16 * pow16((n - 1) as nat)
    }
}

/// The hyphenated lower-case text of a UUID: its 32 hexadecimal digits, most
/// significant first, in groups of 8, 4, 4, 4 and 12.
pub open spec fn uuid_text(id: u128) -> Seq<char> {
    let h = Seq::new(32, |i: int| hex_digit((id as int / pow16((31 - i) as nat)) % 16));
    h.subrange(0, 8) + seq!['-'] + h.subrange(8, 12) + seq!['-'] + h.subrange(12, 16) + seq!['-']
        + h.subrange(16, 20) + seq!['-'] + h.subrange(20, 32)
}

/// What `uuid::Uuid::parse_str` reads from a text.
pub uninterp spec fn uuid_parsed(s: Seq<char>) -> Option<u128>;

/// The HS256 token that `jsonwebtoken::encode` makes of the claims
/// `{"sub": sub, "exp": exp}` under a secret.
pub uninterp spec fn jwt_token(sub: Seq<char>, exp: u64, secret: Seq<u8>) -> Seq<char>;

/// What a session token decodes to under a secret: its `sub` claim (when it
/// is a string) and its `exp` claim (when it is an unsigned integer); or, when
/// it does not decode, whether the failure was the signature check (`true`)
/// rather than the token's shape or claims (`false`).
pub uninterp spec fn jwt_claims(token: Seq<char>, secret: Seq<u8>) -> Result<
    (Option<Seq<char>>, Option<u64>),
    bool,
>;

/// Relies on the `Display` of `uuid::Uuid`: the hyphenated text of the id,
/// which `Uuid::parse_str` reads back to the same id.
#[verifier::external_body]
fn uuid_string(id: u128) -> (r: String)
    ensures
        r@ == uuid_text(id),
        uuid_parsed(r@) == Some(id),
{
    uuid::Uuid::from_u128(id).to_string()
}

/// Relies on `uuid::Uuid::parse_str`.
#[verifier::external_body]
fn parse_uuid(s: &str) -> (r: Option<u128>)
    ensures
        r == uuid_parsed(s@),
{
    match uuid::Uuid::parse_str(s) {
        Ok(u) => Some(u.as_u128()),
        Err(_) => None,
    }
}

/// Relies on `jsonwebtoken::encode` with the default (HS256) header over the
/// claims `{"sub": sub, "exp": exp}`: with an HMAC key and algorithm it does
/// not fail, and `jsonwebtoken::decode` under the same secret gives those
/// claims back.
#[verifier::external_body]
fn jwt_sign(sub: &str, exp: u64, secret: &[u8]) -> (r: Result<String, jsonwebtoken::errors::Error>)
    ensures
        r is Ok,
        r matches Ok(t) ==> t@ == jwt_token(sub@, exp, secret@),
        r matches Ok(t) ==> jwt_claims(t@, secret@) is Ok && jwt_claims(t@, secret@)->Ok_0 == (
            Some(sub@),
            Some(exp),
        ),
{
    let mut claims = serde_json::Map::new();
    claims.insert("sub".to_string(), serde_json::Value::from(sub));
    claims.insert("exp".to_string(), serde_json::Value::from(exp));
    let key = jsonwebtoken::EncodingKey::from_secret(secret);
    jsonwebtoken::encode(&jsonwebtoken::Header::default(), &claims, &key)
}

/// Relies on `jsonwebtoken::decode` for HS256 with `sub` and `exp` required
/// and the expiry left unchecked: it checks the shape and the signature and
/// returns the claims; a failure is told apart by `ErrorKind::InvalidSignature`.
#[verifier::external_body]
fn jwt_read(token: &str, secret: &[u8]) -> (r: Result<(Option<String>, Option<u64>), bool>)
    ensures
        match r {
            Ok((s, e)) => jwt_claims(token@, secret@) is Ok && jwt_claims(token@, secret@)->Ok_0
                == (
                match s {
                    Some(x) => Some(x@),
                    None => None,
                },
                e,
            ),
            Err(b) => jwt_claims(token@, secret@) is Err && jwt_claims(token@, secret@)->Err_0
                == b,
        },
{
    let mut validation = jsonwebtoken::Validation::new(jsonwebtoken::Algorithm::HS256);
    validation.validate_exp = false;
    validation.set_required_spec_claims(&["sub", "exp"]);
    let key = jsonwebtoken::DecodingKey::from_secret(secret);
    match jsonwebtoken::decode::<serde_json::Map<String, serde_json::Value>>(token, &key, &validation) {
        Ok(data) => Ok((
            data.claims.get("sub").and_then(serde_json::Value::as_str).map(str::to_string),
            data.claims.get("exp").and_then(serde_json::Value::as_u64),
        )),
        Err(e) => Err(matches!(e.kind(), jsonwebtoken::errors::ErrorKind::InvalidSignature)),
    }
}

/// Relies on `chrono::Utc::now`: the current time in whole seconds since the
/// Unix epoch; chrono panics on a clock set before the epoch, so the value is
/// not negative.
#[verifier::external_body]
pub(crate) fn unix_now() -> (r: i64)
    ensures
        r >= 0,
{
    chrono::Utc::now().timestamp()
}

/// The result of checking decoded claims at time `now` (seconds).
pub open spec fn claims_outcome(
    claims: (Option<Seq<char>>, Option<u64>),
    now: int,
) -> Result<u128, TokenError> {
    match claims {
        (Some(sub), Some(exp)) => match uuid_parsed(sub) {
            Some(id) => if (exp as int) < now {
                Err(TokenError::Expired)
            } else {
                Ok(id)
            },
            None => Err(TokenError::MalformedToken),
        },
        _ => Err(TokenError::MalformedToken),
    }
}

/// The result of verifying `token` under `secret` at time `now`.
pub open spec fn verify_outcome(token: Seq<char>, secret: Seq<u8>, now: int) -> Result<
    u128,
    TokenError,
> {
    match jwt_claims(token, secret) {
        Ok(c) => claims_outcome(c, now),
        Err(true) => Err(TokenError::InvalidSignature),
        Err(false) => Err(TokenError::MalformedToken),
    }
}

/// At some instant `token` verifies under `secret` to the user `id`.
pub open spec fn token_names(token: Seq<char>, secret: Seq<u8>, id: u128) -> bool {
    exists|now: int|
        #![trigger verify_outcome(token, secret, now)]
        verify_outcome(token, secret, now) == Ok::<u128, TokenError>(id)
}

/// The token issued for `user_id` at time `now` under `secret`.
pub open spec fn issued_token(user_id: u128, secret: Seq<u8>, now: int) -> Seq<char> {
    jwt_token(uuid_text(user_id), (now + TOKEN_LIFETIME_SECS) as u64, secret)
}

/// Issues a session token for `user_id` at time `now` (seconds since the
/// epoch) that expires a day later. Verifying it at any time up to its expiry
/// gives `user_id` back; verifying it after that fails with `Expired`.
pub fn create_token_at(user_id: u128, secret: &[u8], now: i64) -> (r: Result<String, TokenError>)
    requires
        now >= 0,
    ensures
        r is Ok,
        r matches Ok(t) ==> t@ == issued_token(user_id, secret@, now as int),
        r matches Ok(t) ==> jwt_claims(t@, secret@) is Ok && jwt_claims(t@, secret@)->Ok_0 == (
            Some(uuid_text(user_id)),
            Some((now + TOKEN_LIFETIME_SECS) as u64),
        ),
        r matches Ok(t) ==> forall|later: int|
            now <= later <= now + TOKEN_LIFETIME_SECS ==> #[trigger] verify_outcome(
                t@,
                secret@,
                later,
            ) == Ok::<u128, TokenError>(user_id),
        r matches Ok(t) ==> forall|later: int|
            later > now + TOKEN_LIFETIME_SECS ==> #[trigger] verify_outcome(t@, secret@, later)
                == Err::<u128, TokenError>(TokenError::Expired),
{
    let exp: u64 = now as u64 + TOKEN_LIFETIME_SECS;
    let sub = uuid_string(user_id);
    match jwt_sign(sub.as_str(), exp, secret) {
        Ok(t) => Ok(t),
        Err(_) => Err(TokenError::SigningFailed),
    }
}

/// Issues a session token for `user_id` that expires a day from now.
pub fn create_token(user_id: u128, secret: &[u8]) -> (r: Result<String, TokenError>)
    ensures
        r is Ok,
        r matches Ok(t) ==> exists|now: int|
            #![trigger issued_token(user_id, secret@, now)]
            now >= 0 && t@ == issued_token(user_id, secret@, now) && verify_outcome(
                t@,
                secret@,
                now,
            ) == Ok::<u128, TokenError>(user_id),
        r matches Ok(t) ==> token_names(t@, secret@, user_id),
{
    let now = unix_now();
    let r = create_token_at(user_id, secret, now);
    if let Ok(t) = &r {
        assert(verify_outcome(t@, secret@, now as int) == Ok::<u128, TokenError>(user_id));
        assert(t@ == issued_token(user_id, secret@, now as int));
    }
    r
}

/// Checks `token` at time `now` (seconds since the epoch) and returns the
/// user id it was issued for.
pub fn verify_token_at(token: &str, secret: &[u8], now: i64) -> (r: Result<u128, TokenError>)
    ensures
        r == verify_outcome(token@, secret@, now as int),
{
    match jwt_read(token, secret) {
        Err(true) => Err(TokenError::InvalidSignature),
        Err(false) => Err(TokenError::MalformedToken),
        Ok((Some(sub), Some(exp))) => match parse_uuid(sub.as_str()) {
            Some(id) => if (exp as i128) < (now as i128) {
                Err(TokenError::Expired)
            } else {
                Ok(id)
            },
            None => Err(TokenError::MalformedToken),
        },
        Ok(_) => Err(TokenError::MalformedToken),
    }
}

/// Checks `token` against the current time and returns the user id it was
/// issued for.
pub fn verify_token(token: &str, secret: &[u8]) -> (r: Result<u128, TokenError>)
    ensures
        exists|now: int|
            #![trigger verify_outcome(token@, secret@, now)]
            now >= 0 && r == verify_outcome(token@, secret@, now),
{
    let now = unix_now();
    let r = verify_token_at(token, secret, now);
    assert(r == verify_outcome(token@, secret@, now as int));
    r
}

} // verus!
