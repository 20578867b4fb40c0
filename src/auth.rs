use crate::model::{LoginPayload, ResetPasswordPayload, SignupPayload, User};
use crate::text::text_eq;
use crate::token::{
    create_token, issued_token, jwt_claims, token_names, unix_now, verify_outcome, verify_token_at, AuthUser,
};
use vstd::prelude::*;
use vstd::string::*;

verus! {

/// Why an authentication step was refused.
#[derive(Clone, Copy, Debug, PartialEq, Eq, Structural)]
pub enum AuthError {
    /// Missing or bad bearer token, or bad login credentials.
    Unauthenticated,
    /// No account has that email.
    NotFound,
    /// Hashing or signing failed.
    Internal,
}

#[verifier::external_type_specification]
#[verifier::external_body]
pub struct ExPasswordHashError(argon2::password_hash::Error);

/// The PHC string that Argon2 with default parameters derives from a password
/// and salt bytes.
pub uninterp spec fn phc_hash(password: Seq<char>, salt: Seq<u8>) -> Seq<char>;

/// Whether a password verifies against a stored credential.
pub uninterp spec fn argon2_accepts(password: Seq<char>, credential: Seq<char>) -> bool;

/// A password short enough for Argon2, whose limit is `u32::MAX` bytes (four
/// bytes per character at most in UTF-8).
pub open spec fn password_fits(password: Seq<char>) -> bool {
    password.len() <= 0x3fff_ffff
}

/// Relies on `RngCore::fill_bytes` of the operating system's random source:
/// sixteen random bytes, the salt size that `SaltString::generate` uses.
#[verifier::external_body]
fn random_salt() -> (r: Vec<u8>)
    ensures
        r@.len() == 16,
{
    let mut bytes = vec![0u8; 16];
    argon2::password_hash::rand_core::RngCore::fill_bytes(
        &mut argon2::password_hash::rand_core::OsRng,
        &mut bytes,
    );
    bytes
}

/// Relies on `SaltString::encode_b64` and `PasswordHasher::hash_password` of
/// `Argon2::default()`: the PHC string of the password under the salt, which
/// embeds the algorithm, its parameters and the salt, so that verification
/// with the same password succeeds. Sixteen salt bytes encode to a valid salt,
/// and the only other input check is the password's length.
#[verifier::external_body]
fn argon2_hash(password: &str, salt: &[u8]) -> (r: Result<String, argon2::password_hash::Error>)
    ensures
        r matches Ok(c) ==> c@ == phc_hash(password@, salt@) && argon2_accepts(password@, c@),
        salt@.len() == 16 && password_fits(password@) ==> r is Ok,
{
    let salt = argon2::password_hash::SaltString::encode_b64(salt)?;
    let argon2 = argon2::Argon2::default();
    let hash = argon2::PasswordHasher::hash_password(&argon2, password.as_bytes(), &salt)?;
    Ok(hash.to_string())
}

/// Relies on `PasswordHash::new` and `PasswordVerifier::verify_password` of
/// `Argon2::default()`: a credential that does not parse verifies nothing.
#[verifier::external_body]
fn argon2_verify(password: &str, credential: &str) -> (r: bool)
    ensures
        r == argon2_accepts(password@, credential@),
{
    match argon2::PasswordHash::new(credential) {
        Ok(parsed) => argon2::PasswordVerifier::verify_password(
            &argon2::Argon2::default(),
            password.as_bytes(),
            &parsed,
        ).is_ok(),
        Err(_) => false,
    }
}

/// Hashes a password under a fresh random salt. The credential verifies
/// against the password it was made from.
pub fn hash_password(password: &str) -> (r: Result<String, AuthError>)
    ensures
        r is Err ==> r == Err::<String, AuthError>(AuthError::Internal),
        password_fits(password@) ==> r is Ok,
        r matches Ok(c) ==> argon2_accepts(password@, c@),
        r matches Ok(c) ==> exists|salt: Seq<u8>|
            salt.len() == 16 && c@ == #[trigger] phc_hash(password@, salt),
{
    let salt = random_salt();
    match argon2_hash(password, salt.as_slice()) {
        Ok(c) => Ok(c),
        Err(_) => Err(AuthError::Internal),
    }
}

/// Whether `password` verifies against the stored `credential`.
pub fn verify_password(password: &str, credential: &str) -> (r: bool)
    ensures
        r == argon2_accepts(password@, credential@),
{
    argon2_verify(password, credential)
}

/// The header value starts with the `Bearer ` scheme.
pub open spec fn has_bearer_prefix(h: Seq<char>) -> bool {
    h.len() >= 7 && h.subrange(0, 7) == "Bearer "@
}

/// The token of a `Bearer <token>` header value.
pub fn bearer_token(header: &str) -> (r: Option<&str>)
    ensures
        r is Some <==> has_bearer_prefix(header@),
        r matches Some(t) ==> t@ == header@.subrange(7, header@.len() as int),
{
    let n = header.unicode_len();
    if n < 7 {
        return None;
    }
    if !text_eq(header.substring_char(0, 7), "Bearer ") {
        return None;
    }
    Some(header.substring_char(7, n))
}

/// The identity that an `Authorization` header value yields at time `now`.
pub open spec fn gate_outcome(header: Option<Seq<char>>, secret: Seq<u8>, now: int) -> Result<
    AuthUser,
    AuthError,
> {
    match header {
        Some(h) => if has_bearer_prefix(h) {
            match verify_outcome(h.subrange(7, h.len() as int), secret, now) {
                Ok(id) => Ok(AuthUser { user_id: id }),
                Err(_) => Err(AuthError::Unauthenticated),
            }
        } else {
            Err(AuthError::Unauthenticated)
        },
        None => Err(AuthError::Unauthenticated),
    }
}

/// The text of an optional header value.
pub open spec fn header_text(header: Option<&str>) -> Option<Seq<char>> {
    match header {
        Some(h) => Some(h@),
        None => None,
    }
}

impl AuthUser {
    /// Reads the caller's identity from an `Authorization` header value at
    /// time `now` (seconds since the epoch). Any failure is `Unauthenticated`.
    pub fn from_authorization_at(header: Option<&str>, secret: &[u8], now: i64) -> (r: Result<
        AuthUser,
        AuthError,
    >)
        ensures
            r == gate_outcome(header_text(header), secret@, now as int),
    {
        let h = match header {
            Some(h) => h,
            None => return Err(AuthError::Unauthenticated),
        };
        let token = match bearer_token(h) {
            Some(t) => t,
            None => return Err(AuthError::Unauthenticated),
        };
        match verify_token_at(token, secret, now) {
            Ok(id) => Ok(AuthUser { user_id: id }),
            Err(_) => Err(AuthError::Unauthenticated),
        }
    }

    /// Reads the caller's identity from an `Authorization` header value at
    /// the current time.
    pub fn from_authorization(header: Option<&str>, secret: &[u8]) -> (r: Result<
        AuthUser,
        AuthError,
    >)
        ensures
            exists|now: int|
                #![trigger gate_outcome(header_text(header), secret@, now)]
                now >= 0 && r == gate_outcome(header_text(header), secret@, now),
    {
        let now = unix_now();
        let r = AuthUser::from_authorization_at(header, secret, now);
        assert(r == gate_outcome(header_text(header), secret@, now as int));
        r
    }
}

/// An account ready to be stored: the signup's name and email, with the
/// password replaced by its credential.
#[derive(Debug)]
pub struct NewUser {
    pub name: String,
    pub email: String,
    pub password_hash: String,
}

/// Prepares the account that a signup creates.
pub fn signup(payload: SignupPayload) -> (r: Result<NewUser, AuthError>)
    ensures
        r is Err ==> r == Err::<NewUser, AuthError>(AuthError::Internal),
        password_fits(payload.password@) ==> r is Ok,
        r matches Ok(u) ==> u.name == payload.name && u.email == payload.email && argon2_accepts(
            payload.password@,
            u.password_hash@,
        ),
        r matches Ok(u) ==> exists|salt: Seq<u8>|
            salt.len() == 16 && u.password_hash@ == #[trigger] phc_hash(payload.password@, salt),
{
    let password_hash = hash_password(payload.password.as_str())?;
    Ok(NewUser { name: payload.name, email: payload.email, password_hash })
}

/// Logs in the account found for the payload's email (`None` where there is
/// none): a token for it where the password verifies, `Unauthenticated`
/// otherwise, whether or not the email exists.
pub fn login(user: Option<&User>, payload: &LoginPayload, secret: &[u8]) -> (r: Result<
    String,
    AuthError,
>)
    ensures
        user is None ==> r == Err::<String, AuthError>(AuthError::Unauthenticated),
        user matches Some(u) ==> !argon2_accepts(payload.password@, u.password_hash@) ==> r
            == Err::<String, AuthError>(AuthError::Unauthenticated),
        user matches Some(u) ==> argon2_accepts(payload.password@, u.password_hash@) ==> r is Ok,
        r matches Ok(t) ==> token_names(t@, secret@, user.unwrap().id),
        r matches Ok(t) ==> exists|now: int|
            #![trigger issued_token(user.unwrap().id, secret@, now)]
            now >= 0 && t@ == issued_token(user.unwrap().id, secret@, now),
{
    let u = match user {
        Some(u) => u,
        None => return Err(AuthError::Unauthenticated),
    };
    if !verify_password(payload.password.as_str(), u.password_hash.as_str()) {
        return Err(AuthError::Unauthenticated);
    }
    match create_token(u.id, secret) {
        Ok(t) => {
            Ok(t)
        },
        Err(_) => Err(AuthError::Internal),
    }
}

/// Accepts a reset request only for an email that has an account.
pub fn reset_password_request(user: Option<&User>) -> (r: Result<(), AuthError>)
    ensures
        r == (if user is Some {
            Ok::<(), AuthError>(())
        } else {
            Err(AuthError::NotFound)
        }),
{
    match user {
        Some(_) => Ok(()),
        None => Err(AuthError::NotFound),
    }
}

/// Checks a reset token at time `now` and returns the account it names with
/// the credential of the new password. A token that does not verify is
/// `Unauthenticated`.
pub fn reset_password_at(payload: &ResetPasswordPayload, secret: &[u8], now: i64) -> (r: Result<
    (u128, String),
    AuthError,
>)
    ensures
        verify_outcome(payload.token@, secret@, now as int) is Err ==> r == Err::<
            (u128, String),
            AuthError,
        >(AuthError::Unauthenticated),
        verify_outcome(payload.token@, secret@, now as int) matches Ok(id) ==> (r is Err ==> r
            == Err::<(u128, String), AuthError>(AuthError::Internal)) && (password_fits(
            payload.new_password@,
        ) ==> r is Ok) && (r matches Ok(p) ==> p.0 == id && argon2_accepts(
            payload.new_password@,
            p.1@,
        )),
{
    let id = match verify_token_at(payload.token.as_str(), secret, now) {
        Ok(id) => id,
        Err(_) => return Err(AuthError::Unauthenticated),
    };
    let credential = hash_password(payload.new_password.as_str())?;
    Ok((id, credential))
}

/// Checks a reset token at the current time; see `reset_password_at`.
pub fn reset_password(payload: &ResetPasswordPayload, secret: &[u8]) -> (r: Result<
    (u128, String),
    AuthError,
>)
    ensures
        exists|now: int|
            #![trigger verify_outcome(payload.token@, secret@, now)]
            now >= 0 && match verify_outcome(payload.token@, secret@, now) {
                Err(_) => r == Err::<(u128, String), AuthError>(AuthError::Unauthenticated),
                Ok(id) => (r is Err ==> r == Err::<(u128, String), AuthError>(AuthError::Internal))
                    && (password_fits(payload.new_password@) ==> r is Ok) && (r matches Ok(p)
                    ==> p.0 == id && argon2_accepts(payload.new_password@, p.1@)),
            },
        jwt_claims(payload.token@, secret@) is Err ==> r == Err::<(u128, String), AuthError>(
            AuthError::Unauthenticated,
        ),
        r matches Ok(p) ==> argon2_accepts(payload.new_password@, p.1@),
        r matches Ok(p) ==> token_names(payload.token@, secret@, p.0),
{
    let now = unix_now();
    reset_password_at(payload, secret, now)
}

} // verus!
