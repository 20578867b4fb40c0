use finance_core::auth::{
    bearer_token, hash_password, login, reset_password, reset_password_at, reset_password_request,
    signup, verify_password, AuthError,
};
use finance_core::model::{LoginPayload, ResetPasswordPayload, SignupPayload, User};
use finance_core::token::{
    create_token, create_token_at, verify_token, verify_token_at, AuthUser, TokenError,
    TOKEN_LIFETIME_SECS,
};

const SECRET: &[u8] = b"a-test-signing-secret";
const UID: u128 = 0x67e5_5044_10b1_426f_9247_bb68_0e5f_e0c8;
const T0: i64 = 1_700_000_000;

#[test]
fn hashed_password_verifies_and_others_do_not() {
    let c = hash_password("correct horse").unwrap();
    assert!(c.starts_with("$argon2"));
    assert!(verify_password("correct horse", &c));
    assert!(!verify_password("correct horsf", &c));
    assert!(!verify_password("correct horse", "not a credential"));
}

#[test]
fn hashing_twice_gives_distinct_credentials() {
    let c1 = hash_password("pw").unwrap();
    let c2 = hash_password("pw").unwrap();
    assert_ne!(c1, c2);
    assert!(verify_password("pw", &c1));
    assert!(verify_password("pw", &c2));
}

#[test]
fn issued_token_verifies_to_its_user() {
    let t = create_token_at(UID, SECRET, T0).unwrap();
    assert_eq!(verify_token_at(&t, SECRET, T0), Ok(UID));
    assert_eq!(verify_token_at(&t, SECRET, T0 + TOKEN_LIFETIME_SECS as i64), Ok(UID));
    let now_token = create_token(UID, SECRET).unwrap();
    assert_eq!(verify_token(&now_token, SECRET), Ok(UID));
}

#[test]
fn token_errors_are_distinguished() {
    let t = create_token_at(UID, SECRET, T0).unwrap();
    assert_eq!(
        verify_token_at(&t, SECRET, T0 + TOKEN_LIFETIME_SECS as i64 + 1),
        Err(TokenError::Expired)
    );
    let old = create_token_at(UID, SECRET, 0).unwrap();
    assert_eq!(verify_token(&old, SECRET), Err(TokenError::Expired));
    let mut tampered = t.clone();
    let last = tampered.pop().unwrap();
    tampered.push(if last == 'A' { 'B' } else { 'A' });
    assert_eq!(verify_token_at(&tampered, SECRET, T0), Err(TokenError::InvalidSignature));
    assert_eq!(verify_token_at(&t, b"another secret", T0), Err(TokenError::InvalidSignature));
    assert_eq!(verify_token_at("not a token", SECRET, T0), Err(TokenError::MalformedToken));
}

#[test]
fn bearer_prefix_is_required() {
    assert_eq!(bearer_token("Bearer abc.def"), Some("abc.def"));
    assert_eq!(bearer_token("Bearer "), Some(""));
    assert_eq!(bearer_token("bearer abc"), None);
    assert_eq!(bearer_token("Basic abc"), None);
    assert_eq!(bearer_token("Bear"), None);
}

#[test]
fn gate_yields_identity_or_unauthenticated() {
    let t = create_token_at(UID, SECRET, T0).unwrap();
    let header = format!("Bearer {}", t);
    assert_eq!(
        AuthUser::from_authorization_at(Some(&header), SECRET, T0 + 10),
        Ok(AuthUser { user_id: UID })
    );
    assert_eq!(
        AuthUser::from_authorization_at(Some(&header), SECRET, T0 + 2 * TOKEN_LIFETIME_SECS as i64),
        Err(AuthError::Unauthenticated)
    );
    assert_eq!(AuthUser::from_authorization_at(None, SECRET, T0), Err(AuthError::Unauthenticated));
    assert_eq!(
        AuthUser::from_authorization_at(Some(&t), SECRET, T0),
        Err(AuthError::Unauthenticated)
    );
    let fresh = create_token(UID, SECRET).unwrap();
    let fresh_header = format!("Bearer {}", fresh);
    assert_eq!(AuthUser::from_authorization(Some(&fresh_header), SECRET), Ok(AuthUser { user_id: UID }));
    assert_eq!(AuthUser::from_authorization(Some("Bearer x"), SECRET), Err(AuthError::Unauthenticated));
}

fn stored_user(password: &str) -> User {
    let new_user = signup(SignupPayload {
        name: "Ada".to_string(),
        email: "ada@example.com".to_string(),
        password: password.to_string(),
    })
    .unwrap();
    assert_eq!(new_user.name, "Ada");
    assert_eq!(new_user.email, "ada@example.com");
    User {
        id: UID,
        name: new_user.name,
        email: new_user.email,
        password_hash: new_user.password_hash,
        created_at: None,
        updated_at: None,
    }
}

#[test]
fn login_checks_the_password() {
    let user = stored_user("s3cret");
    let good = LoginPayload { email: user.email.clone(), password: "s3cret".to_string() };
    let token = login(Some(&user), &good, SECRET).unwrap();
    assert_eq!(verify_token(&token, SECRET), Ok(UID));
    let bad = LoginPayload { email: user.email.clone(), password: "wrong".to_string() };
    assert_eq!(login(Some(&user), &bad, SECRET), Err(AuthError::Unauthenticated));
    assert_eq!(login(None, &good, SECRET), Err(AuthError::Unauthenticated));
}

#[test]
fn reset_request_reveals_unknown_email() {
    let user = stored_user("x");
    assert_eq!(reset_password_request(Some(&user)), Ok(()));
    assert_eq!(reset_password_request(None), Err(AuthError::NotFound));
}

#[test]
fn reset_password_needs_a_valid_token() {
    let t = create_token_at(UID, SECRET, T0).unwrap();
    let p = ResetPasswordPayload { token: t.clone(), new_password: "n3w".to_string() };
    let (id, credential) = reset_password_at(&p, SECRET, T0 + 5).unwrap();
    assert_eq!(id, UID);
    assert!(verify_password("n3w", &credential));
    assert_eq!(
        reset_password_at(&p, SECRET, T0 + 2 * TOKEN_LIFETIME_SECS as i64).unwrap_err(),
        AuthError::Unauthenticated
    );
    let bad = ResetPasswordPayload { token: "junk".to_string(), new_password: "n3w".to_string() };
    assert_eq!(reset_password(&bad, SECRET).unwrap_err(), AuthError::Unauthenticated);
    let fresh = ResetPasswordPayload { token: create_token(UID, SECRET).unwrap(), new_password: "z".to_string() };
    assert_eq!(reset_password(&fresh, SECRET).unwrap().0, UID);
}

#[test]
fn equal_claims_give_equal_tokens() {
    let a = create_token_at(UID, SECRET, T0).unwrap();
    let b = create_token_at(UID, SECRET, T0).unwrap();
    assert_eq!(a, b);
    assert_eq!(a.split('.').count(), 3);
    assert_ne!(a, create_token_at(UID, SECRET, T0 + 1).unwrap());
    assert_ne!(a, create_token_at(UID, b"other", T0).unwrap());
}

#[test]
fn signup_stores_a_phc_credential() {
    let new_user = signup(SignupPayload {
        name: "Bo".to_string(),
        email: "bo@example.com".to_string(),
        password: "plain".to_string(),
    })
    .unwrap();
    assert_ne!(new_user.password_hash, "plain");
    assert!(new_user.password_hash.starts_with("$argon2id$v=19$m="));
    assert_eq!(new_user.password_hash.split('$').count(), 6);
    assert!(verify_password("plain", &new_user.password_hash));
}
