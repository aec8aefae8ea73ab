use argon2::{Argon2, PasswordHash, PasswordHasher};
use z2p::authentication::{
    basic_authentication, validate_credentials, validate_new_password, verify_password_hash,
    AuthError, Credentials, HeaderFault, PasswordChangeRejection,
};
use z2p::domain::{StorageFault, UserId};

fn phc_hash_of(password: &str) -> String {
    let hash: PasswordHash = Argon2::default()
        .hash_password_with_salt(password.as_bytes(), b"a-test-only-salt")
        .expect("hashing failed");
    hash.to_string()
}

fn creds(username: &str, password: &str) -> Credentials {
    Credentials {
        username: username.to_string(),
        password: password.to_string(),
    }
}

const USER: UserId = UserId { value: 7 };

#[test]
fn registered_user_with_correct_password_authenticates() {
    let stored = phc_hash_of("everythinghastostartsomewhere");
    let fallback = phc_hash_of("fallback-password-value");
    let r = validate_credentials(
        &creds("ursula", "everythinghastostartsomewhere"),
        Ok(Some((USER, stored))),
        &fallback,
    );
    assert_eq!(r, Ok(USER));
}

#[test]
fn registered_user_with_wrong_password_is_rejected() {
    let stored = phc_hash_of("everythinghastostartsomewhere");
    let fallback = phc_hash_of("fallback-password-value");
    let r = validate_credentials(
        &creds("ursula", "not-the-password"),
        Ok(Some((USER, stored))),
        &fallback,
    );
    assert_eq!(r, Err(AuthError::InvalidCredentialsError));
}

#[test]
fn unknown_user_is_rejected_even_with_the_fallback_password() {
    // The supplied password is exactly the plaintext behind the fallback
    // hash; a missing user must still never authenticate.
    let fallback = phc_hash_of("fallback-password-value");
    let r = validate_credentials(
        &creds("nobody", "fallback-password-value"),
        Ok(None),
        &fallback,
    );
    assert_eq!(r, Err(AuthError::InvalidCredentialsError));
}

#[test]
fn store_fault_is_an_unexpected_error() {
    let fallback = phc_hash_of("fallback-password-value");
    let r = validate_credentials(
        &creds("ursula", "everythinghastostartsomewhere"),
        Err(StorageFault),
        &fallback,
    );
    assert_eq!(r, Err(AuthError::UnexpectedError));
}

#[test]
fn malformed_stored_hash_reads_as_invalid_credentials() {
    assert_eq!(
        verify_password_hash("not a phc string", "whatever"),
        Err(AuthError::InvalidCredentialsError)
    );
    let good = phc_hash_of("right-password");
    assert_eq!(verify_password_hash(&good, "right-password"), Ok(()));
    assert_eq!(
        verify_password_hash(&good, "wrong-password"),
        Err(AuthError::InvalidCredentialsError)
    );
}

#[test]
fn basic_auth_header_parses_into_credentials() {
    let header = format!("Basic {}", base64::encode("ursula:le guin"));
    let c = basic_authentication(Some(&header)).unwrap();
    assert_eq!(c.username, "ursula");
    assert_eq!(c.password, "le guin");
}

#[test]
fn basic_auth_splits_at_the_first_colon() {
    let header = format!("Basic {}", base64::encode("ursula:pass:word"));
    let c = basic_authentication(Some(&header)).unwrap();
    assert_eq!(c.username, "ursula");
    assert_eq!(c.password, "pass:word");
}

#[test]
fn basic_auth_rejects_bad_headers() {
    assert!(matches!(basic_authentication(None), Err(HeaderFault::Missing)));
    assert!(matches!(
        basic_authentication(Some("Bearer abc")),
        Err(HeaderFault::NotBasic)
    ));
    assert!(matches!(
        basic_authentication(Some("Basic !!!not-base64!!!")),
        Err(HeaderFault::BadBase64)
    ));
    let invalid_utf8 = format!("Basic {}", base64::encode([0xffu8, 0xfe, 0xfd]));
    assert!(matches!(
        basic_authentication(Some(&invalid_utf8)),
        Err(HeaderFault::BadUtf8)
    ));
    let no_colon = format!("Basic {}", base64::encode("ursula"));
    assert!(matches!(
        basic_authentication(Some(&no_colon)),
        Err(HeaderFault::MissingPassword)
    ));
}

#[test]
fn new_password_policy() {
    assert_eq!(
        validate_new_password("a-long-enough-password", "a-long-enough-password"),
        Ok(())
    );
    assert_eq!(
        validate_new_password("a-long-enough-password", "a-different-password"),
        Err(PasswordChangeRejection::Mismatch)
    );
    assert_eq!(
        validate_new_password("short", "short"),
        Err(PasswordChangeRejection::BadLength)
    );
    let long = "x".repeat(129);
    assert_eq!(
        validate_new_password(&long, &long),
        Err(PasswordChangeRejection::BadLength)
    );
    let boundary = "x".repeat(12);
    assert_eq!(validate_new_password(&boundary, &boundary), Ok(()));
    let upper = "x".repeat(128);
    assert_eq!(validate_new_password(&upper, &upper), Ok(()));
}
