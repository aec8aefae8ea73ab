//! Credential checking: Basic-Auth header parsing, password verification
//! against stored PHC hashes, and the enumeration-resistant validation that
//! always performs exactly one hash verification.

use argon2::Argon2;
use argon2::PasswordVerifier;
use vstd::prelude::*;
use vstd::string::StrSliceExecFns;
use vstd::utf8::decode_utf8;
use vstd::utf8::valid_utf8;

use crate::domain::str_chars_eq;
use crate::domain::StorageFault;
use crate::domain::UserId;

verus! {

/// A username/password pair extracted from one request; never persisted.
pub struct Credentials {
    pub username: String,
    pub password: String,
}

/// Classified authentication failure: bad credentials are always opaque to
/// the client, store faults surface as a server error.
#[derive(Clone, Copy, PartialEq, Eq, Structural, Debug)]
pub enum AuthError {
    InvalidCredentialsError,
    UnexpectedError,
}

/// Whether a password matches a stored hash in PHC string format: the hash
/// parses, and the password hashed under its parameters yields its digest.
pub uninterp spec fn phc_verified(hash: Seq<char>, password: Seq<char>) -> bool;

/// Relies on argon2's `Argon2::verify_password` (via `PasswordVerifier<str>`,
/// which parses the PHC string itself): the outcome is a function of the hash
/// string and the candidate password alone. A malformed stored hash is
/// treated exactly like a wrong password.
#[verifier::external_body]
pub fn verify_password_hash(expected_password_hash: &str, password_candidate: &str) -> (r: Result<
    (),
    AuthError,
>)
    ensures
        r == (if phc_verified(expected_password_hash@, password_candidate@) {
            Ok::<(), AuthError>(())
        } else {
            Err::<(), AuthError>(AuthError::InvalidCredentialsError)
        }),
{
    match Argon2::default().verify_password(password_candidate.as_bytes(), expected_password_hash) {
        Ok(()) => Ok(()),
        Err(_) => Err(AuthError::InvalidCredentialsError),
    }
}

/// The outcome of credential validation, determined by the store lookup and
/// the supplied password. The fallback hash plays no part in it: a missing
/// user is rejected whatever the password.
pub open spec fn spec_validate_credentials(
    lookup: Result<Option<(UserId, Seq<char>)>, StorageFault>,
    password: Seq<char>,
) -> Result<UserId, AuthError> {
    match lookup {
        Err(_) => Err(AuthError::UnexpectedError),
        Ok(None) => Err(AuthError::InvalidCredentialsError),
        Ok(Some((user_id, hash))) => if phc_verified(hash, password) {
            Ok(user_id)
        } else {
            Err(AuthError::InvalidCredentialsError)
        },
    }
}

/// Checks the supplied credentials against the store lookup result. Exactly
/// one hash verification is performed whether or not the user exists: when
/// the lookup found nothing, the fixed fallback hash is verified instead and
/// the outcome discarded, so the work done does not reveal user existence.
pub fn validate_credentials(
    credentials: &Credentials,
    lookup: Result<Option<(UserId, String)>, StorageFault>,
    fallback_hash: &str,
) -> (r: Result<UserId, AuthError>)
    ensures
        r == spec_validate_credentials(
            match lookup {
                Ok(Some((user_id, hash))) => Ok(Some((user_id, hash@))),
                Ok(None) => Ok(None),
                Err(f) => Err(f),
            },
            credentials.password@,
        ),
{
    match lookup {
        Err(_) => Err(AuthError::UnexpectedError),
        Ok(None) => {
            let _ = verify_password_hash(fallback_hash, credentials.password.as_str());
            Err(AuthError::InvalidCredentialsError)
        },
        Ok(Some((user_id, hash))) => {
            match verify_password_hash(hash.as_str(), credentials.password.as_str()) {
                Ok(()) => Ok(user_id),
                Err(_) => Err(AuthError::InvalidCredentialsError),
            }
        },
    }
}

/// For every registered user, the correct password authenticates as that
/// user, and any password that does not match the stored hash is rejected as
/// invalid credentials.
pub proof fn lemma_registered_user_authentication(
    user_id: UserId,
    hash: Seq<char>,
    password: Seq<char>,
)
    ensures
        phc_verified(hash, password) ==> spec_validate_credentials(
            Ok(Some((user_id, hash))),
            password,
        ) == Ok::<UserId, AuthError>(user_id),
        !phc_verified(hash, password) ==> spec_validate_credentials(
            Ok(Some((user_id, hash))),
            password,
        ) == Err::<UserId, AuthError>(AuthError::InvalidCredentialsError),
{
}

/// A username the store does not know is rejected as invalid credentials
/// even when the supplied password matches the fallback hash used to equalize
/// the verification work.
pub proof fn lemma_unknown_user_never_authenticates(fallback_hash: Seq<char>, password: Seq<char>)
    requires
        phc_verified(fallback_hash, password),
    ensures
        spec_validate_credentials(Ok(None), password) == Err::<UserId, AuthError>(
            AuthError::InvalidCredentialsError,
        ),
{
}

/// Why a Basic-Auth header was rejected; kept for internal logs only and
/// mapped to one opaque client-side failure.
#[derive(Clone, Copy, PartialEq, Eq, Structural, Debug)]
pub enum HeaderFault {
    Missing,
    NotBasic,
    BadBase64,
    BadUtf8,
    MissingPassword,
}

/// What base64 decoding with the standard alphabet yields, or nothing when
/// the input is not well-formed base64.
pub uninterp spec fn base64_decoding(s: Seq<char>) -> Option<Seq<u8>>;

/// Relies on base64's `decode_config` with the `STANDARD` configuration: the
/// result is a function of the input characters alone.
#[verifier::external_body]
fn base64_decode(s: &str) -> (r: Option<Vec<u8>>)
    ensures
        r matches Some(v) ==> base64_decoding(s@) == Some(v@),
        r is None ==> base64_decoding(s@) is None,
{
    base64::decode_config(s, base64::STANDARD).ok()
}

/// Relies on `String::from_utf8`: it succeeds exactly on valid UTF-8 and
/// yields its decoding.
#[verifier::external_body]
fn string_from_utf8(bytes: Vec<u8>) -> (r: Option<String>)
    ensures
        r is Some <==> valid_utf8(bytes@),
        r matches Some(s) ==> s@ == decode_utf8(bytes@),
{
    String::from_utf8(bytes).ok()
}

/// The scheme prefix of a Basic-Auth header value.
pub open spec fn basic_prefix() -> Seq<char> {
    seq!['B', 'a', 's', 'i', 'c', ' ']
}

/// Position of the first `:`.
pub open spec fn first_colon(s: Seq<char>) -> Option<int>
    decreases s.len(),
{
    if s.len() == 0 {
        None
    } else if s[0] == ':' {
        Some(0)
    } else {
        match first_colon(s.drop_first()) {
            Some(i) => Some(i + 1),
            None => None,
        }
    }
}

proof fn lemma_first_colon(s: Seq<char>)
    ensures
        match first_colon(s) {
            Some(i) => 0 <= i < s.len() && s[i] == ':' && forall|j: int| 0 <= j < i ==> s[j] != ':',
            None => forall|j: int| 0 <= j < s.len() ==> s[j] != ':',
        },
    decreases s.len(),
{
    if s.len() > 0 && s[0] != ':' {
        let t = s.drop_first();
        lemma_first_colon(t);
        match first_colon(t) {
            Some(i) => {
                assert(s[i + 1] == t[i]);
                assert forall|j: int| 0 <= j < i + 1 implies s[j] != ':' by {
                    if j > 0 {
                        assert(s[j] == t[j - 1]);
                    }
                }
            },
            None => {
                assert forall|j: int| 0 <= j < s.len() implies s[j] != ':' by {
                    if j > 0 {
                        assert(s[j] == t[j - 1]);
                    }
                }
            },
        }
    }
}

fn find_colon(s: &str) -> (r: Option<usize>)
    ensures
        r == match first_colon(s@) {
            Some(i) => Some(i as usize),
            None => None::<usize>,
        },
{
    proof {
        lemma_first_colon(s@);
    }
    let len = s.unicode_len();
    let mut i: usize = 0;
    while i < len
        invariant
            i <= len,
            len == s@.len(),
            forall|j: int| 0 <= j < i ==> s@[j] != ':',
            match first_colon(s@) {
                Some(k) => 0 <= k < s@.len() && s@[k] == ':' && forall|j: int|
                    0 <= j < k ==> s@[j] != ':',
                None => forall|j: int| 0 <= j < s@.len() ==> s@[j] != ':',
            },
        decreases len - i,
    {
        if s.get_char(i) == ':' {
            return Some(i);
        }
        i = i + 1;
    }
    None
}

/// How a Basic-Auth header value decomposes into a username and a password:
/// the scheme prefix is stripped, the rest base64-decoded, the decoded bytes
/// read as UTF-8, and the text split at its first colon.
pub open spec fn spec_basic_credentials(header: Option<Seq<char>>) -> Result<
    (Seq<char>, Seq<char>),
    HeaderFault,
> {
    match header {
        None => Err(HeaderFault::Missing),
        Some(h) => {
            if !(h.len() >= 6 && h.subrange(0, 6) == basic_prefix()) {
                Err(HeaderFault::NotBasic)
            } else {
                match base64_decoding(h.skip(6)) {
                    None => Err(HeaderFault::BadBase64),
                    Some(bytes) => {
                        if !valid_utf8(bytes) {
                            Err(HeaderFault::BadUtf8)
                        } else {
                            let decoded = decode_utf8(bytes);
                            match first_colon(decoded) {
                                None => Err(HeaderFault::MissingPassword),
                                Some(i) => Ok(
                                    (decoded.take(i), decoded.skip(i + 1)),
                                ),
                            }
                        }
                    },
                }
            }
        },
    }
}

/// Extracts credentials from the value of an `Authorization` header, if one
/// was sent.
pub fn basic_authentication(header: Option<&str>) -> (r: Result<Credentials, HeaderFault>)
    ensures
        ({
            let outcome = spec_basic_credentials(
                match header {
                    Some(h) => Some(h@),
                    None => None,
                },
            );
            match (r, outcome) {
                (Ok(c), Ok(p)) => c.username@ == p.0 && c.password@ == p.1,
                (Err(e), Err(f)) => e == f,
                _ => false,
            }
        }),
{
    let h = match header {
        Some(h) => h,
        None => {
            return Err(HeaderFault::Missing);
        },
    };
    let hlen = h.unicode_len();
    if hlen < 6 || h.get_char(0) != 'B' || h.get_char(1) != 'a' || h.get_char(2) != 's'
        || h.get_char(3) != 'i' || h.get_char(4) != 'c' || h.get_char(5) != ' ' {
        proof {
            if hlen >= 6 {
                assert(h@.subrange(0, 6) != basic_prefix()) by {
                    if h@.subrange(0, 6) == basic_prefix() {
                        assert(h@.subrange(0, 6)[0] == h@[0]);
                        assert(h@.subrange(0, 6)[1] == h@[1]);
                        assert(h@.subrange(0, 6)[2] == h@[2]);
                        assert(h@.subrange(0, 6)[3] == h@[3]);
                        assert(h@.subrange(0, 6)[4] == h@[4]);
                        assert(h@.subrange(0, 6)[5] == h@[5]);
                    }
                }
            }
        }
        return Err(HeaderFault::NotBasic);
    }
    proof {
        assert(h@.subrange(0, 6) =~= basic_prefix());
        assert(h@.subrange(6, h@.len() as int) =~= h@.skip(6));
    }
    let payload = h.substring_char(6, hlen);
    let decoded_bytes = match base64_decode(payload) {
        Some(v) => v,
        None => {
            return Err(HeaderFault::BadBase64);
        },
    };
    let decoded = match string_from_utf8(decoded_bytes) {
        Some(s) => s,
        None => {
            return Err(HeaderFault::BadUtf8);
        },
    };
    let d = decoded.as_str();
    let dlen = d.unicode_len();
    let i = match find_colon(d) {
        Some(i) => i,
        None => {
            return Err(HeaderFault::MissingPassword);
        },
    };
    proof {
        lemma_first_colon(d@);
        assert(d@.subrange(0, i as int) =~= d@.take(i as int));
        assert(d@.subrange(i + 1, d@.len() as int) =~= d@.skip(i + 1));
    }
    let username = d.substring_char(0, i).to_owned();
    let password = d.substring_char(i + 1, dlen).to_owned();
    Ok(Credentials { username, password })
}

/// Why a password-change request was rejected before any authentication.
#[derive(Clone, Copy, PartialEq, Eq, Structural, Debug)]
pub enum PasswordChangeRejection {
    Mismatch,
    BadLength,
}

/// The password-change policy: both entries must agree and the new password
/// must be between 12 and 128 bytes long.
pub open spec fn spec_validate_new_password(new: &str, check: &str) -> Result<
    (),
    PasswordChangeRejection,
> {
    if new@ != check@ {
        Err(PasswordChangeRejection::Mismatch)
    } else if new.len() < 12 || new.len() > 128 {
        Err(PasswordChangeRejection::BadLength)
    } else {
        Ok(())
    }
}

/// Checks a requested password change against the policy.
pub fn validate_new_password(new_password: &str, new_password_check: &str) -> (r: Result<
    (),
    PasswordChangeRejection,
>)
    ensures
        r == spec_validate_new_password(new_password, new_password_check),
{
    if !str_chars_eq(new_password, new_password_check) {
        Err(PasswordChangeRejection::Mismatch)
    } else {
        let len = new_password.len();
        if len < 12 || len > 128 {
            Err(PasswordChangeRejection::BadLength)
        } else {
            Ok(())
        }
    }
}

} // verus!
