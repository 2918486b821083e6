//! Users of the server: the hash stored for a new user's password, the
//! check of a password against it, and the token handed to a user who
//! logs in.

use argon2::password_hash::{PasswordHash, PasswordHasher, PasswordVerifier, SaltString};
use argon2::Argon2;
use rand::distr::{Alphanumeric, SampleString};
use rand::RngCore;
use vstd::prelude::*;
use crate::search::{append_str, HttpError};

verus! {

/// Whether `c` is an ASCII letter or digit.
pub open spec fn is_ascii_alphanumeric(c: char) -> bool {
    let u = c as u32;
    (48 <= u <= 57) || (65 <= u <= 90) || (97 <= u <= 122)
}

/// How many characters a login token has.
pub const TOKEN_LENGTH: usize = 64;

/// Calls `Alphanumeric.sample_string(&mut rand::rng(), len)`: `len` random
/// ASCII letters and digits. Only that shape is claimed.
#[verifier::external_body]
fn random_alphanumeric(len: usize) -> (r: String)
    ensures
        r@.len() == len,
        forall|i: int| 0 <= i < r@.len() ==> is_ascii_alphanumeric(#[trigger] r@[i]),
{
    Alphanumeric.sample_string(&mut rand::rng(), len)
}

/// A new login token: 64 random ASCII letters and digits.
pub fn new_auth_token() -> (t: String)
    ensures
        t@.len() == 64,
        forall|i: int| 0 <= i < t@.len() ==> is_ascii_alphanumeric(#[trigger] t@[i]),
{
    random_alphanumeric(TOKEN_LENGTH)
}

/// What checking `password` against the stored hash `phc` (a PHC string)
/// gives with Argon2: `None` when it matches, or the `Debug` text of the
/// `password_hash` error (an unreadable hash, or a password that does not
/// match).
pub uninterp spec fn password_check(password: Seq<char>, phc: Seq<char>) -> Option<Seq<char>>;

/// Calls `PasswordHash::new(phc)` and then `Argon2::default().verify_password`
/// with the UTF-8 bytes of `password`; an error is turned into its
/// `Debug` text. The outcome is named, not restated: it is a function of
/// the password and the stored hash.
#[verifier::external_body]
fn check_password(password: &str, phc: &str) -> (r: Option<String>)
    ensures
        match r {
            None => password_check(password@, phc@) is None,
            Some(e) => password_check(password@, phc@) == Some(e@),
        },
{
    match PasswordHash::new(phc) {
        Err(e) => Some(format!("{e:?}")),
        Ok(parsed) => match Argon2::default().verify_password(password.as_bytes(), &parsed) {
            Ok(()) => None,
            Err(e) => Some(format!("{e:?}")),
        },
    }
}

/// Calls `rand::rng().fill_bytes` on 16 bytes: a random salt. Only its
/// length is claimed.
#[verifier::external_body]
fn random_salt() -> (salt: Vec<u8>)
    ensures
        salt@.len() == 16,
{
    let mut salt = [0u8; 16];
    rand::rng().fill_bytes(&mut salt);
    salt.to_vec()
}

/// What hashing `password` with Argon2 (default parameters) and the salt
/// `salt` gives: the hash as a PHC string, or the `Debug` text of the
/// error.
pub uninterp spec fn argon2_hash_text(password: Seq<char>, salt: Seq<u8>) -> Result<Seq<char>, Seq<char>>;

/// Calls `Argon2::default().hash_password` on the UTF-8 bytes of
/// `password` with `salt` (encoded by `SaltString::encode_b64`), and
/// writes the hash as a PHC string; an error is turned into its `Debug`
/// text. The outcome is named, not restated.
#[verifier::external_body]
fn argon2_hash(password: &str, salt: &Vec<u8>) -> (r: Result<String, String>)
    ensures
        match r {
            Ok(h) => argon2_hash_text(password@, salt@) == Ok::<Seq<char>, Seq<char>>(h@),
            Err(e) => argon2_hash_text(password@, salt@) == Err::<Seq<char>, Seq<char>>(e@),
        },
{
    match SaltString::encode_b64(salt) {
        Err(e) => Err(format!("{e:?}")),
        Ok(s) => match Argon2::default().hash_password(password.as_bytes(), &s) {
            Ok(h) => Ok(h.to_string()),
            Err(e) => Err(format!("{e:?}")),
        },
    }
}

/// The hash stored for a new user's password: Argon2 with a fresh salt of
/// 16 random bytes, or the text of the hashing error.
pub fn password_hash_for_new_user(password: &str) -> (r: Result<String, String>)
    ensures
        exists|salt: Seq<u8>|
            salt.len() == 16 && match r {
                Ok(h) => argon2_hash_text(password@, salt) == Ok::<Seq<char>, Seq<char>>(h@),
                Err(e) => argon2_hash_text(password@, salt) == Err::<Seq<char>, Seq<char>>(e@),
            },
{
    let salt = random_salt();
    argon2_hash(password, &salt)
}

/// The error answered when a password cannot be checked: an internal
/// error whose text is `argon2 error: ` and the error's `Debug` text.
pub open spec fn password_error(debug_text: Seq<char>) -> Seq<char> {
    "argon2 error: "@ + debug_text
}

/// Checks a user's password against the stored hash: `Ok` when it
/// matches, and otherwise the internal error the request is answered.
pub fn verify_user_password(password: &str, stored_hash: &str) -> (r: Result<(), HttpError>)
    ensures
        match password_check(password@, stored_hash@) {
            None => r is Ok,
            Some(t) => r matches Err(HttpError::Internal { err }) && err@ == password_error(t),
        },
{
    match check_password(password, stored_hash) {
        None => Ok(()),
        Some(text) => {
            let mut err = String::from_str("argon2 error: ");
            append_str(&mut err, text.as_str());
            Err(HttpError::Internal { err })
        },
    }
}

/// What a successful login answers: the user's id and name and the new
/// token.
#[derive(Debug, Clone)]
pub struct LoginAnswer {
    pub id: usize,
    pub username: String,
    pub auth_token: String,
}

/// Logs a stored user in: when `password` matches the user's stored hash,
/// a new token is made for them; otherwise the check's error.
pub fn login(id: usize, username: String, stored_hash: &str, password: &str) -> (r: Result<
    LoginAnswer,
    HttpError,
>)
    ensures
        match password_check(password@, stored_hash@) {
            None => r matches Ok(a) && a.id == id && a.username == username && a.auth_token@.len()
                == 64 && forall|i: int|
                0 <= i < a.auth_token@.len() ==> is_ascii_alphanumeric(#[trigger] a.auth_token@[i]),
            Some(t) => r matches Err(HttpError::Internal { err }) && err@ == password_error(t),
        },
{
    match verify_user_password(password, stored_hash) {
        Ok(()) => Ok(LoginAnswer { id, username, auth_token: new_auth_token() }),
        Err(e) => Err(e),
    }
}

} // verus!
