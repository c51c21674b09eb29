use argon2::password_hash::rand_core::OsRng;
use argon2::password_hash::{PasswordHash, PasswordHasher, PasswordVerifier, SaltString};
use argon2::Argon2;
use vstd::prelude::*;
use vstd::utf8::encode_utf8;

use crate::error::ErrorMessage;

verus! {

/// The longest password accepted, in bytes; longer ones are rejected, never truncated.
pub const MAX_PASSWORD_LENGTH: usize = 64;

/// Whether `hash` parses as a PHC-format password hash string.
pub uninterp spec fn phc_parses(hash: Seq<char>) -> bool;

/// Whether Argon2 accepts `password` against the parsed PHC hash string `hash`.
pub uninterp spec fn argon2_verifies(password: Seq<char>, hash: Seq<char>) -> bool;

/// Relies on `PasswordHasher::hash_password` of `Argon2::default()` with a salt from
/// `SaltString::generate(OsRng)`: the salt is random, so only this holds of every
/// outcome: the PHC string it returns parses, and verifying the same password against
/// it succeeds (verification re-hashes with the salt and parameters the string records).
/// The string spells out algorithm, version, parameters, a 22-character salt and a
/// 43-character output, so it is longer than any accepted password.
#[verifier::external_body]
fn argon2_hash(password: &str) -> (r: Option<String>)
    ensures
        r matches Some(h) ==> phc_parses(h@) && argon2_verifies(password@, h@)
            && h@.len() > MAX_PASSWORD_LENGTH,
{
    let salt = SaltString::generate(&mut OsRng);
    Argon2::default().hash_password(password.as_bytes(), &salt).ok().map(|h| h.to_string())
}

/// Relies on `PasswordHash::new` to parse `hash` (`None` when it fails) and on
/// `PasswordVerifier::verify_password` of `Argon2::default()` to check the password.
#[verifier::external_body]
fn argon2_check(password: &str, hash: &str) -> (r: Option<bool>)
    ensures
        r is None <==> !phc_parses(hash@),
        r matches Some(b) ==> b == argon2_verifies(password@, hash@),
{
    match PasswordHash::new(hash) {
        Ok(parsed) => Some(Argon2::default().verify_password(password.as_bytes(), &parsed).is_ok()),
        Err(_) => None,
    }
}

/// The length check `hash` makes first: an over-long password is rejected as a hashing
/// failure, never truncated.
pub open spec fn length_error(password: Seq<char>) -> Option<ErrorMessage> {
    if password.len() == 0 {
        Some(ErrorMessage::EmptyPassword)
    } else if encode_utf8(password).len() > MAX_PASSWORD_LENGTH {
        Some(ErrorMessage::HashingError)
    } else {
        None
    }
}

/// `hash` is a hash of `password` as `hash` produces it.
pub open spec fn hash_of(password: Seq<char>, hash: Seq<char>) -> bool {
    length_error(password) is None && phc_parses(hash) && argon2_verifies(password, hash)
}

/// The result of `compare` on these arguments: an error only for a hash that does not parse.
pub open spec fn compare_result(password: Seq<char>, hash: Seq<char>) -> Result<bool, ErrorMessage> {
    if phc_parses(hash) {
        Ok(argon2_verifies(password, hash))
    } else {
        Err(ErrorMessage::InvalidHashFormate)
    }
}

fn check_length(password: &str) -> (r: Result<(), ErrorMessage>)
    ensures
        r == (match length_error(password@) {
            Some(e) => Err::<(), ErrorMessage>(e),
            None => Ok(()),
        }),
{
    if password.is_empty() {
        Err(ErrorMessage::EmptyPassword)
    } else if password.as_bytes().len() > MAX_PASSWORD_LENGTH {
        Err(ErrorMessage::HashingError)
    } else {
        Ok(())
    }
}

/// Hashes a password with a fresh random salt.
pub fn hash(password: &str) -> (r: Result<String, ErrorMessage>)
    ensures
        length_error(password@) matches Some(e) ==> r == Err::<String, ErrorMessage>(e),
        length_error(password@) is None ==> (r matches Err(e) ==> e == ErrorMessage::HashingError),
        r is Ok ==> length_error(password@) is None,
        r matches Ok(h) ==> hash_of(password@, h@) && h@ != password@,
{
    check_length(password)?;
    match argon2_hash(password) {
        Some(h) => {
            proof {
                lemma_chars_within_bytes(password@);
            }
            Ok(h)
        },
        None => Err(ErrorMessage::HashingError),
    }
}

/// Checks a password against a stored hash: `Ok(false)` for a wrong password.
pub fn compare(password: &str, hashed_password: &str) -> (r: Result<bool, ErrorMessage>)
    ensures
        r == compare_result(password@, hashed_password@),
{
    match argon2_check(password, hashed_password) {
        Some(b) => Ok(b),
        None => Err(ErrorMessage::InvalidHashFormate),
    }
}

/// A text has at least as many UTF-8 bytes as characters.
pub proof fn lemma_chars_within_bytes(s: Seq<char>)
    ensures
        s.len() <= encode_utf8(s).len(),
    decreases s.len(),
{
    if s.len() > 0 {
        lemma_chars_within_bytes(s.drop_first());
    }
}

/// A password always matches a hash that `hash` made of it.
pub proof fn lemma_hash_then_compare(password: Seq<char>, hashed: Seq<char>)
    requires
        hash_of(password, hashed),
    ensures
        compare_result(password, hashed) == Ok::<bool, ErrorMessage>(true),
{
}

} // verus!
