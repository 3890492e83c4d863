//! Password hashing for user accounts.
//!
//! Passwords are stored only as salted bcrypt hashes; verification is the
//! sole way back from a hash.

use vstd::prelude::*;
use crate::errors::FmError;

verus! {

/// What bcrypt's verification decides for a password and a stored hash:
/// acceptance or rejection for a well-formed hash, nothing for a malformed
/// one. Deterministic in its arguments.
pub uninterp spec fn bcrypt_check(password: Seq<char>, hash: Seq<char>) -> Option<bool>;

/// Hashes a password with a fresh random salt at bcrypt's default cost.
///
/// Relies on `bcrypt::hash`: the hash it returns encodes salt and cost, and
/// `bcrypt::verify` recomputes and accepts it for exactly this call's
/// password.
#[verifier::external_body]
pub fn hash_password(password: &str) -> (r: Result<String, FmError>)
    ensures
        r matches Ok(h) ==> bcrypt_check(password@, h@) == Some(true),
{
    bcrypt::hash(password, bcrypt::DEFAULT_COST).map_err(|_| FmError::Validation)
}

/// Checks a password against a stored hash.
///
/// Relies on `bcrypt::verify`: deterministic in password and hash — it
/// re-hashes the password with the salt and cost the hash encodes and
/// compares — and it errs exactly on hashes it cannot parse.
#[verifier::external_body]
pub fn verify_password(password: &str, hash: &str) -> (r: Result<bool, FmError>)
    ensures
        r matches Ok(b) ==> bcrypt_check(password@, hash@) == Some(b),
        r is Err <==> bcrypt_check(password@, hash@) is None,
{
    bcrypt::verify(password, hash).map_err(|_| FmError::Validation)
}

/// Marker for the API layer's bearer-token validator; the validator itself
/// lives with the HTTP plumbing.
pub struct AuthMiddleware;

} // verus!
