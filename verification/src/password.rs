//! Credential verification: one-way password hashing and checking.
//!
//! The stored form embeds a per-call random salt, so hashing the same
//! password twice gives different strings; what is stable, and what every
//! contract here is written over, is whether a password and a stored hash
//! belong together.

use vstd::prelude::*;
use crate::AuthError;

verus! {

/// Whether a password and a stored hash belong together: the outcome of the
/// adaptive hashing scheme's check, a pure function of the two strings.
pub uninterp spec fn bcrypt_accepts(password: Seq<char>, hashed: Seq<char>) -> bool;

/// Hash a password with a fresh random salt at the scheme's default work
/// factor.
///
/// Relies on `bcrypt::hash` with `bcrypt::DEFAULT_COST`: the output embeds
/// the salt and varies call to call, but every hash it produces verifies
/// against the password it was made from; with the default cost the only
/// failure is an entropy-source fault.
#[verifier::external_body]
fn bcrypt_hash(password: &str) -> (r: Option<String>)
    ensures
        r matches Some(h) ==> bcrypt_accepts(password@, h@),
{
    bcrypt::hash(password, bcrypt::DEFAULT_COST).ok()
}

/// Check a password against a stored hash.
///
/// Relies on `bcrypt::verify`: deterministic in its two arguments; a
/// malformed stored hash is folded to a non-match rather than an error, so
/// callers cannot tell a bad hash from a wrong password.
#[verifier::external_body]
fn bcrypt_verify(password: &str, hashed: &str) -> (r: bool)
    ensures
        r == bcrypt_accepts(password@, hashed@),
{
    bcrypt::verify(password, hashed).unwrap_or(false)
}

/// One-way transform of a plaintext password into its stored form.
/// Fails only on an underlying entropy fault.
pub fn hash_password(plaintext: &str) -> (r: Result<String, AuthError>)
    ensures
        match r {
            Ok(h) => bcrypt_accepts(plaintext@, h@),
            Err(e) => e == AuthError::Hashing,
        },
{
    match bcrypt_hash(plaintext) {
        Some(h) => Ok(h),
        None => Err(AuthError::Hashing),
    }
}

/// Whether a plaintext password matches a stored hash. Returns false, and
/// never an error, on a malformed stored form.
pub fn password_matches(plaintext: &str, hashed: &str) -> (r: bool)
    ensures
        r == bcrypt_accepts(plaintext@, hashed@),
{
    bcrypt_verify(plaintext, hashed)
}

} // verus!
