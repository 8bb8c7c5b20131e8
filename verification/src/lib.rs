//! Authentication core of a multi-user service.
//!
//! The crate covers credential verification (one-way password hashing and
//! checking), the session-token lifecycle (minting and decoding signed,
//! time-bounded claims), request gating (classifying requests as public or
//! protected and admitting only live, authenticated ones), and the
//! registration and login workflows that tie them together.

use vstd::prelude::*;

pub mod config;
pub mod gate;
pub mod hex;
pub mod password;
pub mod service;
pub mod text;
pub mod token;
pub mod user;

verus! {

/// Every failure the core can report.
///
/// Unknown email and wrong password are deliberately the same variant
/// (`InvalidCredentials`), and every token or liveness failure on a protected
/// request is the same variant (`Unauthenticated`): callers learn nothing
/// about which check failed.
#[derive(Clone, Copy, Debug, PartialEq, Eq, Structural)]
pub enum AuthError {
    /// Malformed input shape: bad email syntax or a password that is too short.
    Validation,
    /// The email already maps to a record.
    Conflict,
    /// Unknown email or wrong password at login.
    InvalidCredentials,
    /// Missing, malformed, invalid or expired proof on a protected request,
    /// or a deactivated or absent account.
    Unauthenticated,
    /// The underlying hashing primitive failed (entropy fault).
    Hashing,
    /// The underlying signing primitive failed.
    Signing,
    /// A token that fails signature or structural checks at decode.
    InvalidToken,
    /// The user store could not be reached.
    Unavailable,
}

} // verus!
