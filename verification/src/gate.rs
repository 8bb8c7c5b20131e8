//! Request gating: classify a request as public or protected, demand a
//! bearer token on protected ones, check its signature and expiry, confirm
//! the account is still live, and only then attach the verified identity.
//!
//! Every ambiguity — missing header, malformed scheme, bad signature,
//! expired claims, unknown or deactivated account — resolves to the same
//! rejection, so a caller learns nothing about which check failed. Only a
//! store failure is reported apart, as an internal error, never as an
//! admission.

use vstd::prelude::*;
use crate::AuthError;
use crate::text::{str_eq, strip_prefix_of};
use crate::token::{decode_of, ClaimsView, JwtClaims, TokenCodec};
use crate::user::{active_with_id, User, UserStore, UserView};

verus! {

/// The fixed allow-list of public operations.
pub open spec fn is_public_path(path: Seq<char>) -> bool {
    ||| path == "/api/health"@
    ||| path == "/api/auth/login"@
    ||| path == "/api/auth/register"@
}

/// Whether a path belongs to the public allow-list: health check,
/// registration, login. Everything else is protected.
pub fn is_public_route(path: &str) -> (r: bool)
    ensures
        r == is_public_path(path@),
{
    str_eq(path, "/api/health") || str_eq(path, "/api/auth/login") || str_eq(
        path,
        "/api/auth/register",
    )
}

/// The token carried by an `Authorization` header, when the header exists
/// and uses the bearer scheme.
pub open spec fn bearer_token(header: Option<Seq<char>>) -> Option<Seq<char>> {
    match header {
        None => None,
        Some(h) => if h.len() >= 7 && h.subrange(0, 7) == "Bearer "@ {
            Some(h.subrange(7, h.len() as int))
        } else {
            None
        },
    }
}

/// Pull the token out of an `Authorization` header.
fn extract_bearer(header: Option<&str>) -> (r: Option<String>)
    ensures
        match r {
            Some(t) => bearer_token(header.deep_view()) == Some(t@),
            None => bearer_token(header.deep_view()) is None,
        },
{
    proof {
        reveal_strlit("Bearer ");
    }
    match header {
        None => None,
        Some(h) => match strip_prefix_of(h, "Bearer ") {
            Some(rest) => {
                proof {
                    assert(h@.subrange(0, 7) =~= "Bearer "@);
                    assert(h@.subrange(7, h@.len() as int) =~= rest@);
                }
                Some(rest)
            },
            None => None,
        },
    }
}

/// A header in the bearer scheme carries exactly the token after the
/// scheme prefix.
pub proof fn lemma_bearer_of(t: Seq<char>)
    ensures
        bearer_token(Some("Bearer "@ + t)) == Some(t),
{
    reveal_strlit("Bearer ");
    let h = "Bearer "@ + t;
    assert(h.subrange(0, 7) =~= "Bearer "@);
    assert(h.subrange(7, h.len() as int) =~= t);
}

/// The outcome for one request.
pub enum GateOutcome {
    /// The path is public: pass through untouched, no identity attached.
    Public,
    /// Admitted: the verified claims travel with the request.
    Admit(JwtClaims),
    /// Rejected; missing, malformed, invalid or expired proof, or a dead
    /// account, all indistinguishable by design.
    Unauthenticated,
    /// The store could not answer the liveness check.
    Unavailable,
}

/// The outcome as a mathematical value, over claim views.
pub enum GateVerdict {
    Public,
    Admit(ClaimsView),
    Unauthenticated,
}

/// The whole per-request policy, as a function of the store contents, the
/// secret, the path, the header and the clock.
pub open spec fn gate_spec(
    users: Seq<UserView>,
    secret: Seq<u8>,
    path: Seq<char>,
    header: Option<Seq<char>>,
    now: u64,
) -> GateVerdict {
    if is_public_path(path) {
        GateVerdict::Public
    } else {
        match bearer_token(header) {
            None => GateVerdict::Unauthenticated,
            Some(tok) => match decode_of(secret, tok) {
                None => GateVerdict::Unauthenticated,
                Some(c) => if now > c.exp {
                    GateVerdict::Unauthenticated
                } else if active_with_id(users, c.sub) {
                    GateVerdict::Admit(c)
                } else {
                    GateVerdict::Unauthenticated
                },
            },
        }
    }
}

/// Steps one and two of the policy, before any store access: classify the
/// path, demand and decode the bearer token, and check expiry.
pub enum GateStep {
    /// Public path: no identity needed.
    Public,
    /// Authentic, unexpired claims; the liveness check remains.
    NeedsLiveness(JwtClaims),
    /// Rejected without touching the store.
    Rejected,
}

/// Classify a request and judge its token, without the store: public paths
/// pass, a missing or malformed header, an inauthentic token, or expired
/// claims are rejected, and anything else awaits the liveness check.
pub fn check_request(codec: &TokenCodec, path: &str, auth_header: Option<&str>, now: u64) -> (r:
    GateStep)
    ensures
        match r {
            GateStep::Public => is_public_path(path@),
            GateStep::NeedsLiveness(claims) => {
                &&& !is_public_path(path@)
                &&& bearer_token(auth_header.deep_view()) matches Some(tok) && decode_of(
                    codec.secret_view(),
                    tok,
                ) == Some(claims@)
                &&& !(now > claims@.exp)
            },
            GateStep::Rejected => {
                &&& !is_public_path(path@)
                &&& match bearer_token(auth_header.deep_view()) {
                    None => true,
                    Some(tok) => match decode_of(codec.secret_view(), tok) {
                        None => true,
                        Some(c) => now > c.exp,
                    },
                }
            },
        },
{
    if is_public_route(path) {
        return GateStep::Public;
    }
    let token = match extract_bearer(auth_header) {
        Some(t) => t,
        None => {
            return GateStep::Rejected;
        },
    };
    let claims = match codec.decode(token.as_str()) {
        Ok(c) => c,
        Err(_) => {
            return GateStep::Rejected;
        },
    };
    if claims.is_expired_at(now) {
        return GateStep::Rejected;
    }
    GateStep::NeedsLiveness(claims)
}

/// Step four of the policy, on the result of the store lookup for the
/// claimed subject: a store failure is an internal error, an absent or
/// inactive record a rejection, a live record an admission carrying the
/// claims.
pub fn admit_decision(claims: JwtClaims, lookup: Result<Option<User>, AuthError>) -> (r:
    GateOutcome)
    ensures
        match lookup {
            Err(_) => r is Unavailable,
            Ok(None) => r is Unauthenticated,
            Ok(Some(u)) => if u@.is_active {
                r matches GateOutcome::Admit(c) && c@ == claims@
            } else {
                r is Unauthenticated
            },
        },
{
    match lookup {
        Err(_) => GateOutcome::Unavailable,
        Ok(None) => GateOutcome::Unauthenticated,
        Ok(Some(u)) => if u.is_active {
            GateOutcome::Admit(claims)
        } else {
            GateOutcome::Unauthenticated
        },
    }
}

/// The per-request policy over the in-memory store: exactly `gate_spec` of
/// the store contents, the codec's secret, the path, the header and the
/// clock. The store itself cannot fail, so no request ends `Unavailable`.
pub fn authorize(
    store: &UserStore,
    codec: &TokenCodec,
    path: &str,
    auth_header: Option<&str>,
    now: u64,
) -> (r: GateOutcome)
    requires
        store.wf(),
    ensures
        ({
            let v = gate_spec(store@, codec.secret_view(), path@, auth_header.deep_view(), now);
            match r {
                GateOutcome::Public => v is Public,
                GateOutcome::Admit(claims) => v == GateVerdict::Admit(claims@),
                GateOutcome::Unauthenticated => v is Unauthenticated,
                GateOutcome::Unavailable => false,
            }
        }),
{
    let step = check_request(codec, path, auth_header, now);
    match step {
        GateStep::Public => GateOutcome::Public,
        GateStep::Rejected => GateOutcome::Unauthenticated,
        GateStep::NeedsLiveness(claims) => {
            let lookup = User::find_by_id(store, claims.sub);
            proof {
                match &lookup {
                    Some(u) => {
                        assert(active_with_id(store@, claims@.sub));
                    },
                    None => {
                        assert forall|i: int|
                            0 <= i < store@.len()
                                implies !((#[trigger] store@[i]).id == claims@.sub
                                && store@[i].is_active) by {
                            assert(store@[i].id == i);
                        }
                    },
                }
            }
            admit_decision(claims, Ok(lookup))
        },
    }
}

/// An expired token is rejected even though its signature still checks:
/// whenever the header's token decodes to claims already past their expiry,
/// the request is turned away with the one indistinguishable rejection.
pub proof fn lemma_expired_token_rejected(
    users: Seq<UserView>,
    secret: Seq<u8>,
    path: Seq<char>,
    header: Option<Seq<char>>,
    now: u64,
    c: ClaimsView,
)
    ensures
        (!is_public_path(path) && (bearer_token(header) matches Some(tok) && decode_of(secret, tok)
            == Some(c)) && now > c.exp) ==> gate_spec(users, secret, path, header, now)
            == GateVerdict::Unauthenticated,
{
}

/// Deactivation revokes outstanding tokens: once no live record carries the
/// claimed subject, a token for it — however valid and unexpired — is
/// rejected on every protected path.
pub proof fn lemma_revoked_subject_rejected(
    users: Seq<UserView>,
    secret: Seq<u8>,
    path: Seq<char>,
    header: Option<Seq<char>>,
    now: u64,
    c: ClaimsView,
)
    ensures
        (!is_public_path(path) && (bearer_token(header) matches Some(tok) && decode_of(secret, tok)
            == Some(c)) && !active_with_id(users, c.sub)) ==> gate_spec(
            users,
            secret,
            path,
            header,
            now,
        ) == GateVerdict::Unauthenticated,
{
}

} // verus!
