//! Credential workflows: registration and login.
//!
//! Registration checks the input shape, refuses an email already taken up to
//! ASCII case, then hashes and persists. Login checks the shape, looks the
//! email up, verifies the password, and mints a token. Unknown email and
//! wrong password are deliberately one and the same outcome.

use vstd::prelude::*;
use crate::AuthError;
use crate::password::bcrypt_accepts;
use crate::text::fold_chars;
use crate::token::now_unix;
use crate::token::{token_of, ClaimsView, TokenCodec, TOKEN_VALIDITY_SECS};
use crate::user::{
    email_taken, CreateUserRequest, LoginRequest, LoginResponse, UpdateUserRequest, User,
    UserResponse, UserStore, UserView,
};

verus! {

/// Registration and login over a store, a hasher and a token codec.
pub struct AuthService;

impl AuthService {
    /// Register a credential: validate the shape, refuse a taken email,
    /// hash the password, persist an active record, and hand back the
    /// public profile view (never the hash, which the response type cannot
    /// even carry).
    pub fn register(store: &mut UserStore, request: &CreateUserRequest) -> (r: Result<
        UserResponse,
        AuthError,
    >)
        requires
            old(store).wf(),
        ensures
            final(store).wf(),
            !request.valid() ==> (r matches Err(e) && e == AuthError::Validation
                && final(store)@ == old(store)@),
            request.valid() && email_taken(old(store)@, request.email@) ==> (r matches Err(e)
                && e == AuthError::Conflict && final(store)@ == old(store)@),
            request.valid() && !email_taken(old(store)@, request.email@) ==> match r {
                Ok(resp) => {
                    let added = final(store)@[old(store)@.len() as int];
                    &&& final(store)@ == old(store)@.push(added)
                    &&& added.id == old(store)@.len()
                    &&& added.email == request.email@
                    &&& added.is_active
                    &&& bcrypt_accepts(request.password@, added.password_hash)
                    &&& added.first_name == request.first_name.deep_view()
                    &&& added.last_name == request.last_name.deep_view()
                    &&& resp.id == added.id
                    &&& resp.email@ == request.email@
                    &&& resp.first_name.deep_view() == request.first_name.deep_view()
                    &&& resp.last_name.deep_view() == request.last_name.deep_view()
                    &&& resp.is_active
                },
                Err(e) => e == AuthError::Hashing && final(store)@ == old(store)@,
            },
    {
        if !request.validate() {
            return Err(AuthError::Validation);
        }
        if store.email_taken_any(request.email.as_str()) {
            return Err(AuthError::Conflict);
        }
        let now = now_unix();
        let user = match User::create(store, request, now) {
            Ok(u) => u,
            Err(e) => {
                return Err(e);
            },
        };
        Ok(UserResponse::from(user))
    }

    /// Log a credential in: validate the shape, look the email up among
    /// active records, verify the password, and mint a signed token. An
    /// unknown email and a wrong password yield the very same outcome, so
    /// callers cannot enumerate accounts.
    pub fn login(store: &UserStore, codec: &TokenCodec, request: &LoginRequest) -> (r: Result<
        LoginResponse,
        AuthError,
    >)
        requires
            store.wf(),
        ensures
            !request.valid() ==> (r matches Err(e) && e == AuthError::Validation),
            request.valid() && (forall|i: int|
                0 <= i < store@.len()
                    ==> !((#[trigger] store@[i]).email == request.email@ && store@[i].is_active))
                ==> (r matches Err(e) && e == AuthError::InvalidCredentials),
            request.valid() && (exists|i: int|
                0 <= i < store@.len() && (#[trigger] store@[i]).email == request.email@
                    && store@[i].is_active
                    && !bcrypt_accepts(request.password@, store@[i].password_hash)) ==> (r matches
                Err(e) && e == AuthError::InvalidCredentials),
            request.valid() && (exists|i: int|
                0 <= i < store@.len() && (#[trigger] store@[i]).email == request.email@
                    && store@[i].is_active
                    && bcrypt_accepts(request.password@, store@[i].password_hash)) ==> match r {
                Ok(resp) => exists|i: int|
                    {
                        &&& 0 <= i < store@.len()
                        &&& (#[trigger] store@[i]).email == request.email@
                        &&& store@[i].is_active
                        &&& resp.user.id == store@[i].id
                        &&& resp.user.email@ == store@[i].email
                        &&& resp.expires_at >= TOKEN_VALIDITY_SECS
                        &&& resp.token@ == token_of(
                            codec.secret_view(),
                            ClaimsView {
                                sub: store@[i].id,
                                email: store@[i].email,
                                exp: resp.expires_at,
                                iat: (resp.expires_at - TOKEN_VALIDITY_SECS) as u64,
                            },
                        )
                    },
                Err(_) => false,
            },
    {
        if !request.validate() {
            return Err(AuthError::Validation);
        }
        let user = match User::find_by_email(store, request.email.as_str()) {
            Some(u) => u,
            None => {
                return Err(AuthError::InvalidCredentials);
            },
        };
        let ghost uv = user@;
        let matched = user.verify_password(request.password.as_str());
        proof {
            let w = choose|i: int|
                0 <= i < store@.len() && (#[trigger] store@[i]) == uv && uv.email == request.email@
                    && uv.is_active;
            assert((#[trigger] store@[w]).email == request.email@ && store@[w].is_active);
            assert(store@[w].password_hash == uv.password_hash);
            assert forall|i: int|
                0 <= i < store@.len() && (#[trigger] store@[i]).email == request.email@
                    && store@[i].is_active implies store@[i] == store@[w] by {
                if i != w {
                    assert(fold_chars(store@[i].email) != fold_chars(store@[w].email));
                }
            }
        }
        if !matched {
            return Err(AuthError::InvalidCredentials);
        }
        let (token, claims) = codec.mint(user.id, user.email.as_str());
        let ghost cv = claims@;
        let expires_at = claims.exp;
        let resp = LoginResponse { user: UserResponse::from(user), token, expires_at };
        proof {
            let w = choose|i: int|
                0 <= i < store@.len() && (#[trigger] store@[i]) == uv && uv.email == request.email@
                    && uv.is_active;
            assert(store@[w] == uv);
            assert((ClaimsView {
                sub: store@[w].id,
                email: store@[w].email,
                exp: resp.expires_at,
                iat: (resp.expires_at - TOKEN_VALIDITY_SECS) as u64,
            }) =~= cv);
            assert(0 <= w < store@.len() && (#[trigger] store@[w]).email == request.email@
                && store@[w].is_active && resp.user.id == store@[w].id
                && resp.user.email@ == store@[w].email);
            assert forall|i: int|
                0 <= i < store@.len() && (#[trigger] store@[i]).email == request.email@
                    && store@[i].is_active implies store@[i] == store@[w] by {
                if i != w {
                    assert(fold_chars(store@[i].email) != fold_chars(store@[w].email));
                }
            }
        }
        Ok(resp)
    }

    /// The profile of the live account a verified identity points at;
    /// empty when the account is gone or deactivated.
    pub fn current_profile(store: &UserStore, subject: u64) -> (r: Option<UserResponse>)
        requires
            store.wf(),
        ensures
            match r {
                Some(resp) => {
                    &&& (subject as int) < store@.len()
                    &&& store@[subject as int].is_active
                    &&& resp.id == subject
                    &&& resp.email@ == store@[subject as int].email
                    &&& resp.first_name.deep_view() == store@[subject as int].first_name
                    &&& resp.last_name.deep_view() == store@[subject as int].last_name
                },
                None => (subject as int) >= store@.len() || !store@[subject as int].is_active,
            },
    {
        match User::find_by_id(store, subject) {
            Some(u) => Some(UserResponse::from(u)),
            None => None,
        }
    }

    /// Rewrite the name fields of the live account a verified identity
    /// points at; email, hash, identifier and activity are untouched.
    /// Empty, and the store untouched, when the account is gone or
    /// deactivated.
    pub fn update_profile(store: &mut UserStore, subject: u64, request: &UpdateUserRequest) -> (r:
        Option<UserResponse>)
        requires
            old(store).wf(),
        ensures
            final(store).wf(),
            match r {
                Some(resp) => {
                    &&& (subject as int) < old(store)@.len()
                    &&& old(store)@[subject as int].is_active
                    &&& final(store)@.len() == old(store)@.len()
                    &&& forall|i: int|
                        0 <= i < old(store)@.len() && i != subject as int
                            ==> final(store)@[i] == old(store)@[i]
                    &&& final(store)@[subject as int] == (UserView {
                        first_name: request.first_name.deep_view(),
                        last_name: request.last_name.deep_view(),
                        updated_at: final(store)@[subject as int].updated_at,
                        ..old(store)@[subject as int]
                    })
                    &&& resp.id == subject
                    &&& resp.email@ == old(store)@[subject as int].email
                    &&& resp.first_name.deep_view() == request.first_name.deep_view()
                    &&& resp.last_name.deep_view() == request.last_name.deep_view()
                },
                None => ((subject as int) >= old(store)@.len() || !old(store)@[subject
                    as int].is_active) && final(store)@ == old(store)@,
            },
    {
        let user = match User::find_by_id(store, subject) {
            Some(u) => u,
            None => {
                return None;
            },
        };
        let now = now_unix();
        match user.update(store, request, now) {
            Some(updated) => Some(UserResponse::from(updated)),
            None => None,
        }
    }
}

} // verus!
