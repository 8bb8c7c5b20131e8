//! Credential records and the user store: creation, lookup, profile update,
//! deactivation, and the request and response shapes around them.
//!
//! The store keeps two invariants: a record's identifier is its position, so
//! identifiers are unique and stable, and no two records share an email under
//! ASCII case folding.

use vstd::prelude::*;
use vstd::string::StrSliceExecFns;
use crate::AuthError;
use crate::password::{bcrypt_accepts, hash_password, password_matches};
use crate::text::{ascii_lower, fold_chars, str_eq};

verus! {

/// Whether a string passes the email-syntax check: the outcome of the
/// validation collaborator, a pure function of the string.
pub uninterp spec fn email_ok(s: Seq<char>) -> bool;

/// Syntactic email check.
///
/// Relies on `validator::ValidateEmail::validate_email` for `&str`: the
/// HTML5 email-address grammar, deterministic in the string.
#[verifier::external_body]
fn check_email(s: &str) -> (r: bool)
    ensures
        r == email_ok(s@),
{
    validator::ValidateEmail::validate_email(&s)
}

/// A persisted credential record.
#[derive(Debug)]
pub struct User {
    pub id: u64,
    pub email: String,
    /// One-way derived form of the password; never serialized in a response.
    pub password_hash: String,
    pub first_name: Option<String>,
    pub last_name: Option<String>,
    pub is_active: bool,
    pub created_at: u64,
    pub updated_at: u64,
}

/// The mathematical content of a credential record.
#[verifier::ext_equal]
pub struct UserView {
    pub id: u64,
    pub email: Seq<char>,
    pub password_hash: Seq<char>,
    pub first_name: Option<Seq<char>>,
    pub last_name: Option<Seq<char>>,
    pub is_active: bool,
    pub created_at: u64,
    pub updated_at: u64,
}

impl View for User {
    type V = UserView;

    open spec fn view(&self) -> UserView {
        UserView {
            id: self.id,
            email: self.email@,
            password_hash: self.password_hash@,
            first_name: self.first_name.deep_view(),
            last_name: self.last_name.deep_view(),
            is_active: self.is_active,
            created_at: self.created_at,
            updated_at: self.updated_at,
        }
    }
}

/// Copy an optional string, preserving its content.
fn clone_opt_string(o: &Option<String>) -> (r: Option<String>)
    ensures
        r.deep_view() == o.deep_view(),
{
    match o {
        Some(s) => Some(s.clone()),
        None => None,
    }
}

impl Clone for User {
    /// An equal record, field for field.
    fn clone(&self) -> (r: Self)
        ensures
            r@ == self@,
    {
        let r = User {
            id: self.id,
            email: self.email.clone(),
            password_hash: self.password_hash.clone(),
            first_name: clone_opt_string(&self.first_name),
            last_name: clone_opt_string(&self.last_name),
            is_active: self.is_active,
            created_at: self.created_at,
            updated_at: self.updated_at,
        };
        proof {
            assert(r@ =~= self@);
        }
        r
    }
}

/// The public view of a record: everything but the password hash.
#[derive(Debug)]
pub struct UserResponse {
    pub id: u64,
    pub email: String,
    pub first_name: Option<String>,
    pub last_name: Option<String>,
    pub is_active: bool,
    pub created_at: u64,
    pub updated_at: u64,
}

impl From<User> for UserResponse {
    fn from(user: User) -> (r: UserResponse) {
        UserResponse {
            id: user.id,
            email: user.email,
            first_name: user.first_name,
            last_name: user.last_name,
            is_active: user.is_active,
            created_at: user.created_at,
            updated_at: user.updated_at,
        }
    }
}

impl vstd::std_specs::convert::FromSpecImpl<User> for UserResponse {
    open spec fn obeys_from_spec() -> bool {
        true
    }

    open spec fn from_spec(user: User) -> UserResponse {
        UserResponse {
            id: user.id,
            email: user.email,
            first_name: user.first_name,
            last_name: user.last_name,
            is_active: user.is_active,
            created_at: user.created_at,
            updated_at: user.updated_at,
        }
    }
}

/// Registration request.
#[derive(Debug)]
pub struct CreateUserRequest {
    pub email: String,
    pub password: String,
    pub first_name: Option<String>,
    pub last_name: Option<String>,
}

impl CreateUserRequest {
    /// Well-shaped input: syntactic email, a password of at least eight
    /// characters, and a first name that is not empty when given.
    pub open spec fn valid(&self) -> bool {
        &&& email_ok(self.email@)
        &&& self.password@.len() >= 8
        &&& (self.first_name matches Some(n) ==> n@.len() >= 1)
    }

    pub fn validate(&self) -> (r: bool)
        ensures
            r == self.valid(),
    {
        let email_fine = check_email(self.email.as_str());
        let password_fine = self.password.as_str().unicode_len() >= 8;
        let name_fine = match &self.first_name {
            Some(n) => n.as_str().unicode_len() >= 1,
            None => true,
        };
        email_fine && password_fine && name_fine
    }
}

/// Login request.
#[derive(Debug)]
pub struct LoginRequest {
    pub email: String,
    pub password: String,
}

impl LoginRequest {
    /// Well-shaped input: syntactic email and a non-empty password.
    pub open spec fn valid(&self) -> bool {
        email_ok(self.email@) && self.password@.len() >= 1
    }

    pub fn validate(&self) -> (r: bool)
        ensures
            r == self.valid(),
    {
        let email_fine = check_email(self.email.as_str());
        email_fine && self.password.as_str().unicode_len() >= 1
    }
}

/// Profile-update request.
#[derive(Debug)]
pub struct UpdateUserRequest {
    pub first_name: Option<String>,
    pub last_name: Option<String>,
}

/// What a successful login returns.
#[derive(Debug)]
pub struct LoginResponse {
    pub user: UserResponse,
    pub token: String,
    pub expires_at: u64,
}

/// Whether some record in the store carries this email, up to ASCII case.
pub open spec fn email_taken(s: Seq<UserView>, email: Seq<char>) -> bool {
    exists|i: int|
        0 <= i < s.len() && fold_chars(#[trigger] s[i].email) == fold_chars(email)
}

/// After a record with a matching folded email is added, the email is taken.
pub proof fn lemma_push_takes_email(s: Seq<UserView>, u: UserView, email: Seq<char>)
    ensures
        fold_chars(u.email) == fold_chars(email) ==> email_taken(s.push(u), email),
{
    if fold_chars(u.email) == fold_chars(email) {
        assert(s.push(u)[s.len() as int] == u);
    }
}

/// Whether some record carries this identifier and is active.
pub open spec fn active_with_id(s: Seq<UserView>, id: u64) -> bool {
    exists|i: int| 0 <= i < s.len() && (#[trigger] s[i]).id == id && s[i].is_active
}

/// In-memory user store. Records never leave it; lookups hand out copies.
pub struct UserStore {
    users: Vec<User>,
}

impl View for UserStore {
    type V = Seq<UserView>;

    closed spec fn view(&self) -> Seq<UserView> {
        self.users@.map_values(|u: User| u@)
    }
}

impl UserStore {
    /// Both store invariants: identifiers are positions, and emails are
    /// unique up to ASCII case across active and inactive records.
    pub open spec fn wf(&self) -> bool {
        &&& forall|i: int| 0 <= i < self@.len() ==> (#[trigger] self@[i].id) == i
        &&& forall|i: int, j: int|
            0 <= i < self@.len() && 0 <= j < self@.len() && i != j
                ==> fold_chars(#[trigger] self@[i].email) != fold_chars(#[trigger] self@[j].email)
    }

    /// An empty store.
    pub fn new() -> (r: UserStore)
        ensures
            r.wf(),
            r@.len() == 0,
    {
        let r = UserStore { users: Vec::new() };
        proof {
            assert(r@ =~= Seq::<UserView>::empty());
        }
        r
    }

    /// How many records the store holds, active or not.
    pub fn len(&self) -> (r: usize)
        ensures
            r == self@.len(),
    {
        self.users.len()
    }

    /// Whether any record, active or not, carries this email up to ASCII
    /// case. Registration refuses an email this reports taken.
    pub fn email_taken_any(&self, email: &str) -> (r: bool)
        ensures
            r == email_taken(self@, email@),
    {
        let folded = ascii_lower(email);
        let n = self.users.len();
        let mut i: usize = 0;
        while i < n
            invariant
                n == self@.len(),
                i <= n,
                folded@ == fold_chars(email@),
                forall|j: int|
                    0 <= j < i ==> fold_chars((#[trigger] self@[j]).email) != fold_chars(email@),
            decreases n - i,
        {
            let candidate = ascii_lower(self.users[i].email.as_str());
            if str_eq(candidate.as_str(), folded.as_str()) {
                proof {
                    assert(fold_chars(self@[i as int].email) == fold_chars(email@));
                }
                return true;
            }
            i += 1;
        }
        false
    }

    /// Revoke an account's trust: mark the record inactive, leaving every
    /// other field and every other record unchanged. Returns whether a
    /// record with that identifier exists.
    pub fn deactivate(&mut self, id: u64) -> (r: bool)
        requires
            old(self).wf(),
        ensures
            final(self).wf(),
            final(self)@.len() == old(self)@.len(),
            r == ((id as int) < old(self)@.len()),
            forall|i: int|
                0 <= i < old(self)@.len() && i != id as int
                    ==> final(self)@[i] == old(self)@[i],
            (id as int) < old(self)@.len() ==> final(self)@[id as int]
                == (UserView { is_active: false, ..old(self)@[id as int] }),
            !active_with_id(final(self)@, id),
    {
        if id >= self.users.len() as u64 {
            proof {
                assert(final(self)@ =~= old(self)@);
                assert forall|i: int|
                    0 <= i < final(self)@.len()
                        implies !((#[trigger] final(self)@[i]).id == id
                        && final(self)@[i].is_active) by {
                    assert(old(self)@[i].id == i);
                }
            }
            return false;
        }
        let idx = id as usize;
        self.users[idx].is_active = false;
        proof {
            assert(final(self)@[id as int] =~= (UserView {
                is_active: false,
                ..old(self)@[id as int]
            }));
            assert forall|i: int|
                0 <= i < old(self)@.len() && i != id as int
                    implies final(self)@[i] == old(self)@[i] by {}
            assert forall|i: int|
                0 <= i < final(self)@.len()
                    implies !((#[trigger] final(self)@[i]).id == id && final(self)@[i].is_active) by {
                assert(old(self)@[i].id == i);
            }
        }
        true
    }
}

impl User {
    /// Hash the password and persist a fresh, active record with a new
    /// identifier. The caller has already ruled the email untaken; the store
    /// invariant is preserved. Fails only when hashing fails, leaving the
    /// store untouched.
    pub fn create(store: &mut UserStore, request: &CreateUserRequest, now: u64) -> (r: Result<
        User,
        AuthError,
    >)
        requires
            old(store).wf(),
            !email_taken(old(store)@, request.email@),
        ensures
            final(store).wf(),
            match r {
                Ok(u) => {
                    &&& final(store)@ == old(store)@.push(u@)
                    &&& u@.id == old(store)@.len()
                    &&& u@.email == request.email@
                    &&& bcrypt_accepts(request.password@, u@.password_hash)
                    &&& u@.first_name == request.first_name.deep_view()
                    &&& u@.last_name == request.last_name.deep_view()
                    &&& u@.is_active
                    &&& u@.created_at == now
                    &&& u@.updated_at == now
                },
                Err(e) => e == AuthError::Hashing && final(store)@ == old(store)@,
            },
    {
        let password_hash = match hash_password(request.password.as_str()) {
            Ok(h) => h,
            Err(e) => {
                return Err(e);
            },
        };
        let user = User {
            id: store.users.len() as u64,
            email: request.email.clone(),
            password_hash,
            first_name: clone_opt_string(&request.first_name),
            last_name: clone_opt_string(&request.last_name),
            is_active: true,
            created_at: now,
            updated_at: now,
        };
        let stored = user.clone();
        store.users.push(stored);
        proof {
            assert(final(store)@ =~= old(store)@.push(user@));
            assert forall|i: int, j: int|
                0 <= i < final(store)@.len() && 0 <= j < final(store)@.len() && i != j
                    implies fold_chars(#[trigger] final(store)@[i].email)
                    != fold_chars(#[trigger] final(store)@[j].email) by {
                if i < old(store)@.len() && j < old(store)@.len() {
                    assert(final(store)@[i] == old(store)@[i]);
                    assert(final(store)@[j] == old(store)@[j]);
                } else if i < old(store)@.len() {
                    assert(!(fold_chars(old(store)@[i].email) == fold_chars(request.email@)));
                } else {
                    assert(!(fold_chars(old(store)@[j].email) == fold_chars(request.email@)));
                }
            }
        }
        Ok(user)
    }

    /// The record carrying exactly this email, if it is active; inactive
    /// records and unknown emails both come back empty.
    pub fn find_by_email(store: &UserStore, email: &str) -> (r: Option<User>)
        ensures
            match r {
                Some(u) => exists|i: int|
                    0 <= i < store@.len() && (#[trigger] store@[i]) == u@ && u@.email == email@
                        && u@.is_active,
                None => forall|i: int|
                    0 <= i < store@.len()
                        ==> !((#[trigger] store@[i]).email == email@ && store@[i].is_active),
            },
    {
        let n = store.users.len();
        let mut i: usize = 0;
        while i < n
            invariant
                n == store@.len(),
                i <= n,
                forall|j: int|
                    0 <= j < i
                        ==> !((#[trigger] store@[j]).email == email@ && store@[j].is_active),
            decreases n - i,
        {
            let candidate = &store.users[i];
            if candidate.is_active && str_eq(candidate.email.as_str(), email) {
                let found = candidate.clone();
                proof {
                    assert(store@[i as int] == found@);
                }
                return Some(found);
            }
            i += 1;
        }
        None
    }

    /// The record with this identifier, if it is active; an unknown
    /// identifier and an inactive record both come back empty.
    pub fn find_by_id(store: &UserStore, id: u64) -> (r: Option<User>)
        requires
            store.wf(),
        ensures
            match r {
                Some(u) => (id as int) < store@.len() && store@[id as int] == u@ && u@.is_active
                    && u@.id == id,
                None => (id as int) >= store@.len() || !store@[id as int].is_active,
            },
    {
        if id >= store.users.len() as u64 {
            return None;
        }
        let idx = id as usize;
        let candidate = &store.users[idx];
        if candidate.is_active {
            Some(candidate.clone())
        } else {
            None
        }
    }

    /// Rewrite this record's name fields, stamping the update time; email,
    /// hash, identifier and activity are untouched, as is every other
    /// record. Empty when the identifier is unknown to the store.
    pub fn update(&self, store: &mut UserStore, request: &UpdateUserRequest, now: u64) -> (r:
        Option<User>)
        requires
            old(store).wf(),
        ensures
            final(store).wf(),
            match r {
                Some(u) => {
                    &&& (self@.id as int) < old(store)@.len()
                    &&& final(store)@.len() == old(store)@.len()
                    &&& forall|i: int|
                        0 <= i < old(store)@.len() && i != self@.id as int
                            ==> final(store)@[i] == old(store)@[i]
                    &&& final(store)@[self@.id as int] == (UserView {
                        first_name: request.first_name.deep_view(),
                        last_name: request.last_name.deep_view(),
                        updated_at: now,
                        ..old(store)@[self@.id as int]
                    })
                    &&& u@ == final(store)@[self@.id as int]
                },
                None => (self@.id as int) >= old(store)@.len() && final(store)@ == old(store)@,
            },
    {
        if self.id >= store.users.len() as u64 {
            proof {
                assert(final(store)@ =~= old(store)@);
            }
            return None;
        }
        let idx = self.id as usize;
        store.users[idx].first_name = clone_opt_string(&request.first_name);
        store.users[idx].last_name = clone_opt_string(&request.last_name);
        store.users[idx].updated_at = now;
        let updated = store.users[idx].clone();
        proof {
            assert(final(store)@[self@.id as int] =~= (UserView {
                first_name: request.first_name.deep_view(),
                last_name: request.last_name.deep_view(),
                updated_at: now,
                ..old(store)@[self@.id as int]
            }));
            assert forall|i: int|
                0 <= i < old(store)@.len() && i != self@.id as int
                    implies final(store)@[i] == old(store)@[i] by {}
            assert forall|i: int, j: int|
                0 <= i < final(store)@.len() && 0 <= j < final(store)@.len() && i != j
                    implies fold_chars(#[trigger] final(store)@[i].email)
                    != fold_chars(#[trigger] final(store)@[j].email) by {
                assert(final(store)@[i].email == old(store)@[i].email);
                assert(final(store)@[j].email == old(store)@[j].email);
            }
        }
        Some(updated)
    }

    /// Whether the password matches this record's stored hash; false, never
    /// an error, on a malformed stored form.
    pub fn verify_password(&self, password: &str) -> (r: bool)
        ensures
            r == bcrypt_accepts(password@, self@.password_hash),
    {
        password_matches(password, self.password_hash.as_str())
    }
}

} // verus!
