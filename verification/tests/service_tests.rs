use auth_core::service::AuthService;
use auth_core::token::TokenCodec;
use auth_core::user::{CreateUserRequest, LoginRequest, UpdateUserRequest, UserStore};
use auth_core::AuthError;

fn create_request(email: &str, password: &str) -> CreateUserRequest {
    CreateUserRequest {
        email: String::from(email),
        password: String::from(password),
        first_name: Some(String::from("Ada")),
        last_name: None,
    }
}

fn login_request(email: &str, password: &str) -> LoginRequest {
    LoginRequest { email: String::from(email), password: String::from(password) }
}

#[test]
fn register_returns_profile() {
    let mut store = UserStore::new();
    let resp = AuthService::register(&mut store, &create_request("a@x.com", "longenoughpw"))
        .expect("registration must succeed");
    assert_eq!(resp.email, "a@x.com");
    assert_eq!(resp.first_name, Some(String::from("Ada")));
    assert!(resp.is_active);
    assert_eq!(store.len(), 1);
}

#[test]
fn register_rejects_bad_shape() {
    let mut store = UserStore::new();
    let bad_email = AuthService::register(&mut store, &create_request("not-an-email", "longenoughpw"));
    assert_eq!(bad_email.unwrap_err(), AuthError::Validation);
    let short_password = AuthService::register(&mut store, &create_request("a@x.com", "seven77"));
    assert_eq!(short_password.unwrap_err(), AuthError::Validation);
    let empty_first_name = AuthService::register(
        &mut store,
        &CreateUserRequest {
            email: String::from("a@x.com"),
            password: String::from("longenoughpw"),
            first_name: Some(String::new()),
            last_name: None,
        },
    );
    assert_eq!(empty_first_name.unwrap_err(), AuthError::Validation);
    assert_eq!(store.len(), 0);
}

#[test]
fn duplicate_email_conflicts_case_insensitively() {
    let mut store = UserStore::new();
    AuthService::register(&mut store, &create_request("A@X.com", "longenoughpw"))
        .expect("first registration must succeed");
    let second = AuthService::register(&mut store, &create_request("a@x.COM", "otherpassword"));
    assert_eq!(second.unwrap_err(), AuthError::Conflict);
    assert_eq!(store.len(), 1);
}

#[test]
fn login_succeeds_with_correct_credentials() {
    let mut store = UserStore::new();
    let codec = TokenCodec::new(b"test-secret".to_vec()).unwrap();
    let profile = AuthService::register(&mut store, &create_request("a@x.com", "longenoughpw"))
        .expect("registration must succeed");
    let resp = AuthService::login(&store, &codec, &login_request("a@x.com", "longenoughpw"))
        .expect("login must succeed");
    assert_eq!(resp.user.id, profile.id);
    assert_eq!(resp.user.email, "a@x.com");
    let decoded = codec.decode(&resp.token).expect("a minted token must decode");
    assert_eq!(decoded.sub, profile.id);
    assert_eq!(decoded.email, "a@x.com");
    assert_eq!(decoded.exp, resp.expires_at);
}

#[test]
fn wrong_password_and_unknown_email_are_one_outcome() {
    let mut store = UserStore::new();
    let codec = TokenCodec::new(b"test-secret".to_vec()).unwrap();
    AuthService::register(&mut store, &create_request("a@x.com", "longenoughpw"))
        .expect("registration must succeed");
    let wrong_password = AuthService::login(&store, &codec, &login_request("a@x.com", "wrongpassword"))
        .unwrap_err();
    let unknown_email = AuthService::login(&store, &codec, &login_request("b@x.com", "longenoughpw"))
        .unwrap_err();
    assert_eq!(wrong_password, unknown_email);
    assert_eq!(wrong_password, AuthError::InvalidCredentials);
}

#[test]
fn login_rejects_bad_shape() {
    let store = UserStore::new();
    let codec = TokenCodec::new(b"test-secret".to_vec()).unwrap();
    let bad_email = AuthService::login(&store, &codec, &login_request("not-an-email", "pw"));
    assert_eq!(bad_email.unwrap_err(), AuthError::Validation);
    let empty_password = AuthService::login(&store, &codec, &login_request("a@x.com", ""));
    assert_eq!(empty_password.unwrap_err(), AuthError::Validation);
}

#[test]
fn login_rejects_deactivated_account() {
    let mut store = UserStore::new();
    let codec = TokenCodec::new(b"test-secret".to_vec()).unwrap();
    let profile = AuthService::register(&mut store, &create_request("a@x.com", "longenoughpw"))
        .expect("registration must succeed");
    assert!(store.deactivate(profile.id));
    let after = AuthService::login(&store, &codec, &login_request("a@x.com", "longenoughpw"));
    assert_eq!(after.unwrap_err(), AuthError::InvalidCredentials);
}

#[test]
fn profile_can_be_read_and_updated() {
    let mut store = UserStore::new();
    let profile = AuthService::register(&mut store, &create_request("a@x.com", "longenoughpw"))
        .expect("registration must succeed");
    let fetched = AuthService::current_profile(&store, profile.id).expect("profile must exist");
    assert_eq!(fetched.email, "a@x.com");
    let updated = AuthService::update_profile(
        &mut store,
        profile.id,
        &UpdateUserRequest {
            first_name: Some(String::from("Grace")),
            last_name: Some(String::from("Hopper")),
        },
    )
    .expect("update must succeed");
    assert_eq!(updated.first_name, Some(String::from("Grace")));
    assert_eq!(updated.last_name, Some(String::from("Hopper")));
    assert_eq!(updated.email, "a@x.com");
    let reread = AuthService::current_profile(&store, profile.id).expect("profile must exist");
    assert_eq!(reread.first_name, Some(String::from("Grace")));
    assert!(AuthService::current_profile(&store, 42).is_none());
}
