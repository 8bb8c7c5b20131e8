use auth_core::gate::{admit_decision, authorize, check_request, is_public_route, GateOutcome, GateStep};
use auth_core::service::AuthService;
use auth_core::token::{JwtClaims, TokenCodec, TOKEN_VALIDITY_SECS};
use auth_core::user::{CreateUserRequest, LoginRequest, UserStore};
use auth_core::AuthError;

fn current_time() -> u64 {
    chrono::Utc::now().timestamp().max(0) as u64
}

fn registered_store() -> (UserStore, TokenCodec, u64, String) {
    let mut store = UserStore::new();
    let codec = TokenCodec::new(b"test-secret".to_vec()).unwrap();
    let profile = AuthService::register(
        &mut store,
        &CreateUserRequest {
            email: String::from("a@x.com"),
            password: String::from("longenoughpw"),
            first_name: None,
            last_name: None,
        },
    )
    .expect("registration must succeed");
    let resp = AuthService::login(
        &store,
        &codec,
        &LoginRequest { email: String::from("a@x.com"), password: String::from("longenoughpw") },
    )
    .expect("login must succeed");
    (store, codec, profile.id, resp.token)
}

#[test]
fn public_routes_are_exactly_the_allow_list() {
    assert!(is_public_route("/api/health"));
    assert!(is_public_route("/api/auth/login"));
    assert!(is_public_route("/api/auth/register"));
    assert!(!is_public_route("/api/users/me"));
    assert!(!is_public_route("/api/health/"));
    assert!(!is_public_route(""));
}

#[test]
fn end_to_end_protected_request() {
    let (store, codec, user_id, token) = registered_store();
    let now = current_time();
    let header = format!("Bearer {}", token);
    match authorize(&store, &codec, "/api/users/me", Some(&header), now) {
        GateOutcome::Admit(claims) => {
            assert_eq!(claims.sub, user_id);
            assert_eq!(claims.email, "a@x.com");
        },
        _ => panic!("a fresh token on a protected path must be admitted"),
    }
}

#[test]
fn missing_header_is_rejected() {
    let (store, codec, _, _) = registered_store();
    let now = current_time();
    assert!(matches!(
        authorize(&store, &codec, "/api/users/me", None, now),
        GateOutcome::Unauthenticated
    ));
}

#[test]
fn garbage_token_is_rejected() {
    let (store, codec, _, _) = registered_store();
    let now = current_time();
    assert!(matches!(
        authorize(&store, &codec, "/api/users/me", Some("Bearer garbage"), now),
        GateOutcome::Unauthenticated
    ));
}

#[test]
fn wrong_scheme_is_rejected() {
    let (store, codec, _, token) = registered_store();
    let now = current_time();
    let basic = format!("Basic {}", token);
    assert!(matches!(
        authorize(&store, &codec, "/api/users/me", Some(&basic), now),
        GateOutcome::Unauthenticated
    ));
    assert!(matches!(
        authorize(&store, &codec, "/api/users/me", Some(&token), now),
        GateOutcome::Unauthenticated
    ));
}

#[test]
fn public_path_passes_without_identity() {
    let (store, codec, _, _) = registered_store();
    let now = current_time();
    assert!(matches!(
        authorize(&store, &codec, "/api/health", None, now),
        GateOutcome::Public
    ));
}

#[test]
fn expired_token_is_rejected_even_with_valid_signature() {
    let (store, codec, user_id, _) = registered_store();
    let issued: u64 = 1000;
    let claims = JwtClaims::new_at(user_id, String::from("a@x.com"), issued);
    let token = claims.encode(&codec);
    assert!(codec.decode(&token).is_ok());
    let header = format!("Bearer {}", token);
    let after_expiry = issued + TOKEN_VALIDITY_SECS + 1;
    assert!(matches!(
        authorize(&store, &codec, "/api/users/me", Some(&header), after_expiry),
        GateOutcome::Unauthenticated
    ));
    assert!(matches!(
        authorize(&store, &codec, "/api/users/me", Some(&header), issued + 1),
        GateOutcome::Admit(_)
    ));
}

#[test]
fn deactivation_revokes_outstanding_tokens() {
    let (mut store, codec, user_id, token) = registered_store();
    let now = current_time();
    let header = format!("Bearer {}", token);
    assert!(matches!(
        authorize(&store, &codec, "/api/users/me", Some(&header), now),
        GateOutcome::Admit(_)
    ));
    assert!(store.deactivate(user_id));
    assert!(matches!(
        authorize(&store, &codec, "/api/users/me", Some(&header), now),
        GateOutcome::Unauthenticated
    ));
}

#[test]
fn store_failure_is_reported_apart() {
    let (_, codec, user_id, token) = registered_store();
    let now = current_time();
    let header = format!("Bearer {}", token);
    let step = check_request(&codec, "/api/users/me", Some(&header), now);
    let claims = match step {
        GateStep::NeedsLiveness(claims) => claims,
        _ => panic!("a fresh token must reach the liveness check"),
    };
    assert_eq!(claims.sub, user_id);
    assert!(matches!(
        admit_decision(claims, Err(AuthError::Unavailable)),
        GateOutcome::Unavailable
    ));
}

#[test]
fn liveness_lookup_empty_is_rejected() {
    let (_, codec, _, token) = registered_store();
    let now = current_time();
    let header = format!("Bearer {}", token);
    let claims = match check_request(&codec, "/api/users/me", Some(&header), now) {
        GateStep::NeedsLiveness(claims) => claims,
        _ => panic!("a fresh token must reach the liveness check"),
    };
    assert!(matches!(admit_decision(claims, Ok(None)), GateOutcome::Unauthenticated));
}
