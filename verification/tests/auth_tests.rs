use jsonwebtoken::{decode, Algorithm, DecodingKey, Validation};
use scenario_api::auth::hash_for_storage;
use scenario_api::store::Store;
use scenario_api::user::User;

fn empty_store() -> Store {
    Store {
        scenarios: vec![],
        publishers: vec![],
        regions: vec![],
        stakeholders: vec![],
        sectors: vec![],
        scenario_regions: vec![],
        scenario_stakeholders: vec![],
        scenario_sectors: vec![],
        users: vec![],
    }
}

const SECRET: &str = "test-signing-secret";
const TTL: i64 = 3600;
// A fixed instant far enough in the future that issued tokens are not yet
// expired when a test decodes them.
const NOW: i64 = 4102444800;

#[test]
fn register_returns_identity_and_assigns_ids() {
    let mut store = empty_store();
    let alice = store
        .register(String::from("alice"), String::from("alice@example.org"), &String::from("pw-a"), 100)
        .unwrap();
    assert_eq!(alice.id, 1);
    assert_eq!(alice.username.as_str(), "alice");
    assert_eq!(alice.email.as_str(), "alice@example.org");
    let bob = store
        .register(String::from("bob"), String::from("bob@example.org"), &String::from("pw-b"), 100)
        .unwrap();
    assert_eq!(bob.id, 2);
    assert_eq!(store.users.len(), 2);
    assert_ne!(store.users[0].password_hash.as_str(), "pw-a");
}

#[test]
fn register_duplicate_username_is_refused() {
    let mut store = empty_store();
    store
        .register(String::from("alice"), String::from("a@example.org"), &String::from("pw"), 0)
        .unwrap();
    let err = store
        .register(String::from("alice"), String::from("b@example.org"), &String::from("pw"), 0)
        .unwrap_err();
    assert_eq!(err.status_code(), 400);
    let body = err.error_response();
    assert_eq!(body.message.as_str(), "Bad request: Username or email already exists");
    assert_eq!(store.users.len(), 1);
}

#[test]
fn register_duplicate_email_is_refused() {
    let mut store = empty_store();
    store
        .register(String::from("alice"), String::from("shared@example.org"), &String::from("pw"), 0)
        .unwrap();
    let err = store
        .register(String::from("carol"), String::from("shared@example.org"), &String::from("pw"), 0)
        .unwrap_err();
    assert_eq!(err.status_code(), 400);
    assert_eq!(store.users.len(), 1);
}

#[test]
fn login_with_correct_credentials_succeeds() {
    let mut store = empty_store();
    store
        .register(String::from("alice"), String::from("a@example.org"), &String::from("open sesame"), 0)
        .unwrap();
    let resp = store
        .login(&String::from("alice"), &String::from("open sesame"), NOW, TTL, &String::from(SECRET))
        .unwrap();
    assert_eq!(resp.user.id, 1);
    assert_eq!(resp.user.username.as_str(), "alice");
    assert_eq!(resp.user.email.as_str(), "a@example.org");
    assert!(!resp.token.is_empty());
}

#[test]
fn login_failures_are_indistinguishable() {
    let mut store = empty_store();
    store
        .register(String::from("alice"), String::from("a@example.org"), &String::from("right"), 0)
        .unwrap();
    let wrong_password = store
        .login(&String::from("alice"), &String::from("wrong"), NOW, TTL, &String::from(SECRET))
        .unwrap_err();
    let unknown_user = store
        .login(&String::from("nobody"), &String::from("right"), NOW, TTL, &String::from(SECRET))
        .unwrap_err();
    assert_eq!(wrong_password.status_code(), 401);
    assert_eq!(unknown_user.status_code(), 401);
    let a = wrong_password.error_response();
    let b = unknown_user.error_response();
    assert_eq!(a.status.as_str(), b.status.as_str());
    assert_eq!(a.message.as_str(), b.message.as_str());
    assert_eq!(a.message.as_str(), "Authentication error: Invalid username or password");
}

#[test]
fn issued_token_decodes_to_expected_claims() {
    let mut store = empty_store();
    store
        .register(String::from("alice"), String::from("a@example.org"), &String::from("pw"), 0)
        .unwrap();
    let resp = store
        .login(&String::from("alice"), &String::from("pw"), NOW, TTL, &String::from(SECRET))
        .unwrap();
    let validation = Validation::new(Algorithm::HS256);
    let data = decode::<serde_json::Value>(
        &resp.token,
        &DecodingKey::from_secret(SECRET.as_bytes()),
        &validation,
    )
    .expect("token must decode and validate");
    assert_eq!(data.claims.get("sub").unwrap().as_i64().unwrap(), 1);
    assert_eq!(data.claims.get("username").unwrap().as_str().unwrap(), "alice");
    assert_eq!(data.claims.get("exp").unwrap().as_i64().unwrap(), NOW + TTL);
}

#[test]
fn login_now_checks_credentials_against_the_clock() {
    let mut store = empty_store();
    store
        .register(String::from("alice"), String::from("a@example.org"), &String::from("pw"), 0)
        .unwrap();
    let ok = store.login_now(&String::from("alice"), &String::from("pw"), TTL, &String::from(SECRET));
    assert!(ok.is_ok());
    let bad = store.login_now(&String::from("alice"), &String::from("nope"), TTL, &String::from(SECRET));
    assert_eq!(bad.unwrap_err().status_code(), 401);
}

#[test]
fn verify_returns_the_account_only_on_a_match() {
    let mut store = empty_store();
    store
        .register(String::from("alice"), String::from("a@example.org"), &String::from("pw"), 7)
        .unwrap();
    let user = store.verify(&String::from("alice"), &String::from("pw")).unwrap();
    assert_eq!(user.id, 1);
    assert_eq!(user.username.as_str(), "alice");
    assert_eq!(user.email.as_str(), "a@example.org");
    let err = store.verify(&String::from("alice"), &String::from("not pw")).unwrap_err();
    assert_eq!(err.status_code(), 401);
    let err = store.verify(&String::from("mallory"), &String::from("pw")).unwrap_err();
    assert_eq!(err.status_code(), 401);
}

#[test]
fn stored_hash_from_hash_for_storage_logs_in() {
    let hash = hash_for_storage(&String::from("hunter2")).unwrap();
    assert_ne!(hash.as_str(), "hunter2");
    let mut store = empty_store();
    store.users.push(User {
        id: 3,
        username: String::from("carol"),
        email: String::from("c@example.org"),
        password_hash: hash,
        created_at: 0,
        updated_at: 0,
    });
    let resp = store
        .login(&String::from("carol"), &String::from("hunter2"), NOW, TTL, &String::from(SECRET))
        .unwrap();
    assert_eq!(resp.user.id, 3);
}
