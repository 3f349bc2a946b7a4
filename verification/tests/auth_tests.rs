use notes_core::auth::{AuthError, AuthService};
use notes_core::gate::authorize_request;
use notes_core::jwt::extract_user_id_from_token;
use notes_core::models::{LoginRequest, RegisterRequest};
use notes_core::token::TokenCodec;

const NOW: u64 = 1_700_000_000;

fn service() -> AuthService {
    AuthService::new(TokenCodec::new(b"auth-test-key".to_vec()).expect("nonempty key"))
}

fn register_request(email: &str, username: &str, password: &str) -> RegisterRequest {
    RegisterRequest {
        username: String::from(username),
        email: String::from(email),
        password: String::from(password),
    }
}

fn login_request(email: &str, password: &str) -> LoginRequest {
    LoginRequest { email: String::from(email), password: String::from(password) }
}

#[test]
fn registration_yields_first_principal_and_a_working_token() {
    let mut svc = service();
    let resp = svc.register_user(register_request("a@b.com", "alice", "secret1"), NOW)
        .expect("fresh email");
    assert_eq!(resp.user_id, 1);
    assert_eq!(resp.username, "alice");
    assert_eq!(resp.email, "a@b.com");
    assert_eq!(extract_user_id_from_token(&svc.codec, &resp.token, NOW), Ok(1));
}

#[test]
fn duplicate_email_is_refused_on_second_registration() {
    let mut svc = service();
    svc.register_user(register_request("a@b.com", "alice", "secret1"), NOW)
        .expect("fresh email");
    let second = svc.register_user(register_request("a@b.com", "alice2", "secret2"), NOW);
    assert_eq!(second.unwrap_err(), AuthError::DuplicateIdentifier);
}

#[test]
fn principals_are_handed_out_in_order() {
    let mut svc = service();
    let first = svc.register_user(register_request("a@b.com", "alice", "secret1"), NOW)
        .expect("fresh email");
    let second = svc.register_user(register_request("b@b.com", "bob", "secret2"), NOW)
        .expect("fresh email");
    assert_eq!(first.user_id, 1);
    assert_eq!(second.user_id, 2);
}

#[test]
fn login_with_wrong_password_is_invalid_credentials() {
    let mut svc = service();
    svc.register_user(register_request("a@b.com", "alice", "secret1"), NOW)
        .expect("fresh email");
    let outcome = svc.login_user(login_request("a@b.com", "wrongpass"), NOW);
    assert_eq!(outcome.unwrap_err(), AuthError::InvalidCredentials);
}

#[test]
fn login_with_unknown_email_is_not_found() {
    let mut svc = service();
    svc.register_user(register_request("a@b.com", "alice", "secret1"), NOW)
        .expect("fresh email");
    let outcome = svc.login_user(login_request("unknown@b.com", "x"), NOW);
    assert_eq!(outcome.unwrap_err(), AuthError::NotFound);
}

#[test]
fn login_with_right_password_yields_the_registered_principal() {
    let mut svc = service();
    svc.register_user(register_request("a@b.com", "alice", "secret1"), NOW)
        .expect("fresh email");
    let resp = svc.login_user(login_request("a@b.com", "secret1"), NOW + 10)
        .expect("right password");
    assert_eq!(resp.user_id, 1);
    assert_eq!(resp.username, "alice");
    assert_eq!(resp.email, "a@b.com");
    assert_eq!(extract_user_id_from_token(&svc.codec, &resp.token, NOW + 10), Ok(1));
}

#[test]
fn registration_token_passes_the_gate() {
    let mut svc = service();
    let resp = svc.register_user(register_request("a@b.com", "alice", "secret1"), NOW)
        .expect("fresh email");
    let header = format!("Bearer {}", resp.token);
    assert_eq!(authorize_request(&svc.codec, Some(&header), NOW), Ok(1));
}

#[test]
fn auth_errors_map_to_the_documented_status_codes() {
    assert_eq!(AuthError::DuplicateIdentifier.status_code(), 409);
    assert_eq!(AuthError::NotFound.status_code(), 401);
    assert_eq!(AuthError::InvalidCredentials.status_code(), 401);
    assert_eq!(AuthError::StoreFailure.status_code(), 500);
}
