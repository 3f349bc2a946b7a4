use notes_core::auth::AuthService;
use notes_core::models::RegisterRequest;
use notes_core::ownership::{check, Forbidden};
use notes_core::token::TokenCodec;
use notes_core::users::{get_user_profile, ProfileError, UserService};

const NOW: u64 = 1_700_000_000;

fn service_with_two_users() -> AuthService {
    let mut svc = AuthService::new(
        TokenCodec::new(b"users-test-key".to_vec()).expect("nonempty key"),
    );
    svc.register_user(
        RegisterRequest {
            username: String::from("alice"),
            email: String::from("a@b.com"),
            password: String::from("secret1"),
        },
        NOW,
    )
    .expect("fresh email");
    svc.register_user(
        RegisterRequest {
            username: String::from("bob"),
            email: String::from("b@b.com"),
            password: String::from("secret2"),
        },
        NOW + 1,
    )
    .expect("fresh email");
    svc
}

#[test]
fn owner_and_owner_is_allowed() {
    assert_eq!(check(5, 5), Ok(()));
}

#[test]
fn owner_and_stranger_is_forbidden() {
    assert_eq!(check(5, 7), Err(Forbidden));
    assert_eq!(Forbidden.status_code(), 403);
}

#[test]
fn user_lookup_finds_exactly_the_registered_principals() {
    let svc = service_with_two_users();
    let users = UserService::new();
    let alice = users.get_user_by_id(&svc.store, 1).expect("registered");
    assert_eq!(alice.id, 1);
    assert_eq!(alice.username, "alice");
    assert_eq!(alice.email, "a@b.com");
    assert_eq!(alice.created_at, NOW);
    assert!(users.get_user_by_id(&svc.store, 3).is_none());
    assert!(users.get_user_by_id(&svc.store, 0).is_none());
    assert!(users.get_user_by_id(&svc.store, -1).is_none());
}

#[test]
fn own_profile_is_readable() {
    let svc = service_with_two_users();
    let me = get_user_profile(&svc.store, 2, 2).expect("own profile");
    assert_eq!(me.username, "bob");
}

#[test]
fn someone_elses_profile_is_forbidden_not_missing() {
    let svc = service_with_two_users();
    assert_eq!(get_user_profile(&svc.store, 1, 2).unwrap_err(), ProfileError::Forbidden);
    assert_eq!(ProfileError::Forbidden.status_code(), 403);
}

#[test]
fn own_but_unregistered_profile_is_missing_not_forbidden() {
    let svc = service_with_two_users();
    assert_eq!(get_user_profile(&svc.store, 3, 3).unwrap_err(), ProfileError::NotFound);
    assert_eq!(ProfileError::NotFound.status_code(), 404);
}
