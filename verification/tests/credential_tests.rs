use notes_core::credential::{hash_secret, verify_secret};

#[test]
fn secret_verifies_against_its_own_hash() {
    let h = hash_secret("secret1").expect("randomness available");
    assert!(verify_secret("secret1", &h));
}

#[test]
fn hashing_twice_salts_differently() {
    let h1 = hash_secret("secret1").expect("randomness available");
    let h2 = hash_secret("secret1").expect("randomness available");
    assert_ne!(h1, h2);
    assert!(verify_secret("secret1", &h1));
    assert!(verify_secret("secret1", &h2));
}

#[test]
fn different_secret_does_not_verify() {
    let h = hash_secret("secret2").expect("randomness available");
    assert!(!verify_secret("secret1", &h));
}

#[test]
fn unparsable_hash_matches_nothing() {
    assert!(!verify_secret("secret1", "not-a-bcrypt-hash"));
    assert!(!verify_secret("secret1", ""));
}

#[test]
fn empty_secret_still_round_trips() {
    let h = hash_secret("").expect("randomness available");
    assert!(verify_secret("", &h));
    assert!(!verify_secret("x", &h));
}
