use notes_core::store::UserStore;

#[test]
fn create_hands_out_principals_in_order() {
    let mut store = UserStore::new();
    let a = store.create(
        String::from("alice"),
        String::from("a@b.com"),
        String::from("hash-a"),
        100,
    );
    let b = store.create(
        String::from("bob"),
        String::from("b@b.com"),
        String::from("hash-b"),
        101,
    );
    assert_eq!(a, Ok(1));
    assert_eq!(b, Ok(2));
    assert_eq!(store.len(), 2);
}

#[test]
fn create_conflicts_on_a_taken_email_and_keeps_the_store() {
    let mut store = UserStore::new();
    store.create(String::from("alice"), String::from("a@b.com"), String::from("h1"), 100)
        .expect("fresh email");
    let second = store.create(
        String::from("alice2"),
        String::from("a@b.com"),
        String::from("h2"),
        101,
    );
    assert_eq!(second, Err(()));
    assert_eq!(store.len(), 1);
    let kept = store.find_by_identifier("a@b.com").expect("first record kept");
    assert_eq!(kept.username, "alice");
    assert_eq!(kept.secret_hash, "h1");
    assert_eq!(kept.created_at, 100);
}

#[test]
fn lookup_by_email_finds_exactly_the_stored_record() {
    let mut store = UserStore::new();
    store.create(String::from("alice"), String::from("a@b.com"), String::from("h1"), 100)
        .expect("fresh email");
    assert!(store.find_by_identifier("a@b.com").is_some());
    assert!(store.find_by_identifier("A@b.com").is_none());
    assert!(store.find_by_identifier("").is_none());
}

#[test]
fn lookup_by_principal_covers_exactly_the_handed_out_ids() {
    let mut store = UserStore::new();
    store.create(String::from("alice"), String::from("a@b.com"), String::from("h1"), 100)
        .expect("fresh email");
    assert_eq!(store.find_by_principal(1).expect("handed out").email, "a@b.com");
    assert!(store.find_by_principal(0).is_none());
    assert!(store.find_by_principal(2).is_none());
    assert!(store.find_by_principal(-3).is_none());
}
