use auth_service::{AuthError, HashmapUserStore, TokenVerifier, User, UserStore};

#[test]
fn add_then_duplicate_add_is_refused() {
    let mut store = HashmapUserStore::default();
    assert_eq!(
        store.add_user(User::new("a@x.com".to_string(), "p1".to_string(), false)),
        Ok(())
    );
    assert_eq!(
        store.add_user(User::new("a@x.com".to_string(), "p2".to_string(), true)),
        Err(AuthError::UserAlreadyExists)
    );
    // the existing record is left untouched
    let kept = store.get_user("a@x.com").unwrap();
    assert_eq!(kept.password, "p1");
    assert_eq!(kept.requires_2fa, false);
}

#[test]
fn get_missing_user_on_empty_store() {
    let store = HashmapUserStore::default();
    assert_eq!(
        store.get_user("missing@x.com"),
        Err(AuthError::UserNotFound)
    );
}

#[test]
fn validate_after_add() {
    let mut store = HashmapUserStore::default();
    store
        .add_user(User::new("a@x.com".to_string(), "p1".to_string(), false))
        .unwrap();
    assert_eq!(store.validate_user("a@x.com", "p1"), Ok(()));
    assert_eq!(
        store.validate_user("a@x.com", "wrong"),
        Err(AuthError::InvalidCredentials)
    );
}

#[test]
fn verify_empty_then_anything() {
    assert_eq!(TokenVerifier::verify(""), Err(AuthError::InvalidToken));
    assert_eq!(TokenVerifier::verify("anything"), Ok(()));
}

#[test]
fn racing_adds_serialized_one_winner() {
    // Additions racing on one email, serialized by exclusive writer access:
    // exactly one succeeds, the rest observe UserAlreadyExists, and the
    // winner's record is the one kept.
    let mut store = HashmapUserStore::default();
    let mut successes = 0u32;
    let mut duplicates = 0u32;
    for i in 0..5u32 {
        match store.add_user(User::new(
            "a@x.com".to_string(),
            format!("pw{}", i),
            false,
        )) {
            Ok(()) => successes += 1,
            Err(AuthError::UserAlreadyExists) => duplicates += 1,
            Err(other) => panic!("unexpected failure: {:?}", other),
        }
    }
    assert_eq!(successes, 1);
    assert_eq!(duplicates, 4);
    assert_eq!(store.get_user("a@x.com").unwrap().password, "pw0");
}

#[test]
fn empty_email_and_password_are_valid_values() {
    let mut store = HashmapUserStore::default();
    assert_eq!(
        store.add_user(User::new(String::new(), String::new(), true)),
        Ok(())
    );
    assert_eq!(store.validate_user("", ""), Ok(()));
    assert_eq!(store.get_user("").unwrap().requires_2fa, true);
}

#[test]
fn lookup_is_an_exact_match() {
    let mut store = HashmapUserStore::default();
    store
        .add_user(User::new("A@x.com".to_string(), "p".to_string(), false))
        .unwrap();
    // no case normalization and no trimming
    assert_eq!(store.get_user("a@x.com"), Err(AuthError::UserNotFound));
    assert_eq!(store.get_user(" A@x.com"), Err(AuthError::UserNotFound));
    assert_eq!(
        store.add_user(User::new("a@x.com".to_string(), "p".to_string(), false)),
        Ok(())
    );
}

#[test]
fn independent_records_coexist() {
    let mut store = HashmapUserStore::default();
    store
        .add_user(User::new("a@x.com".to_string(), "pa".to_string(), false))
        .unwrap();
    store
        .add_user(User::new("b@x.com".to_string(), "pb".to_string(), true))
        .unwrap();
    assert_eq!(store.validate_user("a@x.com", "pa"), Ok(()));
    assert_eq!(store.validate_user("b@x.com", "pb"), Ok(()));
    assert_eq!(
        store.validate_user("a@x.com", "pb"),
        Err(AuthError::InvalidCredentials)
    );
    assert_eq!(store.get_user("b@x.com").unwrap().email, "b@x.com");
}
