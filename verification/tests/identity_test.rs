use hanode::identity::{identity_from, load_or_create_identity, IdentityError};

#[test]
fn an_identity_is_made_where_the_store_holds_none() {
    let made = load_or_create_identity(None).unwrap();
    assert!(made.created);
    assert_eq!(made.identity.secret.len(), 32);
    assert!(made.identity.peer_id.starts_with("16Uiu2HA"));
}

#[test]
fn the_identity_stays_the_same_once_it_is_stored() {
    let first = load_or_create_identity(None).unwrap();
    let stored = Some(first.identity.secret.clone());
    let second = load_or_create_identity(stored.clone()).unwrap();
    let third = load_or_create_identity(stored).unwrap();
    assert!(!second.created);
    assert_eq!(second.identity, first.identity);
    assert_eq!(third, second);
}

#[test]
fn a_first_start_always_gets_an_identity() {
    for _ in 0..20 {
        let made = load_or_create_identity(None).expect("a generated key is a key");
        assert!(made.created);
        assert_eq!(made.identity.secret.len(), 32);
        let again = identity_from(Some(made.identity.secret.clone()), vec![]).unwrap();
        assert_eq!(again.identity.peer_id, made.identity.peer_id);
    }
}

#[test]
fn two_new_identities_differ() {
    let one = load_or_create_identity(None).unwrap();
    let two = load_or_create_identity(None).unwrap();
    assert_ne!(one.identity.secret, two.identity.secret);
    assert_ne!(one.identity.peer_id, two.identity.peer_id);
}

#[test]
fn the_node_identifier_goes_by_the_secret() {
    let a = identity_from(Some(vec![1u8; 32]), vec![]).unwrap();
    let b = identity_from(None, vec![1u8; 32]).unwrap();
    let c = identity_from(Some(vec![2u8; 32]), vec![1u8; 32]).unwrap();
    assert!(!a.created);
    assert!(b.created);
    assert_eq!(a.identity, b.identity);
    assert_eq!(a.identity.secret, vec![1u8; 32]);
    assert_ne!(a.identity.peer_id, c.identity.peer_id);
    assert_ne!(a.identity.peer_id, String::from_utf8(vec![1u8; 32]).unwrap());
}

#[test]
fn bytes_that_are_no_key_are_refused() {
    assert_eq!(load_or_create_identity(Some(vec![])), Err(IdentityError::InvalidStoredKey));
    assert_eq!(load_or_create_identity(Some(vec![0u8; 32])), Err(IdentityError::InvalidStoredKey));
    assert_eq!(load_or_create_identity(Some(vec![1u8; 33])), Err(IdentityError::InvalidStoredKey));
    assert_eq!(identity_from(Some(vec![0xffu8; 32]), vec![1u8; 32]), Err(IdentityError::InvalidStoredKey));
    assert_eq!(identity_from(None, vec![0u8; 32]), Err(IdentityError::InvalidGeneratedKey));
}
