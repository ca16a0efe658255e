use link_archive::credential::{store_action, token_from_store, CredentialError, StoreAction};

#[test]
fn offered_token_is_stored() {
    match store_action(Some("o.abc123".to_string())) {
        StoreAction::Put(token) => assert_eq!(token, "o.abc123"),
        StoreAction::Leave => panic!("an offered token is stored"),
    }
}

#[test]
fn store_is_left_alone_without_an_offer() {
    assert!(matches!(store_action(None), StoreAction::Leave));
}

#[test]
fn stored_token_is_the_token_of_the_run() {
    assert_eq!(token_from_store(Some("o.abc123".to_string())), Ok("o.abc123".to_string()));
}

#[test]
fn empty_store_is_a_missing_credential() {
    assert_eq!(token_from_store(None), Err(CredentialError::CredentialMissing));
}
