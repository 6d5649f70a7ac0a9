use huemanity::error::ErrorKind;
use huemanity::store::{cleanup, LinkedBridge, Removal, StoreContent};

#[test]
fn new_derives_the_base_url_from_the_address() {
    let bridge = LinkedBridge::new("192.168.1.5".to_string(), "abc".to_string());
    assert_eq!(bridge.address, "192.168.1.5");
    assert_eq!(bridge.credential, "abc");
    assert_eq!(bridge.base_url, "http://192.168.1.5/");
}

#[test]
fn load_after_save_gives_the_same_address_and_credential() {
    let saved = LinkedBridge::new("10.1.1.1".to_string(), "k-123".to_string());
    let loaded = LinkedBridge::load(saved.save()).unwrap();
    assert_eq!(loaded.address, saved.address);
    assert_eq!(loaded.credential, saved.credential);
    assert_eq!(loaded, saved);
}

#[test]
fn load_needs_both_fields() {
    assert_eq!(LinkedBridge::load(StoreContent::Missing), Err(ErrorKind::NotFound));
    assert_eq!(
        LinkedBridge::load(StoreContent::Fields {
            address: Some("a".to_string()),
            credential: None
        }),
        Err(ErrorKind::NotFound)
    );
    assert_eq!(
        LinkedBridge::load(StoreContent::Fields {
            address: None,
            credential: Some("c".to_string())
        }),
        Err(ErrorKind::NotFound)
    );
    assert_eq!(
        LinkedBridge::load(StoreContent::Fields { address: None, credential: None }),
        Err(ErrorKind::NotFound)
    );
}

#[test]
fn a_store_that_cannot_be_read_is_not_a_miss() {
    assert_eq!(LinkedBridge::load(StoreContent::Malformed), Err(ErrorKind::StoreFailure));
}

#[test]
fn render_writes_two_quoted_fields() {
    let bridge = LinkedBridge::new("192.168.1.5".to_string(), "abc".to_string());
    assert_eq!(bridge.render(), "HUE_IP=\"192.168.1.5\"\nHUE_KEY=\"abc\"");
}

#[test]
fn cleanup_of_a_clean_store_reports_not_found() {
    assert_eq!(cleanup(Removal::Missing), Err(ErrorKind::NotFound));
    assert_eq!(cleanup(Removal::Refused), Err(ErrorKind::StoreFailure));
    assert_eq!(cleanup(Removal::Removed), Ok(()));
}

#[test]
fn into_bridge_makes_a_session_with_the_credential() {
    let bridge = LinkedBridge::new("h".to_string(), "c".to_string()).into_bridge();
    assert_eq!(bridge.ip, "h");
    assert_eq!(bridge.key, Some("c".to_string()));
    assert_eq!(bridge.base_url, "http://h/");
    assert!(bridge.light_ids.is_empty());
    assert_eq!(bridge.n_lights, 0);
    assert!(bridge.lights.is_none());
}
