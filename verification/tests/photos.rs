use base64::Engine;
use sha2::{Digest, Sha256};
use xpass::cipher::open;
use xpass::error::VaultError;
use xpass::password_manager::create_user_with_salt;
use xpass::security::{
    delete_failed_login_photo, get_encryption_key, get_failed_login_photos, get_photo_setting,
    is_photo_setting_enabled_for_username, save_failed_login_photo, update_photo_setting,
};
use xpass::store::{ActivityLog, Store};

const SALT: &str = "c29tZXNhbHRzb21lc2FsdA";

fn s(text: &str) -> String {
    text.to_string()
}

fn store_with_alice() -> Store {
    let mut store = Store::new();
    create_user_with_salt(&mut store, s("alice"), s("Pw1!"), s(SALT)).unwrap();
    store
}

#[test]
fn the_photo_key_is_a_digest_of_label_and_id() {
    let mut hasher = Sha256::new();
    hasher.update(b"photo_encryption_key_v1_");
    hasher.update(1i64.to_le_bytes());
    assert_eq!(get_encryption_key(1), hasher.finalize().to_vec());
    let mut hasher = Sha256::new();
    hasher.update(b"photo_encryption_key_v1_");
    hasher.update((-2i64).to_le_bytes());
    assert_eq!(get_encryption_key(-2), hasher.finalize().to_vec());
    assert_ne!(get_encryption_key(1), get_encryption_key(2));
}

#[test]
fn the_photo_setting_is_off_until_switched_on() {
    let mut store = store_with_alice();
    assert!(!get_photo_setting(&store, 1));
    assert_eq!(is_photo_setting_enabled_for_username(&store, s("alice")), Ok(false));
    assert_eq!(is_photo_setting_enabled_for_username(&store, s("bob")), Err(VaultError::NotFound));
    update_photo_setting(&mut store, 1, true);
    assert!(get_photo_setting(&store, 1));
    assert_eq!(is_photo_setting_enabled_for_username(&store, s("alice")), Ok(true));
    update_photo_setting(&mut store, 1, false);
    assert!(!get_photo_setting(&store, 1));
    assert_eq!(store.security.len(), 1);
}

#[test]
fn no_photo_is_stored_while_the_setting_is_off() {
    let mut store = store_with_alice();
    assert_eq!(save_failed_login_photo(&mut store, s("alice"), s("!!"), s("alice")), Ok(()));
    assert!(store.photos.is_empty());
    assert_eq!(
        save_failed_login_photo(&mut store, s("bob"), s("AAAA"), s("bob")),
        Err(VaultError::NotFound)
    );
}

#[test]
fn a_photo_is_stored_sealed_and_shown_opened() {
    let mut store = store_with_alice();
    update_photo_setting(&mut store, 1, true);
    let bytes = vec![0xFFu8, 0xD8, 0xFF, 0xE0, 1, 2, 3];
    let encoded = base64::engine::general_purpose::STANDARD.encode(&bytes);
    let address = format!("data:image/jpeg;base64,{}", encoded);
    assert_eq!(save_failed_login_photo(&mut store, s("alice"), address.clone(), s("alise")), Ok(()));
    assert_eq!(store.photos.len(), 1);
    let row = &store.photos[0];
    assert_eq!(row.id, 1);
    assert_eq!(row.user_id, 1);
    assert_eq!(row.username_attempt, "alise");
    assert_eq!(row.photo_nonce.len(), 12);
    assert_eq!(row.encrypted_photo.len(), bytes.len() + 16);
    assert_eq!(open(&get_encryption_key(1), &row.photo_nonce, &row.encrypted_photo).unwrap(), bytes);
    let shown = get_failed_login_photos(&store, 1);
    assert_eq!(shown.len(), 1);
    assert_eq!(shown[0].id, 1);
    assert_eq!(shown[0].user_id, 1);
    assert_eq!(shown[0].photo_data, address);
    assert_eq!(shown[0].username_attempt, "alise");
    assert_eq!(shown[0].timestamp, store.photos[0].timestamp);
}

#[test]
fn a_photo_may_come_as_bare_base64() {
    let mut store = store_with_alice();
    update_photo_setting(&mut store, 1, true);
    assert_eq!(save_failed_login_photo(&mut store, s("alice"), s("AQID"), s("a")), Ok(()));
    assert_eq!(save_failed_login_photo(&mut store, s("alice"), s("x,BAUG,AQID"), s("a")), Ok(()));
    let key = get_encryption_key(1);
    let first = &store.photos[0];
    assert_eq!(open(&key, &first.photo_nonce, &first.encrypted_photo).unwrap(), vec![1, 2, 3]);
    let second = &store.photos[1];
    assert_eq!(open(&key, &second.photo_nonce, &second.encrypted_photo).unwrap(), vec![4, 5, 6]);
    assert_eq!(second.id, 2);
}

#[test]
fn a_photo_that_is_no_base64_is_refused() {
    let mut store = store_with_alice();
    update_photo_setting(&mut store, 1, true);
    assert_eq!(
        save_failed_login_photo(&mut store, s("alice"), s("data:image/jpeg;base64,???"), s("a")),
        Err(VaultError::InputValidation)
    );
    assert_eq!(
        save_failed_login_photo(&mut store, s("alice"), s("???"), s("a")),
        Err(VaultError::InputValidation)
    );
    assert!(store.photos.is_empty());
}

#[test]
fn photos_are_shown_newest_first_and_only_what_opens() {
    let mut store = store_with_alice();
    create_user_with_salt(&mut store, s("bob"), s("Pw2!"), s(SALT)).unwrap();
    update_photo_setting(&mut store, 1, true);
    update_photo_setting(&mut store, 2, true);
    save_failed_login_photo(&mut store, s("alice"), s("AQID"), s("one")).unwrap();
    save_failed_login_photo(&mut store, s("bob"), s("AQID"), s("two")).unwrap();
    save_failed_login_photo(&mut store, s("alice"), s("BAUG"), s("three")).unwrap();
    save_failed_login_photo(&mut store, s("alice"), s("BwgJ"), s("four")).unwrap();
    store.photos[2].encrypted_photo[0] ^= 1;
    let shown = get_failed_login_photos(&store, 1);
    let names: Vec<&str> = shown.iter().map(|p| p.username_attempt.as_str()).collect();
    assert_eq!(names, vec!["four", "one"]);
    assert_eq!(shown[0].photo_data, "data:image/jpeg;base64,BwgJ");
    assert_eq!(get_failed_login_photos(&store, 2).len(), 1);
    assert_eq!(get_failed_login_photos(&store, 3).len(), 0);
}

#[test]
fn a_duress_session_is_shown_no_photos() {
    let mut store = store_with_alice();
    update_photo_setting(&mut store, 1, true);
    save_failed_login_photo(&mut store, s("alice"), s("AQID"), s("one")).unwrap();
    store.logs.push(ActivityLog {
        id: 99,
        user_id: 1,
        action_type: s("pseudo_login_access"),
        details: s(""),
        timestamp: s("t"),
    });
    assert!(get_failed_login_photos(&store, 1).is_empty());
}

#[test]
fn a_photo_is_deleted_by_its_owner() {
    let mut store = store_with_alice();
    update_photo_setting(&mut store, 1, true);
    save_failed_login_photo(&mut store, s("alice"), s("AQID"), s("one")).unwrap();
    assert_eq!(delete_failed_login_photo(&mut store, 1, 2), Err(VaultError::NotFound));
    assert_eq!(delete_failed_login_photo(&mut store, 2, 1), Err(VaultError::NotFound));
    assert_eq!(store.photos.len(), 1);
    assert_eq!(delete_failed_login_photo(&mut store, 1, 1), Ok(()));
    assert!(store.photos.is_empty());
}
