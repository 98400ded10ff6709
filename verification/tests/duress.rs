use xpass::activity_logger::get_activity_logs;
use xpass::error::VaultError;
use xpass::kdf::verify;
use xpass::password_manager::{add_entry, create_user, create_user_with_salt, get_entries, login};
use xpass::pseudo_mode::{
    add_pseudo_password, add_pseudo_password_with_salt, delete_all_pseudo_passwords,
    delete_pseudo_password, get_pseudo_mode_settings, get_pseudo_passwords_count,
    is_pseudo_mode_active, save_pseudo_mode_settings,
};
use xpass::store::Store;

const SALT: &str = "c29tZXNhbHRzb21lc2FsdA";
const OTHER_SALT: &str = "YW5vdGhlcnNhbHRhbm90aA";

fn s(text: &str) -> String {
    text.to_string()
}

#[test]
fn the_master_password_is_no_duress_password() {
    let mut store = Store::new();
    create_user_with_salt(&mut store, s("alice"), s("Pw1!"), s(SALT)).unwrap();
    let events = store.logs.len();
    assert_eq!(add_pseudo_password(&mut store, 1, s("Pw1!")), Err(VaultError::DuressMatchesMaster));
    assert_eq!(get_pseudo_passwords_count(&store, 1), 0);
    assert!(store.duress.is_empty());
    assert_eq!(store.logs.len(), events);
}

#[test]
fn another_password_is_taken_as_duress_password() {
    let mut store = Store::new();
    create_user_with_salt(&mut store, s("alice"), s("Pw1!"), s(SALT)).unwrap();
    assert_eq!(add_pseudo_password(&mut store, 1, s("Decoy9!")), Ok(()));
    assert_eq!(get_pseudo_passwords_count(&store, 1), 1);
    assert_eq!(store.duress[0].id, 1);
    assert_eq!(store.duress[0].user_id, 1);
    assert_eq!(store.duress[0].salt.len(), 22);
    assert_ne!(store.duress[0].salt, SALT);
    assert!(verify("Decoy9!", &store.duress[0].hash));
    let last = store.logs.last().unwrap();
    assert_eq!(last.action_type, "pseudo_password_added");
    assert_eq!(last.details, "Pseudo password added to account");
}

#[test]
fn a_duress_password_needs_a_user() {
    let mut store = Store::new();
    assert_eq!(add_pseudo_password(&mut store, 1, s("Decoy9!")), Err(VaultError::NotFound));
    assert_eq!(
        add_pseudo_password_with_salt(&mut store, 1, s("Decoy9!"), s(OTHER_SALT)),
        Err(VaultError::NotFound)
    );
}

#[test]
fn a_duress_login_is_flagged() {
    let mut store = Store::new();
    create_user_with_salt(&mut store, s("alice"), s("Pw1!"), s(SALT)).unwrap();
    add_pseudo_password_with_salt(&mut store, 1, s("Decoy9!"), s(OTHER_SALT)).unwrap();
    let (id, _, duress) = login(&mut store, s("alice"), s("Decoy9!")).unwrap();
    assert_eq!(id, 1);
    assert!(duress);
    let last = store.logs.last().unwrap();
    assert_eq!(last.action_type, "pseudo_login_access");
    assert_eq!(last.details, "Successful login via pseudo_password for user: alice");
    assert!(is_pseudo_mode_active(&store, 1));
    let (_, _, master) = login(&mut store, s("alice"), s("Pw1!")).unwrap();
    assert!(!master);
    assert!(!is_pseudo_mode_active(&store, 1));
}

#[test]
fn a_duress_password_of_another_user_does_not_log_in() {
    let mut store = Store::new();
    create_user_with_salt(&mut store, s("alice"), s("Pw1!"), s(SALT)).unwrap();
    create_user_with_salt(&mut store, s("bob"), s("Pw2!"), s(SALT)).unwrap();
    add_pseudo_password_with_salt(&mut store, 2, s("Decoy9!"), s(OTHER_SALT)).unwrap();
    assert_eq!(login(&mut store, s("alice"), s("Decoy9!")), Err(VaultError::AuthFailure));
}

#[test]
fn the_whole_story_of_a_duress_session() {
    let mut store = Store::new();
    assert_eq!(create_user(&mut store, s("alice"), s("Pw1!")), Ok(1));
    let (_, key, _) = login(&mut store, s("alice"), s("Pw1!")).unwrap();
    add_entry(&mut store, 1, s("GitHub"), s("alice@x"), s("s3cret"), s(""), key.clone()).unwrap();
    let real = get_entries(&mut store, 1, key.clone()).unwrap();
    assert_eq!(real.len(), 1);
    assert_eq!(real[0].password, "s3cret");
    assert_eq!(add_pseudo_password(&mut store, 1, s("Decoy9!")), Ok(()));
    let (id, duress_key, duress) = login(&mut store, s("alice"), s("Decoy9!")).unwrap();
    assert_eq!(id, 1);
    assert!(duress);
    assert_ne!(duress_key, key);
    let shown = get_entries(&mut store, 1, duress_key).unwrap();
    assert_eq!(shown.len(), 31);
    assert!(shown.iter().all(|e| e.id < 0));
    assert!(shown.iter().all(|e| !(e.service == "GitHub" && e.password == "s3cret")));
    assert!(shown.iter().all(|e| e.login != "alice@x" && e.password != "s3cret"));
    assert!(get_activity_logs(&store, 1, -1).is_empty());
}

#[test]
fn duress_mode_follows_the_latest_login_event() {
    let mut store = Store::new();
    assert!(!is_pseudo_mode_active(&store, 1));
    add_entry(&mut store, 1, s("a"), s("b"), s("c"), s("d"), xpass::cipher::encode_key(&[1u8; 32]))
        .unwrap();
    assert!(!is_pseudo_mode_active(&store, 1));
    let _ = get_entries(&mut store, 1, xpass::cipher::encode_key(&[2u8; 32])).unwrap();
    assert!(is_pseudo_mode_active(&store, 1));
    assert!(!is_pseudo_mode_active(&store, 2));
}

#[test]
fn settings_are_all_off_until_saved() {
    let mut store = Store::new();
    create_user_with_salt(&mut store, s("alice"), s("Pw1!"), s(SALT)).unwrap();
    let settings = get_pseudo_mode_settings(&store, 1);
    assert!(!settings.enabled);
    assert!(!settings.hide_activity_logs);
    assert!(!settings.hide_failed_login_photos);
    assert!(!settings.hide_security_settings);
    assert!(!settings.show_fake_entries);
    assert!(!settings.hide_pseudo_mode_card);
    assert!(settings.passwords.is_empty());
}

#[test]
fn settings_are_saved_and_replaced() {
    let mut store = Store::new();
    create_user_with_salt(&mut store, s("alice"), s("Pw1!"), s(SALT)).unwrap();
    add_pseudo_password_with_salt(&mut store, 1, s("one"), s(OTHER_SALT)).unwrap();
    add_pseudo_password_with_salt(&mut store, 1, s("two"), s(OTHER_SALT)).unwrap();
    save_pseudo_mode_settings(&mut store, 1, true, true, false, true, false, true);
    let last = store.logs.last().unwrap();
    assert_eq!(last.action_type, "pseudo_mode_settings_updated");
    assert_eq!(last.details, "Pseudo mode settings updated (enabled: true)");
    let settings = get_pseudo_mode_settings(&store, 1);
    assert!(settings.enabled);
    assert!(settings.hide_activity_logs);
    assert!(!settings.hide_failed_login_photos);
    assert!(settings.hide_security_settings);
    assert!(!settings.show_fake_entries);
    assert!(settings.hide_pseudo_mode_card);
    let ids: Vec<i64> = settings.passwords.iter().map(|p| p.id).collect();
    assert_eq!(ids, vec![1, 2]);
    assert!(settings.passwords.iter().all(|p| p.length.is_none()));
    save_pseudo_mode_settings(&mut store, 1, false, false, true, false, true, false);
    assert_eq!(store.settings.len(), 1);
    assert_eq!(
        store.logs.last().unwrap().details,
        "Pseudo mode settings updated (enabled: false)"
    );
    let settings = get_pseudo_mode_settings(&store, 1);
    assert!(!settings.enabled);
    assert!(settings.hide_failed_login_photos);
    assert!(settings.show_fake_entries);
}

#[test]
fn duress_passwords_are_deleted_one_by_one_or_all() {
    let mut store = Store::new();
    create_user_with_salt(&mut store, s("alice"), s("Pw1!"), s(SALT)).unwrap();
    create_user_with_salt(&mut store, s("bob"), s("Pw2!"), s(SALT)).unwrap();
    add_pseudo_password_with_salt(&mut store, 1, s("one"), s(OTHER_SALT)).unwrap();
    add_pseudo_password_with_salt(&mut store, 2, s("two"), s(OTHER_SALT)).unwrap();
    add_pseudo_password_with_salt(&mut store, 1, s("three"), s(OTHER_SALT)).unwrap();
    assert_eq!(get_pseudo_passwords_count(&store, 1), 2);
    assert_eq!(delete_pseudo_password(&mut store, 1, 2), Err(VaultError::NotFound));
    assert_eq!(delete_pseudo_password(&mut store, 1, 9), Err(VaultError::NotFound));
    assert_eq!(get_pseudo_passwords_count(&store, 1), 2);
    assert_eq!(delete_pseudo_password(&mut store, 1, 1), Ok(()));
    assert_eq!(get_pseudo_passwords_count(&store, 1), 1);
    assert_eq!(login(&mut store, s("alice"), s("one")), Err(VaultError::AuthFailure));
    delete_all_pseudo_passwords(&mut store, 1);
    assert_eq!(get_pseudo_passwords_count(&store, 1), 0);
    assert_eq!(get_pseudo_passwords_count(&store, 2), 1);
}
