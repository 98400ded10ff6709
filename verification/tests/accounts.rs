use xpass::accounts::list_users;
use xpass::cipher::decode_key;
use xpass::error::VaultError;
use xpass::kdf::{derive_key, verify};
use xpass::password_manager::{
    add_entry, create_user, create_user_with_salt, delete_user, login, verify_user_password,
};
use xpass::pseudo_mode::{add_pseudo_password, save_pseudo_mode_settings};
use xpass::store::Store;

const SALT: &str = "c29tZXNhbHRzb21lc2FsdA";

fn s(text: &str) -> String {
    text.to_string()
}

#[test]
fn first_user_gets_id_one() {
    let mut store = Store::new();
    assert_eq!(create_user(&mut store, s("alice"), s("Pw1!")), Ok(1));
    assert_eq!(store.users.len(), 1);
    assert_eq!(store.users[0].username, "alice");
    assert_eq!(store.users[0].salt.len(), 22);
    assert!(verify("Pw1!", &store.users[0].hash));
    assert!(store.users[0].otp_secret.is_none());
    assert!(store.users[0].recovery.is_none());
}

#[test]
fn signing_up_leaves_an_event() {
    let mut store = Store::new();
    create_user_with_salt(&mut store, s("alice"), s("Pw1!"), s(SALT)).unwrap();
    assert_eq!(store.logs.len(), 1);
    assert_eq!(store.logs[0].id, 1);
    assert_eq!(store.logs[0].user_id, 1);
    assert_eq!(store.logs[0].action_type, "account_created");
    assert_eq!(store.logs[0].details, "Account created for user: alice");
    assert!(!store.logs[0].timestamp.is_empty());
}

#[test]
fn ids_go_up_from_the_greatest() {
    let mut store = Store::new();
    assert_eq!(create_user_with_salt(&mut store, s("a"), s("x"), s(SALT)), Ok(1));
    assert_eq!(create_user_with_salt(&mut store, s("b"), s("x"), s(SALT)), Ok(2));
    store.users[1].id = 40;
    assert_eq!(create_user_with_salt(&mut store, s("c"), s("x"), s(SALT)), Ok(41));
}

#[test]
fn a_taken_username_is_refused() {
    let mut store = Store::new();
    create_user_with_salt(&mut store, s("alice"), s("Pw1!"), s(SALT)).unwrap();
    assert_eq!(
        create_user_with_salt(&mut store, s("alice"), s("Other"), s(SALT)),
        Err(VaultError::StorageFailure)
    );
    assert_eq!(store.users.len(), 1);
    assert_eq!(store.logs.len(), 1);
}

#[test]
fn a_salt_that_cannot_be_hashed_with_is_refused() {
    let mut store = Store::new();
    assert_eq!(
        create_user_with_salt(&mut store, s("alice"), s("Pw1!"), s("!!")),
        Err(VaultError::CryptoFailure)
    );
    assert_eq!(store.users.len(), 0);
}

#[test]
fn the_id_space_can_run_out() {
    let mut store = Store::new();
    create_user_with_salt(&mut store, s("a"), s("x"), s(SALT)).unwrap();
    store.users[0].id = i64::MAX;
    assert_eq!(
        create_user_with_salt(&mut store, s("b"), s("x"), s(SALT)),
        Err(VaultError::StorageFailure)
    );
    assert_eq!(store.users.len(), 1);
}

#[test]
fn login_with_the_master_password() {
    let mut store = Store::new();
    create_user_with_salt(&mut store, s("alice"), s("Pw1!"), s(SALT)).unwrap();
    let (id, key, duress) = login(&mut store, s("alice"), s("Pw1!")).unwrap();
    assert_eq!(id, 1);
    assert!(!duress);
    assert_eq!(decode_key(&key).unwrap(), derive_key("Pw1!", SALT).unwrap());
    let last = store.logs.last().unwrap();
    assert_eq!(last.action_type, "login");
    assert_eq!(last.details, "Successful login via password for user: alice");
    assert_eq!(last.user_id, 1);
}

#[test]
fn login_with_a_wrong_password() {
    let mut store = Store::new();
    create_user_with_salt(&mut store, s("alice"), s("Pw1!"), s(SALT)).unwrap();
    assert_eq!(login(&mut store, s("alice"), s("nope")), Err(VaultError::AuthFailure));
    let last = store.logs.last().unwrap();
    assert_eq!(last.action_type, "login_failed");
    assert_eq!(last.details, "Failed login attempt for user: alice");
}

#[test]
fn login_with_an_empty_password() {
    let mut store = Store::new();
    create_user_with_salt(&mut store, s("alice"), s("Pw1!"), s(SALT)).unwrap();
    assert_eq!(login(&mut store, s("alice"), s("")), Err(VaultError::InputValidation));
    assert_eq!(login(&mut store, s("nobody"), s("")), Err(VaultError::InputValidation));
    assert_eq!(store.logs.len(), 1);
}

#[test]
fn login_of_an_unknown_user() {
    let mut store = Store::new();
    assert_eq!(login(&mut store, s("nobody"), s("Pw1!")), Err(VaultError::NotFound));
    assert_eq!(store.logs.len(), 0);
}

#[test]
fn login_key_depends_on_the_users_salt() {
    let mut store = Store::new();
    create_user_with_salt(&mut store, s("a"), s("same"), s(SALT)).unwrap();
    create_user_with_salt(&mut store, s("b"), s("same"), s("YW5vdGhlcnNhbHRhbm90aA")).unwrap();
    let (_, first, _) = login(&mut store, s("a"), s("same")).unwrap();
    let (_, second, _) = login(&mut store, s("b"), s("same")).unwrap();
    assert_ne!(first, second);
}

#[test]
fn checking_the_master_password() {
    let mut store = Store::new();
    create_user_with_salt(&mut store, s("alice"), s("Pw1!"), s(SALT)).unwrap();
    assert_eq!(verify_user_password(&store, 1, s("Pw1!")), Ok(()));
    assert_eq!(verify_user_password(&store, 1, s("nope")), Err(VaultError::AuthFailure));
    assert_eq!(verify_user_password(&store, 2, s("Pw1!")), Err(VaultError::NotFound));
}

#[test]
fn users_are_listed_sorted() {
    let mut store = Store::new();
    for name in ["mallory", "alice", "Bob", "carol", "alice2"] {
        create_user_with_salt(&mut store, s(name), s("x"), s(SALT)).unwrap();
    }
    assert_eq!(list_users(&store), vec!["Bob", "alice", "alice2", "carol", "mallory"]);
    assert_eq!(list_users(&Store::new()), Vec::<String>::new());
}

#[test]
fn deleting_a_user_takes_every_row_along() {
    let mut store = Store::new();
    create_user_with_salt(&mut store, s("alice"), s("Pw1!"), s(SALT)).unwrap();
    create_user_with_salt(&mut store, s("bob"), s("Pw2!"), s(SALT)).unwrap();
    let (_, alice_key, _) = login(&mut store, s("alice"), s("Pw1!")).unwrap();
    let (_, bob_key, _) = login(&mut store, s("bob"), s("Pw2!")).unwrap();
    add_entry(&mut store, 1, s("GitHub"), s("alice@x"), s("s3cret"), s(""), alice_key).unwrap();
    add_entry(&mut store, 2, s("Mail"), s("bob@x"), s("pw"), s(""), bob_key).unwrap();
    add_pseudo_password(&mut store, 1, s("Decoy9!")).unwrap();
    save_pseudo_mode_settings(&mut store, 1, true, false, false, false, true, false);
    assert_eq!(delete_user(&mut store, 1, s("Pw1!")), Ok(()));
    assert_eq!(store.users.len(), 1);
    assert_eq!(store.users[0].username, "bob");
    assert!(store.entries.iter().all(|e| e.user_id == 2));
    assert_eq!(store.entries.len(), 1);
    assert!(store.duress.is_empty());
    assert!(store.settings.is_empty());
    assert!(store.logs.iter().all(|l| l.user_id == 2));
    assert!(!store.logs.is_empty());
}

#[test]
fn deleting_a_user_needs_the_master_password() {
    let mut store = Store::new();
    create_user_with_salt(&mut store, s("alice"), s("Pw1!"), s(SALT)).unwrap();
    assert_eq!(delete_user(&mut store, 1, s("nope")), Err(VaultError::AuthFailure));
    assert_eq!(delete_user(&mut store, 9, s("Pw1!")), Err(VaultError::NotFound));
    assert_eq!(store.users.len(), 1);
    assert_eq!(store.logs.len(), 1);
}
