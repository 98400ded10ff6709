use xpass::cipher::encode_key;
use xpass::error::VaultError;
use xpass::fake_data_generator::CATALOGUE;
use xpass::password_manager::{
    add_entry, create_user_with_salt, delete_entry, get_entries, login, update_entry,
};
use xpass::pseudo_mode::save_pseudo_mode_settings;
use xpass::store::Store;

const SALT: &str = "c29tZXNhbHRzb21lc2FsdA";

fn s(text: &str) -> String {
    text.to_string()
}

fn key(byte: u8) -> String {
    encode_key(&[byte; 32])
}

#[test]
fn an_entry_comes_back_as_it_went_in() {
    let mut store = Store::new();
    assert_eq!(
        add_entry(&mut store, 1, s("GitHub"), s("alice@x"), s("s3cret"), s("n\u{f6}te"), key(1)),
        Ok(())
    );
    let entries = get_entries(&mut store, 1, key(1)).unwrap();
    assert_eq!(entries.len(), 1);
    assert_eq!(entries[0].id, 1);
    assert_eq!(entries[0].service, "GitHub");
    assert_eq!(entries[0].login, "alice@x");
    assert_eq!(entries[0].password, "s3cret");
    assert_eq!(entries[0].note, "n\u{f6}te");
}

#[test]
fn an_entry_is_stored_sealed() {
    let mut store = Store::new();
    add_entry(&mut store, 1, s("GitHub"), s("alice@x"), s("s3cret"), s(""), key(1)).unwrap();
    let row = &store.entries[0];
    assert_eq!(row.service, "GitHub");
    assert_eq!(row.login, "alice@x");
    assert_eq!(row.enc_password.len(), 6 + 16);
    assert_eq!(row.enc_note.len(), 16);
    assert_eq!(row.password_nonce.len(), 12);
    assert_eq!(row.note_nonce.len(), 12);
    assert_ne!(row.password_nonce, row.note_nonce);
    assert_ne!(&row.enc_password[..6], b"s3cret");
    let last = store.logs.last().unwrap();
    assert_eq!(last.action_type, "add_entry");
    assert_eq!(last.details, "Added entry for service: GitHub");
}

#[test]
fn a_key_must_be_base64_of_32_bytes() {
    let mut store = Store::new();
    let short = "AAECAwQFBgc=".to_string();
    assert_eq!(
        add_entry(&mut store, 1, s("a"), s("b"), s("c"), s("d"), s("***")),
        Err(VaultError::InputValidation)
    );
    assert_eq!(
        add_entry(&mut store, 1, s("a"), s("b"), s("c"), s("d"), short.clone()),
        Err(VaultError::InputValidation)
    );
    assert_eq!(
        update_entry(&mut store, 1, 1, s("a"), s("b"), s("c"), s("d"), short.clone()),
        Err(VaultError::InputValidation)
    );
    assert!(matches!(get_entries(&mut store, 1, short), Err(VaultError::InputValidation)));
    assert!(store.entries.is_empty());
    assert!(store.logs.is_empty());
}

#[test]
fn entries_of_a_user_without_entries() {
    let mut store = Store::new();
    add_entry(&mut store, 2, s("Mail"), s("bob@x"), s("pw"), s(""), key(2)).unwrap();
    let entries = get_entries(&mut store, 1, key(1)).unwrap();
    assert!(entries.is_empty());
    assert_eq!(store.logs.len(), 1);
}

#[test]
fn entries_are_read_in_the_order_they_were_added() {
    let mut store = Store::new();
    for name in ["one", "two", "three"] {
        add_entry(&mut store, 1, s(name), s("l"), s("p"), s("n"), key(1)).unwrap();
    }
    add_entry(&mut store, 2, s("other"), s("l"), s("p"), s("n"), key(2)).unwrap();
    let entries = get_entries(&mut store, 1, key(1)).unwrap();
    let names: Vec<&str> = entries.iter().map(|e| e.service.as_str()).collect();
    assert_eq!(names, vec!["one", "two", "three"]);
    let ids: Vec<i64> = entries.iter().map(|e| e.id).collect();
    assert_eq!(ids, vec![1, 2, 3]);
}

#[test]
fn a_wrong_key_reads_decoys() {
    let mut store = Store::new();
    add_entry(&mut store, 1, s("GitHub"), s("alice@x"), s("s3cret"), s("real"), key(1)).unwrap();
    let shown = get_entries(&mut store, 1, key(9)).unwrap();
    assert_eq!(shown.len(), 31);
    for (i, entry) in shown.iter().enumerate() {
        assert_eq!(entry.id, -(i as i64 + 1));
        assert!(CATALOGUE.iter().any(|row| row.0 == entry.service && row.2 == entry.password));
        assert!(!(entry.service == "GitHub" && entry.password == "s3cret"));
        assert_ne!(entry.login, "alice@x");
        assert_ne!(entry.note, "real");
    }
    let last = store.logs.last().unwrap();
    assert_eq!(last.action_type, "pseudo_login_access");
    assert_eq!(last.details, "Accessed vault with pseudo password - fake data shown");
}

#[test]
fn a_wrong_key_reads_nothing_where_decoys_are_off() {
    let mut store = Store::new();
    add_entry(&mut store, 1, s("GitHub"), s("alice@x"), s("s3cret"), s(""), key(1)).unwrap();
    save_pseudo_mode_settings(&mut store, 1, true, false, false, false, false, false);
    let shown = get_entries(&mut store, 1, key(9)).unwrap();
    assert!(shown.is_empty());
    let last = store.logs.last().unwrap();
    assert_eq!(last.action_type, "pseudo_login_access");
    assert_eq!(last.details, "Accessed vault with pseudo password - empty vault shown");
}

#[test]
fn a_row_that_does_not_open_after_the_probe_is_a_failure() {
    let mut store = Store::new();
    add_entry(&mut store, 1, s("one"), s("l"), s("p"), s("n"), key(1)).unwrap();
    add_entry(&mut store, 1, s("two"), s("l"), s("p"), s("n"), key(1)).unwrap();
    store.entries[1].enc_note[0] ^= 1;
    assert!(matches!(get_entries(&mut store, 1, key(1)), Err(VaultError::CryptoFailure)));
    store.entries[1].enc_note[0] ^= 1;
    store.entries[0].enc_note[0] ^= 1;
    assert!(matches!(get_entries(&mut store, 1, key(1)), Err(VaultError::CryptoFailure)));
}

#[test]
fn updating_an_entry() {
    let mut store = Store::new();
    add_entry(&mut store, 1, s("GitHub"), s("alice@x"), s("s3cret"), s(""), key(1)).unwrap();
    add_entry(&mut store, 1, s("Mail"), s("alice@y"), s("pw"), s(""), key(1)).unwrap();
    assert_eq!(
        update_entry(&mut store, 1, 1, s("GitLab"), s("alice@z"), s("n3w"), s("moved"), key(1)),
        Ok(())
    );
    let entries = get_entries(&mut store, 1, key(1)).unwrap();
    assert_eq!(entries.len(), 2);
    assert_eq!(entries[0].id, 1);
    assert_eq!(entries[0].service, "GitLab");
    assert_eq!(entries[0].login, "alice@z");
    assert_eq!(entries[0].password, "n3w");
    assert_eq!(entries[0].note, "moved");
    assert_eq!(entries[1].service, "Mail");
    let last = store.logs.last().unwrap();
    assert_eq!(last.action_type, "edit_entry");
    assert_eq!(last.details, "Updated entry for service: GitLab");
}

#[test]
fn updating_an_entry_of_someone_else() {
    let mut store = Store::new();
    add_entry(&mut store, 1, s("GitHub"), s("alice@x"), s("s3cret"), s(""), key(1)).unwrap();
    assert_eq!(
        update_entry(&mut store, 1, 2, s("x"), s("x"), s("x"), s("x"), key(2)),
        Err(VaultError::NotFound)
    );
    assert_eq!(
        update_entry(&mut store, 7, 1, s("x"), s("x"), s("x"), s("x"), key(1)),
        Err(VaultError::NotFound)
    );
    assert_eq!(get_entries(&mut store, 1, key(1)).unwrap()[0].service, "GitHub");
    assert_eq!(store.logs.len(), 1);
}

#[test]
fn deleting_an_entry() {
    let mut store = Store::new();
    add_entry(&mut store, 1, s("GitHub"), s("alice@x"), s("s3cret"), s(""), key(1)).unwrap();
    add_entry(&mut store, 1, s("Mail"), s("alice@y"), s("pw"), s(""), key(1)).unwrap();
    assert_eq!(delete_entry(&mut store, 2, 9), Err(VaultError::NotFound));
    assert_eq!(delete_entry(&mut store, 3, 1), Err(VaultError::NotFound));
    assert_eq!(store.entries.len(), 2);
    assert_eq!(delete_entry(&mut store, 1, 1), Ok(()));
    assert_eq!(store.entries.len(), 1);
    assert_eq!(store.entries[0].id, 2);
    let last = store.logs.last().unwrap();
    assert_eq!(last.action_type, "delete_entry");
    assert_eq!(last.details, "Deleted entry for service: GitHub");
    add_entry(&mut store, 1, s("New"), s("l"), s("p"), s(""), key(1)).unwrap();
    assert_eq!(store.entries[1].id, 3);
}

#[test]
fn the_key_of_a_master_login_opens_the_vault() {
    let mut store = Store::new();
    create_user_with_salt(&mut store, s("alice"), s("Pw1!"), s(SALT)).unwrap();
    let (id, session_key, duress) = login(&mut store, s("alice"), s("Pw1!")).unwrap();
    assert!(!duress);
    add_entry(&mut store, id, s("GitHub"), s("alice@x"), s("s3cret"), s(""), session_key).unwrap();
    let (_, again, _) = login(&mut store, s("alice"), s("Pw1!")).unwrap();
    let entries = get_entries(&mut store, id, again).unwrap();
    assert_eq!(entries.len(), 1);
    assert_eq!(entries[0].password, "s3cret");
}
