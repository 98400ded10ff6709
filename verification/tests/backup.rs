use base64::Engine;
use xpass::backup::{
    build_backup, export_vault_encrypted, get_user_entries, import_entries,
    import_vault_with_password, read_backup, read_bundle, read_entries, write_bundle,
    write_entries, EncryptedBackup,
};
use xpass::cipher::{decode_key, encode_key, open};
use xpass::entries::BackupEntry;
use xpass::error::VaultError;
use xpass::password_manager::{add_entry, create_user_with_salt, get_entries, login};
use xpass::store::Store;

const SALT: &str = "c29tZXNhbHRzb21lc2FsdA";
const OTHER_SALT: &str = "YW5vdGhlcnNhbHRhbm90aA";

fn s(text: &str) -> String {
    text.to_string()
}

fn entry(service: &str, login: &str, password: &str, note: &str) -> BackupEntry {
    BackupEntry { service: s(service), login: s(login), password: s(password), note: s(note) }
}

fn tuples(store: &mut Store, user_id: i64, key: &str) -> Vec<(String, String, String, String)> {
    let mut all: Vec<_> = get_entries(store, user_id, s(key))
        .unwrap()
        .into_iter()
        .map(|e| (e.service, e.login, e.password, e.note))
        .collect();
    all.sort();
    all
}

fn alice_with_entries() -> (Store, String) {
    let mut store = Store::new();
    create_user_with_salt(&mut store, s("alice"), s("Pw1!"), s(SALT)).unwrap();
    let (_, key, _) = login(&mut store, s("alice"), s("Pw1!")).unwrap();
    add_entry(&mut store, 1, s("GitHub"), s("alice@x"), s("s3cret"), s(""), key.clone()).unwrap();
    add_entry(&mut store, 1, s("Mail"), s("alice@y"), s("p\"w\\"), s("line\nbreak \u{1F511}"), key.clone())
        .unwrap();
    add_entry(&mut store, 1, s("GitHub"), s("alice@x"), s("s3cret"), s(""), key.clone()).unwrap();
    (store, key)
}

#[test]
fn entries_are_written_as_an_array_of_objects() {
    let text = write_entries(&vec![entry("GitHub", "alice@x", "s3cret", ""), entry("a\"b", "c", "d", "e")]);
    assert_eq!(
        text,
        r#"[{"service":"GitHub","login":"alice@x","password":"s3cret","note":""},{"service":"a\"b","login":"c","password":"d","note":"e"}]"#
    );
    assert_eq!(write_entries(&Vec::new()), "[]");
}

#[test]
fn entries_are_read_from_an_array_of_objects() {
    let entries = read_entries(
        r#" [ {"note": "n", "login": "l", "extra": 5, "password": "p", "service": "s"}, {"service":"a","login":"b","password":"c","note":"é"} ] "#,
    )
    .unwrap();
    assert_eq!(entries.len(), 2);
    assert_eq!(entries[0].service, "s");
    assert_eq!(entries[0].login, "l");
    assert_eq!(entries[0].password, "p");
    assert_eq!(entries[0].note, "n");
    assert_eq!(entries[1].note, "\u{e9}");
    assert_eq!(read_entries("[]").unwrap().len(), 0);
}

#[test]
fn entries_that_do_not_follow_the_schema_are_refused() {
    assert!(read_entries("").is_none());
    assert!(read_entries("{}").is_none());
    assert!(read_entries("[1]").is_none());
    assert!(read_entries(r#"[{"service":"s","login":"l","password":"p"}]"#).is_none());
    assert!(read_entries(r#"[{"service":"s","login":"l","password":"p","note":7}]"#).is_none());
    assert!(read_entries(r#"[{"service":"s","login":"l","password":"p","note":null}]"#).is_none());
    assert!(read_entries(r#"[{"service":"s","login":"l","password":"p","note":"n"}"#).is_none());
}

#[test]
fn a_bundle_is_written_with_its_six_fields() {
    let bundle = EncryptedBackup {
        version: s("1.0"),
        timestamp: s("2026-01-01T00:00:00+00:00"),
        username: s("alice"),
        salt: s(SALT),
        encrypted_data: s("AAAA"),
        nonce: s("BBBB"),
    };
    let text = write_bundle(&bundle);
    assert_eq!(
        text,
        "{\n  \"version\": \"1.0\",\n  \"timestamp\": \"2026-01-01T00:00:00+00:00\",\n  \"username\": \"alice\",\n  \"salt\": \"c29tZXNhbHRzb21lc2FsdA\",\n  \"encrypted_data\": \"AAAA\",\n  \"nonce\": \"BBBB\"\n}"
    );
    let back = read_bundle(&text).unwrap();
    assert_eq!(back.version, "1.0");
    assert_eq!(back.timestamp, "2026-01-01T00:00:00+00:00");
    assert_eq!(back.username, "alice");
    assert_eq!(back.salt, SALT);
    assert_eq!(back.encrypted_data, "AAAA");
    assert_eq!(back.nonce, "BBBB");
}

#[test]
fn a_bundle_needs_all_six_fields_as_text() {
    assert!(read_bundle("[]").is_none());
    assert!(read_bundle("{").is_none());
    assert!(read_bundle(r#"{"version":"1.0","timestamp":"t","username":"u","salt":"s","encrypted_data":"e"}"#).is_none());
    assert!(read_bundle(r#"{"version":1,"timestamp":"t","username":"u","salt":"s","encrypted_data":"e","nonce":"n"}"#).is_none());
    assert!(read_bundle(r#"{"version":"1.0","timestamp":"t","username":"u","salt":"s","encrypted_data":"e","nonce":"n","more":[1]}"#).is_some());
}

#[test]
fn the_entries_of_a_user_are_opened_for_a_backup() {
    let (store, key) = alice_with_entries();
    let entries = get_user_entries(&store, 1, &key).unwrap();
    assert_eq!(entries.len(), 3);
    assert_eq!(entries[1].service, "Mail");
    assert_eq!(entries[1].password, "p\"w\\");
    assert_eq!(entries[1].note, "line\nbreak \u{1F511}");
    assert!(matches!(get_user_entries(&store, 1, "??"), Err(VaultError::InputValidation)));
    assert!(matches!(
        get_user_entries(&store, 1, &encode_key(&[5u8; 32])),
        Err(VaultError::CryptoFailure)
    ));
    assert_eq!(get_user_entries(&store, 2, &key).unwrap().len(), 0);
}

#[test]
fn a_bundle_carries_the_salt_and_opens_under_the_key() {
    let (mut store, key) = alice_with_entries();
    let bundle = build_backup(&mut store, 1, s("alice"), &key).unwrap();
    assert_eq!(bundle.version, "1.0");
    assert_eq!(bundle.username, "alice");
    assert_eq!(bundle.salt, SALT);
    assert!(!bundle.timestamp.is_empty());
    let nonce = base64::engine::general_purpose::STANDARD.decode(&bundle.nonce).unwrap();
    let data = base64::engine::general_purpose::STANDARD.decode(&bundle.encrypted_data).unwrap();
    assert_eq!(nonce.len(), 12);
    let json = open(&decode_key(&key).unwrap(), &nonce, &data).unwrap();
    let entries = read_entries(std::str::from_utf8(&json).unwrap()).unwrap();
    assert_eq!(entries.len(), 3);
    assert_eq!(entries[0].service, "GitHub");
    let last = store.logs.last().unwrap();
    assert_eq!(last.action_type, "vault_exported");
    assert_eq!(last.details, "Vault exported with 3 entries");
}

#[test]
fn an_export_fails_without_a_user_or_the_right_key() {
    let (mut store, key) = alice_with_entries();
    let events = store.logs.len();
    assert_eq!(export_vault_encrypted(&mut store, 9, s("x"), key), Err(VaultError::NotFound));
    assert_eq!(
        export_vault_encrypted(&mut store, 1, s("alice"), s("??")),
        Err(VaultError::InputValidation)
    );
    assert_eq!(
        export_vault_encrypted(&mut store, 1, s("alice"), encode_key(&[5u8; 32])),
        Err(VaultError::CryptoFailure)
    );
    assert_eq!(store.logs.len(), events);
}

#[test]
fn a_backup_comes_back_whole_in_a_fresh_account() {
    let (mut store, key) = alice_with_entries();
    let exported = tuples(&mut store, 1, &key);
    let text = export_vault_encrypted(&mut store, 1, s("alice"), key).unwrap();
    let mut target = Store::new();
    create_user_with_salt(&mut target, s("alice2"), s("New!"), s(OTHER_SALT)).unwrap();
    assert_eq!(
        import_vault_with_password(&mut target, 1, s("New!"), s("Pw1!"), text, false),
        Ok(3)
    );
    let (_, new_key, _) = login(&mut target, s("alice2"), s("New!")).unwrap();
    assert_eq!(tuples(&mut target, 1, &new_key), exported);
    let event = target.logs.iter().find(|l| l.action_type == "vault_imported").unwrap();
    assert_eq!(event.details, "Imported 3 entries (merge: false)");
}

#[test]
fn a_wrong_backup_password_changes_nothing() {
    let (mut store, key) = alice_with_entries();
    let text = export_vault_encrypted(&mut store, 1, s("alice"), key.clone()).unwrap();
    let before = store.entries.len();
    let events = store.logs.len();
    assert_eq!(
        import_vault_with_password(&mut store, 1, s("Pw1!"), s("wrong"), text.clone(), false),
        Err(VaultError::CryptoFailure)
    );
    assert_eq!(
        import_vault_with_password(&mut store, 1, s("Pw1!"), s("wrong"), text.clone(), true),
        Err(VaultError::CryptoFailure)
    );
    assert_eq!(store.entries.len(), before);
    assert_eq!(store.logs.len(), events);
    assert_eq!(get_entries(&mut store, 1, key).unwrap().len(), 3);
    assert!(matches!(read_backup("wrong", &text), Err(VaultError::CryptoFailure)));
}

#[test]
fn an_altered_bundle_is_refused() {
    let (mut store, key) = alice_with_entries();
    let text = export_vault_encrypted(&mut store, 1, s("alice"), key).unwrap();
    let mut bundle = read_bundle(&text).unwrap();
    let mut data = bundle.encrypted_data.into_bytes();
    data[0] = if data[0] == b'A' { b'B' } else { b'A' };
    bundle.encrypted_data = String::from_utf8(data).unwrap();
    let altered = write_bundle(&bundle);
    assert!(matches!(read_backup("Pw1!", &altered), Err(VaultError::CryptoFailure)));
    bundle.encrypted_data = s("not base64 !");
    assert!(matches!(
        read_backup("Pw1!", &write_bundle(&bundle)),
        Err(VaultError::InputValidation)
    ));
    assert!(matches!(read_backup("Pw1!", "not json"), Err(VaultError::InputValidation)));
}

#[test]
fn a_bundle_with_a_nonce_of_another_length_is_refused() {
    let (mut store, key) = alice_with_entries();
    let text = export_vault_encrypted(&mut store, 1, s("alice"), key).unwrap();
    let mut bundle = read_bundle(&text).unwrap();
    bundle.nonce = s("AAAA");
    assert!(matches!(
        read_backup("Pw1!", &write_bundle(&bundle)),
        Err(VaultError::InputValidation)
    ));
    bundle.salt = s("x");
    assert!(matches!(
        read_backup("Pw1!", &write_bundle(&bundle)),
        Err(VaultError::CryptoFailure)
    ));
}

#[test]
fn an_import_without_merging_replaces_the_entries() {
    let (mut store, key) = alice_with_entries();
    let raw = decode_key(&key).unwrap();
    let source = vec![entry("New", "n@x", "pw", "note"), entry("New", "n@x", "pw", "note")];
    assert_eq!(import_entries(&mut store, 1, &raw, &source, false), Ok(2));
    let entries = get_entries(&mut store, 1, key).unwrap();
    assert_eq!(entries.len(), 2);
    assert!(entries.iter().all(|e| e.service == "New" && e.password == "pw"));
    let ids: Vec<i64> = entries.iter().map(|e| e.id).collect();
    assert_eq!(ids, vec![1, 2]);
}

#[test]
fn an_import_with_merging_passes_over_what_is_there() {
    let (mut store, key) = alice_with_entries();
    let raw = decode_key(&key).unwrap();
    let source = vec![
        entry("GitHub", "alice@x", "other", ""),
        entry("New", "n@x", "pw", ""),
        entry("New", "n@x", "again", ""),
        entry("GitHub", "someone@x", "pw", ""),
    ];
    assert_eq!(import_entries(&mut store, 1, &raw, &source, true), Ok(2));
    let entries = get_entries(&mut store, 1, key).unwrap();
    assert_eq!(entries.len(), 5);
    assert_eq!(entries[3].service, "New");
    assert_eq!(entries[3].password, "pw");
    assert_eq!(entries[3].id, 4);
    assert_eq!(entries[4].login, "someone@x");
    let last = store.logs.last().unwrap();
    assert_eq!(last.action_type, "vault_imported");
    assert_eq!(last.details, "Imported 2 entries (merge: true)");
}

#[test]
fn an_import_leaves_other_users_alone() {
    let (mut store, key) = alice_with_entries();
    add_entry(&mut store, 2, s("Bob's"), s("bob@x"), s("pw"), s(""), encode_key(&[2u8; 32])).unwrap();
    let raw = decode_key(&key).unwrap();
    assert_eq!(import_entries(&mut store, 1, &raw, &vec![entry("Bob's", "bob@x", "p", "")], true), Ok(1));
    assert_eq!(import_entries(&mut store, 1, &raw, &Vec::new(), false), Ok(0));
    assert_eq!(store.entries.len(), 1);
    assert_eq!(store.entries[0].user_id, 2);
}

#[test]
fn an_import_needs_the_target_user() {
    let (mut store, key) = alice_with_entries();
    let text = export_vault_encrypted(&mut store, 1, s("alice"), key).unwrap();
    assert_eq!(
        import_vault_with_password(&mut store, 7, s("Pw1!"), s("Pw1!"), text, true),
        Err(VaultError::NotFound)
    );
}

#[test]
fn what_is_written_reads_back() {
    let list = vec![
        entry("a\"b\\c", "l\u{0}\u{1f}", "p\n\t\r", "\u{7f}\u{2028}\u{1F511}/"),
        entry("", "", "", ""),
    ];
    let back = read_entries(&write_entries(&list)).unwrap();
    assert_eq!(back.len(), 2);
    for (a, b) in list.iter().zip(back.iter()) {
        assert_eq!(a.service, b.service);
        assert_eq!(a.login, b.login);
        assert_eq!(a.password, b.password);
        assert_eq!(a.note, b.note);
    }
}

#[test]
fn a_field_given_twice_counts_with_its_last_value() {
    let entries = read_entries(
        r#"[{"service":"first","service":"last","login":"l","password":"p","note":"n"}]"#,
    )
    .unwrap();
    assert_eq!(entries[0].service, "last");
}
