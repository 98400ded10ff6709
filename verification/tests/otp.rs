use totp_rs::{Algorithm, TOTP};
use xpass::cipher::decode_key;
use xpass::error::VaultError;
use xpass::kdf::derive_key;
use xpass::otp::{
    decode_secret, fresh_secret, generate_otp_secret, has_otp_secret, reset_otp_secret,
    verify_otp, verify_otp_at,
};
use xpass::password_manager::{create_user_with_salt, login};
use xpass::recovery::{has_otp_recovery, login_with_otp, login_with_otp_at, setup_otp_recovery};
use xpass::store::Store;

const SALT: &str = "c29tZXNhbHRzb21lc2FsdA";
const NOW: u64 = 1_700_000_015;

fn s(text: &str) -> String {
    text.to_string()
}

fn clock() -> u64 {
    std::time::SystemTime::now().duration_since(std::time::UNIX_EPOCH).unwrap().as_secs()
}

fn code_at(secret: &str, time: u64) -> String {
    let bytes = base32::decode(base32::Alphabet::RFC4648 { padding: false }, secret).unwrap();
    TOTP::new(Algorithm::SHA1, 6, 1, 30, bytes).unwrap().generate(time)
}

fn store_with_alice() -> (Store, String) {
    let mut store = Store::new();
    create_user_with_salt(&mut store, s("alice"), s("Pw1!"), s(SALT)).unwrap();
    let (secret, _) = generate_otp_secret(&mut store, s("alice")).unwrap();
    (store, secret)
}

#[test]
fn a_fresh_secret_is_base32_of_20_bytes() {
    let secret = fresh_secret();
    assert_eq!(secret.len(), 32);
    assert!(secret.chars().all(|c| c.is_ascii_uppercase() || ('2'..='7').contains(&c)));
    assert_eq!(decode_secret(&secret).unwrap().len(), 20);
    assert_ne!(secret, fresh_secret());
}

#[test]
fn a_secret_must_be_base32_of_16_bytes_at_least() {
    assert_eq!(decode_secret("MFRGGZDFMZTWQ2LKNNWG23TPOA").unwrap(), b"abcdefghijklmnop".to_vec());
    assert_eq!(decode_secret("MFRGGZDFMZTWQ2LKNNWG23TP"), Err(VaultError::StorageFailure));
    assert_eq!(decode_secret("not base32 !"), Err(VaultError::StorageFailure));
    assert_eq!(decode_secret(""), Err(VaultError::StorageFailure));
}

#[test]
fn a_secret_is_generated_once() {
    let (mut store, secret) = store_with_alice();
    assert_eq!(store.users[0].otp_secret.as_deref(), Some(secret.as_str()));
    let (again, uri) = generate_otp_secret(&mut store, s("alice")).unwrap();
    assert_eq!(again, secret);
    assert_eq!(
        uri,
        format!(
            "otpauth://totp/PasswordManager:alice?secret={}&issuer=PasswordManager&algorithm=SHA1&digits=6&period=30",
            secret
        )
    );
    assert!(has_otp_secret(&store, s("alice")));
    assert!(!has_otp_secret(&store, s("bob")));
}

#[test]
fn a_secret_needs_a_user() {
    let mut store = Store::new();
    assert_eq!(generate_otp_secret(&mut store, s("alice")), Err(VaultError::NotFound));
    assert_eq!(reset_otp_secret(&mut store, s("alice")), Err(VaultError::NotFound));
    assert_eq!(verify_otp_at(&store, "alice", "000000", NOW), Err(VaultError::NotFound));
}

#[test]
fn a_stored_secret_that_is_no_secret() {
    let (mut store, _) = store_with_alice();
    store.users[0].otp_secret = Some(s("???"));
    assert_eq!(generate_otp_secret(&mut store, s("alice")), Err(VaultError::StorageFailure));
    assert_eq!(verify_otp_at(&store, "alice", "000000", NOW), Err(VaultError::StorageFailure));
}

#[test]
fn codes_of_the_current_and_the_adjacent_steps_are_accepted() {
    let (store, secret) = store_with_alice();
    for time in [NOW - 30, NOW, NOW + 30] {
        let code = code_at(&secret, time);
        assert_eq!(verify_otp_at(&store, "alice", &code, NOW), Ok(true));
    }
    let step_start = NOW - NOW % 30;
    let code = code_at(&secret, NOW);
    assert_eq!(verify_otp_at(&store, "alice", &code, step_start), Ok(true));
    assert_eq!(verify_otp_at(&store, "alice", &code, step_start + 29), Ok(true));
    assert_eq!(verify_otp_at(&store, "alice", &code, step_start + 59), Ok(true));
    assert_eq!(verify_otp_at(&store, "alice", &code, step_start - 1), Ok(true));
}

#[test]
fn codes_from_two_or_more_steps_away_are_refused() {
    let (store, secret) = store_with_alice();
    let accepted: Vec<String> = [NOW - 30, NOW, NOW + 30].iter().map(|t| code_at(&secret, *t)).collect();
    for time in [NOW - 90, NOW - 60, NOW + 60, NOW + 90, NOW + 3600] {
        let code = code_at(&secret, time);
        if !accepted.contains(&code) {
            assert_eq!(verify_otp_at(&store, "alice", &code, NOW), Ok(false));
        }
    }
    assert_eq!(verify_otp_at(&store, "alice", "", NOW), Ok(false));
    assert_eq!(verify_otp_at(&store, "alice", "12345", NOW), Ok(false));
}

#[test]
fn a_code_is_checked_against_the_users_own_secret() {
    let (mut store, secret) = store_with_alice();
    create_user_with_salt(&mut store, s("bob"), s("Pw2!"), s(SALT)).unwrap();
    let (other, _) = generate_otp_secret(&mut store, s("bob")).unwrap();
    assert_ne!(secret, other);
    let code = code_at(&secret, NOW);
    let accepted_for_bob: Vec<String> =
        [NOW - 30, NOW, NOW + 30].iter().map(|t| code_at(&other, *t)).collect();
    if !accepted_for_bob.contains(&code) {
        assert_eq!(verify_otp_at(&store, "bob", &code, NOW), Ok(false));
    }
}

#[test]
fn the_clock_must_leave_room_for_a_step_before() {
    let (store, secret) = store_with_alice();
    assert_eq!(verify_otp_at(&store, "alice", "000000", 0), Err(VaultError::ClockFailure));
    assert_eq!(verify_otp_at(&store, "alice", "000000", 29), Err(VaultError::ClockFailure));
    assert_eq!(verify_otp_at(&store, "alice", "000000", u64::MAX), Err(VaultError::ClockFailure));
    let code = code_at(&secret, 30);
    assert_eq!(verify_otp_at(&store, "alice", &code, 30), Ok(true));
}

#[test]
fn the_clock_is_read_for_a_check() {
    let (store, secret) = store_with_alice();
    let now = clock();
    let code = code_at(&secret, now);
    assert_eq!(verify_otp(&store, s("alice"), code), Ok(true));
}

#[test]
fn recovery_hands_back_the_vault_key() {
    let (mut store, secret) = store_with_alice();
    assert!(!has_otp_recovery(&store, s("alice")));
    assert_eq!(setup_otp_recovery(&mut store, 1, s("Pw1!")), Ok(()));
    assert!(has_otp_recovery(&store, s("alice")));
    assert!(!has_otp_recovery(&store, s("bob")));
    let last = store.logs.last().unwrap();
    assert_eq!(last.action_type, "otp_recovery_setup");
    assert_eq!(last.details, "OTP recovery key configured for user: alice");
    let envelope = store.users[0].recovery.as_ref().unwrap();
    assert_eq!(envelope.nonce.len(), 12);
    assert_eq!(envelope.encrypted_key.len(), 32 + 16);
    assert_eq!(envelope.salt.len(), 22);
    let code = code_at(&secret, NOW);
    let (id, key, duress) = login_with_otp_at(&mut store, s("alice"), code, NOW).unwrap();
    assert_eq!(id, 1);
    assert!(!duress);
    assert_eq!(decode_key(&key).unwrap(), derive_key("Pw1!", SALT).unwrap());
    let (_, master_key, _) = login(&mut store, s("alice"), s("Pw1!")).unwrap();
    assert_eq!(key, master_key);
}

#[test]
fn a_login_with_a_code_leaves_a_login_event() {
    let (mut store, secret) = store_with_alice();
    setup_otp_recovery(&mut store, 1, s("Pw1!")).unwrap();
    let events = store.logs.len();
    login_with_otp_at(&mut store, s("alice"), code_at(&secret, NOW), NOW).unwrap();
    assert_eq!(store.logs.len(), events + 1);
    let last = store.logs.last().unwrap();
    assert_eq!(last.action_type, "login");
    assert_eq!(last.details, "Successful login via OTP for user: alice");
}

#[test]
fn recovery_setup_checks_password_and_secret() {
    let mut store = Store::new();
    create_user_with_salt(&mut store, s("alice"), s("Pw1!"), s(SALT)).unwrap();
    assert_eq!(setup_otp_recovery(&mut store, 2, s("Pw1!")), Err(VaultError::NotFound));
    assert_eq!(setup_otp_recovery(&mut store, 1, s("nope")), Err(VaultError::AuthFailure));
    assert_eq!(setup_otp_recovery(&mut store, 1, s("Pw1!")), Err(VaultError::NotFound));
    assert!(store.users[0].recovery.is_none());
    assert_eq!(store.logs.len(), 1);
}

#[test]
fn a_login_with_a_code_fails_in_order() {
    let (mut store, secret) = store_with_alice();
    let code = code_at(&secret, NOW);
    assert_eq!(
        login_with_otp_at(&mut store, s("bob"), code.clone(), NOW),
        Err(VaultError::NotFound)
    );
    let wrong = if code == "000000" { "000001" } else { "000000" };
    let accepted: Vec<String> = [NOW - 30, NOW, NOW + 30].iter().map(|t| code_at(&secret, *t)).collect();
    if !accepted.contains(&wrong.to_string()) {
        assert_eq!(
            login_with_otp_at(&mut store, s("alice"), s(wrong), NOW),
            Err(VaultError::AuthFailure)
        );
    }
    assert_eq!(
        login_with_otp_at(&mut store, s("alice"), code.clone(), NOW),
        Err(VaultError::RecoveryUnavailable)
    );
    assert_eq!(
        login_with_otp_at(&mut store, s("alice"), code, 5),
        Err(VaultError::ClockFailure)
    );
}

#[test]
fn an_altered_envelope_is_corrupted() {
    let (mut store, secret) = store_with_alice();
    setup_otp_recovery(&mut store, 1, s("Pw1!")).unwrap();
    store.users[0].recovery.as_mut().unwrap().encrypted_key[0] ^= 1;
    assert_eq!(
        login_with_otp_at(&mut store, s("alice"), code_at(&secret, NOW), NOW),
        Err(VaultError::RecoveryCorrupted)
    );
    store.users[0].recovery.as_mut().unwrap().encrypted_key[0] ^= 1;
    store.users[0].recovery.as_mut().unwrap().nonce.pop();
    assert_eq!(
        login_with_otp_at(&mut store, s("alice"), code_at(&secret, NOW), NOW),
        Err(VaultError::RecoveryCorrupted)
    );
}

#[test]
fn an_envelope_with_an_altered_salt_is_corrupted() {
    let (mut store, secret) = store_with_alice();
    setup_otp_recovery(&mut store, 1, s("Pw1!")).unwrap();
    let events = store.logs.len();
    let good = store.users[0].recovery.as_ref().unwrap().salt.clone();
    let mut other: Vec<char> = good.chars().collect();
    other[0] = if other[0] == 'A' { 'B' } else { 'A' };
    let long = "a".repeat(65);
    for salt in [other.into_iter().collect::<String>(), s("not a salt!"), s("abc"), s(""), long] {
        store.users[0].recovery.as_mut().unwrap().salt = salt;
        assert_eq!(
            login_with_otp_at(&mut store, s("alice"), code_at(&secret, NOW), NOW),
            Err(VaultError::RecoveryCorrupted)
        );
    }
    assert_eq!(store.logs.len(), events);
    store.users[0].recovery.as_mut().unwrap().salt = good;
    assert!(login_with_otp_at(&mut store, s("alice"), code_at(&secret, NOW), NOW).is_ok());
}

#[test]
fn a_reset_drops_the_envelope_with_the_secret() {
    let (mut store, secret) = store_with_alice();
    setup_otp_recovery(&mut store, 1, s("Pw1!")).unwrap();
    let old_code = code_at(&secret, NOW);
    let (fresh, uri) = reset_otp_secret(&mut store, s("alice")).unwrap();
    assert_ne!(fresh, secret);
    assert!(uri.contains(&fresh));
    assert_eq!(store.users[0].otp_secret.as_deref(), Some(fresh.as_str()));
    assert!(store.users[0].recovery.is_none());
    assert!(!has_otp_recovery(&store, s("alice")));
    assert!(has_otp_secret(&store, s("alice")));
    let new_code = code_at(&fresh, NOW);
    assert_eq!(
        login_with_otp_at(&mut store, s("alice"), new_code, NOW),
        Err(VaultError::RecoveryUnavailable)
    );
    let outcome = login_with_otp_at(&mut store, s("alice"), old_code.clone(), NOW);
    let still_valid: Vec<String> = [NOW - 30, NOW, NOW + 30].iter().map(|t| code_at(&fresh, *t)).collect();
    if still_valid.contains(&old_code) {
        assert_eq!(outcome, Err(VaultError::RecoveryUnavailable));
    } else {
        assert_eq!(outcome, Err(VaultError::AuthFailure));
    }
}

#[test]
fn a_login_with_a_code_reads_the_clock() {
    let (mut store, secret) = store_with_alice();
    setup_otp_recovery(&mut store, 1, s("Pw1!")).unwrap();
    let now = clock();
    let (id, _, duress) = login_with_otp(&mut store, s("alice"), code_at(&secret, now)).unwrap();
    assert_eq!(id, 1);
    assert!(!duress);
}
