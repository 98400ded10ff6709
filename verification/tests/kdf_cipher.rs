use argon2::Argon2;
use xpass::cipher::{decode_key, encode_key, open, seal, seal_with_nonce};
use xpass::error::VaultError;
use xpass::kdf::{derive_key, generate_salt, hash_for_verification, verify};

const SALT: &str = "c29tZXNhbHRzb21lc2FsdA";

#[test]
fn derive_key_is_deterministic() {
    let first = derive_key("Pw1!", SALT).unwrap();
    let second = derive_key("Pw1!", SALT).unwrap();
    assert_eq!(first.len(), 32);
    assert_eq!(first, second);
}

#[test]
fn derive_key_is_the_argon2_output() {
    let mut expected = [0u8; 32];
    Argon2::default().hash_password_into(b"Pw1!", SALT.as_bytes(), &mut expected).unwrap();
    assert_eq!(derive_key("Pw1!", SALT).unwrap(), expected.to_vec());
}

#[test]
fn derive_key_differs_across_salts_and_passwords() {
    let key = derive_key("Pw1!", SALT).unwrap();
    assert_ne!(key, derive_key("Pw1!", "YW5vdGhlcnNhbHRhbm90aA").unwrap());
    assert_ne!(key, derive_key("Pw2!", SALT).unwrap());
}

#[test]
fn derive_key_refuses_a_short_salt() {
    assert_eq!(derive_key("Pw1!", "abcdefg"), Err(VaultError::CryptoFailure));
    assert_eq!(derive_key("Pw1!", "abc"), Err(VaultError::CryptoFailure));
    assert!(derive_key("Pw1!", "abcdefgh").is_ok());
}

#[test]
fn derive_key_refuses_a_malformed_salt() {
    assert_eq!(derive_key("Pw1!", "not a salt at all!"), Err(VaultError::CryptoFailure));
    let long = "a".repeat(65);
    assert_eq!(derive_key("Pw1!", &long), Err(VaultError::CryptoFailure));
}

#[test]
fn generated_salt_is_well_formed() {
    let salt = generate_salt();
    assert_eq!(salt.chars().count(), 22);
    assert!(salt.chars().all(|c| c.is_ascii_alphanumeric() || c == '+' || c == '/'));
    assert_ne!(salt, generate_salt());
    assert!(derive_key("x", &salt).is_ok());
}

#[test]
fn verification_hash_accepts_only_its_password() {
    let hash = hash_for_verification("Pw1!", SALT).unwrap();
    assert!(hash.starts_with("$argon2id$"));
    assert!(verify("Pw1!", &hash));
    assert!(!verify("Pw2!", &hash));
    assert!(!verify("", &hash));
}

#[test]
fn verification_hash_is_deterministic_and_no_key() {
    let hash = hash_for_verification("Pw1!", SALT).unwrap();
    assert_eq!(hash, hash_for_verification("Pw1!", SALT).unwrap());
    assert_ne!(hash.as_bytes(), derive_key("Pw1!", SALT).unwrap().as_slice());
}

#[test]
fn malformed_hash_verifies_nothing() {
    assert!(!verify("Pw1!", "not a hash"));
    assert!(!verify("Pw1!", ""));
}

#[test]
fn hash_refuses_a_malformed_salt() {
    assert_eq!(hash_for_verification("Pw1!", "??"), Err(VaultError::CryptoFailure));
}

#[test]
fn seal_then_open_gives_the_plaintext() {
    let key = vec![7u8; 32];
    let (nonce, ciphertext) = seal(&key, b"s3cret").unwrap();
    assert_eq!(nonce.len(), 12);
    assert_eq!(ciphertext.len(), 6 + 16);
    assert_ne!(&ciphertext[..6], b"s3cret");
    assert_eq!(open(&key, &nonce, &ciphertext).unwrap(), b"s3cret".to_vec());
}

#[test]
fn seal_of_the_empty_plaintext() {
    let key = vec![1u8; 32];
    let (nonce, ciphertext) = seal(&key, b"").unwrap();
    assert_eq!(ciphertext.len(), 16);
    assert_eq!(open(&key, &nonce, &ciphertext).unwrap(), Vec::<u8>::new());
}

#[test]
fn seal_draws_a_fresh_nonce() {
    let key = vec![7u8; 32];
    let (first, _) = seal(&key, b"same").unwrap();
    let (second, _) = seal(&key, b"same").unwrap();
    assert_ne!(first, second);
}

#[test]
fn seal_with_nonce_is_deterministic() {
    let key = vec![9u8; 32];
    let nonce = vec![3u8; 12];
    let first = seal_with_nonce(&key, &nonce, b"text").unwrap();
    assert_eq!(first, seal_with_nonce(&key, &nonce, b"text").unwrap());
    assert_eq!(open(&key, &nonce, &first).unwrap(), b"text".to_vec());
}

#[test]
fn open_fails_on_any_flipped_ciphertext_byte() {
    let key = vec![7u8; 32];
    let (nonce, ciphertext) = seal(&key, b"s3cret").unwrap();
    for i in 0..ciphertext.len() {
        let mut altered = ciphertext.clone();
        altered[i] ^= 1;
        assert_eq!(open(&key, &nonce, &altered), Err(VaultError::CryptoFailure));
    }
}

#[test]
fn open_fails_on_any_flipped_nonce_byte() {
    let key = vec![7u8; 32];
    let (nonce, ciphertext) = seal(&key, b"s3cret").unwrap();
    for i in 0..nonce.len() {
        let mut altered = nonce.clone();
        altered[i] ^= 0x80;
        assert_eq!(open(&key, &altered, &ciphertext), Err(VaultError::CryptoFailure));
    }
}

#[test]
fn open_fails_under_another_key() {
    let (nonce, ciphertext) = seal(&vec![7u8; 32], b"s3cret").unwrap();
    assert_eq!(open(&vec![8u8; 32], &nonce, &ciphertext), Err(VaultError::CryptoFailure));
}

#[test]
fn open_fails_on_odd_lengths() {
    let key = vec![7u8; 32];
    let (nonce, ciphertext) = seal(&key, b"s3cret").unwrap();
    assert_eq!(open(&key, &nonce[..11], &ciphertext), Err(VaultError::CryptoFailure));
    assert_eq!(open(&key, &nonce, &ciphertext[..10]), Err(VaultError::CryptoFailure));
    assert_eq!(open(&key, &nonce, b""), Err(VaultError::CryptoFailure));
}

#[test]
fn key_of_another_length_is_input_validation() {
    assert_eq!(seal(&vec![7u8; 31], b"x"), Err(VaultError::InputValidation));
    assert_eq!(seal(&vec![7u8; 33], b"x"), Err(VaultError::InputValidation));
    assert_eq!(open(&vec![7u8; 16], &[0u8; 12], &[0u8; 16]), Err(VaultError::InputValidation));
    assert_eq!(
        seal_with_nonce(&vec![7u8; 32], &[0u8; 11], b"x"),
        Err(VaultError::CryptoFailure)
    );
}

#[test]
fn key_text_is_standard_base64() {
    let key: Vec<u8> = (0u8..32).collect();
    let text = encode_key(&key);
    assert_eq!(text, "AAECAwQFBgcICQoLDA0ODxAREhMUFRYXGBkaGxwdHh8=");
    assert_eq!(decode_key(&text).unwrap(), key);
}

#[test]
fn key_text_must_be_base64_of_32_bytes() {
    assert_eq!(decode_key("not base64!"), Err(VaultError::InputValidation));
    assert_eq!(decode_key(""), Err(VaultError::InputValidation));
    assert_eq!(decode_key("AAECAwQFBgc="), Err(VaultError::InputValidation));
    let long = encode_key(&[1u8; 32]) + "AAAA";
    assert_eq!(decode_key(&long), Err(VaultError::InputValidation));
}
