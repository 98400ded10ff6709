//! Key derivation: a memory-hard function turns a password and a salt into the
//! 32-byte vault key, and into a self-describing hash that serves only to
//! check a password.

use crate::error::VaultError;
use argon2::password_hash::rand_core::OsRng;
use argon2::password_hash::{PasswordHash, PasswordHasher, PasswordVerifier, SaltString};
use argon2::Argon2;
use vstd::prelude::*;
use vstd::utf8::*;

verus! {

/// The 32 bytes that Argon2id (version 0x13, the argon2 crate's default cost
/// parameters) derives from a password and a salt, `None` where the crate
/// refuses the inputs.
pub uninterp spec fn argon2_key(password: Seq<u8>, salt: Seq<u8>) -> Option<Seq<u8>>;

/// The PHC string that the argon2 crate produces for a password under a salt
/// given in its textual form, `None` where the crate refuses the inputs.
pub uninterp spec fn argon2_phc(password: Seq<u8>, salt: Seq<char>) -> Option<Seq<char>>;

/// Whether the argon2 crate accepts a password for a PHC string. A string that
/// does not parse accepts nothing.
pub uninterp spec fn argon2_accepts(password: Seq<u8>, encoded: Seq<char>) -> bool;

/// Length of the derived key in bytes.
pub const KEY_LEN: usize = 32;

/// The characters a salt may hold: letters, digits, `/`, `+`, `.` and `-`.
pub open spec fn salt_char(c: char) -> bool {
    ||| 'a' <= c <= 'z'
    ||| 'A' <= c <= 'Z'
    ||| '0' <= c <= '9'
    ||| c == '/'
    ||| c == '+'
    ||| c == '.'
    ||| c == '-'
}

/// A salt in its textual form: 4 to 64 characters of the salt alphabet.
pub open spec fn salt_well_formed(salt: Seq<char>) -> bool {
    &&& 4 <= salt.len() <= 64
    &&& forall|i: int| 0 <= i < salt.len() ==> salt_char(#[trigger] salt[i])
}

/// The vault key of a password under a salt: the salt must be well formed,
/// and its characters, as bytes, are what the derivation is salted with.
pub open spec fn derived_key(password: Seq<char>, salt: Seq<char>) -> Option<Seq<u8>> {
    if salt_well_formed(salt) {
        argon2_key(encode_utf8(password), encode_utf8(salt))
    } else {
        None
    }
}

/// The verification hash of a password under a salt.
pub open spec fn verification_hash(password: Seq<char>, salt: Seq<char>) -> Option<Seq<char>> {
    argon2_phc(encode_utf8(password), salt)
}

/// Whether a password is short enough to be hashed: at most 2^32 - 1 bytes.
pub open spec fn hashable(password: Seq<char>) -> bool {
    encode_utf8(password).len() <= 0xFFFF_FFFF
}

/// Whether every password that is short enough has a verification hash
/// under the salt.
pub open spec fn hashes_every_password(salt: Seq<char>) -> bool {
    forall|password: Seq<char>|
        hashable(password) ==> (#[trigger] verification_hash(password, salt)).is_some()
}

/// Whether a password passes the check against a verification hash.
pub open spec fn password_matches(password: Seq<char>, encoded_hash: Seq<char>) -> bool {
    argon2_accepts(encode_utf8(password), encoded_hash)
}

/// Whether the key of a password under a salt is there exactly when it is
/// owed: [`derived_key`] gives a key if and only if [`key_derivable`] holds.
/// Every derivation that was carried out settles this for its inputs.
pub open spec fn derivation_settled(password: Seq<char>, salt: Seq<char>) -> bool {
    derived_key(password, salt).is_some() <==> key_derivable(password, salt)
}

/// Calls `Argon2::default().hash_password_into` with a 32-byte output buffer.
///
/// Trusted: the output is a function of password and salt alone; the crate
/// refuses exactly a password or salt longer than 2^32 - 1 bytes and a salt
/// shorter than 8 bytes.
#[verifier::external_body]
fn argon2_hash_into(password: &[u8], salt: &[u8]) -> (key: Option<Vec<u8>>)
    ensures
        key.is_some() == (password@.len() <= 0xFFFF_FFFF && 8 <= salt@.len() <= 0xFFFF_FFFF),
        match key {
            Some(k) => k@.len() == 32 && argon2_key(password@, salt@) == Some(k@),
            None => argon2_key(password@, salt@).is_none(),
        },
{
    let mut out = [0u8; 32];
    match Argon2::default().hash_password_into(password, salt, &mut out) {
        Ok(()) => Some(out.to_vec()),
        Err(_) => None,
    }
}

/// Calls `SaltString::from_b64` and `PasswordHasher::hash_password` on
/// `Argon2::default()`, and renders the hash as a PHC string.
///
/// Trusted: the string is a function of password and salt alone, and the
/// crate's verification accepts the password for it. The crate gives no hash
/// for a salt that it does not take as text, nor for a password longer than
/// 2^32 - 1 bytes.
#[verifier::external_body]
fn argon2_hash_password(password: &[u8], salt: &str) -> (encoded: Option<String>)
    ensures
        encoded.is_some() ==> salt_well_formed(salt@) && password@.len() <= 0xFFFF_FFFF,
        match encoded {
            Some(h) => argon2_phc(password@, salt@) == Some(h@) && argon2_accepts(password@, h@),
            None => argon2_phc(password@, salt@).is_none(),
        },
{
    let salt = SaltString::from_b64(salt).ok()?;
    let hash = Argon2::default().hash_password(password, &salt).ok()?;
    Some(hash.to_string())
}

/// Calls `PasswordHash::new` and `PasswordVerifier::verify_password` on
/// `Argon2::default()`.
///
/// Trusted: the answer is a function of password and string alone; a string
/// that does not parse gives `false`.
#[verifier::external_body]
fn argon2_verify(password: &[u8], encoded: &str) -> (ok: bool)
    ensures
        ok == argon2_accepts(password@, encoded@),
{
    match PasswordHash::new(encoded) {
        Ok(parsed) => Argon2::default().verify_password(password, &parsed).is_ok(),
        Err(_) => false,
    }
}

/// Calls `SaltString::from_b64`.
///
/// Trusted: the crate takes the text exactly when it has 4 to 64 characters,
/// all of the salt alphabet.
#[verifier::external_body]
fn salt_parses(salt: &str) -> (ok: bool)
    ensures
        ok == salt_well_formed(salt@),
{
    SaltString::from_b64(salt).is_ok()
}

/// Calls `SaltString::generate` with the operating system's random source.
///
/// Trusted: the salt is the unpadded base64 text of 16 random bytes, that is
/// 22 characters of the salt alphabet. Nothing is said of which. A salt so
/// made decodes to its 16 bytes again, so that the crate hashes every
/// password of at most 2^32 - 1 bytes under it. The call stops the program
/// where the operating system gives no random bytes: a failure of the
/// machine, which no `requires` can leave out.
#[verifier::external_body]
fn random_salt() -> (salt: String)
    ensures
        salt@.len() == 22,
        forall|i: int| 0 <= i < 22 ==> salt_char(#[trigger] salt@[i]),
        forall|password: Seq<u8>|
            password.len() <= 0xFFFF_FFFF ==> (#[trigger] argon2_phc(password, salt@)).is_some(),
{
    SaltString::generate(&mut OsRng).as_str().to_string()
}

/// A salt of the salt alphabet takes one byte per character.
pub proof fn lemma_salt_bytes(salt: Seq<char>)
    requires
        salt_well_formed(salt),
    ensures
        encode_utf8(salt).len() == salt.len(),
{
    assert(is_ascii_chars(salt)) by {
        assert forall|i: int| 0 <= i < salt.len() implies '\0' <= #[trigger] salt[i] <= '\x7f' by {
            assert(salt_char(salt[i]));
        }
    }
    is_ascii_chars_encode_utf8(salt);
}

/// When a key is owed: the salt is well formed and has at least 8
/// characters, and the password is not longer than 2^32 - 1 bytes.
pub open spec fn key_derivable(password: Seq<char>, salt: Seq<char>) -> bool {
    &&& salt_well_formed(salt)
    &&& 8 <= salt.len()
    &&& encode_utf8(password).len() <= 0xFFFF_FFFF
}

/// Derives the 32-byte vault key of `password` under `salt`.
///
/// The result is a function of the two strings alone: the same password and
/// salt give the same key on every call.
pub fn derive_key(password: &str, salt: &str) -> (r: Result<Vec<u8>, VaultError>)
    ensures
        r.is_ok() == key_derivable(password@, salt@),
        derivation_settled(password@, salt@),
        match r {
            Ok(key) => derived_key(password@, salt@) == Some(key@) && key@.len() == KEY_LEN,
            Err(e) => e == VaultError::CryptoFailure && derived_key(password@, salt@).is_none(),
        },
{
    proof {
        if salt_well_formed(salt@) {
            lemma_salt_bytes(salt@);
        }
    }
    if !salt_parses(salt) {
        return Err(VaultError::CryptoFailure);
    }
    match argon2_hash_into(password.as_bytes(), salt.as_bytes()) {
        Some(key) => Ok(key),
        None => Err(VaultError::CryptoFailure),
    }
}

/// Hashes `password` under `salt` into the self-describing form that
/// [`verify`] reads. The hash of a password always accepts that password.
pub fn hash_for_verification(password: &str, salt: &str) -> (r: Result<String, VaultError>)
    ensures
        r.is_ok() ==> salt_well_formed(salt@) && hashable(password@),
        match r {
            Ok(encoded) => verification_hash(password@, salt@) == Some(encoded@)
                && password_matches(password@, encoded@),
            Err(e) => e == VaultError::CryptoFailure && verification_hash(password@, salt@).is_none(),
        },
{
    match argon2_hash_password(password.as_bytes(), salt) {
        Some(encoded) => Ok(encoded),
        None => Err(VaultError::CryptoFailure),
    }
}

/// Checks `password` against a verification hash. A malformed hash gives
/// `false`, like a wrong password.
pub fn verify(password: &str, encoded_hash: &str) -> (ok: bool)
    ensures
        ok == password_matches(password@, encoded_hash@),
{
    argon2_verify(password.as_bytes(), encoded_hash)
}

/// Draws a fresh salt: 22 characters of the salt alphabet, so that
/// [`derive_key`] and [`hash_for_verification`] take it with every password
/// of at most 2^32 - 1 bytes.
pub fn generate_salt() -> (salt: String)
    ensures
        salt_well_formed(salt@),
        salt@.len() == 22,
        hashes_every_password(salt@),
{
    let salt = random_salt();
    assert forall|password: Seq<char>| hashable(password) implies (#[trigger] verification_hash(
        password,
        salt@,
    )).is_some() by {
        assert(argon2_phc(encode_utf8(password), salt@).is_some());
    }
    salt
}

} // verus!
