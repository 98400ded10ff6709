//! Authenticated encryption of single fields under the 32-byte vault key, with
//! a fresh 96-bit nonce for every sealing and no associated data.

use crate::codec::{base64_bytes, base64_decode, base64_encode, base64_text};
use crate::error::VaultError;
pub use crate::kdf::KEY_LEN;
use aes_gcm::aead::{Aead, AeadCore, KeyInit};
use aes_gcm::{Aes256Gcm, Key, Nonce};
use vstd::prelude::*;

verus! {

/// The ciphertext, tag included, that AES-256-GCM gives for a plaintext under
/// a 32-byte key and a 12-byte nonce, `None` where the aes-gcm crate refuses
/// the plaintext.
pub uninterp spec fn aes_gcm_sealed(key: Seq<u8>, nonce: Seq<u8>, plaintext: Seq<u8>) -> Option<
    Seq<u8>,
>;

/// The plaintext that AES-256-GCM gives back for a ciphertext under a 32-byte
/// key and a 12-byte nonce, `None` where the tag does not match.
pub uninterp spec fn aes_gcm_opened(key: Seq<u8>, nonce: Seq<u8>, ciphertext: Seq<u8>) -> Option<
    Seq<u8>,
>;

/// Length of a nonce in bytes.
pub const NONCE_LEN: usize = 12;

/// Length of the authentication tag that ends every ciphertext.
pub const TAG_LEN: usize = 16;

/// The longest plaintext that can be sealed, in bytes.
pub const MAX_PLAINTEXT_LEN: u64 = 0x10_0000_0000;

/// Sealing as a function: defined for a 32-byte key and a 12-byte nonce.
pub open spec fn sealed(key: Seq<u8>, nonce: Seq<u8>, plaintext: Seq<u8>) -> Option<Seq<u8>> {
    if key.len() == KEY_LEN && nonce.len() == NONCE_LEN {
        aes_gcm_sealed(key, nonce, plaintext)
    } else {
        None
    }
}

/// Opening as a function: `None` is the one failure there is, whether the key
/// is wrong, the ciphertext or the nonce was altered, or a length is off.
pub open spec fn opened(key: Seq<u8>, nonce: Seq<u8>, ciphertext: Seq<u8>) -> Option<Seq<u8>> {
    if key.len() == KEY_LEN && nonce.len() == NONCE_LEN {
        aes_gcm_opened(key, nonce, ciphertext)
    } else {
        None
    }
}

/// Whether `nonce` and `ciphertext` are a sealing of `plaintext` under `key`:
/// the ciphertext is what the cipher gives for the plaintext under key and
/// nonce, and the same key and nonce open it to the plaintext again.
pub open spec fn is_sealing(key: Seq<u8>, plaintext: Seq<u8>, nonce: Seq<u8>, ciphertext: Seq<u8>) -> bool {
    &&& nonce.len() == NONCE_LEN
    &&& sealed(key, nonce, plaintext) == Some(ciphertext)
    &&& opened(key, nonce, ciphertext) == Some(plaintext)
    &&& ciphertext.len() == plaintext.len() + TAG_LEN
}

/// What opening returns.
pub open spec fn open_result(key: Seq<u8>, nonce: Seq<u8>, ciphertext: Seq<u8>) -> Result<
    Seq<u8>,
    VaultError,
> {
    if key.len() != KEY_LEN {
        Err(VaultError::InputValidation)
    } else {
        match opened(key, nonce, ciphertext) {
            Some(plaintext) => Ok(plaintext),
            None => Err(VaultError::CryptoFailure),
        }
    }
}

/// Opening what was sealed gives the plaintext back: whatever nonce the
/// sealing drew, the key that sealed opens the ciphertext to the plaintext.
pub proof fn law_open_after_seal(key: Seq<u8>, plaintext: Seq<u8>, nonce: Seq<u8>, ciphertext: Seq<u8>)
    requires
        key.len() == KEY_LEN,
        is_sealing(key, plaintext, nonce, ciphertext),
    ensures
        open_result(key, nonce, ciphertext) == Ok::<Seq<u8>, VaultError>(plaintext),
{
}

/// The key that a caller hands over as text: base64 of exactly 32 bytes.
pub open spec fn key_of_text(text: Seq<char>) -> Option<Seq<u8>> {
    match base64_bytes(text) {
        Some(bytes) => if bytes.len() == KEY_LEN {
            Some(bytes)
        } else {
            None
        },
        None => None,
    }
}

/// Calls `Aead::encrypt` on `Aes256Gcm`, built from the key with
/// `KeyInit::new`.
///
/// Trusted: the ciphertext is a function of key, nonce and plaintext, it is 16
/// bytes longer than the plaintext, and the same key and nonce open it to the
/// plaintext again. The crate refuses exactly a plaintext longer than 2^36
/// bytes. `Key::from_slice` and `Nonce::from_slice` panic on other lengths,
/// which `requires` leaves out.
#[verifier::external_body]
fn aes_gcm_encrypt(key: &[u8], nonce: &[u8], plaintext: &[u8]) -> (ciphertext: Option<Vec<u8>>)
    requires
        key@.len() == 32,
        nonce@.len() == 12,
    ensures
        ciphertext.is_some() == (plaintext@.len() <= 0x10_0000_0000),
        match ciphertext {
            Some(c) => {
                &&& aes_gcm_sealed(key@, nonce@, plaintext@) == Some(c@)
                &&& aes_gcm_opened(key@, nonce@, c@) == Some(plaintext@)
                &&& c@.len() == plaintext@.len() + 16
            },
            None => aes_gcm_sealed(key@, nonce@, plaintext@).is_none(),
        },
{
    let cipher = Aes256Gcm::new(Key::<Aes256Gcm>::from_slice(key));
    match cipher.encrypt(Nonce::from_slice(nonce), plaintext) {
        Ok(c) => Some(c),
        Err(_) => None,
    }
}

/// Calls `Aead::decrypt` on `Aes256Gcm`, built from the key with
/// `KeyInit::new`.
///
/// Trusted: the outcome is a function of key, nonce and ciphertext, and a
/// plaintext that comes back is 16 bytes shorter than the ciphertext.
#[verifier::external_body]
fn aes_gcm_decrypt(key: &[u8], nonce: &[u8], ciphertext: &[u8]) -> (plaintext: Option<Vec<u8>>)
    requires
        key@.len() == 32,
        nonce@.len() == 12,
    ensures
        match plaintext {
            Some(p) => aes_gcm_opened(key@, nonce@, ciphertext@) == Some(p@) && ciphertext@.len()
                == p@.len() + 16,
            None => aes_gcm_opened(key@, nonce@, ciphertext@).is_none(),
        },
{
    let cipher = Aes256Gcm::new(Key::<Aes256Gcm>::from_slice(key));
    match cipher.decrypt(Nonce::from_slice(nonce), ciphertext) {
        Ok(p) => Some(p),
        Err(_) => None,
    }
}

/// Calls `AeadCore::generate_nonce` for `Aes256Gcm` with `rand::thread_rng`.
///
/// Trusted: the nonce has 12 bytes. Nothing is said of which. The call
/// stops the program where the operating system gives no random bytes: a
/// failure of the machine, which no `requires` can leave out.
#[verifier::external_body]
fn random_nonce() -> (nonce: Vec<u8>)
    ensures
        nonce@.len() == 12,
{
    Aes256Gcm::generate_nonce(&mut rand::thread_rng()).to_vec()
}

/// Seals `plaintext` under `key` with the nonce given.
///
/// Fails with `InputValidation` for a key that is not 32 bytes long, and with
/// `CryptoFailure` for a nonce that is not 12 bytes long or a plaintext
/// beyond [`MAX_PLAINTEXT_LEN`].
pub fn seal_with_nonce(key: &[u8], nonce: &[u8], plaintext: &[u8]) -> (r: Result<
    Vec<u8>,
    VaultError,
>)
    ensures
        r.is_ok() == (key@.len() == KEY_LEN && nonce@.len() == NONCE_LEN && plaintext@.len()
            <= MAX_PLAINTEXT_LEN),
        match r {
            Ok(c) => {
                &&& sealed(key@, nonce@, plaintext@) == Some(c@)
                &&& opened(key@, nonce@, c@) == Some(plaintext@)
                &&& c@.len() == plaintext@.len() + TAG_LEN
            },
            Err(e) => {
                &&& sealed(key@, nonce@, plaintext@).is_none()
                &&& e == if key@.len() == KEY_LEN {
                    VaultError::CryptoFailure
                } else {
                    VaultError::InputValidation
                }
            },
        },
{
    if key.len() != KEY_LEN {
        return Err(VaultError::InputValidation);
    }
    if nonce.len() != NONCE_LEN {
        return Err(VaultError::CryptoFailure);
    }
    match aes_gcm_encrypt(key, nonce, plaintext) {
        Some(c) => Ok(c),
        None => Err(VaultError::CryptoFailure),
    }
}

/// Seals `plaintext` under `key` with a fresh random nonce, and returns the
/// nonce and the ciphertext. Opening the ciphertext with the same key and
/// that nonce gives the plaintext back.
pub fn seal(key: &[u8], plaintext: &[u8]) -> (r: Result<(Vec<u8>, Vec<u8>), VaultError>)
    ensures
        r.is_ok() == (key@.len() == KEY_LEN && plaintext@.len() <= MAX_PLAINTEXT_LEN),
        match r {
            Ok((nonce, c)) => is_sealing(key@, plaintext@, nonce@, c@),
            Err(e) => e == if key@.len() == KEY_LEN {
                VaultError::CryptoFailure
            } else {
                VaultError::InputValidation
            },
        },
{
    let nonce = random_nonce();
    match seal_with_nonce(key, nonce.as_slice(), plaintext) {
        Ok(c) => Ok((nonce, c)),
        Err(e) => Err(e),
    }
}

/// Opens `ciphertext` with `key` and `nonce`.
///
/// Fails with `InputValidation` for a key that is not 32 bytes long, and with
/// `CryptoFailure` in every other case: a wrong key, an altered ciphertext or
/// nonce, a nonce of another length. The caller cannot tell these apart.
pub fn open(key: &[u8], nonce: &[u8], ciphertext: &[u8]) -> (r: Result<Vec<u8>, VaultError>)
    ensures
        match r {
            Ok(p) => open_result(key@, nonce@, ciphertext@) == Ok::<Seq<u8>, VaultError>(p@),
            Err(e) => open_result(key@, nonce@, ciphertext@) == Err::<Seq<u8>, VaultError>(e),
        },
{
    if key.len() != KEY_LEN {
        return Err(VaultError::InputValidation);
    }
    if nonce.len() != NONCE_LEN {
        return Err(VaultError::CryptoFailure);
    }
    match aes_gcm_decrypt(key, nonce, ciphertext) {
        Some(p) => Ok(p),
        None => Err(VaultError::CryptoFailure),
    }
}

/// Reads a key that the caller hands over as base64 text. Text that is not
/// base64, or not of 32 bytes, is `InputValidation`.
pub fn decode_key(enc_key: &str) -> (r: Result<Vec<u8>, VaultError>)
    ensures
        match r {
            Ok(key) => key_of_text(enc_key@) == Some(key@) && key@.len() == KEY_LEN,
            Err(e) => e == VaultError::InputValidation && key_of_text(enc_key@).is_none(),
        },
{
    match base64_decode(enc_key) {
        Some(bytes) => {
            if bytes.len() == KEY_LEN {
                Ok(bytes)
            } else {
                Err(VaultError::InputValidation)
            }
        },
        None => Err(VaultError::InputValidation),
    }
}

/// Writes a key as the base64 text that [`decode_key`] reads back.
pub fn encode_key(key: &[u8]) -> (text: String)
    requires
        key@.len() == KEY_LEN,
    ensures
        text@ == base64_text(key@),
        key_of_text(text@) == Some(key@),
{
    base64_encode(key)
}

} // verus!
