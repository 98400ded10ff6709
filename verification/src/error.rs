//! Failure kinds reported by the vault operations.

use vstd::prelude::*;

verus! {

/// Why a vault operation failed.
///
/// Failures of the cryptographic primitives are never passed through: they are
/// folded into [`VaultError::CryptoFailure`], so that a wrong key cannot be told
/// apart from a tampered ciphertext.
#[derive(Clone, Copy, Debug, PartialEq, Eq, Structural)]
pub enum VaultError {
    /// A request argument is malformed: an empty password, a key that is not
    /// 32 bytes of base64, a bundle that does not follow the schema.
    InputValidation,
    /// No such user, entry, photo or duress credential.
    NotFound,
    /// The password or the one-time code is wrong.
    AuthFailure,
    /// An authenticated decryption or a key derivation failed.
    CryptoFailure,
    /// One-time-code login was asked for, but no recovery envelope is stored.
    RecoveryUnavailable,
    /// The recovery envelope does not open under the current one-time secret.
    RecoveryCorrupted,
    /// The store cannot take the row: a uniqueness rule or the id space.
    StorageFailure,
    /// The candidate duress password is the master password itself.
    DuressMatchesMaster,
    /// The system clock gave no usable time.
    ClockFailure,
}

} // verus!
