//! Recovery of the vault key through a one-time code: the key is kept sealed
//! under a key derived from the user's one-time secret, and a valid code
//! opens that envelope in place of the master password.

use crate::accounts::{find_user, find_user_named};
use crate::activity_logger::log_activity;
use crate::cipher::{encode_key, open, opened, seal, sealed, KEY_LEN, NONCE_LEN};
use crate::codec::base64_text;
use crate::error::VaultError;
use crate::kdf::{
    derivation_settled, derive_key, derived_key, generate_salt, password_matches,
    salt_well_formed, verify,
};
use crate::otp::{clock_seconds, verify_otp_at};
use crate::password_manager::session_result;
use crate::store::{models, EnvelopeModel, RecoveryEnvelope, Store, StoreModel, User, UserModel};
use crate::table::first_owned;
use vstd::prelude::*;
use vstd::string::StringExecFns;
use vstd::utf8::*;

verus! {

/// Whether an envelope wraps `vault_key` for the one-time secret `secret`:
/// the vault key has 32 bytes, the envelope's salt is fresh, and the key
/// derived from secret and salt opens its ciphertext to the vault key.
pub open spec fn wraps_key(envelope: EnvelopeModel, secret: Seq<char>, vault_key: Seq<u8>) -> bool {
    &&& vault_key.len() == KEY_LEN
    &&& salt_well_formed(envelope.salt)
    &&& envelope.salt.len() == 22
    &&& envelope.nonce.len() == NONCE_LEN
    &&& derived_key(secret, envelope.salt) matches Some(wrapping_key)
    &&& sealed(wrapping_key, envelope.nonce, vault_key) == Some(envelope.encrypted_key)
    &&& opened(wrapping_key, envelope.nonce, envelope.encrypted_key) == Some(vault_key)
}

/// The vault key that an envelope gives up to the one-time secret `secret`.
/// An envelope is corrupted where it does not give up a key of 32 bytes:
/// where no wrapping key can be derived from its salt, where its ciphertext
/// does not open under that key and its nonce, or where it opens to
/// something that is no key.
pub open spec fn unwrapped(envelope: EnvelopeModel, secret: Seq<char>) -> Result<Seq<u8>, VaultError> {
    match derived_key(secret, envelope.salt) {
        None => Err(VaultError::RecoveryCorrupted),
        Some(wrapping_key) => match opened(wrapping_key, envelope.nonce, envelope.encrypted_key) {
            Some(key) => if key.len() == KEY_LEN {
                Ok(key)
            } else {
                Err(VaultError::RecoveryCorrupted)
            },
            None => Err(VaultError::RecoveryCorrupted),
        },
    }
}

impl StoreModel {
    /// What setting recovery up returns.
    pub open spec fn setup_otp_recovery_result(self, user_id: int, password: Seq<char>) -> Result<
        (),
        VaultError,
    > {
        match self.user_by_id(user_id) {
            None => Err(VaultError::NotFound),
            Some(user) => if !password_matches(password, user.hash) {
                Err(VaultError::AuthFailure)
            } else if derived_key(password, user.salt).is_none() {
                Err(VaultError::CryptoFailure)
            } else {
                match user.otp_secret {
                    None => Err(VaultError::NotFound),
                    Some(secret) => if encode_utf8(secret).len() <= 0xFFFF_FFFF {
                        Ok(())
                    } else {
                        Err(VaultError::CryptoFailure)
                    },
                }
            },
        }
    }

    /// The store after setting recovery up with the envelope `envelope`.
    pub open spec fn setup_otp_recovery_state(
        self,
        user_id: int,
        password: Seq<char>,
        envelope: EnvelopeModel,
        stamp: Seq<char>,
    ) -> StoreModel {
        if self.setup_otp_recovery_result(user_id, password).is_ok() {
            let at = first_owned::<User>(self.users, user_id).unwrap();
            StoreModel {
                users: self.users.update(at, UserModel { recovery: Some(envelope), ..self.users[at] }),
                ..self
            }.with_log(
                user_id,
                "otp_recovery_setup"@,
                "OTP recovery key configured for user: "@ + self.users[at].username,
                stamp,
            )
        } else {
            self
        }
    }

    /// Whether the user has a recovery envelope. An unknown user has none.
    pub open spec fn has_otp_recovery(self, username: Seq<char>) -> bool {
        match self.user_named(username) {
            Some(user) => user.recovery.is_some(),
            None => false,
        }
    }

    /// What a login with a one-time code at the second `now` returns.
    pub open spec fn login_with_otp_result(self, username: Seq<char>, code: Seq<char>, now: int) -> Result<
        (int, Seq<char>, bool),
        VaultError,
    > {
        match self.verify_otp_result(username, code, now) {
            Err(e) => Err(e),
            Ok(false) => Err(VaultError::AuthFailure),
            Ok(true) => {
                let user = self.user_named(username).unwrap();
                match user.recovery {
                    None => Err(VaultError::RecoveryUnavailable),
                    Some(envelope) => match unwrapped(envelope, user.otp_secret.unwrap()) {
                        Err(e) => Err(e),
                        Ok(key) => if self.can_log() {
                            Ok((user.id, base64_text(key), false))
                        } else {
                            Err(VaultError::StorageFailure)
                        },
                    },
                }
            },
        }
    }

    /// Whether a login with a one-time code gets as far as the vault key.
    pub open spec fn otp_unwraps(self, username: Seq<char>, code: Seq<char>, now: int) -> bool {
        &&& self.verify_otp_result(username, code, now) == Ok::<bool, VaultError>(true)
        &&& self.user_named(username).unwrap().recovery matches Some(envelope)
        &&& unwrapped(envelope, self.user_named(username).unwrap().otp_secret.unwrap()).is_ok()
    }

    /// The store after a login with a one-time code: a login that got the
    /// vault key leaves an event.
    pub open spec fn login_with_otp_state(
        self,
        username: Seq<char>,
        code: Seq<char>,
        now: int,
        stamp: Seq<char>,
    ) -> StoreModel {
        if self.otp_unwraps(username, code, now) {
            self.with_log(
                self.user_named(username).unwrap().id,
                "login"@,
                "Successful login via OTP for user: "@ + username,
                stamp,
            )
        } else {
            self
        }
    }
}

/// What a login with a one-time code guarantees: the outcome and the store
/// afterwards are those of the model, and the key text of a session reads
/// back as the key that the envelope gave up.
pub open spec fn login_with_otp_contract(
    before: StoreModel,
    after: StoreModel,
    username: Seq<char>,
    code: Seq<char>,
    now: int,
    r: Result<(int, Seq<char>, bool), VaultError>,
) -> bool {
    &&& r == before.login_with_otp_result(username, code, now)
    &&& after == before.login_with_otp_state(username, code, now, after.log_stamp())
    &&& r matches Ok((_, key_text, _)) ==> {
        let user = before.user_named(username).unwrap();
        Ok::<Seq<u8>, VaultError>(crate::cipher::key_of_text(key_text).unwrap()) == unwrapped(
            user.recovery.unwrap(),
            user.otp_secret.unwrap(),
        ) && crate::cipher::key_of_text(key_text).is_some()
    }
    &&& before.verify_otp_result(username, code, now) == Ok::<bool, VaultError>(true) ==> {
        let user = before.user_named(username).unwrap();
        user.recovery matches Some(envelope) ==> derivation_settled(
            user.otp_secret.unwrap(),
            envelope.salt,
        )
    }
}

/// Sets recovery up for `user_id`: checks the master password, derives the
/// vault key from it, and stores that key sealed under a key derived from the
/// user's one-time secret and a fresh salt.
///
/// A wrong password is `AuthFailure`; a user without a one-time secret is
/// `NotFound`: recovery cannot be set up before the secret exists. An
/// accepted password fails for want of the vault key, with `CryptoFailure`,
/// exactly where the user's salt is not well formed or shorter than 8
/// characters, or the password longer than 2^32 - 1 bytes.
pub fn setup_otp_recovery(store: &mut Store, user_id: i64, master_pass: String) -> (r: Result<
    (),
    VaultError,
>)
    ensures
        r == old(store)@.setup_otp_recovery_result(user_id as int, master_pass@),
        r.is_ok() ==> {
            let at = first_owned::<User>(old(store)@.users, user_id as int).unwrap();
            &&& 0 <= at < final(store)@.users.len()
            &&& final(store)@.users[at].recovery matches Some(envelope)
            &&& final(store)@ == old(store)@.setup_otp_recovery_state(
                user_id as int,
                master_pass@,
                envelope,
                final(store)@.log_stamp(),
            )
            &&& wraps_key(
                envelope,
                old(store)@.users[at].otp_secret.unwrap(),
                derived_key(master_pass@, old(store)@.users[at].salt).unwrap(),
            )
        },
        r.is_err() ==> final(store)@ == old(store)@,
        old(store)@.user_by_id(user_id as int) matches Some(user) ==> (password_matches(
            master_pass@,
            user.hash,
        ) ==> derivation_settled(master_pass@, user.salt)),
{
    let at = match find_user(store, user_id) {
        Some(at) => at,
        None => {
            return Err(VaultError::NotFound);
        },
    };
    if !verify(master_pass.as_str(), store.users[at].hash.as_str()) {
        return Err(VaultError::AuthFailure);
    }
    let vault_key = match derive_key(master_pass.as_str(), store.users[at].salt.as_str()) {
        Ok(key) => key,
        Err(e) => {
            return Err(e);
        },
    };
    let salt = generate_salt();
    let wrapping_key = match &store.users[at].otp_secret {
        None => {
            return Err(VaultError::NotFound);
        },
        Some(secret) => match derive_key(secret.as_str(), salt.as_str()) {
            Ok(key) => key,
            Err(e) => {
                return Err(e);
            },
        },
    };
    let (nonce, encrypted_key) = match seal(wrapping_key.as_slice(), vault_key.as_slice()) {
        Ok(pair) => pair,
        Err(_) => {
            return Err(VaultError::CryptoFailure);
        },
    };
    let details = {
        let mut text = "OTP recovery key configured for user: ".to_owned();
        text.append(store.users[at].username.as_str());
        text
    };
    let envelope = RecoveryEnvelope { encrypted_key, nonce, salt };
    let ghost before = store.users@;
    let mut user = store.users.remove(at);
    user.recovery = Some(envelope);
    store.users.insert(at, user);
    proof {
        assert(store.users@ =~= before.update(at as int, user));
        assert(models(before.update(at as int, user)) =~= models(before).update(at as int, user@));
    }
    let _ = log_activity(store, user_id, "otp_recovery_setup", details.as_str());
    Ok(())
}

/// Whether recovery is set up for the user. An unknown user has none.
pub fn has_otp_recovery(store: &Store, username: String) -> (has: bool)
    ensures
        has == store@.has_otp_recovery(username@),
{
    match find_user_named(store, username.as_str()) {
        Some(at) => store.users[at].recovery.is_some(),
        None => false,
    }
}

/// Logs a user in with a one-time code, checked against the clock reading
/// `now`: a valid code opens the recovery envelope and hands back the vault
/// key. Such a login is never a duress login.
///
/// A wrong code is `AuthFailure`. A valid code for a user without an envelope
/// is `RecoveryUnavailable`; an envelope that does not open under the
/// user's current secret, whether its ciphertext, its nonce or its salt was
/// altered, or that opens to something that is no key, is
/// `RecoveryCorrupted`. No key is handed back then and no event is left.
pub fn login_with_otp_at(store: &mut Store, username: String, otp_code: String, now: u64) -> (r:
    Result<(i64, String, bool), VaultError>)
    ensures
        login_with_otp_contract(
            old(store)@,
            final(store)@,
            username@,
            otp_code@,
            now as int,
            session_result(r),
        ),
{
    match verify_otp_at(store, username.as_str(), otp_code.as_str(), now) {
        Err(e) => {
            return Err(e);
        },
        Ok(false) => {
            return Err(VaultError::AuthFailure);
        },
        Ok(true) => {},
    }
    let at = match find_user_named(store, username.as_str()) {
        Some(at) => at,
        None => {
            return Err(VaultError::NotFound);
        },
    };
    let user = &store.users[at];
    let id = user.id;
    let secret = match &user.otp_secret {
        Some(secret) => secret,
        None => {
            return Err(VaultError::NotFound);
        },
    };
    let envelope = match &user.recovery {
        Some(envelope) => envelope,
        None => {
            return Err(VaultError::RecoveryUnavailable);
        },
    };
    let wrapping_key = match derive_key(secret.as_str(), envelope.salt.as_str()) {
        Ok(key) => key,
        Err(_) => {
            return Err(VaultError::RecoveryCorrupted);
        },
    };
    let key = match open(
        wrapping_key.as_slice(),
        envelope.nonce.as_slice(),
        envelope.encrypted_key.as_slice(),
    ) {
        Ok(key) => key,
        Err(_) => {
            return Err(VaultError::RecoveryCorrupted);
        },
    };
    if key.len() != KEY_LEN {
        return Err(VaultError::RecoveryCorrupted);
    }
    let details = {
        let mut text = "Successful login via OTP for user: ".to_owned();
        text.append(username.as_str());
        text
    };
    match log_activity(store, id, "login", details.as_str()) {
        Ok(()) => Ok((id, encode_key(key.as_slice()), false)),
        Err(e) => Err(e),
    }
}

/// Logs a user in with a one-time code, checked against the current time.
///
/// The outcome is that of [`login_with_otp_at`] for the reading of the clock.
pub fn login_with_otp(store: &mut Store, username: String, otp_code: String) -> (r: Result<
    (i64, String, bool),
    VaultError,
>)
    ensures
        exists|now: int|
            #[trigger] login_with_otp_contract(
                old(store)@,
                final(store)@,
                username@,
                otp_code@,
                now,
                session_result(r),
            ),
{
    let now: u64 = match clock_seconds() {
        Some(now) => now,
        None => 0,
    };
    login_with_otp_at(store, username, otp_code, now)
}

} // verus!
