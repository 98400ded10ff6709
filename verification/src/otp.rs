//! Time-based one-time codes: the per-user secret, and the check of a code
//! against it. Codes have 6 digits, a step lasts 30 seconds, and a code of
//! the step before or after the current one is accepted too.

use crate::accounts::{find_user_named, first_named};
use crate::clock::read_clock;
use crate::codec::{base32_bytes, base32_decode, base32_encode, base32_text};
use crate::error::VaultError;
use crate::store::{models, Store, StoreModel, UserModel};
use rand::Rng;
use totp_rs::{Algorithm, TOTP};
use vstd::prelude::*;
use vstd::string::StringExecFns;

verus! {

/// The code of `digits` digits that the totp-rs crate generates from a
/// secret with HMAC-SHA1 for the time step numbered `step`.
pub uninterp spec fn totp_code(secret: Seq<u8>, digits: int, step: int) -> Seq<char>;

/// Digits in a code.
pub const DIGITS: usize = 6;

/// Seconds in a time step.
pub const STEP_SECONDS: u64 = 30;

/// How many steps before and after the current one a code may come from.
pub const SKEW: u8 = 1;

/// The shortest secret, in bytes, that codes are made from.
pub const MIN_SECRET_LEN: usize = 16;

/// Length, in bytes, of a secret that the library generates.
pub const SECRET_LEN: usize = 20;

/// The time step that the second `time` falls into.
pub open spec fn step_of(time: int) -> int {
    time / (STEP_SECONDS as int)
}

/// Whether `code` is the code of the current step, or of the step before or
/// after it.
pub open spec fn totp_accepts(secret: Seq<u8>, code: Seq<char>, time: int) -> bool {
    ||| code == totp_code(secret, DIGITS as int, step_of(time) - 1)
    ||| code == totp_code(secret, DIGITS as int, step_of(time))
    ||| code == totp_code(secret, DIGITS as int, step_of(time) + 1)
}

/// Whether a clock reading can be checked against: the step before and the
/// step after must exist.
pub open spec fn usable_time(time: int) -> bool {
    STEP_SECONDS <= time <= u64::MAX - STEP_SECONDS
}

/// Whether a step lies in the window of `skew` steps around the current
/// one.
pub open spec fn in_window(step: int, current: int, skew: int) -> bool {
    current - skew <= step <= current + skew
}

/// Calls `TOTP::new(Algorithm::SHA1, digits, skew, step, secret)` and
/// `TOTP::check`.
///
/// Trusted: the crate compares the code with the codes it generates for the
/// steps from `skew` before the current one to `skew` after it. It refuses a
/// secret shorter than 16 bytes and a number of digits other than 6, 7 or 8,
/// it divides by `step`, and its step arithmetic overflows where the first
/// step of the window lies before step 0 or the last begins beyond the
/// range of `u64`: `requires` leaves these out.
#[verifier::external_body]
fn totp_check(
    secret: Vec<u8>,
    digits: usize,
    skew: u8,
    step: u64,
    code: &str,
    time: u64,
) -> (accepted: bool)
    requires
        secret@.len() >= 16,
        6 <= digits <= 8,
        step > 0,
        time / step >= skew,
        (time / step + skew) * step <= u64::MAX,
    ensures
        accepted == (exists|counter: int|
            in_window(counter, time as int / step as int, skew as int) && code@
                == #[trigger] totp_code(secret@, digits as int, counter)),
{
    match TOTP::new(Algorithm::SHA1, digits, skew, step, secret) {
        Ok(totp) => totp.check(code, time),
        Err(_) => false,
    }
}

/// Calls `Rng::gen::<[u8; 20]>` on `rand::thread_rng()`.
///
/// Trusted: 20 bytes come back. Nothing is said of which. The call stops
/// the program where the operating system gives no random bytes: a failure
/// of the machine, which no `requires` can leave out.
#[verifier::external_body]
fn random_secret() -> (secret: Vec<u8>)
    ensures
        secret@.len() == 20,
{
    rand::thread_rng().gen::<[u8; 20]>().to_vec()
}

/// The bytes of a stored secret that codes can be made from: the text must
/// be base32 and hold at least 16 bytes.
pub open spec fn secret_bytes(secret: Seq<char>) -> Option<Seq<u8>> {
    match base32_bytes(secret) {
        Some(bytes) => if bytes.len() >= MIN_SECRET_LEN {
            Some(bytes)
        } else {
            None
        },
        None => None,
    }
}

/// The provisioning address of a secret for an authenticator application.
pub open spec fn provisioning_uri(username: Seq<char>, secret: Seq<char>) -> Seq<char> {
    "otpauth://totp/PasswordManager:"@ + username + "?secret="@ + secret
        + "&issuer=PasswordManager&algorithm=SHA1&digits=6&period=30"@
}

/// A secret and its provisioning address, as the contracts see them.
pub open spec fn secret_result(r: Result<(String, String), VaultError>) -> Result<
    (Seq<char>, Seq<char>),
    VaultError,
> {
    match r {
        Ok((secret, uri)) => Ok((secret@, uri@)),
        Err(e) => Err(e),
    }
}

impl StoreModel {
    /// The store in which the user at `at` has the one-time secret `secret`.
    pub open spec fn with_otp_secret(self, at: int, secret: Seq<char>) -> StoreModel {
        StoreModel {
            users: self.users.update(at, UserModel { otp_secret: Some(secret), ..self.users[at] }),
            ..self
        }
    }

    /// The store in which the user at `at` has the one-time secret `secret`
    /// and no recovery envelope.
    pub open spec fn with_otp_reset(self, at: int, secret: Seq<char>) -> StoreModel {
        StoreModel {
            users: self.users.update(
                at,
                UserModel { otp_secret: Some(secret), recovery: None, ..self.users[at] },
            ),
            ..self
        }
    }

    /// What asking for a user's one-time secret returns, where `fresh` is the
    /// secret that is drawn when the user has none.
    pub open spec fn generate_otp_secret_result(self, username: Seq<char>, fresh: Seq<char>) -> Result<
        (Seq<char>, Seq<char>),
        VaultError,
    > {
        match self.user_named(username) {
            None => Err(VaultError::NotFound),
            Some(user) => match user.otp_secret {
                Some(secret) => if secret_bytes(secret).is_some() {
                    Ok((secret, provisioning_uri(username, secret)))
                } else {
                    Err(VaultError::StorageFailure)
                },
                None => Ok((fresh, provisioning_uri(username, fresh))),
            },
        }
    }

    /// The store after asking for a user's one-time secret: a user without a
    /// secret gets `fresh`, nothing else changes.
    pub open spec fn generate_otp_secret_state(self, username: Seq<char>, fresh: Seq<char>) -> StoreModel {
        match first_named(self.users, username) {
            Some(at) => if self.users[at].otp_secret.is_none() {
                self.with_otp_secret(at, fresh)
            } else {
                self
            },
            None => self,
        }
    }

    /// What resetting a user's one-time secret returns.
    pub open spec fn reset_otp_secret_result(self, username: Seq<char>, fresh: Seq<char>) -> Result<
        (Seq<char>, Seq<char>),
        VaultError,
    > {
        match self.user_named(username) {
            None => Err(VaultError::NotFound),
            Some(user) => Ok((fresh, provisioning_uri(username, fresh))),
        }
    }

    /// The store after resetting a user's one-time secret: the secret is
    /// `fresh` and the recovery envelope is gone, both at once.
    pub open spec fn reset_otp_secret_state(self, username: Seq<char>, fresh: Seq<char>) -> StoreModel {
        match first_named(self.users, username) {
            Some(at) => self.with_otp_reset(at, fresh),
            None => self,
        }
    }

    /// What checking a code at the second `now` returns.
    pub open spec fn verify_otp_result(self, username: Seq<char>, code: Seq<char>, now: int) -> Result<
        bool,
        VaultError,
    > {
        match self.user_named(username) {
            None => Err(VaultError::NotFound),
            Some(user) => match user.otp_secret {
                None => Err(VaultError::NotFound),
                Some(secret) => match secret_bytes(secret) {
                    None => Err(VaultError::StorageFailure),
                    Some(bytes) => if usable_time(now) {
                        Ok(totp_accepts(bytes, code, now))
                    } else {
                        Err(VaultError::ClockFailure)
                    },
                },
            },
        }
    }

    /// Whether the user has a one-time secret.
    pub open spec fn has_otp_secret(self, username: Seq<char>) -> bool {
        match self.user_named(username) {
            Some(user) => user.otp_secret.is_some(),
            None => false,
        }
    }
}

/// Whether `secret` is the text of a freshly drawn secret: the base32 text of
/// 20 bytes, which decodes to them again.
pub open spec fn is_fresh_secret(secret: Seq<char>) -> bool {
    exists|bytes: Seq<u8>|
        bytes.len() == SECRET_LEN && secret == #[trigger] base32_text(bytes) && base32_bytes(secret)
            == Some(bytes)
}

/// Draws a secret of 20 random bytes and returns its base32 text.
pub fn fresh_secret() -> (secret: String)
    ensures
        is_fresh_secret(secret@),
        secret_bytes(secret@).is_some(),
{
    let bytes = random_secret();
    let secret = base32_encode(bytes.as_slice());
    assert(secret@ == base32_text(bytes@));
    secret
}

/// Builds the provisioning address of a secret.
fn provisioning(username: &str, secret: &str) -> (uri: String)
    ensures
        uri@ == provisioning_uri(username@, secret@),
{
    let mut uri = "otpauth://totp/PasswordManager:".to_owned();
    uri.append(username);
    uri.append("?secret=");
    uri.append(secret);
    uri.append("&issuer=PasswordManager&algorithm=SHA1&digits=6&period=30");
    uri
}

/// Reads a stored secret into the bytes that codes are made from.
pub fn decode_secret(secret: &str) -> (r: Result<Vec<u8>, VaultError>)
    ensures
        match r {
            Ok(bytes) => secret_bytes(secret@) == Some(bytes@) && bytes@.len() >= MIN_SECRET_LEN,
            Err(e) => e == VaultError::StorageFailure && secret_bytes(secret@).is_none(),
        },
{
    match base32_decode(secret) {
        Some(bytes) => {
            if bytes.len() >= MIN_SECRET_LEN {
                Ok(bytes)
            } else {
                Err(VaultError::StorageFailure)
            }
        },
        None => Err(VaultError::StorageFailure),
    }
}

/// Stores a one-time secret with the user at `at`, and drops the recovery
/// envelope where `reset` is set.
fn store_secret(store: &mut Store, at: usize, secret: String, reset: bool)
    requires
        at < old(store).users@.len(),
    ensures
        final(store)@ == if reset {
            old(store)@.with_otp_reset(at as int, secret@)
        } else {
            old(store)@.with_otp_secret(at as int, secret@)
        },
{
    let ghost before = store.users@;
    let mut user = store.users.remove(at);
    user.otp_secret = Some(secret);
    if reset {
        user.recovery = None;
    }
    store.users.insert(at, user);
    proof {
        assert(store.users@ =~= before.update(at as int, user));
        assert(models(before.update(at as int, user)) =~= models(before).update(at as int, user@));
    }
}

/// The secret that a call handed back, and the empty text for a failed call.
pub open spec fn returned_secret(r: Result<(String, String), VaultError>) -> Seq<char> {
    match r {
        Ok((secret, _)) => secret@,
        Err(_) => Seq::empty(),
    }
}

/// Returns the user's one-time secret with its provisioning address, and
/// draws and stores a secret where the user has none. A user who has a
/// secret keeps it: asking again gives the same secret and changes nothing.
pub fn generate_otp_secret(store: &mut Store, username: String) -> (r: Result<
    (String, String),
    VaultError,
>)
    ensures
        secret_result(r) == old(store)@.generate_otp_secret_result(username@, returned_secret(r)),
        final(store)@ == old(store)@.generate_otp_secret_state(username@, returned_secret(r)),
        r.is_ok() && !old(store)@.has_otp_secret(username@) ==> is_fresh_secret(returned_secret(r)),
{
    let at = match find_user_named(store, username.as_str()) {
        Some(at) => at,
        None => {
            return Err(VaultError::NotFound);
        },
    };
    let existing: Option<String> = match &store.users[at].otp_secret {
        Some(secret) => Some(secret.clone()),
        None => None,
    };
    match existing {
        Some(secret) => {
            match decode_secret(secret.as_str()) {
                Ok(_) => {
                    let uri = provisioning(username.as_str(), secret.as_str());
                    Ok((secret, uri))
                },
                Err(e) => Err(e),
            }
        },
        None => {
            let secret = fresh_secret();
            let uri = provisioning(username.as_str(), secret.as_str());
            store_secret(store, at, secret.clone(), false);
            Ok((secret, uri))
        },
    }
}

/// Replaces the user's one-time secret by a fresh one and drops the recovery
/// envelope in the same step: no state in which one is cleared and the other
/// still there is ever stored.
pub fn reset_otp_secret(store: &mut Store, username: String) -> (r: Result<
    (String, String),
    VaultError,
>)
    ensures
        secret_result(r) == old(store)@.reset_otp_secret_result(username@, returned_secret(r)),
        final(store)@ == old(store)@.reset_otp_secret_state(username@, returned_secret(r)),
        r.is_ok() ==> is_fresh_secret(returned_secret(r)),
{
    let at = match find_user_named(store, username.as_str()) {
        Some(at) => at,
        None => {
            return Err(VaultError::NotFound);
        },
    };
    let secret = fresh_secret();
    let uri = provisioning(username.as_str(), secret.as_str());
    store_secret(store, at, secret.clone(), true);
    Ok((secret, uri))
}

/// Checks a one-time code of a user against the clock reading `now`, in
/// seconds since the epoch.
///
/// The code is accepted when it is the code of the step that `now` falls
/// into, or of the step before or after it. A user without a secret is
/// `NotFound`; a reading in the first or last 30 seconds of the clock's range
/// is `ClockFailure`.
pub fn verify_otp_at(store: &Store, username: &str, otp_code: &str, now: u64) -> (r: Result<
    bool,
    VaultError,
>)
    ensures
        r == store@.verify_otp_result(username@, otp_code@, now as int),
{
    let at = match find_user_named(store, username) {
        Some(at) => at,
        None => {
            return Err(VaultError::NotFound);
        },
    };
    let bytes = match &store.users[at].otp_secret {
        None => {
            return Err(VaultError::NotFound);
        },
        Some(secret) => match decode_secret(secret.as_str()) {
            Ok(bytes) => bytes,
            Err(e) => {
                return Err(e);
            },
        },
    };
    if now < STEP_SECONDS || now > u64::MAX - STEP_SECONDS {
        return Err(VaultError::ClockFailure);
    }
    let ghost secret = bytes@;
    let accepted = totp_check(bytes, DIGITS, SKEW, STEP_SECONDS, otp_code, now);
    proof {
        let step = step_of(now as int);
        if totp_accepts(secret, otp_code@, now as int) {
            let counter = if otp_code@ == totp_code(secret, DIGITS as int, step - 1) {
                step - 1
            } else if otp_code@ == totp_code(secret, DIGITS as int, step) {
                step
            } else {
                step + 1
            };
            assert(otp_code@ == totp_code(secret, DIGITS as int, counter));
        }
    }
    Ok(accepted)
}

/// Reads the clock for the check of a one-time code: seconds since the
/// epoch, and no reading where the clock stands before the epoch or where
/// its reading is one that no code can be checked against.
pub(crate) fn clock_seconds() -> (now: Option<u64>)
    ensures
        now matches Some(reading) ==> usable_time(reading as int),
{
    match read_clock() {
        Some((reading, _)) => {
            if reading < STEP_SECONDS || reading > u64::MAX - STEP_SECONDS {
                None
            } else {
                Some(reading)
            }
        },
        None => None,
    }
}

/// Checks a one-time code of a user against the current time.
///
/// The outcome is that of [`verify_otp_at`] for the reading of the clock. A
/// clock that stands before the epoch is taken as the reading 0, which is
/// `ClockFailure` for a user who has a usable secret.
pub fn verify_otp(store: &Store, username: String, otp_code: String) -> (r: Result<bool, VaultError>)
    ensures
        exists|now: int| r == #[trigger] store@.verify_otp_result(username@, otp_code@, now),
{
    match clock_seconds() {
        Some(now) => verify_otp_at(store, username.as_str(), otp_code.as_str(), now),
        None => {
            let r = verify_otp_at(store, username.as_str(), otp_code.as_str(), 0);
            assert(r == store@.verify_otp_result(username@, otp_code@, 0));
            r
        },
    }
}

/// Whether the user has a one-time secret. An unknown user has none.
pub fn has_otp_secret(store: &Store, username: String) -> (has: bool)
    ensures
        has == store@.has_otp_secret(username@),
{
    match find_user_named(store, username.as_str()) {
        Some(at) => store.users[at].otp_secret.is_some(),
        None => false,
    }
}

} // verus!
