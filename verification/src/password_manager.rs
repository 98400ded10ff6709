//! Accounts and their entries: signing up, logging in with the master or a
//! duress password, and writing, reading and deleting sealed entries.

use crate::accounts::{find_user, find_user_named, first_named};
use crate::activity_logger::log_activity;
use crate::cipher::{decode_key, encode_key, key_of_text, open, opened};
use crate::codec::base64_text;
use crate::entries::{
    open_entries_of, revealed_all, seal_entry, sealable, seals_entry, Entry, PlainEntry,
};
use crate::error::VaultError;
use crate::fake_data_generator::{generate_fake_entries_for_user, is_decoy_list};
use crate::kdf::{
    derivation_settled, derive_key, derived_key, generate_salt, hash_for_verification, hashable,
    hashes_every_password, password_matches, salt_well_formed, verification_hash, verify,
};
use crate::store::{
    fresh_id, ids, lemma_models_push, models, next_id, DuressModel, DuressSettingsRow, EntryModel,
    Store, StoreModel, User, UserModel, VaultEntry,
};
use crate::table::{
    find_owned, find_row, first_owned, first_row, lemma_first_owned_heads, owned_by, remove_owned,
    remove_row, without_owner, without_row,
};
use vstd::prelude::*;
use vstd::string::StringExecFns;

verus! {

/// An id as the contracts see it.
pub open spec fn id_result(r: Result<i64, VaultError>) -> Result<int, VaultError> {
    match r {
        Ok(id) => Ok(id as int),
        Err(e) => Err(e),
    }
}

/// What a login hands back, as the contracts see it: the user's id, the
/// vault key as base64 text, and whether a duress password was used.
pub open spec fn session_result(r: Result<(i64, String, bool), VaultError>) -> Result<
    (int, Seq<char>, bool),
    VaultError,
> {
    match r {
        Ok((id, key, duress)) => Ok((id as int, key@, duress)),
        Err(e) => Err(e),
    }
}

/// Whether one of the user's duress credentials accepts the password.
pub open spec fn duress_accepts(creds: Seq<DuressModel>, user_id: int, password: Seq<char>) -> bool {
    exists|i: int|
        0 <= i < creds.len() && (#[trigger] creds[i]).user_id == user_id && password_matches(
            password,
            creds[i].hash,
        )
}

impl StoreModel {
    /// The id that the next user gets.
    pub open spec fn next_user_id(self) -> int {
        fresh_id(ids::<User>(self.users))
    }

    /// What signing up returns. The verification hash is computed first; then
    /// the username must be new and an id must be left; then the event must
    /// fit into the log.
    pub open spec fn create_user_result(
        self,
        username: Seq<char>,
        password: Seq<char>,
        salt: Seq<char>,
    ) -> Result<int, VaultError> {
        if verification_hash(password, salt).is_none() {
            Err(VaultError::CryptoFailure)
        } else if first_named(self.users, username).is_some() || self.next_user_id() > i64::MAX
            || !self.can_log() {
            Err(VaultError::StorageFailure)
        } else {
            Ok(self.next_user_id())
        }
    }

    /// The store after signing up: the user is there once the hash is
    /// computed, the name is new and an id is left, even where the event no
    /// longer fits into the log.
    pub open spec fn create_user_state(
        self,
        username: Seq<char>,
        password: Seq<char>,
        salt: Seq<char>,
        stamp: Seq<char>,
    ) -> StoreModel {
        if verification_hash(password, salt).is_none() || first_named(self.users, username).is_some()
            || self.next_user_id() > i64::MAX {
            self
        } else {
            StoreModel {
                users: self.users.push(
                    UserModel {
                        id: self.next_user_id(),
                        username,
                        salt,
                        hash: verification_hash(password, salt).unwrap(),
                        otp_secret: None,
                        recovery: None,
                    },
                ),
                ..self
            }.with_log(
                self.next_user_id(),
                "account_created"@,
                "Account created for user: "@ + username,
                stamp,
            )
        }
    }

    /// What a login returns.
    pub open spec fn login_result(self, username: Seq<char>, password: Seq<char>) -> Result<
        (int, Seq<char>, bool),
        VaultError,
    > {
        if password.len() == 0 {
            Err(VaultError::InputValidation)
        } else {
            match self.user_named(username) {
                None => Err(VaultError::NotFound),
                Some(user) => {
                    let master = password_matches(password, user.hash);
                    let duress = !master && duress_accepts(self.duress, user.id, password);
                    if !master && !duress {
                        Err(VaultError::AuthFailure)
                    } else {
                        match derived_key(password, user.salt) {
                            None => Err(VaultError::CryptoFailure),
                            Some(key) => if self.can_log() {
                                Ok((user.id, base64_text(key), duress))
                            } else {
                                Err(VaultError::StorageFailure)
                            },
                        }
                    }
                },
            }
        }
    }

    /// The store after a login: a rejected password and an accepted one each
    /// leave one event, every other outcome leaves none.
    pub open spec fn login_state(
        self,
        username: Seq<char>,
        password: Seq<char>,
        stamp: Seq<char>,
    ) -> StoreModel {
        if password.len() == 0 {
            self
        } else {
            match self.user_named(username) {
                None => self,
                Some(user) => {
                    let master = password_matches(password, user.hash);
                    let duress = !master && duress_accepts(self.duress, user.id, password);
                    if !master && !duress {
                        self.with_log(
                            user.id,
                            "login_failed"@,
                            "Failed login attempt for user: "@ + username,
                            stamp,
                        )
                    } else if derived_key(password, user.salt).is_none() {
                        self
                    } else if duress {
                        self.with_log(
                            user.id,
                            "pseudo_login_access"@,
                            "Successful login via pseudo_password for user: "@ + username,
                            stamp,
                        )
                    } else {
                        self.with_log(
                            user.id,
                            "login"@,
                            "Successful login via password for user: "@ + username,
                            stamp,
                        )
                    }
                },
            }
        }
    }
}

/// What signing up guarantees: the outcome and the store afterwards are
/// those of the model, and the hash that is stored accepts the password.
pub open spec fn create_user_contract(
    before: StoreModel,
    after: StoreModel,
    username: Seq<char>,
    password: Seq<char>,
    salt: Seq<char>,
    r: Result<int, VaultError>,
) -> bool {
    &&& r == before.create_user_result(username, password, salt)
    &&& after == before.create_user_state(username, password, salt, after.log_stamp())
    &&& verification_hash(password, salt) matches Some(hash) ==> password_matches(password, hash)
    &&& verification_hash(password, salt).is_some() ==> salt_well_formed(salt) && hashable(password)
}

/// Whether signing up under a fresh salt is owed success: the password is
/// short enough to be hashed, the username is new, an id is left, and the
/// event fits into the log.
pub open spec fn signup_owed(store: StoreModel, username: Seq<char>, password: Seq<char>) -> bool {
    &&& hashable(password)
    &&& first_named(store.users, username).is_none()
    &&& store.next_user_id() <= i64::MAX
    &&& store.can_log()
}

/// A text made of a fixed head and a variable tail.
fn message(head: &str, tail: &str) -> (text: String)
    ensures
        text@ == head@ + tail@,
{
    let mut text = head.to_owned();
    text.append(tail);
    text
}

/// Signs a user up with the salt given.
///
/// The verification hash of the password under the salt is stored with the
/// salt; the new id is one above the greatest id in use. A username that is
/// taken is `StorageFailure`.
pub fn create_user_with_salt(
    store: &mut Store,
    username: String,
    master_pass: String,
    salt: String,
) -> (r: Result<i64, VaultError>)
    ensures
        create_user_contract(
            old(store)@,
            final(store)@,
            username@,
            master_pass@,
            salt@,
            id_result(r),
        ),
{
    let hash = match hash_for_verification(master_pass.as_str(), salt.as_str()) {
        Ok(hash) => hash,
        Err(_) => {
            return Err(VaultError::CryptoFailure);
        },
    };
    if find_user_named(store, username.as_str()).is_some() {
        return Err(VaultError::StorageFailure);
    }
    let id = match next_id(&store.users) {
        Some(id) => id,
        None => {
            return Err(VaultError::StorageFailure);
        },
    };
    let details = message("Account created for user: ", username.as_str());
    let user = User { id, username, salt, hash, otp_secret: None, recovery: None };
    proof {
        lemma_models_push(store.users@, user);
    }
    store.users.push(user);
    match log_activity(store, id, "account_created", details.as_str()) {
        Ok(()) => Ok(id),
        Err(e) => Err(e),
    }
}

/// Signs a user up under a fresh random salt.
///
/// The call succeeds exactly where [`signup_owed`] holds. The outcome is that
/// of [`create_user_with_salt`] for some well-formed salt of 22 characters.
pub fn create_user(store: &mut Store, username: String, master_pass: String) -> (r: Result<
    i64,
    VaultError,
>)
    ensures
        r.is_ok() == signup_owed(old(store)@, username@, master_pass@),
        exists|salt: Seq<char>|
            {
                &&& salt_well_formed(salt)
                &&& salt.len() == 22
                &&& hashes_every_password(salt)
                &&& #[trigger] create_user_contract(
                    old(store)@,
                    final(store)@,
                    username@,
                    master_pass@,
                    salt,
                    id_result(r),
                )
            },
{
    let salt = generate_salt();
    create_user_with_salt(store, username, master_pass, salt)
}

/// Whether a login gets as far as deriving the key: the password is not
/// empty, the user exists, and the master hash or a duress credential of the
/// user accepts the password.
pub open spec fn login_accepted(store: StoreModel, username: Seq<char>, password: Seq<char>) -> bool {
    &&& password.len() > 0
    &&& store.user_named(username) matches Some(user)
    &&& password_matches(password, user.hash) || duress_accepts(store.duress, user.id, password)
}

/// What a login guarantees: the outcome and the store afterwards are those
/// of the model, the key text of a session reads back as the key derived
/// from the password given and the user's own salt, and an accepted password
/// fails for want of a key, with `CryptoFailure`, exactly where the salt is
/// not well formed or shorter than 8 characters, or the password longer than
/// 2^32 - 1 bytes.
pub open spec fn login_contract(
    before: StoreModel,
    after: StoreModel,
    username: Seq<char>,
    password: Seq<char>,
    r: Result<(int, Seq<char>, bool), VaultError>,
) -> bool {
    &&& r == before.login_result(username, password)
    &&& after == before.login_state(username, password, after.log_stamp())
    &&& r matches Ok((_, key_text, _)) ==> key_of_text(key_text) == derived_key(
        password,
        before.user_named(username).unwrap().salt,
    )
    &&& login_accepted(before, username, password) ==> derivation_settled(
        password,
        before.user_named(username).unwrap().salt,
    )
}

/// Whether one of the user's duress credentials accepts the password. The
/// credentials are tried in the order of the table, up to the first that
/// accepts.
pub fn matches_duress(store: &Store, user_id: i64, password: &str) -> (accepted: bool)
    ensures
        accepted == duress_accepts(store@.duress, user_id as int, password@),
{
    let mut i: usize = 0;
    while i < store.duress.len()
        invariant
            i <= store.duress.len(),
            forall|j: int|
                0 <= j < i ==> !((#[trigger] store@.duress[j]).user_id == user_id
                    && password_matches(password@, store@.duress[j].hash)),
        decreases store.duress.len() - i,
    {
        let cred = &store.duress[i];
        assert(store@.duress[i as int] == cred@);
        if cred.user_id == user_id && verify(password, cred.hash.as_str()) {
            return true;
        }
        i = i + 1;
    }
    false
}

/// Logs a user in with the master password or a duress password.
///
/// An empty password is `InputValidation`, an unknown username `NotFound`, a
/// password that neither the master hash nor a duress credential accepts
/// `AuthFailure`. The key handed back is always derived from the password
/// given and the user's own salt, so that a duress password yields a key that
/// is not the vault key. The flag tells which kind of password was accepted.
pub fn login(store: &mut Store, username: String, master_pass: String) -> (r: Result<
    (i64, String, bool),
    VaultError,
>)
    ensures
        login_contract(old(store)@, final(store)@, username@, master_pass@, session_result(r)),
{
    if master_pass.as_str().is_empty() {
        return Err(VaultError::InputValidation);
    }
    let at = match find_user_named(store, username.as_str()) {
        Some(at) => at,
        None => {
            return Err(VaultError::NotFound);
        },
    };
    let id = store.users[at].id;
    let master = verify(master_pass.as_str(), store.users[at].hash.as_str());
    let duress = !master && matches_duress(store, id, master_pass.as_str());
    if !master && !duress {
        let details = message("Failed login attempt for user: ", username.as_str());
        let _ = log_activity(store, id, "login_failed", details.as_str());
        return Err(VaultError::AuthFailure);
    }
    let key = match derive_key(master_pass.as_str(), store.users[at].salt.as_str()) {
        Ok(key) => key,
        Err(_) => {
            return Err(VaultError::CryptoFailure);
        },
    };
    let logged = if duress {
        let details = message("Successful login via pseudo_password for user: ", username.as_str());
        log_activity(store, id, "pseudo_login_access", details.as_str())
    } else {
        let details = message("Successful login via password for user: ", username.as_str());
        log_activity(store, id, "login", details.as_str())
    };
    match logged {
        Ok(()) => Ok((id, encode_key(key.as_slice()), duress)),
        Err(e) => Err(e),
    }
}

impl StoreModel {
    /// What checking a user's master password returns.
    pub open spec fn verify_user_password_result(self, user_id: int, password: Seq<char>) -> Result<
        (),
        VaultError,
    > {
        match self.user_by_id(user_id) {
            None => Err(VaultError::NotFound),
            Some(user) => if password_matches(password, user.hash) {
                Ok(())
            } else {
                Err(VaultError::AuthFailure)
            },
        }
    }
}

/// Checks a password against the master hash of the user with the id
/// `user_id`: `NotFound` for an unknown id, `AuthFailure` for a password that
/// the hash does not accept.
pub fn verify_user_password(store: &Store, user_id: i64, password: String) -> (r: Result<
    (),
    VaultError,
>)
    ensures
        r == store@.verify_user_password_result(user_id as int, password@),
{
    match find_user(store, user_id) {
        None => Err(VaultError::NotFound),
        Some(at) => {
            if verify(password.as_str(), store.users[at].hash.as_str()) {
                Ok(())
            } else {
                Err(VaultError::AuthFailure)
            }
        },
    }
}

/// How many decoys a duress session is shown.
pub const DECOY_COUNT: usize = 31;

/// What reading the entries gives.
pub enum EntriesOutcome {
    /// The read fails.
    Fails(VaultError),
    /// The key opens the entries: these are they.
    Opened(Seq<PlainEntry>),
    /// The key does not open the first entry, and the user is shown decoys.
    Decoys,
    /// The key does not open the first entry, and the user is shown nothing.
    Nothing,
}

impl StoreModel {
    /// The id that the next entry gets.
    pub open spec fn next_entry_id(self) -> int {
        fresh_id(ids::<VaultEntry>(self.entries))
    }

    /// The entries of a user, in the order of the table.
    pub open spec fn entries_of(self, user_id: int) -> Seq<EntryModel> {
        owned_by::<VaultEntry>(self.entries, user_id)
    }

    /// Whether an entry with these texts under this key is inserted.
    pub open spec fn inserts_entry(self, password: Seq<char>, note: Seq<char>, enc_key: Seq<char>) -> bool {
        key_of_text(enc_key).is_some() && sealable(password, note) && self.next_entry_id()
            <= i64::MAX
    }

    /// What adding an entry returns.
    pub open spec fn add_entry_result(
        self,
        password: Seq<char>,
        note: Seq<char>,
        enc_key: Seq<char>,
    ) -> Result<(), VaultError> {
        if key_of_text(enc_key).is_none() {
            Err(VaultError::InputValidation)
        } else if !sealable(password, note) {
            Err(VaultError::CryptoFailure)
        } else if self.next_entry_id() > i64::MAX || !self.can_log() {
            Err(VaultError::StorageFailure)
        } else {
            Ok(())
        }
    }

    /// The store after adding an entry that is stored as `row`.
    pub open spec fn add_entry_state(
        self,
        user_id: int,
        service: Seq<char>,
        password: Seq<char>,
        note: Seq<char>,
        enc_key: Seq<char>,
        row: EntryModel,
        stamp: Seq<char>,
    ) -> StoreModel {
        if self.inserts_entry(password, note, enc_key) {
            StoreModel { entries: self.entries.push(row), ..self }.with_log(
                user_id,
                "add_entry"@,
                "Added entry for service: "@ + service,
                stamp,
            )
        } else {
            self
        }
    }

    /// The position of the entry that an update or a deletion is aimed at:
    /// the id must be the entry's and the user its owner.
    pub open spec fn entry_at(self, entry_id: int, user_id: int) -> Option<int> {
        first_row::<VaultEntry>(self.entries, entry_id, user_id)
    }

    /// Whether an update with these texts under this key replaces a row.
    pub open spec fn replaces_entry(
        self,
        entry_id: int,
        user_id: int,
        password: Seq<char>,
        note: Seq<char>,
        enc_key: Seq<char>,
    ) -> bool {
        key_of_text(enc_key).is_some() && sealable(password, note) && self.entry_at(
            entry_id,
            user_id,
        ).is_some()
    }

    /// What updating an entry returns.
    pub open spec fn update_entry_result(
        self,
        entry_id: int,
        user_id: int,
        password: Seq<char>,
        note: Seq<char>,
        enc_key: Seq<char>,
    ) -> Result<(), VaultError> {
        if key_of_text(enc_key).is_none() {
            Err(VaultError::InputValidation)
        } else if !sealable(password, note) {
            Err(VaultError::CryptoFailure)
        } else if self.entry_at(entry_id, user_id).is_none() {
            Err(VaultError::NotFound)
        } else if !self.can_log() {
            Err(VaultError::StorageFailure)
        } else {
            Ok(())
        }
    }

    /// The store after an update that stores `row` in place of the entry.
    pub open spec fn update_entry_state(
        self,
        entry_id: int,
        user_id: int,
        service: Seq<char>,
        password: Seq<char>,
        note: Seq<char>,
        enc_key: Seq<char>,
        row: EntryModel,
        stamp: Seq<char>,
    ) -> StoreModel {
        if self.replaces_entry(entry_id, user_id, password, note, enc_key) {
            StoreModel {
                entries: self.entries.update(self.entry_at(entry_id, user_id).unwrap(), row),
                ..self
            }.with_log(user_id, "edit_entry"@, "Updated entry for service: "@ + service, stamp)
        } else {
            self
        }
    }

    /// What deleting an entry returns.
    pub open spec fn delete_entry_result(self, entry_id: int, user_id: int) -> Result<(), VaultError> {
        if self.entry_at(entry_id, user_id).is_none() {
            Err(VaultError::NotFound)
        } else if !self.can_log() {
            Err(VaultError::StorageFailure)
        } else {
            Ok(())
        }
    }

    /// The store after deleting an entry.
    pub open spec fn delete_entry_state(self, entry_id: int, user_id: int, stamp: Seq<char>) -> StoreModel {
        match self.entry_at(entry_id, user_id) {
            None => self,
            Some(at) => StoreModel {
                entries: without_row::<VaultEntry>(self.entries, entry_id, user_id),
                ..self
            }.with_log(
                user_id,
                "delete_entry"@,
                "Deleted entry for service: "@ + self.entries[at].service,
                stamp,
            ),
        }
    }

    /// Whether a duress session of the user is shown decoys. A user without
    /// settings is.
    pub open spec fn shows_fake_entries(self, user_id: int) -> bool {
        match first_owned::<DuressSettingsRow>(self.settings, user_id) {
            Some(i) => self.settings[i].flags.show_fake_entries,
            None => true,
        }
    }

    /// Whether a read of the user's entries under this key is a duress
    /// access: there is a first entry, and the key does not open its
    /// password.
    pub open spec fn probe_fails(self, user_id: int, enc_key: Seq<char>) -> bool {
        let rows = self.entries_of(user_id);
        &&& key_of_text(enc_key).is_some()
        &&& rows.len() > 0
        &&& opened(key_of_text(enc_key).unwrap(), rows[0].password_nonce, rows[0].enc_password).is_none()
    }

    /// What reading the entries of a user under a key gives.
    pub open spec fn get_entries_outcome(self, user_id: int, enc_key: Seq<char>) -> EntriesOutcome {
        match key_of_text(enc_key) {
            None => EntriesOutcome::Fails(VaultError::InputValidation),
            Some(key) => {
                if self.probe_fails(user_id, enc_key) {
                    if self.shows_fake_entries(user_id) {
                        EntriesOutcome::Decoys
                    } else {
                        EntriesOutcome::Nothing
                    }
                } else {
                    match revealed_all(key, self.entries_of(user_id)) {
                        Some(list) => EntriesOutcome::Opened(list),
                        None => EntriesOutcome::Fails(VaultError::CryptoFailure),
                    }
                }
            },
        }
    }

    /// The store after reading the entries: a duress access leaves an event.
    pub open spec fn get_entries_state(self, user_id: int, enc_key: Seq<char>, stamp: Seq<char>) -> StoreModel {
        if self.probe_fails(user_id, enc_key) {
            self.with_log(
                user_id,
                "pseudo_login_access"@,
                if self.shows_fake_entries(user_id) {
                    "Accessed vault with pseudo password - fake data shown"@
                } else {
                    "Accessed vault with pseudo password - empty vault shown"@
                },
                stamp,
            )
        } else {
            self
        }
    }

    /// What deleting a user returns.
    pub open spec fn delete_user_result(self, user_id: int, password: Seq<char>) -> Result<(), VaultError> {
        self.verify_user_password_result(user_id, password)
    }

    /// The store after deleting a user: without the user and without any row
    /// that belonged to the user, in every table.
    pub open spec fn delete_user_state(self, user_id: int, password: Seq<char>) -> StoreModel {
        if self.delete_user_result(user_id, password).is_ok() {
            self.without_user(user_id)
        } else {
            self
        }
    }

    /// The store without a user and the user's rows.
    pub open spec fn without_user(self, user_id: int) -> StoreModel {
        StoreModel {
            users: without_owner::<User>(self.users, user_id),
            entries: without_owner::<VaultEntry>(self.entries, user_id),
            duress: without_owner::<crate::store::DuressCredential>(self.duress, user_id),
            settings: without_owner::<DuressSettingsRow>(self.settings, user_id),
            logs: without_owner::<crate::store::ActivityLog>(self.logs, user_id),
            photos: without_owner::<crate::store::StoredPhoto>(self.photos, user_id),
            pending: without_owner::<crate::store::PendingDeletion>(self.pending, user_id),
            security: without_owner::<crate::store::SecuritySetting>(self.security, user_id),
        }
    }
}

/// Adds an entry for `user_id`, with password and note sealed under the key
/// given as base64 text.
///
/// A key that is not base64 of 32 bytes is `InputValidation`; a text too long
/// to seal is `CryptoFailure`. The row that is stored opens under the key to
/// the texts given.
pub fn add_entry(
    store: &mut Store,
    user_id: i64,
    service: String,
    login: String,
    password: String,
    note: String,
    enc_key: String,
) -> (r: Result<(), VaultError>)
    ensures
        r == old(store)@.add_entry_result(password@, note@, enc_key@),
        final(store)@ == old(store)@.add_entry_state(
            user_id as int,
            service@,
            password@,
            note@,
            enc_key@,
            final(store)@.entries.last(),
            final(store)@.log_stamp(),
        ),
        old(store)@.inserts_entry(password@, note@, enc_key@) ==> seals_entry(
            key_of_text(enc_key@).unwrap(),
            final(store)@.entries.last(),
            user_id as int,
            PlainEntry {
                id: old(store)@.next_entry_id(),
                service: service@,
                login: login@,
                password: password@,
                note: note@,
            },
        ),
{
    let key = match decode_key(enc_key.as_str()) {
        Ok(key) => key,
        Err(e) => {
            return Err(e);
        },
    };
    let next = next_id(&store.entries);
    let id: i64 = match next {
        Some(id) => id,
        None => 0,
    };
    let details = message("Added entry for service: ", service.as_str());
    let row = match seal_entry(
        key.as_slice(),
        id,
        user_id,
        service,
        login,
        password.as_str(),
        note.as_str(),
    ) {
        Ok(row) => row,
        Err(e) => {
            return Err(e);
        },
    };
    if next.is_none() {
        return Err(VaultError::StorageFailure);
    }
    proof {
        lemma_models_push(store.entries@, row);
    }
    store.entries.push(row);
    let ghost inserted = store@.entries.last();
    let logged = log_activity(store, user_id, "add_entry", details.as_str());
    assert(store@.entries.last() == inserted);
    match logged {
        Ok(()) => Ok(()),
        Err(e) => Err(e),
    }
}

/// Replaces the entry `entry_id` of `user_id` by the texts given, sealed
/// anew. An id that is not an entry of the user is `NotFound`.
pub fn update_entry(
    store: &mut Store,
    entry_id: i64,
    user_id: i64,
    service: String,
    login: String,
    password: String,
    note: String,
    enc_key: String,
) -> (r: Result<(), VaultError>)
    ensures
        r == old(store)@.update_entry_result(
            entry_id as int,
            user_id as int,
            password@,
            note@,
            enc_key@,
        ),
        old(store)@.replaces_entry(entry_id as int, user_id as int, password@, note@, enc_key@) ==> {
            let at = old(store)@.entry_at(entry_id as int, user_id as int).unwrap();
            &&& 0 <= at < final(store)@.entries.len()
            &&& final(store)@ == old(store)@.update_entry_state(
                entry_id as int,
                user_id as int,
                service@,
                password@,
                note@,
                enc_key@,
                final(store)@.entries[at],
                final(store)@.log_stamp(),
            )
            &&& seals_entry(
                key_of_text(enc_key@).unwrap(),
                final(store)@.entries[at],
                user_id as int,
                PlainEntry {
                    id: entry_id as int,
                    service: service@,
                    login: login@,
                    password: password@,
                    note: note@,
                },
            )
        },
        !old(store)@.replaces_entry(entry_id as int, user_id as int, password@, note@, enc_key@)
            ==> final(store)@ == old(store)@,
{
    let key = match decode_key(enc_key.as_str()) {
        Ok(key) => key,
        Err(e) => {
            return Err(e);
        },
    };
    let details = message("Updated entry for service: ", service.as_str());
    let row = match seal_entry(
        key.as_slice(),
        entry_id,
        user_id,
        service,
        login,
        password.as_str(),
        note.as_str(),
    ) {
        Ok(row) => row,
        Err(e) => {
            return Err(e);
        },
    };
    let at = match find_row(&store.entries, entry_id, user_id) {
        Some(at) => at,
        None => {
            return Err(VaultError::NotFound);
        },
    };
    proof {
        assert(models(store.entries@.update(at as int, row)) =~= models(store.entries@).update(
            at as int,
            row@,
        ));
    }
    store.entries.set(at, row);
    let ghost stored = store@.entries[at as int];
    let logged = log_activity(store, user_id, "edit_entry", details.as_str());
    assert(store@.entries[at as int] == stored);
    match logged {
        Ok(()) => Ok(()),
        Err(e) => Err(e),
    }
}

/// Reads the entries of `user_id` under the key given as base64 text.
///
/// The password of the user's first entry is opened as a probe. Where it
/// opens, every entry is opened and returned, and one that does not open is
/// `CryptoFailure`. Where it does not open, the read is a duress access: it
/// never fails, leaves an event, and returns decoys or nothing, as the
/// user's settings say. No entry of the store is ever part of that answer.
pub fn get_entries(store: &mut Store, user_id: i64, enc_key: String) -> (r: Result<
    Vec<Entry>,
    VaultError,
>)
    ensures
        match old(store)@.get_entries_outcome(user_id as int, enc_key@) {
            EntriesOutcome::Fails(e) => r matches Err(x) && x == e,
            EntriesOutcome::Opened(list) => r matches Ok(entries) && models(entries@) == list,
            EntriesOutcome::Decoys => r matches Ok(entries) && is_decoy_list(
                models(entries@),
                DECOY_COUNT as nat,
            ),
            EntriesOutcome::Nothing => r matches Ok(entries) && entries@.len() == 0,
        },
        final(store)@ == old(store)@.get_entries_state(
            user_id as int,
            enc_key@,
            final(store)@.log_stamp(),
        ),
{
    let key = match decode_key(enc_key.as_str()) {
        Ok(key) => key,
        Err(e) => {
            return Err(e);
        },
    };
    proof {
        lemma_first_owned_heads::<VaultEntry>(store@.entries, user_id as int);
    }
    let probe_opens = match find_owned(&store.entries, user_id) {
        None => true,
        Some(at) => {
            let first = &store.entries[at];
            assert(store@.entries[at as int] == first@);
            open(key.as_slice(), first.password_nonce.as_slice(), first.enc_password.as_slice()).is_ok()
        },
    };
    if probe_opens {
        return open_entries_of(store, key.as_slice(), user_id);
    }
    let show_fake = match find_owned(&store.settings, user_id) {
        Some(at) => store.settings[at].flags.show_fake_entries,
        None => true,
    };
    if show_fake {
        let _ = log_activity(
            store,
            user_id,
            "pseudo_login_access",
            "Accessed vault with pseudo password - fake data shown",
        );
        Ok(generate_fake_entries_for_user(user_id, true, DECOY_COUNT))
    } else {
        let _ = log_activity(
            store,
            user_id,
            "pseudo_login_access",
            "Accessed vault with pseudo password - empty vault shown",
        );
        Ok(Vec::new())
    }
}

/// Deletes the entry `entry_id` of `user_id`. An id that is not an entry of
/// the user is `NotFound`.
pub fn delete_entry(store: &mut Store, entry_id: i64, user_id: i64) -> (r: Result<(), VaultError>)
    ensures
        r == old(store)@.delete_entry_result(entry_id as int, user_id as int),
        final(store)@ == old(store)@.delete_entry_state(
            entry_id as int,
            user_id as int,
            final(store)@.log_stamp(),
        ),
{
    let at = match find_row(&store.entries, entry_id, user_id) {
        Some(at) => at,
        None => {
            return Err(VaultError::NotFound);
        },
    };
    let details = message("Deleted entry for service: ", store.entries[at].service.as_str());
    let _ = remove_row(&mut store.entries, entry_id, user_id);
    match log_activity(store, user_id, "delete_entry", details.as_str()) {
        Ok(()) => Ok(()),
        Err(e) => Err(e),
    }
}

/// Deletes a user after checking the master password, together with every
/// row that belongs to the user: entries, duress credentials and settings,
/// activity log, photos, pending deletion and security setting. Either all
/// of it goes or, where the call fails, nothing.
pub fn delete_user(store: &mut Store, user_id: i64, master_pass: String) -> (r: Result<
    (),
    VaultError,
>)
    ensures
        r == old(store)@.delete_user_result(user_id as int, master_pass@),
        final(store)@ == old(store)@.delete_user_state(user_id as int, master_pass@),
{
    match verify_user_password(store, user_id, master_pass) {
        Ok(()) => {},
        Err(e) => {
            return Err(e);
        },
    }
    let _ = remove_owned(&mut store.entries, user_id);
    let _ = remove_owned(&mut store.logs, user_id);
    let _ = remove_owned(&mut store.duress, user_id);
    let _ = remove_owned(&mut store.settings, user_id);
    let _ = remove_owned(&mut store.photos, user_id);
    let _ = remove_owned(&mut store.pending, user_id);
    let _ = remove_owned(&mut store.security, user_id);
    let _ = remove_owned(&mut store.users, user_id);
    Ok(())
}

} // verus!
