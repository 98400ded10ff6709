//! Duress credentials and what a duress session may see.
//!
//! A duress password logs in like the master password, but the key derived
//! from it does not open the vault. It must therefore never be the master
//! password itself, which is checked when the credential is added.

use crate::accounts::find_user;
use crate::activity_logger::{is_user_in_pseudo_mode, log_activity};
use crate::error::VaultError;
use crate::kdf::{
    generate_salt, hash_for_verification, hashable, hashes_every_password, password_matches,
    salt_well_formed, verification_hash, verify,
};
use crate::store::{
    fresh_id, ids, lemma_models_push, models, next_id, DuressCredential, DuressFlags, DuressModel,
    DuressSettingsRow, Store, StoreModel,
};
use crate::table::{
    count_owned, find_owned, first_owned, first_row, owned_by, remove_owned, remove_row,
    without_owner, without_row,
};
use vstd::prelude::*;

verus! {

/// A duress credential as it is listed: by its id alone. The length of the
/// password is never given out.
#[derive(Debug)]
pub struct PseudoPasswordInfo {
    pub id: i64,
    pub length: Option<usize>,
}

/// The duress settings of a user, with the user's duress credentials.
#[derive(Debug)]
pub struct PseudoModeSettings {
    pub enabled: bool,
    pub passwords: Vec<PseudoPasswordInfo>,
    pub hide_activity_logs: bool,
    pub hide_failed_login_photos: bool,
    pub hide_security_settings: bool,
    pub show_fake_entries: bool,
    pub hide_pseudo_mode_card: bool,
}

/// Model of a [`PseudoPasswordInfo`].
pub struct CredentialInfo {
    pub id: int,
    pub length: Option<nat>,
}

/// Model of a [`PseudoModeSettings`].
pub struct SettingsModel {
    pub flags: DuressFlags,
    pub passwords: Seq<CredentialInfo>,
}

impl View for PseudoPasswordInfo {
    type V = CredentialInfo;

    open spec fn view(&self) -> CredentialInfo {
        CredentialInfo {
            id: self.id as int,
            length: match self.length {
                Some(n) => Some(n as nat),
                None => None,
            },
        }
    }
}

impl View for PseudoModeSettings {
    type V = SettingsModel;

    open spec fn view(&self) -> SettingsModel {
        SettingsModel {
            flags: DuressFlags {
                enabled: self.enabled,
                hide_activity_logs: self.hide_activity_logs,
                hide_failed_login_photos: self.hide_failed_login_photos,
                hide_security_settings: self.hide_security_settings,
                show_fake_entries: self.show_fake_entries,
                hide_pseudo_mode_card: self.hide_pseudo_mode_card,
            },
            passwords: models(self.passwords@),
        }
    }
}

/// The flags of a user without settings: all off.
pub open spec fn no_flags() -> DuressFlags {
    DuressFlags {
        enabled: false,
        hide_activity_logs: false,
        hide_failed_login_photos: false,
        hide_security_settings: false,
        show_fake_entries: false,
        hide_pseudo_mode_card: false,
    }
}

/// The credentials of a list, each by its id and without a length.
pub open spec fn listed(creds: Seq<DuressModel>) -> Seq<CredentialInfo> {
    Seq::new(creds.len(), |i: int| CredentialInfo { id: creds[i].id, length: None })
}

/// The text of a flag in an event.
pub open spec fn flag_text(flag: bool) -> Seq<char> {
    if flag {
        "true"@
    } else {
        "false"@
    }
}

impl StoreModel {
    /// The id that the next duress credential gets.
    pub open spec fn next_duress_id(self) -> int {
        fresh_id(ids::<DuressCredential>(self.duress))
    }

    /// What adding a duress password under the salt `salt` returns. A
    /// candidate that the master hash accepts is refused with an error of
    /// its own.
    pub open spec fn add_pseudo_password_result(
        self,
        user_id: int,
        password: Seq<char>,
        salt: Seq<char>,
    ) -> Result<(), VaultError> {
        match self.user_by_id(user_id) {
            None => Err(VaultError::NotFound),
            Some(user) => if password_matches(password, user.hash) {
                Err(VaultError::DuressMatchesMaster)
            } else if verification_hash(password, salt).is_none() {
                Err(VaultError::CryptoFailure)
            } else if self.next_duress_id() > i64::MAX {
                Err(VaultError::StorageFailure)
            } else {
                Ok(())
            },
        }
    }

    /// The store after adding a duress password: one more credential where
    /// the call succeeds, no change where it fails.
    pub open spec fn add_pseudo_password_state(
        self,
        user_id: int,
        password: Seq<char>,
        salt: Seq<char>,
        stamp: Seq<char>,
    ) -> StoreModel {
        if self.add_pseudo_password_result(user_id, password, salt).is_ok() {
            StoreModel {
                duress: self.duress.push(
                    DuressModel {
                        id: self.next_duress_id(),
                        user_id,
                        salt,
                        hash: verification_hash(password, salt).unwrap(),
                    },
                ),
                ..self
            }.with_log(user_id, "pseudo_password_added"@, "Pseudo password added to account"@, stamp)
        } else {
            self
        }
    }

    /// The duress credentials of a user, in the order of the table.
    pub open spec fn duress_of(self, user_id: int) -> Seq<DuressModel> {
        owned_by::<DuressCredential>(self.duress, user_id)
    }

    /// The store without the duress credentials of a user.
    pub open spec fn without_duress_of(self, user_id: int) -> StoreModel {
        StoreModel { duress: without_owner::<DuressCredential>(self.duress, user_id), ..self }
    }

    /// The store after saving a user's flags: the user's row is replaced, or
    /// added where there was none.
    pub open spec fn save_settings_state(self, user_id: i64, flags: DuressFlags, stamp: Seq<char>) -> StoreModel {
        StoreModel {
            settings: without_owner::<DuressSettingsRow>(self.settings, user_id as int).push(
                DuressSettingsRow { user_id, flags },
            ),
            ..self
        }.with_log(
            user_id as int,
            "pseudo_mode_settings_updated"@,
            "Pseudo mode settings updated (enabled: "@ + flag_text(flags.enabled) + ")"@,
            stamp,
        )
    }

    /// The flags of a user, all off for a user without settings.
    pub open spec fn flags_of(self, user_id: int) -> DuressFlags {
        match first_owned::<DuressSettingsRow>(self.settings, user_id) {
            Some(i) => self.settings[i].flags,
            None => no_flags(),
        }
    }

    /// The settings of a user as they are shown.
    pub open spec fn settings_of(self, user_id: int) -> SettingsModel {
        SettingsModel { flags: self.flags_of(user_id), passwords: listed(self.duress_of(user_id)) }
    }

    /// What deleting one duress credential returns.
    pub open spec fn delete_pseudo_password_result(self, user_id: int, pseudo_id: int) -> Result<
        (),
        VaultError,
    > {
        if first_row::<DuressCredential>(self.duress, pseudo_id, user_id).is_some() {
            Ok(())
        } else {
            Err(VaultError::NotFound)
        }
    }

    /// The store without the duress credential `pseudo_id` of a user.
    pub open spec fn without_duress(self, user_id: int, pseudo_id: int) -> StoreModel {
        StoreModel {
            duress: without_row::<DuressCredential>(self.duress, pseudo_id, user_id),
            ..self
        }
    }
}

/// What adding a duress password guarantees: the outcome and the store
/// afterwards are those of the model, and the credential that a successful
/// call stores belongs to the user and accepts the password.
pub open spec fn add_pseudo_password_contract(
    before: StoreModel,
    after: StoreModel,
    user_id: int,
    password: Seq<char>,
    salt: Seq<char>,
    r: Result<(), VaultError>,
) -> bool {
    &&& r == before.add_pseudo_password_result(user_id, password, salt)
    &&& after == before.add_pseudo_password_state(user_id, password, salt, after.log_stamp())
    &&& r.is_ok() ==> {
        &&& after.duress.len() == before.duress.len() + 1
        &&& after.duress.last().user_id == user_id
        &&& after.duress.last().salt == salt
        &&& password_matches(password, after.duress.last().hash)
        &&& salt_well_formed(salt) && hashable(password)
    }
}

/// Whether adding a duress password under a fresh salt is owed success: the
/// user exists, the master hash does not accept the password, the password
/// is short enough to be hashed, and an id is left.
pub open spec fn duress_password_owed(store: StoreModel, user_id: int, password: Seq<char>) -> bool {
    &&& store.user_by_id(user_id) matches Some(user)
    &&& !password_matches(password, user.hash)
    &&& hashable(password)
    &&& store.next_duress_id() <= i64::MAX
}

/// Adds a duress password for `user_id`, hashed under the salt given.
///
/// A candidate that the user's master hash accepts is refused with
/// `DuressMatchesMaster`, and nothing is inserted: a duress password must not
/// open the real vault.
pub fn add_pseudo_password_with_salt(store: &mut Store, user_id: i64, password: String, salt: String) -> (r:
    Result<(), VaultError>)
    ensures
        add_pseudo_password_contract(
            old(store)@,
            final(store)@,
            user_id as int,
            password@,
            salt@,
            r,
        ),
{
    let at = match find_user(store, user_id) {
        Some(at) => at,
        None => {
            return Err(VaultError::NotFound);
        },
    };
    if verify(password.as_str(), store.users[at].hash.as_str()) {
        return Err(VaultError::DuressMatchesMaster);
    }
    let hash = match hash_for_verification(password.as_str(), salt.as_str()) {
        Ok(hash) => hash,
        Err(e) => {
            return Err(e);
        },
    };
    let id = match next_id(&store.duress) {
        Some(id) => id,
        None => {
            return Err(VaultError::StorageFailure);
        },
    };
    let cred = DuressCredential { id, user_id, salt, hash };
    proof {
        lemma_models_push(store.duress@, cred);
    }
    store.duress.push(cred);
    let _ = log_activity(store, user_id, "pseudo_password_added", "Pseudo password added to account");
    Ok(())
}

/// Adds a duress password for `user_id` under a fresh random salt.
///
/// The call succeeds exactly where [`duress_password_owed`] holds. The
/// outcome is that of [`add_pseudo_password_with_salt`] for some well-formed
/// salt of 22 characters.
pub fn add_pseudo_password(store: &mut Store, user_id: i64, password: String) -> (r: Result<
    (),
    VaultError,
>)
    ensures
        r.is_ok() == duress_password_owed(old(store)@, user_id as int, password@),
        exists|salt: Seq<char>|
            {
                &&& salt_well_formed(salt)
                &&& salt.len() == 22
                &&& hashes_every_password(salt)
                &&& #[trigger] add_pseudo_password_contract(
                    old(store)@,
                    final(store)@,
                    user_id as int,
                    password@,
                    salt,
                    r,
                )
            },
{
    let salt = generate_salt();
    add_pseudo_password_with_salt(store, user_id, password, salt)
}

/// Deletes every duress credential of `user_id`.
pub fn delete_all_pseudo_passwords(store: &mut Store, user_id: i64)
    ensures
        final(store)@ == old(store)@.without_duress_of(user_id as int),
{
    let _ = remove_owned(&mut store.duress, user_id);
}

/// Counts the duress credentials of `user_id`.
pub fn get_pseudo_passwords_count(store: &Store, user_id: i64) -> (count: usize)
    ensures
        count == store@.duress_of(user_id as int).len(),
{
    count_owned(&store.duress, user_id)
}

/// Saves the duress flags of `user_id`, in place of those saved before.
pub fn save_pseudo_mode_settings(
    store: &mut Store,
    user_id: i64,
    enabled: bool,
    hide_activity_logs: bool,
    hide_failed_login_photos: bool,
    hide_security_settings: bool,
    show_fake_entries: bool,
    hide_pseudo_mode_card: bool,
)
    ensures
        final(store)@ == old(store)@.save_settings_state(
            user_id,
            DuressFlags {
                enabled,
                hide_activity_logs,
                hide_failed_login_photos,
                hide_security_settings,
                show_fake_entries,
                hide_pseudo_mode_card,
            },
            final(store)@.log_stamp(),
        ),
{
    let flags = DuressFlags {
        enabled,
        hide_activity_logs,
        hide_failed_login_photos,
        hide_security_settings,
        show_fake_entries,
        hide_pseudo_mode_card,
    };
    let _ = remove_owned(&mut store.settings, user_id);
    let row = DuressSettingsRow { user_id, flags };
    proof {
        lemma_models_push(store.settings@, row);
    }
    store.settings.push(row);
    if enabled {
        let _ = log_activity(
            store,
            user_id,
            "pseudo_mode_settings_updated",
            "Pseudo mode settings updated (enabled: true)",
        );
        proof {
            reveal_strlit("Pseudo mode settings updated (enabled: true)");
            reveal_strlit("Pseudo mode settings updated (enabled: ");
            reveal_strlit("true");
            reveal_strlit(")");
            assert("Pseudo mode settings updated (enabled: true)"@
                =~= "Pseudo mode settings updated (enabled: "@ + "true"@ + ")"@);
        }
    } else {
        let _ = log_activity(
            store,
            user_id,
            "pseudo_mode_settings_updated",
            "Pseudo mode settings updated (enabled: false)",
        );
        proof {
            reveal_strlit("Pseudo mode settings updated (enabled: false)");
            reveal_strlit("Pseudo mode settings updated (enabled: ");
            reveal_strlit("false");
            reveal_strlit(")");
            assert("Pseudo mode settings updated (enabled: false)"@
                =~= "Pseudo mode settings updated (enabled: "@ + "false"@ + ")"@);
        }
    }
}

/// Reads the duress settings of `user_id`: the flags, all off where none were
/// saved, and the user's duress credentials by their ids.
pub fn get_pseudo_mode_settings(store: &Store, user_id: i64) -> (settings: PseudoModeSettings)
    ensures
        settings@ == store@.settings_of(user_id as int),
{
    let flags = match find_owned(&store.settings, user_id) {
        Some(at) => store.settings[at].flags,
        None => DuressFlags {
            enabled: false,
            hide_activity_logs: false,
            hide_failed_login_photos: false,
            hide_security_settings: false,
            show_fake_entries: false,
            hide_pseudo_mode_card: false,
        },
    };
    let ghost all = store@.duress;
    let mut passwords: Vec<PseudoPasswordInfo> = Vec::new();
    let mut i: usize = 0;
    proof {
        assert(all.take(0) =~= Seq::<DuressModel>::empty());
        assert(models(passwords@) =~= listed(owned_by::<DuressCredential>(all.take(0), user_id as int)));
    }
    while i < store.duress.len()
        invariant
            i <= store.duress.len(),
            all == store@.duress,
            models(passwords@) == listed(
                owned_by::<DuressCredential>(all.take(i as int), user_id as int),
            ),
        decreases store.duress.len() - i,
    {
        let cred = &store.duress[i];
        proof {
            assert(all.take(i + 1).drop_last() =~= all.take(i as int));
            assert(all.take(i + 1).last() == cred@);
        }
        if cred.user_id == user_id {
            let info = PseudoPasswordInfo { id: cred.id, length: None };
            proof {
                let seen = owned_by::<DuressCredential>(all.take(i as int), user_id as int);
                let shown = models(passwords@.push(info));
                assert(models(passwords@).len() == passwords@.len());
                assert(listed(seen).len() == seen.len());
                assert(shown.len() == listed(seen.push(cred@)).len());
                assert forall|j: int| 0 <= j < shown.len() implies shown[j] == listed(
                    seen.push(cred@),
                )[j] by {
                    if j < passwords@.len() {
                        assert(shown[j] == models(passwords@)[j]);
                        assert(listed(seen)[j].id == seen[j].id);
                    }
                }
                assert(shown =~= listed(seen.push(cred@)));
            }
            passwords.push(info);
        }
        i = i + 1;
    }
    assert(all.take(i as int) =~= all);
    PseudoModeSettings {
        enabled: flags.enabled,
        passwords,
        hide_activity_logs: flags.hide_activity_logs,
        hide_failed_login_photos: flags.hide_failed_login_photos,
        hide_security_settings: flags.hide_security_settings,
        show_fake_entries: flags.show_fake_entries,
        hide_pseudo_mode_card: flags.hide_pseudo_mode_card,
    }
}

/// Whether the user's session is a duress session: the user's most recent
/// login event is a duress access.
pub fn is_pseudo_mode_active(store: &Store, user_id: i64) -> (active: bool)
    ensures
        active == store@.in_duress_mode(user_id as int),
{
    is_user_in_pseudo_mode(store, user_id)
}

/// Deletes the duress credential `pseudo_id` of `user_id`. An id that is not
/// a credential of the user is `NotFound`.
pub fn delete_pseudo_password(store: &mut Store, user_id: i64, pseudo_id: i64) -> (r: Result<
    (),
    VaultError,
>)
    ensures
        r == old(store)@.delete_pseudo_password_result(user_id as int, pseudo_id as int),
        final(store)@ == old(store)@.without_duress(user_id as int, pseudo_id as int),
{
    let removed = remove_row(&mut store.duress, pseudo_id, user_id);
    if removed == 0 {
        Err(VaultError::NotFound)
    } else {
        Ok(())
    }
}

} // verus!
