//! Photos taken at failed logins: kept sealed under a key of the account,
//! shown to the owner only, and never in a duress session.

use crate::accounts::find_user_named;
use crate::activity_logger::is_user_in_pseudo_mode;
use crate::clock::{current_timestamp, is_stamp};
use crate::cipher::{open, opened, seal, is_sealing, KEY_LEN, MAX_PLAINTEXT_LEN};
use crate::codec::{base64_bytes, base64_decode, base64_encode, base64_text, text_of, utf8_decode};
use crate::error::VaultError;
use crate::store::{
    fresh_id, ids, lemma_models_push, models, next_id, PhotoModel, SecuritySetting, Store,
    StoreModel, StoredPhoto,
};
use crate::table::{find_owned, first_owned, first_row, remove_owned, remove_row, without_owner, without_row};
use sha2::{Digest, Sha256};
use vstd::bytes::{spec_u64_to_le_bytes, u64_to_le_bytes};
use vstd::prelude::*;
use vstd::slice::slice_to_vec;
use vstd::string::StringExecFns;
use vstd::utf8::*;

verus! {

/// A photo as its owner sees it: opened, and written as a data address.
#[derive(Debug)]
pub struct FailedLoginPhoto {
    pub id: i64,
    pub user_id: i64,
    pub photo_data: String,
    pub timestamp: String,
    pub username_attempt: String,
}

/// Model of a [`FailedLoginPhoto`].
pub struct ShownPhoto {
    pub id: int,
    pub user_id: int,
    pub photo_data: Seq<char>,
    pub timestamp: Seq<char>,
    pub username_attempt: Seq<char>,
}

impl View for FailedLoginPhoto {
    type V = ShownPhoto;

    open spec fn view(&self) -> ShownPhoto {
        ShownPhoto {
            id: self.id as int,
            user_id: self.user_id as int,
            photo_data: self.photo_data@,
            timestamp: self.timestamp@,
            username_attempt: self.username_attempt@,
        }
    }
}

/// The SHA-256 digest of a byte string, as the sha2 crate computes it.
pub uninterp spec fn sha256_digest(data: Seq<u8>) -> Seq<u8>;

/// Calls `Sha256::digest` of the sha2 crate.
///
/// Trusted: the digest is a function of the data alone and has 32 bytes.
#[verifier::external_body]
fn sha256(data: &[u8]) -> (digest: Vec<u8>)
    ensures
        digest@ == sha256_digest(data@),
        digest@.len() == 32,
{
    Sha256::digest(data).to_vec()
}

/// The comma, as a byte.
pub const COMMA: u8 = 0x2C;

/// The position of the first comma at or after `from`, and the length of the
/// bytes where there is none.
pub open spec fn first_comma(bytes: Seq<u8>, from: int) -> int
    decreases bytes.len() - from,
{
    if from >= bytes.len() {
        bytes.len() as int
    } else if bytes[from] == COMMA {
        from
    } else {
        first_comma(bytes, from + 1)
    }
}

/// The payload of a data address: what stands between the first comma and
/// the second, or the end; and all of it where there is no comma.
pub open spec fn payload(bytes: Seq<u8>) -> Seq<u8> {
    let start = first_comma(bytes, 0);
    if start >= bytes.len() {
        bytes
    } else {
        bytes.subrange(start + 1, first_comma(bytes, start + 1))
    }
}

/// The key that the photos of a user are sealed under: the digest of a fixed
/// label followed by the user's id in eight little-endian bytes.
pub open spec fn photo_key(user_id: i64) -> Seq<u8> {
    sha256_digest(encode_utf8("photo_encryption_key_v1_"@) + spec_u64_to_le_bytes(user_id as u64))
}

/// The photo that a stored row shows where it opens under the user's key.
pub open spec fn shown(row: PhotoModel, key: Seq<u8>) -> Option<ShownPhoto> {
    match opened(key, row.photo_nonce, row.encrypted_photo) {
        Some(bytes) => Some(
            ShownPhoto {
                id: row.id,
                user_id: row.user_id,
                photo_data: "data:image/jpeg;base64,"@ + base64_text(bytes),
                timestamp: row.timestamp,
                username_attempt: row.username_attempt,
            },
        ),
        None => None,
    }
}

/// The photos of a user that open under `key`, newest first. A row that does
/// not open is passed over.
pub open spec fn shown_newest_first(rows: Seq<PhotoModel>, user_id: int, key: Seq<u8>) -> Seq<ShownPhoto>
    decreases rows.len(),
{
    if rows.len() == 0 {
        Seq::empty()
    } else if rows.last().user_id == user_id && shown(rows.last(), key).is_some() {
        seq![shown(rows.last(), key).unwrap()] + shown_newest_first(rows.drop_last(), user_id, key)
    } else {
        shown_newest_first(rows.drop_last(), user_id, key)
    }
}

impl StoreModel {
    /// Whether failed logins of the user are photographed. They are not
    /// where nothing was set.
    pub open spec fn photo_setting(self, user_id: int) -> bool {
        match first_owned::<SecuritySetting>(self.security, user_id) {
            Some(i) => self.security[i].photo_on_failed_login,
            None => false,
        }
    }

    /// The store with the photo setting of a user replaced.
    pub open spec fn with_photo_setting(self, user_id: i64, enabled: bool) -> StoreModel {
        StoreModel {
            security: without_owner::<SecuritySetting>(self.security, user_id as int).push(
                SecuritySetting { user_id, photo_on_failed_login: enabled },
            ),
            ..self
        }
    }

    /// The id that the next photo gets.
    pub open spec fn next_photo_id(self) -> int {
        fresh_id(ids::<StoredPhoto>(self.photos))
    }

    /// The bytes of the photo in a data address.
    pub open spec fn photo_bytes(photo_data: Seq<char>) -> Option<Seq<u8>> {
        match text_of(payload(encode_utf8(photo_data))) {
            Some(text) => base64_bytes(text),
            None => None,
        }
    }

    /// Whether a photo is stored for a failed login at this username.
    pub open spec fn stores_photo(self, username: Seq<char>, photo_data: Seq<char>) -> bool {
        self.save_photo_result(username, photo_data).is_ok() && self.photo_setting(
            self.user_named(username).unwrap().id,
        )
    }

    /// What saving a photo returns. A user who has the photos switched off
    /// is served without a photo being stored.
    pub open spec fn save_photo_result(self, username: Seq<char>, photo_data: Seq<char>) -> Result<
        (),
        VaultError,
    > {
        match self.user_named(username) {
            None => Err(VaultError::NotFound),
            Some(user) => if !self.photo_setting(user.id) {
                Ok(())
            } else {
                match Self::photo_bytes(photo_data) {
                    None => Err(VaultError::InputValidation),
                    Some(bytes) => if bytes.len() > MAX_PLAINTEXT_LEN {
                        Err(VaultError::CryptoFailure)
                    } else if self.next_photo_id() > i64::MAX {
                        Err(VaultError::StorageFailure)
                    } else {
                        Ok(())
                    },
                }
            },
        }
    }

    /// The photos that a user is shown: none in a duress session.
    pub open spec fn failed_login_photos(self, user_id: i64) -> Seq<ShownPhoto> {
        if self.in_duress_mode(user_id as int) {
            Seq::empty()
        } else {
            shown_newest_first(self.photos, user_id as int, photo_key(user_id))
        }
    }

    /// What deleting a photo returns.
    pub open spec fn delete_photo_result(self, photo_id: int, user_id: int) -> Result<(), VaultError> {
        if first_row::<StoredPhoto>(self.photos, photo_id, user_id).is_some() {
            Ok(())
        } else {
            Err(VaultError::NotFound)
        }
    }

    /// The store without the photo `photo_id` of a user.
    pub open spec fn without_photo(self, photo_id: int, user_id: int) -> StoreModel {
        StoreModel { photos: without_row::<StoredPhoto>(self.photos, photo_id, user_id), ..self }
    }

    /// What asking for the photo setting of a username returns.
    pub open spec fn photo_setting_of(self, username: Seq<char>) -> Result<bool, VaultError> {
        match self.user_named(username) {
            Some(user) => Ok(self.photo_setting(user.id)),
            None => Err(VaultError::NotFound),
        }
    }
}

/// Derives the key that the photos of `user_id` are sealed under.
pub fn get_encryption_key(user_id: i64) -> (key: Vec<u8>)
    ensures
        key@ == photo_key(user_id),
        key@.len() == KEY_LEN,
{
    let mut data = slice_to_vec("photo_encryption_key_v1_".as_bytes());
    let mut id_bytes = u64_to_le_bytes(#[verifier::truncate] (user_id as u64));
    data.append(&mut id_bytes);
    sha256(data.as_slice())
}

/// Finds the first comma at or after `from`.
fn find_comma(bytes: &[u8], from: usize) -> (at: usize)
    requires
        from <= bytes@.len(),
    ensures
        at == first_comma(bytes@, from as int),
        from <= at <= bytes@.len(),
{
    let mut at: usize = from;
    while at < bytes.len() && bytes[at] != COMMA
        invariant
            from <= at <= bytes@.len(),
            first_comma(bytes@, from as int) == first_comma(bytes@, at as int),
        decreases bytes@.len() - at,
    {
        at = at + 1;
    }
    at
}

/// Cuts the payload out of a data address.
fn payload_of(photo_data: &str) -> (bytes: Vec<u8>)
    ensures
        bytes@ == payload(encode_utf8(photo_data@)),
{
    let all = photo_data.as_bytes();
    let start = find_comma(all, 0);
    if start >= all.len() {
        return slice_to_vec(all);
    }
    let end = find_comma(all, start + 1);
    let mut bytes: Vec<u8> = Vec::new();
    let mut i: usize = start + 1;
    while i < end
        invariant
            start + 1 <= i <= end <= all@.len(),
            bytes@ == all@.subrange(start + 1, i as int),
        decreases end - i,
    {
        bytes.push(all[i]);
        assert(bytes@ =~= all@.subrange(start + 1, i + 1));
        i = i + 1;
    }
    bytes
}

/// Stores the photo of a failed login at `username`, sealed under the key of
/// that account, where the account has the photos switched on. The photo is
/// given as a data address or as bare base64.
pub fn save_failed_login_photo(
    store: &mut Store,
    username: String,
    photo_data: String,
    username_attempt: String,
) -> (r: Result<(), VaultError>)
    ensures
        r == old(store)@.save_photo_result(username@, photo_data@),
        !old(store)@.stores_photo(username@, photo_data@) ==> final(store)@ == old(store)@,
        old(store)@.stores_photo(username@, photo_data@) ==> {
            let row = final(store)@.photos.last();
            let user_id = old(store)@.user_named(username@).unwrap().id;
            &&& final(store)@ == StoreModel { photos: old(store)@.photos.push(row), ..old(store)@ }
            &&& row.id == old(store)@.next_photo_id()
            &&& row.user_id == user_id
            &&& row.username_attempt == username_attempt@
            &&& is_stamp(row.timestamp)
            &&& is_sealing(
                photo_key(user_id as i64),
                StoreModel::photo_bytes(photo_data@).unwrap(),
                row.photo_nonce,
                row.encrypted_photo,
            )
        },
{
    let at = match find_user_named(store, username.as_str()) {
        Some(at) => at,
        None => {
            return Err(VaultError::NotFound);
        },
    };
    let user_id = store.users[at].id;
    if !get_photo_setting(store, user_id) {
        return Ok(());
    }
    let text = match utf8_decode(payload_of(photo_data.as_str())) {
        Some(text) => text,
        None => {
            return Err(VaultError::InputValidation);
        },
    };
    let photo = match base64_decode(text.as_str()) {
        Some(photo) => photo,
        None => {
            return Err(VaultError::InputValidation);
        },
    };
    let key = get_encryption_key(user_id);
    let (photo_nonce, encrypted_photo) = match seal(key.as_slice(), photo.as_slice()) {
        Ok(pair) => pair,
        Err(_) => {
            return Err(VaultError::CryptoFailure);
        },
    };
    let id = match next_id(&store.photos) {
        Some(id) => id,
        None => {
            return Err(VaultError::StorageFailure);
        },
    };
    let row = StoredPhoto {
        id,
        user_id,
        encrypted_photo,
        photo_nonce,
        timestamp: current_timestamp(),
        username_attempt,
    };
    proof {
        lemma_models_push(store.photos@, row);
    }
    store.photos.push(row);
    Ok(())
}

/// Reads the photos of `user_id`, newest first, each opened and written as a
/// data address. A row that does not open is passed over. A duress session
/// reads no photos.
pub fn get_failed_login_photos(store: &Store, user_id: i64) -> (photos: Vec<FailedLoginPhoto>)
    ensures
        models(photos@) == store@.failed_login_photos(user_id),
{
    let mut photos: Vec<FailedLoginPhoto> = Vec::new();
    if is_user_in_pseudo_mode(store, user_id) {
        assert(models(photos@) =~= Seq::<ShownPhoto>::empty());
        return photos;
    }
    let key = get_encryption_key(user_id);
    let ghost all = store@.photos;
    let ghost wanted = shown_newest_first(all, user_id as int, key@);
    let mut i: usize = store.photos.len();
    proof {
        assert(all.take(i as int) =~= all);
        assert(models(photos@) + wanted =~= wanted);
    }
    while i > 0
        invariant
            i <= store.photos.len(),
            all == store@.photos,
            key@.len() == KEY_LEN,
            wanted == models(photos@) + shown_newest_first(all.take(i as int), user_id as int, key@),
        decreases i,
    {
        let row = &store.photos[i - 1];
        proof {
            let prefix = all.take(i as int);
            assert(prefix.last() == row@);
            assert(prefix.drop_last() =~= all.take(i - 1));
        }
        if row.user_id == user_id {
            match open(key.as_slice(), row.photo_nonce.as_slice(), row.encrypted_photo.as_slice()) {
                Ok(bytes) => {
                    let mut photo_data = "data:image/jpeg;base64,".to_owned();
                    photo_data.append(base64_encode(bytes.as_slice()).as_str());
                    let photo = FailedLoginPhoto {
                        id: row.id,
                        user_id: row.user_id,
                        photo_data,
                        timestamp: row.timestamp.clone(),
                        username_attempt: row.username_attempt.clone(),
                    };
                    proof {
                        assert(photo@ == shown(row@, key@).unwrap());
                        assert(models(photos@.push(photo)) + shown_newest_first(
                            all.take(i - 1),
                            user_id as int,
                            key@,
                        ) =~= models(photos@) + (seq![photo@] + shown_newest_first(
                            all.take(i - 1),
                            user_id as int,
                            key@,
                        )));
                    }
                    photos.push(photo);
                },
                Err(_) => {},
            }
        }
        i = i - 1;
    }
    proof {
        assert(all.take(0) =~= Seq::<PhotoModel>::empty());
        assert(models(photos@) + Seq::<ShownPhoto>::empty() =~= models(photos@));
    }
    photos
}

/// Deletes the photo `photo_id` of `user_id`. An id that is not a photo of
/// the user is `NotFound`.
pub fn delete_failed_login_photo(store: &mut Store, photo_id: i64, user_id: i64) -> (r: Result<
    (),
    VaultError,
>)
    ensures
        r == old(store)@.delete_photo_result(photo_id as int, user_id as int),
        final(store)@ == old(store)@.without_photo(photo_id as int, user_id as int),
{
    let removed = remove_row(&mut store.photos, photo_id, user_id);
    if removed == 0 {
        Err(VaultError::NotFound)
    } else {
        Ok(())
    }
}

/// Switches the photos at failed logins of `user_id` on or off.
pub fn update_photo_setting(store: &mut Store, user_id: i64, enabled: bool)
    ensures
        final(store)@ == old(store)@.with_photo_setting(user_id, enabled),
{
    let _ = remove_owned(&mut store.security, user_id);
    let row = SecuritySetting { user_id, photo_on_failed_login: enabled };
    proof {
        lemma_models_push(store.security@, row);
    }
    store.security.push(row);
}

/// Whether failed logins of `user_id` are photographed.
pub fn get_photo_setting(store: &Store, user_id: i64) -> (enabled: bool)
    ensures
        enabled == store@.photo_setting(user_id as int),
{
    match find_owned(&store.security, user_id) {
        Some(at) => store.security[at].photo_on_failed_login,
        None => false,
    }
}

/// Whether failed logins at `username` are photographed. An unknown username
/// is `NotFound`.
pub fn is_photo_setting_enabled_for_username(store: &Store, username: String) -> (r: Result<
    bool,
    VaultError,
>)
    ensures
        r == store@.photo_setting_of(username@),
{
    match find_user_named(store, username.as_str()) {
        Some(at) => Ok(get_photo_setting(store, store.users[at].id)),
        None => Err(VaultError::NotFound),
    }
}

} // verus!
