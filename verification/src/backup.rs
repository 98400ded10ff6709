//! Backups: a user's entries, opened, written as JSON, sealed as a whole under
//! the caller's key, and packed with the user's salt into a versioned bundle;
//! and the way back, into an account with another password.

use crate::accounts::find_user;
use crate::activity_logger::log_activity;
use crate::cipher::{decode_key, key_of_text, open, opened, seal, sealed, KEY_LEN, MAX_PLAINTEXT_LEN, NONCE_LEN};
use crate::codec::{
    base64_bytes, base64_decode, base64_encode, base64_text, text_eq, text_of, utf8_decode,
};
use crate::entries::{open_entries_of, revealed_all, BackupEntry, Fields, PlainEntry};
use crate::error::VaultError;
use crate::fake_data_generator::{decimal, decimal_text};
use crate::json::{
    all_names_distinct, field_text, get_field, json_compact, json_object, json_objects,
    json_pretty,
    lemma_written_text_at, names_distinct, parse_object, parse_objects, reads_all_as, reads_as,
    write_object, write_objects, written_text, ObjectFields,
};
use crate::entries::{seal_entry, sealable, seals_entry};
use crate::kdf::{derivation_settled, derive_key, derived_key, key_derivable};
use crate::pseudo_mode::flag_text;
use crate::store::{fresh_id, ids, lemma_models_push, models, next_id, EntryModel, Store, StoreModel, VaultEntry};
use crate::table::{owned_by, remove_owned, without_owner};
use vstd::prelude::*;
use vstd::string::StringExecFns;
use vstd::utf8::*;

verus! {

/// A backup as it is handed out: every field is text.
pub struct EncryptedBackup {
    pub version: String,
    pub timestamp: String,
    pub username: String,
    pub salt: String,
    pub encrypted_data: String,
    pub nonce: String,
}

/// Model of an [`EncryptedBackup`].
pub struct BundleModel {
    pub version: Seq<char>,
    pub timestamp: Seq<char>,
    pub username: Seq<char>,
    pub salt: Seq<char>,
    pub encrypted_data: Seq<char>,
    pub nonce: Seq<char>,
}

impl View for EncryptedBackup {
    type V = BundleModel;

    open spec fn view(&self) -> BundleModel {
        BundleModel {
            version: self.version@,
            timestamp: self.timestamp@,
            username: self.username@,
            salt: self.salt@,
            encrypted_data: self.encrypted_data@,
            nonce: self.nonce@,
        }
    }
}

/// The entries of a list without their ids.
pub open spec fn fields_of(list: Seq<PlainEntry>) -> Seq<Fields> {
    Seq::new(list.len(), |i: int| list[i].fields())
}

/// The JSON object of an entry: its four texts under their names.
pub open spec fn entry_object(entry: Fields) -> Seq<(Seq<char>, Seq<char>)> {
    seq![
        ("service"@, entry.service),
        ("login"@, entry.login),
        ("password"@, entry.password),
        ("note"@, entry.note),
    ]
}

/// The JSON objects of a list of entries.
pub open spec fn entry_objects(list: Seq<Fields>) -> Seq<Seq<(Seq<char>, Seq<char>)>> {
    Seq::new(list.len(), |i: int| entry_object(list[i]))
}

/// The JSON text of a list of entries.
pub open spec fn entries_json(list: Seq<Fields>) -> Seq<char> {
    json_compact(entry_objects(list))
}

/// The JSON object of a bundle: its six texts under their names.
pub open spec fn bundle_object(bundle: BundleModel) -> Seq<(Seq<char>, Seq<char>)> {
    seq![
        ("version"@, bundle.version),
        ("timestamp"@, bundle.timestamp),
        ("username"@, bundle.username),
        ("salt"@, bundle.salt),
        ("encrypted_data"@, bundle.encrypted_data),
        ("nonce"@, bundle.nonce),
    ]
}

/// The entry that a parsed object holds: all four texts must be there.
pub open spec fn parsed_entry(object: Seq<(Seq<char>, Option<Seq<char>>)>) -> Option<Fields> {
    match (
        field_text(object, "service"@),
        field_text(object, "login"@),
        field_text(object, "password"@),
        field_text(object, "note"@),
    ) {
        (Some(service), Some(login), Some(password), Some(note)) => Some(
            Fields { service, login, password, note },
        ),
        _ => None,
    }
}

/// The entries that a list of parsed objects holds: all of them, or `None`
/// where one object is no entry.
pub open spec fn parsed_entries(objects: Seq<Seq<(Seq<char>, Option<Seq<char>>)>>) -> Option<
    Seq<Fields>,
>
    decreases objects.len(),
{
    if objects.len() == 0 {
        Some(Seq::empty())
    } else {
        match (parsed_entries(objects.drop_last()), parsed_entry(objects.last())) {
            (Some(front), Some(last)) => Some(front.push(last)),
            _ => None,
        }
    }
}

/// The entries that a JSON text holds.
pub open spec fn entries_of_json(text: Seq<char>) -> Option<Seq<Fields>> {
    match json_objects(text) {
        Some(objects) => parsed_entries(objects),
        None => None,
    }
}

/// The bundle that a JSON text holds: all six texts must be there.
pub open spec fn bundle_of_json(text: Seq<char>) -> Option<BundleModel> {
    match json_object(text) {
        None => None,
        Some(object) => match (
            field_text(object, "version"@),
            field_text(object, "timestamp"@),
            field_text(object, "username"@),
            field_text(object, "salt"@),
            field_text(object, "encrypted_data"@),
            field_text(object, "nonce"@),
        ) {
            (
                Some(version),
                Some(timestamp),
                Some(username),
                Some(salt),
                Some(encrypted_data),
                Some(nonce),
            ) => Some(BundleModel { version, timestamp, username, salt, encrypted_data, nonce }),
            _ => None,
        },
    }
}

/// The four fields of an entry have four names.
pub proof fn lemma_entry_names_distinct(entry: Fields)
    ensures
        names_distinct(entry_object(entry)),
{
    reveal_strlit("service");
    reveal_strlit("login");
    reveal_strlit("password");
    reveal_strlit("note");
    let object = entry_object(entry);
    assert(object[0].0.len() == 7 && object[1].0.len() == 5 && object[2].0.len() == 8
        && object[3].0.len() == 4);
    assert forall|i: int, j: int| 0 <= i < j < object.len() implies (#[trigger] object[i]).0 != (
    #[trigger] object[j]).0 by {
        assert(object[i].0.len() != object[j].0.len());
    }
}

/// The six fields of a bundle have six names.
pub proof fn lemma_bundle_names_distinct(bundle: BundleModel)
    ensures
        names_distinct(bundle_object(bundle)),
{
    reveal_strlit("version");
    reveal_strlit("timestamp");
    reveal_strlit("username");
    reveal_strlit("salt");
    reveal_strlit("encrypted_data");
    reveal_strlit("nonce");
    let object = bundle_object(bundle);
    assert(object[0].0.len() == 7 && object[1].0.len() == 9 && object[2].0.len() == 8
        && object[3].0.len() == 4 && object[4].0.len() == 14 && object[5].0.len() == 5);
    assert forall|i: int, j: int| 0 <= i < j < object.len() implies (#[trigger] object[i]).0 != (
    #[trigger] object[j]).0 by {
        assert(object[i].0.len() != object[j].0.len());
    }
}

/// An object that reads as the object of an entry holds that entry.
pub proof fn lemma_entry_reads_back(read: Seq<(Seq<char>, Option<Seq<char>>)>, entry: Fields)
    requires
        reads_as(read, entry_object(entry)),
    ensures
        parsed_entry(read) == Some(entry),
{
    let written = entry_object(entry);
    lemma_entry_names_distinct(entry);
    lemma_written_text_at(written, 0);
    lemma_written_text_at(written, 1);
    lemma_written_text_at(written, 2);
    lemma_written_text_at(written, 3);
    assert(field_text(read, "service"@) == written_text(written, "service"@));
    assert(field_text(read, "login"@) == written_text(written, "login"@));
    assert(field_text(read, "password"@) == written_text(written, "password"@));
    assert(field_text(read, "note"@) == written_text(written, "note"@));
}

/// A list of objects that reads as the objects of a list of entries holds
/// those entries.
pub proof fn lemma_entries_read_back(
    read: Seq<Seq<(Seq<char>, Option<Seq<char>>)>>,
    list: Seq<Fields>,
)
    requires
        reads_all_as(read, entry_objects(list)),
    ensures
        parsed_entries(read) == Some(list),
    decreases read.len(),
{
    if read.len() == 0 {
        assert(list =~= Seq::<Fields>::empty());
    } else {
        let front = read.drop_last();
        let rest = list.drop_last();
        assert forall|i: int| 0 <= i < front.len() implies reads_as(
            #[trigger] front[i],
            entry_objects(rest)[i],
        ) by {
            assert(front[i] == read[i]);
            assert(entry_objects(rest)[i] == entry_objects(list)[i]);
        }
        lemma_entries_read_back(front, rest);
        let last = read.len() - 1;
        assert(reads_as(read[last], entry_objects(list)[last]));
        lemma_entry_reads_back(read.last(), list.last());
        assert(rest.push(list.last()) =~= list);
    }
}

/// An object that reads as the object of a bundle holds that bundle.
pub proof fn lemma_bundle_reads_back(read: Seq<(Seq<char>, Option<Seq<char>>)>, bundle: BundleModel)
    requires
        reads_as(read, bundle_object(bundle)),
    ensures
        (match (
            field_text(read, "version"@),
            field_text(read, "timestamp"@),
            field_text(read, "username"@),
            field_text(read, "salt"@),
            field_text(read, "encrypted_data"@),
            field_text(read, "nonce"@),
        ) {
            (
                Some(version),
                Some(timestamp),
                Some(username),
                Some(salt),
                Some(encrypted_data),
                Some(nonce),
            ) => bundle == (BundleModel { version, timestamp, username, salt, encrypted_data, nonce }),
            _ => false,
        }),
{
    let written = bundle_object(bundle);
    lemma_bundle_names_distinct(bundle);
    lemma_written_text_at(written, 0);
    lemma_written_text_at(written, 1);
    lemma_written_text_at(written, 2);
    lemma_written_text_at(written, 3);
    lemma_written_text_at(written, 4);
    lemma_written_text_at(written, 5);
    assert(field_text(read, "version"@) == written_text(written, "version"@));
    assert(field_text(read, "timestamp"@) == written_text(written, "timestamp"@));
    assert(field_text(read, "username"@) == written_text(written, "username"@));
    assert(field_text(read, "salt"@) == written_text(written, "salt"@));
    assert(field_text(read, "encrypted_data"@) == written_text(written, "encrypted_data"@));
    assert(field_text(read, "nonce"@) == written_text(written, "nonce"@));
}

/// One named text of a JSON object.
fn named(name: &str, text: &String) -> (pair: (String, String))
    ensures
        pair.deep_view() == (name@, text@),
{
    (name.to_owned(), text.clone())
}

/// Writes a list of entries as JSON text: an array with one object for each
/// entry. The text reads back as the list that was written.
pub fn write_entries(entries: &Vec<BackupEntry>) -> (text: String)
    ensures
        text@ == entries_json(models(entries@)),
        entries_of_json(text@) == Some(models(entries@)),
{
    let ghost list = models(entries@);
    let mut objects: Vec<ObjectFields> = Vec::new();
    let mut i: usize = 0;
    while i < entries.len()
        invariant
            i <= entries.len(),
            list == models(entries@),
            objects@.len() == i,
            forall|k: int| 0 <= k < i ==> (#[trigger] objects@[k]).deep_view() == entry_object(list[k]),
        decreases entries.len() - i,
    {
        let entry = &entries[i];
        let mut object: ObjectFields = Vec::new();
        object.push(named("service", &entry.service));
        object.push(named("login", &entry.login));
        object.push(named("password", &entry.password));
        object.push(named("note", &entry.note));
        assert(object.deep_view() =~= entry_object(entry@));
        objects.push(object);
        i = i + 1;
    }
    assert(objects.deep_view() =~= entry_objects(list));
    proof {
        assert forall|i: int| 0 <= i < entry_objects(list).len() implies names_distinct(
            #[trigger] entry_objects(list)[i],
        ) by {
            lemma_entry_names_distinct(list[i]);
        }
        assert(all_names_distinct(entry_objects(list)));
    }
    let text = write_objects(&objects).unwrap();
    proof {
        lemma_entries_read_back(json_objects(text@).unwrap(), list);
    }
    text
}

/// Reads a list of entries from JSON text: an array of objects that each
/// hold the four texts of an entry. Other fields are passed over, and a
/// field that an object gives twice counts with the value given last.
pub fn read_entries(text: &str) -> (entries: Option<Vec<BackupEntry>>)
    ensures
        match entries {
            Some(list) => entries_of_json(text@) == Some(models(list@)),
            None => entries_of_json(text@).is_none(),
        },
{
    let objects = match parse_objects(text) {
        Some(objects) => objects,
        None => {
            return None;
        },
    };
    let ghost all = objects.deep_view();
    let mut entries: Vec<BackupEntry> = Vec::new();
    let mut i: usize = 0;
    proof {
        assert(all.take(0) =~= Seq::empty());
        assert(models(entries@) =~= Seq::<Fields>::empty());
    }
    while i < objects.len()
        invariant
            i <= objects.len(),
            all == objects.deep_view(),
            all.len() == objects.len(),
            json_objects(text@) == Some(all),
            parsed_entries(all.take(i as int)) == Some(models(entries@)),
        decreases objects.len() - i,
    {
        let object = &objects[i];
        proof {
            assert(all.take(i + 1).drop_last() =~= all.take(i as int));
            assert(all.take(i + 1).last() == object.deep_view());
        }
        let service = get_field(object, "service");
        let login = get_field(object, "login");
        let password = get_field(object, "password");
        let note = get_field(object, "note");
        match (service, login, password, note) {
            (Some(service), Some(login), Some(password), Some(note)) => {
                let entry = BackupEntry { service, login, password, note };
                proof {
                    assert(models(entries@.push(entry)) =~= models(entries@).push(entry@));
                }
                entries.push(entry);
            },
            _ => {
                proof {
                    lemma_parsed_entries_prefix(all, i + 1);
                }
                return None;
            },
        }
        i = i + 1;
    }
    assert(all.take(i as int) =~= all);
    Some(entries)
}

/// Objects that are not all entries are not all entries when more follow.
pub proof fn lemma_parsed_entries_prefix(objects: Seq<Seq<(Seq<char>, Option<Seq<char>>)>>, n: int)
    requires
        0 <= n <= objects.len(),
        parsed_entries(objects.take(n)).is_none(),
    ensures
        parsed_entries(objects).is_none(),
    decreases objects.len() - n,
{
    if n < objects.len() {
        assert(objects.take(n + 1).drop_last() =~= objects.take(n));
        lemma_parsed_entries_prefix(objects, n + 1);
    } else {
        assert(objects.take(n) =~= objects);
    }
}

/// Writes a bundle as pretty-printed JSON text: one object of six texts.
/// The text reads back as the bundle that was written.
pub fn write_bundle(bundle: &EncryptedBackup) -> (text: String)
    ensures
        text@ == json_pretty(bundle_object(bundle@)),
        bundle_of_json(text@) == Some(bundle@),
{
    let mut object: ObjectFields = Vec::new();
    object.push(named("version", &bundle.version));
    object.push(named("timestamp", &bundle.timestamp));
    object.push(named("username", &bundle.username));
    object.push(named("salt", &bundle.salt));
    object.push(named("encrypted_data", &bundle.encrypted_data));
    object.push(named("nonce", &bundle.nonce));
    assert(object.deep_view() =~= bundle_object(bundle@));
    proof {
        lemma_bundle_names_distinct(bundle@);
    }
    let text = write_object(&object).unwrap();
    proof {
        lemma_bundle_reads_back(json_object(text@).unwrap(), bundle@);
    }
    text
}

/// Reads a bundle from JSON text: one object that holds the six texts of a
/// bundle. Other fields are passed over, and a field given twice counts with
/// the value given last.
pub fn read_bundle(text: &str) -> (bundle: Option<EncryptedBackup>)
    ensures
        match bundle {
            Some(b) => bundle_of_json(text@) == Some(b@),
            None => bundle_of_json(text@).is_none(),
        },
{
    let object = match parse_object(text) {
        Some(object) => object,
        None => {
            return None;
        },
    };
    let version = get_field(&object, "version");
    let timestamp = get_field(&object, "timestamp");
    let username = get_field(&object, "username");
    let salt = get_field(&object, "salt");
    let encrypted_data = get_field(&object, "encrypted_data");
    let nonce = get_field(&object, "nonce");
    match (version, timestamp, username, salt, encrypted_data, nonce) {
        (
            Some(version),
            Some(timestamp),
            Some(username),
            Some(salt),
            Some(encrypted_data),
            Some(nonce),
        ) => Some(EncryptedBackup { version, timestamp, username, salt, encrypted_data, nonce }),
        _ => None,
    }
}

/// The version that every bundle carries.
pub open spec fn bundle_version() -> Seq<char> {
    "1.0"@
}

/// Whether a bundle is a backup of the JSON text `json` under `key`: it
/// bears a stamp, names the user and the salt, and its two base64 texts hold
/// a nonce and a ciphertext that `key` opens to the text.
pub open spec fn is_backup_of(
    bundle: BundleModel,
    username: Seq<char>,
    salt: Seq<char>,
    key: Seq<u8>,
    json: Seq<char>,
) -> bool {
    &&& bundle.version == bundle_version()
    &&& crate::clock::is_stamp(bundle.timestamp)
    &&& bundle.username == username
    &&& bundle.salt == salt
    &&& base64_bytes(bundle.nonce) matches Some(nonce)
    &&& base64_bytes(bundle.encrypted_data) matches Some(ciphertext)
    &&& nonce.len() == NONCE_LEN
    &&& bundle.nonce == base64_text(nonce)
    &&& bundle.encrypted_data == base64_text(ciphertext)
    &&& sealed(key, nonce, encode_utf8(json)) == Some(ciphertext)
    &&& opened(key, nonce, ciphertext) == Some(encode_utf8(json))
}

/// The text of the event that an export leaves.
pub open spec fn export_details(count: nat) -> Seq<char> {
    "Vault exported with "@ + decimal(count) + " entries"@
}

/// The text of the event that an import leaves.
pub open spec fn import_details(count: nat, merge: bool) -> Seq<char> {
    "Imported "@ + decimal(count) + " entries (merge: "@ + flag_text(merge) + ")"@
}

/// Whether the user has an entry for this service and login.
pub open spec fn has_pair(rows: Seq<EntryModel>, user_id: int, service: Seq<char>, login: Seq<char>) -> bool {
    exists|i: int|
        0 <= i < rows.len() && (#[trigger] rows[i]).user_id == user_id && rows[i].service == service
            && rows[i].login == login
}

/// Whether a list holds an entry for this service and login.
pub open spec fn lists_pair(list: Seq<Fields>, service: Seq<char>, login: Seq<char>) -> bool {
    exists|i: int| 0 <= i < list.len() && (#[trigger] list[i]).service == service && list[i].login == login
}

/// The entries of `source` that an import takes, in their order. Without
/// merging that is all of them. With merging, an entry is passed over when
/// the user has an entry for the same service and login already, in the
/// store or from earlier in the same list.
pub open spec fn accepted(rows: Seq<EntryModel>, user_id: int, source: Seq<Fields>, merge: bool) -> Seq<
    Fields,
>
    decreases source.len(),
{
    if source.len() == 0 {
        Seq::empty()
    } else {
        let front = accepted(rows, user_id, source.drop_last(), merge);
        let last = source.last();
        if merge && (has_pair(rows, user_id, last.service, last.login) || lists_pair(
            front,
            last.service,
            last.login,
        )) {
            front
        } else {
            front.push(last)
        }
    }
}

/// Whether every entry of a list can be sealed.
pub open spec fn all_sealable(list: Seq<Fields>) -> bool {
    forall|i: int| 0 <= i < list.len() ==> sealable((#[trigger] list[i]).password, list[i].note)
}

/// The entry table that an import starts from: the table as it was, without
/// the user's entries unless merging.
pub open spec fn import_base(before: Seq<EntryModel>, user_id: int, merge: bool) -> Seq<EntryModel> {
    if merge {
        before
    } else {
        without_owner::<VaultEntry>(before, user_id)
    }
}

/// The entry with the id `first + k` and the fields of `taken[k]`.
pub open spec fn numbered(first: int, taken: Seq<Fields>, k: int) -> PlainEntry {
    PlainEntry {
        id: first + k,
        service: taken[k].service,
        login: taken[k].login,
        password: taken[k].password,
        note: taken[k].note,
    }
}

/// Whether `after` is `base` followed by one row for each entry of `taken`,
/// sealed for the user under `key` and numbered upwards from the next id of
/// `base`.
pub open spec fn extends_with(
    base: Seq<EntryModel>,
    after: Seq<EntryModel>,
    user_id: int,
    key: Seq<u8>,
    taken: Seq<Fields>,
) -> bool {
    &&& after.len() == base.len() + taken.len()
    &&& after.take(base.len() as int) == base
    &&& forall|i: int|
        base.len() <= i < after.len() ==> seals_entry(
            key,
            #[trigger] after[i],
            user_id,
            numbered(fresh_id(ids::<VaultEntry>(base)), taken, i - base.len()),
        )
}

/// Whether `after` is the entry table that importing `taken` for a user
/// leaves: the table as it was, without the user's entries unless merging,
/// followed by one row for each entry taken, sealed under `key` and numbered
/// upwards from the table's next id.
pub open spec fn imported_into(
    before: Seq<EntryModel>,
    after: Seq<EntryModel>,
    user_id: int,
    key: Seq<u8>,
    taken: Seq<Fields>,
    merge: bool,
) -> bool {
    extends_with(import_base(before, user_id, merge), after, user_id, key, taken)
}

impl StoreModel {
    /// The entries of a user as a backup carries them.
    pub open spec fn exported_entries(self, user_id: int, enc_key: Seq<char>) -> Result<
        Seq<Fields>,
        VaultError,
    > {
        match key_of_text(enc_key) {
            None => Err(VaultError::InputValidation),
            Some(key) => match revealed_all(key, owned_by::<VaultEntry>(self.entries, user_id)) {
                Some(list) => Ok(fields_of(list)),
                None => Err(VaultError::CryptoFailure),
            },
        }
    }

    /// The JSON text that an export seals.
    pub open spec fn export_plaintext(self, user_id: int, enc_key: Seq<char>) -> Result<
        Seq<char>,
        VaultError,
    > {
        if self.user_by_id(user_id).is_none() {
            Err(VaultError::NotFound)
        } else {
            match self.exported_entries(user_id, enc_key) {
                Err(e) => Err(e),
                Ok(list) => if encode_utf8(entries_json(list)).len() <= MAX_PLAINTEXT_LEN {
                    Ok(entries_json(list))
                } else {
                    Err(VaultError::CryptoFailure)
                },
            }
        }
    }

    /// The store after an export: an export that got as far as a bundle
    /// leaves an event.
    pub open spec fn export_state(self, user_id: int, enc_key: Seq<char>, stamp: Seq<char>) -> StoreModel {
        if self.export_plaintext(user_id, enc_key).is_ok() {
            self.with_log(
                user_id,
                "vault_exported"@,
                export_details(self.exported_entries(user_id, enc_key).unwrap().len()),
                stamp,
            )
        } else {
            self
        }
    }

    /// What importing a list of entries returns: how many were taken.
    pub open spec fn import_entries_result(self, user_id: int, source: Seq<Fields>, merge: bool) -> Result<
        nat,
        VaultError,
    > {
        let taken = accepted(self.entries, user_id, source, merge);
        if !all_sealable(taken) {
            Err(VaultError::CryptoFailure)
        } else if taken.len() > 0 && self.next_entry_id() + taken.len() - 1 > i64::MAX {
            Err(VaultError::StorageFailure)
        } else {
            Ok(taken.len())
        }
    }
}

/// What an import hands back, as the contracts see it.
pub open spec fn count_result(r: Result<usize, VaultError>) -> Result<nat, VaultError> {
    match r {
        Ok(n) => Ok(n as nat),
        Err(e) => Err(e),
    }
}

/// The entries that a bundle gives up to a password.
pub open spec fn backup_contents(password: Seq<char>, text: Seq<char>) -> Result<Seq<Fields>, VaultError> {
    match bundle_of_json(text) {
        None => Err(VaultError::InputValidation),
        Some(bundle) => match derived_key(password, bundle.salt) {
            None => Err(VaultError::CryptoFailure),
            Some(key) => match (base64_bytes(bundle.encrypted_data), base64_bytes(bundle.nonce)) {
                (Some(ciphertext), Some(nonce)) => if nonce.len() != NONCE_LEN {
                    Err(VaultError::InputValidation)
                } else {
                    match opened(key, nonce, ciphertext) {
                        None => Err(VaultError::CryptoFailure),
                        Some(bytes) => match text_of(bytes) {
                            None => Err(VaultError::InputValidation),
                            Some(json) => match entries_of_json(json) {
                                None => Err(VaultError::InputValidation),
                                Some(list) => Ok(list),
                            },
                        },
                    }
                },
                _ => Err(VaultError::InputValidation),
            },
        },
    }
}

/// A copy of an entry.
fn copy_entry(entry: &BackupEntry) -> (copy: BackupEntry)
    ensures
        copy@ == entry@,
{
    BackupEntry {
        service: entry.service.clone(),
        login: entry.login.clone(),
        password: entry.password.clone(),
        note: entry.note.clone(),
    }
}

/// Opens every entry of `user_id` under the key given as base64 text, and
/// returns the entries without their ids.
pub fn get_user_entries(store: &Store, user_id: i64, enc_key: &str) -> (r: Result<
    Vec<BackupEntry>,
    VaultError,
>)
    ensures
        match r {
            Ok(entries) => store@.exported_entries(user_id as int, enc_key@) == Ok::<
                Seq<Fields>,
                VaultError,
            >(models(entries@)),
            Err(e) => store@.exported_entries(user_id as int, enc_key@) == Err::<
                Seq<Fields>,
                VaultError,
            >(e),
        },
{
    let key = match decode_key(enc_key) {
        Ok(key) => key,
        Err(e) => {
            return Err(e);
        },
    };
    let opened_entries = match open_entries_of(store, key.as_slice(), user_id) {
        Ok(list) => list,
        Err(e) => {
            return Err(e);
        },
    };
    let ghost list = models(opened_entries@);
    let mut entries: Vec<BackupEntry> = Vec::new();
    let mut i: usize = 0;
    while i < opened_entries.len()
        invariant
            i <= opened_entries.len(),
            list == models(opened_entries@),
            entries@.len() == i,
            forall|k: int| 0 <= k < i ==> (#[trigger] entries@[k])@ == list[k].fields(),
        decreases opened_entries.len() - i,
    {
        let entry = &opened_entries[i];
        entries.push(
            BackupEntry {
                service: entry.service.clone(),
                login: entry.login.clone(),
                password: entry.password.clone(),
                note: entry.note.clone(),
            },
        );
        i = i + 1;
    }
    assert(models(entries@) =~= fields_of(list));
    Ok(entries)
}

/// Builds the backup bundle of a user: the user's entries, opened under the
/// caller's key, written as JSON and sealed as a whole under the same key
/// with a fresh nonce. The bundle carries the user's salt, so that the key
/// can be derived again from the master password.
pub fn build_backup(store: &mut Store, user_id: i64, username: String, enc_key: &str) -> (r: Result<
    EncryptedBackup,
    VaultError,
>)
    ensures
        match old(store)@.export_plaintext(user_id as int, enc_key@) {
            Err(e) => r matches Err(x) && x == e,
            Ok(json) => r matches Ok(bundle) && is_backup_of(
                bundle@,
                username@,
                old(store)@.user_by_id(user_id as int).unwrap().salt,
                key_of_text(enc_key@).unwrap(),
                json,
            ) && entries_of_json(json) == Some(
                old(store)@.exported_entries(user_id as int, enc_key@).unwrap(),
            ),
        },
        final(store)@ == old(store)@.export_state(
            user_id as int,
            enc_key@,
            final(store)@.log_stamp(),
        ),
{
    let at = match find_user(store, user_id) {
        Some(at) => at,
        None => {
            return Err(VaultError::NotFound);
        },
    };
    let salt = store.users[at].salt.clone();
    let entries = match get_user_entries(store, user_id, enc_key) {
        Ok(entries) => entries,
        Err(e) => {
            return Err(e);
        },
    };
    let json = write_entries(&entries);
    let key = match decode_key(enc_key) {
        Ok(key) => key,
        Err(e) => {
            return Err(e);
        },
    };
    let (nonce, ciphertext) = match seal(key.as_slice(), json.as_str().as_bytes()) {
        Ok(pair) => pair,
        Err(_) => {
            return Err(VaultError::CryptoFailure);
        },
    };
    let bundle = EncryptedBackup {
        version: "1.0".to_owned(),
        timestamp: crate::clock::current_timestamp(),
        username,
        salt,
        encrypted_data: base64_encode(ciphertext.as_slice()),
        nonce: base64_encode(nonce.as_slice()),
    };
    let mut details = "Vault exported with ".to_owned();
    details.append(decimal_text(entries.len()).as_str());
    details.append(" entries");
    let _ = log_activity(store, user_id, "vault_exported", details.as_str());
    Ok(bundle)
}

/// Whether `text` is an export of the list of entries `list` under `key`:
/// the pretty-printed JSON of a bundle that is a backup of the JSON text of
/// the list, where both texts read back as what was written.
pub open spec fn is_export_of(
    text: Seq<char>,
    username: Seq<char>,
    salt: Seq<char>,
    key: Seq<u8>,
    list: Seq<Fields>,
) -> bool {
    exists|bundle: BundleModel|
        {
            &&& text == #[trigger] json_pretty(bundle_object(bundle))
            &&& bundle_of_json(text) == Some(bundle)
            &&& is_backup_of(bundle, username, salt, key, entries_json(list))
            &&& entries_of_json(entries_json(list)) == Some(list)
        }
}

/// Exports the entries of a user as the JSON text of a backup bundle.
///
/// The export succeeds wherever the user exists, the key opens every entry
/// of the user, and the JSON text of the entries is short enough to be
/// sealed. The text handed back is then an export of those entries under
/// the key: see [`is_export_of`].
pub fn export_vault_encrypted(store: &mut Store, user_id: i64, username: String, enc_key: String) -> (r:
    Result<String, VaultError>)
    ensures
        match old(store)@.export_plaintext(user_id as int, enc_key@) {
            Err(e) => r matches Err(x) && x == e,
            Ok(json) => r matches Ok(text) && is_export_of(
                text@,
                username@,
                old(store)@.user_by_id(user_id as int).unwrap().salt,
                key_of_text(enc_key@).unwrap(),
                old(store)@.exported_entries(user_id as int, enc_key@).unwrap(),
            ),
        },
        final(store)@ == old(store)@.export_state(
            user_id as int,
            enc_key@,
            final(store)@.log_stamp(),
        ),
{
    let bundle = match build_backup(store, user_id, username, enc_key.as_str()) {
        Ok(bundle) => bundle,
        Err(e) => {
            return Err(e);
        },
    };
    let text = write_bundle(&bundle);
    assert(text@ == json_pretty(bundle_object(bundle@)));
    Ok(text)
}

/// Opens a backup bundle with the password it was made under, and returns
/// the entries it holds.
///
/// A text that is no bundle, or whose parts are not base64, is
/// `InputValidation`; a bundle that the password does not open is
/// `CryptoFailure`, whether the password is wrong or the bundle was altered.
/// So is a bundle from whose salt no key is owed: a salt that is not well
/// formed or shorter than 8 characters, or a password longer than 2^32 - 1
/// bytes.
pub fn read_backup(backup_password: &str, backup_json: &str) -> (r: Result<
    Vec<BackupEntry>,
    VaultError,
>)
    ensures
        match r {
            Ok(entries) => backup_contents(backup_password@, backup_json@) == Ok::<
                Seq<Fields>,
                VaultError,
            >(models(entries@)),
            Err(e) => backup_contents(backup_password@, backup_json@) == Err::<
                Seq<Fields>,
                VaultError,
            >(e),
        },
        bundle_of_json(backup_json@) matches Some(bundle) ==> derivation_settled(
            backup_password@,
            bundle.salt,
        ),
{
    let bundle = match read_bundle(backup_json) {
        Some(bundle) => bundle,
        None => {
            return Err(VaultError::InputValidation);
        },
    };
    let key = match derive_key(backup_password, bundle.salt.as_str()) {
        Ok(key) => key,
        Err(e) => {
            return Err(e);
        },
    };
    let ciphertext = match base64_decode(bundle.encrypted_data.as_str()) {
        Some(bytes) => bytes,
        None => {
            return Err(VaultError::InputValidation);
        },
    };
    let nonce = match base64_decode(bundle.nonce.as_str()) {
        Some(bytes) => bytes,
        None => {
            return Err(VaultError::InputValidation);
        },
    };
    if nonce.len() != NONCE_LEN {
        return Err(VaultError::InputValidation);
    }
    let bytes = match open(key.as_slice(), nonce.as_slice(), ciphertext.as_slice()) {
        Ok(bytes) => bytes,
        Err(_) => {
            return Err(VaultError::CryptoFailure);
        },
    };
    let json = match utf8_decode(bytes) {
        Some(json) => json,
        None => {
            return Err(VaultError::InputValidation);
        },
    };
    match read_entries(json.as_str()) {
        Some(entries) => Ok(entries),
        None => Err(VaultError::InputValidation),
    }
}

/// Deleting a user's rows does not raise the table's next id.
pub proof fn lemma_fresh_id_without_owner(rows: Seq<EntryModel>, user_id: int)
    ensures
        fresh_id(ids::<VaultEntry>(without_owner::<VaultEntry>(rows, user_id))) <= fresh_id(
            ids::<VaultEntry>(rows),
        ),
    decreases rows.len(),
{
    if rows.len() > 0 {
        let front = rows.drop_last();
        lemma_fresh_id_without_owner(front, user_id);
        assert(ids::<VaultEntry>(rows).drop_last() =~= ids::<VaultEntry>(front));
        if rows.last().user_id != user_id {
            let kept = without_owner::<VaultEntry>(front, user_id);
            assert(ids::<VaultEntry>(kept.push(rows.last())).drop_last() =~= ids::<VaultEntry>(kept));
        }
    }
}

/// A row numbered with the table's next id raises the next id by one.
pub proof fn lemma_fresh_id_push(rows: Seq<EntryModel>, row: EntryModel)
    requires
        row.id == fresh_id(ids::<VaultEntry>(rows)),
    ensures
        fresh_id(ids::<VaultEntry>(rows.push(row))) == row.id + 1,
{
    assert(ids::<VaultEntry>(rows.push(row)).drop_last() =~= ids::<VaultEntry>(rows));
}

/// Whether the user has an entry for this service and login.
pub fn exists_pair(store: &Store, user_id: i64, service: &str, login: &str) -> (found: bool)
    ensures
        found == has_pair(store@.entries, user_id as int, service@, login@),
{
    let mut i: usize = 0;
    while i < store.entries.len()
        invariant
            i <= store.entries.len(),
            forall|j: int|
                0 <= j < i ==> !((#[trigger] store@.entries[j]).user_id == user_id
                    && store@.entries[j].service == service@ && store@.entries[j].login == login@),
        decreases store.entries.len() - i,
    {
        let row = &store.entries[i];
        assert(store@.entries[i as int] == row@);
        if row.user_id == user_id && text_eq(row.service.as_str(), service) && text_eq(
            row.login.as_str(),
            login,
        ) {
            return true;
        }
        i = i + 1;
    }
    false
}

/// Whether a list holds an entry for this service and login.
fn holds_pair(list: &Vec<BackupEntry>, service: &str, login: &str) -> (found: bool)
    ensures
        found == lists_pair(models(list@), service@, login@),
{
    let mut i: usize = 0;
    while i < list.len()
        invariant
            i <= list.len(),
            forall|j: int|
                0 <= j < i ==> !((#[trigger] models(list@)[j]).service == service@ && models(
                    list@,
                )[j].login == login@),
        decreases list.len() - i,
    {
        let entry = &list[i];
        assert(models(list@)[i as int] == entry@);
        if text_eq(entry.service.as_str(), service) && text_eq(entry.login.as_str(), login) {
            return true;
        }
        i = i + 1;
    }
    false
}

/// Whether every entry of a list can be sealed.
fn entries_sealable(list: &Vec<BackupEntry>) -> (ok: bool)
    ensures
        ok == all_sealable(models(list@)),
{
    let mut i: usize = 0;
    while i < list.len()
        invariant
            i <= list.len(),
            forall|j: int|
                0 <= j < i ==> sealable((#[trigger] models(list@)[j]).password, models(list@)[j].note),
        decreases list.len() - i,
    {
        let entry = &list[i];
        assert(models(list@)[i as int] == entry@);
        if entry.password.as_str().as_bytes().len() as u64 > MAX_PLAINTEXT_LEN
            || entry.note.as_str().as_bytes().len() as u64 > MAX_PLAINTEXT_LEN {
            return false;
        }
        i = i + 1;
    }
    true
}

/// Seals one entry under `key` and appends it to the user's entries, without
/// leaving an event.
pub fn add_entry_internal(store: &mut Store, user_id: i64, entry: &BackupEntry, key: &[u8]) -> (r:
    Result<(), VaultError>)
    requires
        key@.len() == KEY_LEN,
    ensures
        r.is_ok() == (sealable(entry@.password, entry@.note) && old(store)@.next_entry_id()
            <= i64::MAX),
        match r {
            Ok(()) => {
                &&& final(store)@ == StoreModel {
                    entries: old(store)@.entries.push(final(store)@.entries.last()),
                    ..old(store)@
                }
                &&& seals_entry(
                    key@,
                    final(store)@.entries.last(),
                    user_id as int,
                    PlainEntry {
                        id: old(store)@.next_entry_id(),
                        service: entry@.service,
                        login: entry@.login,
                        password: entry@.password,
                        note: entry@.note,
                    },
                )
            },
            Err(e) => {
                &&& final(store)@ == old(store)@
                &&& e == if sealable(entry@.password, entry@.note) {
                    VaultError::StorageFailure
                } else {
                    VaultError::CryptoFailure
                }
            },
        },
{
    let next = next_id(&store.entries);
    let id: i64 = match next {
        Some(id) => id,
        None => 0,
    };
    let row = match seal_entry(
        key,
        id,
        user_id,
        entry.service.clone(),
        entry.login.clone(),
        entry.password.as_str(),
        entry.note.as_str(),
    ) {
        Ok(row) => row,
        Err(e) => {
            return Err(e);
        },
    };
    if next.is_none() {
        return Err(VaultError::StorageFailure);
    }
    proof {
        lemma_models_push(store.entries@, row);
    }
    store.entries.push(row);
    Ok(())
}

/// Takes from `source` what an import takes: see [`accepted`].
fn take_entries(store: &Store, user_id: i64, source: &Vec<BackupEntry>, merge: bool) -> (taken: Vec<
    BackupEntry,
>)
    ensures
        models(taken@) == accepted(store@.entries, user_id as int, models(source@), merge),
{
    let ghost all = models(source@);
    let mut taken: Vec<BackupEntry> = Vec::new();
    let mut i: usize = 0;
    proof {
        assert(all.take(0) =~= Seq::<Fields>::empty());
        assert(models(taken@) =~= Seq::<Fields>::empty());
    }
    while i < source.len()
        invariant
            i <= source.len(),
            all == models(source@),
            models(taken@) == accepted(store@.entries, user_id as int, all.take(i as int), merge),
        decreases source.len() - i,
    {
        let entry = &source[i];
        proof {
            assert(all.take(i + 1).drop_last() =~= all.take(i as int));
            assert(all.take(i + 1).last() == entry@);
        }
        let skip = merge && (exists_pair(store, user_id, entry.service.as_str(), entry.login.as_str())
            || holds_pair(&taken, entry.service.as_str(), entry.login.as_str()));
        if !skip {
            let copy = copy_entry(entry);
            proof {
                assert(models(taken@.push(copy)) =~= models(taken@).push(copy@));
            }
            taken.push(copy);
        }
        i = i + 1;
    }
    assert(all.take(i as int) =~= all);
    taken
}

/// Imports a list of entries for `user_id`, sealed anew under `key`.
///
/// Without merging, the user's entries are deleted first and every entry of
/// the list is taken. With merging, the user's entries stay, and an entry of
/// the list is passed over when the user already has one for the same
/// service and login. The import is whole: where an entry cannot be sealed,
/// or the ids above the greatest id in use before the import do not
/// suffice, nothing changes.
pub fn import_entries(store: &mut Store, user_id: i64, key: &[u8], source: &Vec<BackupEntry>, merge: bool) -> (r:
    Result<usize, VaultError>)
    requires
        key@.len() == KEY_LEN,
    ensures
        count_result(r) == old(store)@.import_entries_result(user_id as int, models(source@), merge),
        r.is_err() ==> final(store)@ == old(store)@,
        r matches Ok(count) ==> {
            &&& imported_into(
                old(store)@.entries,
                final(store)@.entries,
                user_id as int,
                key@,
                accepted(old(store)@.entries, user_id as int, models(source@), merge),
                merge,
            )
            &&& final(store)@ == StoreModel { entries: final(store)@.entries, ..old(store)@ }.with_log(
                user_id as int,
                "vault_imported"@,
                import_details(count as nat, merge),
                final(store)@.log_stamp(),
            )
        },
{
    let taken = take_entries(store, user_id, source, merge);
    if !entries_sealable(&taken) {
        return Err(VaultError::CryptoFailure);
    }
    proof {
        crate::store::lemma_fresh_id_above(ids::<VaultEntry>(store@.entries));
    }
    if taken.len() > 0 {
        match next_id(&store.entries) {
            None => {
                return Err(VaultError::StorageFailure);
            },
            Some(next) => {
                if (taken.len() - 1) as u128 > (i64::MAX - next) as u128 {
                    return Err(VaultError::StorageFailure);
                }
            },
        }
    }
    let ghost start = store@;
    let ghost list = models(taken@);
    proof {
        lemma_fresh_id_without_owner(start.entries, user_id as int);
        crate::store::lemma_fresh_id_above(ids::<VaultEntry>(start.entries));
    }
    if !merge {
        let _ = remove_owned(&mut store.entries, user_id);
    }
    let ghost base = store@.entries;
    let ghost first = fresh_id(ids::<VaultEntry>(base));
    let mut k: usize = 0;
    proof {
        assert(base.take(base.len() as int) =~= base);
        crate::store::lemma_fresh_id_above(ids::<VaultEntry>(base));
    }
    while k < taken.len()
        invariant
            k <= taken.len(),
            key@.len() == KEY_LEN,
            list == models(taken@),
            all_sealable(list),
            first >= 1,
            taken.len() > 0 ==> first + taken.len() - 1 <= i64::MAX,
            store@ == (StoreModel { entries: store@.entries, ..start }),
            store@.entries.len() == base.len() + k,
            store@.entries.take(base.len() as int) == base,
            fresh_id(ids::<VaultEntry>(store@.entries)) == first + k,
            first == fresh_id(ids::<VaultEntry>(base)),
            forall|i: int|
                base.len() <= i < base.len() + k ==> seals_entry(
                    key@,
                    #[trigger] store@.entries[i],
                    user_id as int,
                    numbered(first, list, i - base.len()),
                ),
        decreases taken.len() - k,
    {
        let ghost cur = store@.entries;
        let entry = &taken[k];
        assert(list[k as int] == entry@);
        match add_entry_internal(store, user_id, entry, key) {
            Ok(()) => {},
            Err(e) => {
                // Every entry taken can be sealed and the ids suffice: both
                // were checked before the first row was touched.
                assert(false);
                return Err(e);
            },
        }
        proof {
            let row = store@.entries.last();
            assert(store@.entries == cur.push(row));
            lemma_fresh_id_push(cur, row);
            assert(store@.entries.take(base.len() as int) =~= cur.take(base.len() as int));
            assert forall|i: int| base.len() <= i < base.len() + k + 1 implies seals_entry(
                key@,
                #[trigger] store@.entries[i],
                user_id as int,
                numbered(first, list, i - base.len()),
            ) by {
                if i < base.len() + k {
                    assert(store@.entries[i] == cur[i]);
                }
            }
        }
        k = k + 1;
    }
    let mut details = "Imported ".to_owned();
    details.append(decimal_text(taken.len()).as_str());
    details.append(" entries (merge: ");
    details.append(if merge {
        "true"
    } else {
        "false"
    });
    details.append(")");
    let ghost after = store@.entries;
    let _ = log_activity(store, user_id, "vault_imported", details.as_str());
    assert(store@.entries == after);
    Ok(taken.len())
}

impl StoreModel {
    /// The entries that an import reads from a bundle, once the user is found
    /// and the user's key is derived.
    pub open spec fn import_source(
        self,
        user_id: int,
        current_password: Seq<char>,
        backup_password: Seq<char>,
        backup_json: Seq<char>,
    ) -> Result<Seq<Fields>, VaultError> {
        match self.user_by_id(user_id) {
            None => Err(VaultError::NotFound),
            Some(user) => if derived_key(current_password, user.salt).is_none() {
                Err(VaultError::CryptoFailure)
            } else {
                backup_contents(backup_password, backup_json)
            },
        }
    }

    /// What importing a bundle returns: how many entries were taken.
    pub open spec fn import_result(
        self,
        user_id: int,
        current_password: Seq<char>,
        backup_password: Seq<char>,
        backup_json: Seq<char>,
        merge: bool,
    ) -> Result<nat, VaultError> {
        match self.import_source(user_id, current_password, backup_password, backup_json) {
            Err(e) => Err(e),
            Ok(source) => self.import_entries_result(user_id, source, merge),
        }
    }
}

/// Imports a backup bundle into the account of `user_id`.
///
/// The bundle is opened with the key derived from `backup_password` and the
/// salt that the bundle carries; its entries are sealed anew under the key
/// derived from `current_user_password` and the user's own salt. A bundle
/// that the backup password does not open is `CryptoFailure`, and nothing
/// changes. What is taken, and what a successful import leaves, is said by
/// [`import_entries`].
pub fn import_vault_with_password(
    store: &mut Store,
    user_id: i64,
    current_user_password: String,
    backup_password: String,
    backup_json: String,
    merge: bool,
) -> (r: Result<usize, VaultError>)
    ensures
        count_result(r) == old(store)@.import_result(
            user_id as int,
            current_user_password@,
            backup_password@,
            backup_json@,
            merge,
        ),
        r.is_err() ==> final(store)@ == old(store)@,
        r matches Ok(count) ==> {
            let source = old(store)@.import_source(
                user_id as int,
                current_user_password@,
                backup_password@,
                backup_json@,
            ).unwrap();
            let key = derived_key(
                current_user_password@,
                old(store)@.user_by_id(user_id as int).unwrap().salt,
            ).unwrap();
            &&& imported_into(
                old(store)@.entries,
                final(store)@.entries,
                user_id as int,
                key,
                accepted(old(store)@.entries, user_id as int, source, merge),
                merge,
            )
            &&& final(store)@ == StoreModel { entries: final(store)@.entries, ..old(store)@ }.with_log(
                user_id as int,
                "vault_imported"@,
                import_details(count as nat, merge),
                final(store)@.log_stamp(),
            )
        },
        old(store)@.user_by_id(user_id as int) matches Some(user) ==> {
            &&& derivation_settled(current_user_password@, user.salt)
            &&& key_derivable(current_user_password@, user.salt) ==> (bundle_of_json(
                backup_json@,
            ) matches Some(bundle) ==> derivation_settled(backup_password@, bundle.salt))
        },
{
    let at = match find_user(store, user_id) {
        Some(at) => at,
        None => {
            return Err(VaultError::NotFound);
        },
    };
    let key = match derive_key(current_user_password.as_str(), store.users[at].salt.as_str()) {
        Ok(key) => key,
        Err(e) => {
            return Err(e);
        },
    };
    let source = match read_backup(backup_password.as_str(), backup_json.as_str()) {
        Ok(source) => source,
        Err(e) => {
            return Err(e);
        },
    };
    import_entries(store, user_id, key.as_slice(), &source, merge)
}

} // verus!
