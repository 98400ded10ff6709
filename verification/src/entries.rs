//! Entries in the clear and sealed: what a caller reads and writes, and how a
//! stored row opens under a key.

use crate::cipher::{open, opened, seal, sealed, KEY_LEN, MAX_PLAINTEXT_LEN, NONCE_LEN};
use crate::codec::{lemma_text_round_trip, text_of, utf8_decode};
use crate::error::VaultError;
use crate::store::{models, EntryModel, Store, VaultEntry};
use crate::table::owned_by;
use vstd::prelude::*;
use vstd::utf8::*;

verus! {

/// An entry as its owner sees it.
pub struct Entry {
    pub id: i64,
    pub service: String,
    pub login: String,
    pub password: String,
    pub note: String,
}

/// An entry as a backup carries it: without an id.
pub struct BackupEntry {
    pub service: String,
    pub login: String,
    pub password: String,
    pub note: String,
}

/// Model of an [`Entry`].
pub struct PlainEntry {
    pub id: int,
    pub service: Seq<char>,
    pub login: Seq<char>,
    pub password: Seq<char>,
    pub note: Seq<char>,
}

/// Model of a [`BackupEntry`]: service, login, password and note.
pub struct Fields {
    pub service: Seq<char>,
    pub login: Seq<char>,
    pub password: Seq<char>,
    pub note: Seq<char>,
}

impl View for Entry {
    type V = PlainEntry;

    open spec fn view(&self) -> PlainEntry {
        PlainEntry {
            id: self.id as int,
            service: self.service@,
            login: self.login@,
            password: self.password@,
            note: self.note@,
        }
    }
}

impl View for BackupEntry {
    type V = Fields;

    open spec fn view(&self) -> Fields {
        Fields {
            service: self.service@,
            login: self.login@,
            password: self.password@,
            note: self.note@,
        }
    }
}

impl PlainEntry {
    /// The entry without its id.
    pub open spec fn fields(self) -> Fields {
        Fields { service: self.service, login: self.login, password: self.password, note: self.note }
    }
}

/// The text that a sealed field opens to under `key`: `None` where the
/// ciphertext does not open, or opens to bytes that are not UTF-8.
pub open spec fn field_text(key: Seq<u8>, nonce: Seq<u8>, ciphertext: Seq<u8>) -> Option<Seq<char>> {
    match opened(key, nonce, ciphertext) {
        Some(bytes) => text_of(bytes),
        None => None,
    }
}

/// The entry that a stored row opens to under `key`.
pub open spec fn revealed(key: Seq<u8>, row: EntryModel) -> Option<PlainEntry> {
    match (
        field_text(key, row.password_nonce, row.enc_password),
        field_text(key, row.note_nonce, row.enc_note),
    ) {
        (Some(password), Some(note)) => Some(
            PlainEntry { id: row.id, service: row.service, login: row.login, password, note },
        ),
        _ => None,
    }
}

/// The entries that the rows open to under `key`, in their order: all of
/// them, or `None` where one does not open.
pub open spec fn revealed_all(key: Seq<u8>, rows: Seq<EntryModel>) -> Option<Seq<PlainEntry>>
    decreases rows.len(),
{
    if rows.len() == 0 {
        Some(Seq::empty())
    } else {
        match (revealed_all(key, rows.drop_last()), revealed(key, rows.last())) {
            (Some(front), Some(last)) => Some(front.push(last)),
            _ => None,
        }
    }
}

/// Whether a field is sealed text: a ciphertext of `text` under `key` and a
/// 12-byte nonce, which therefore opens to `text` again.
pub open spec fn seals_text(key: Seq<u8>, nonce: Seq<u8>, ciphertext: Seq<u8>, text: Seq<char>) -> bool {
    &&& nonce.len() == NONCE_LEN
    &&& sealed(key, nonce, encode_utf8(text)) == Some(ciphertext)
    &&& opened(key, nonce, ciphertext) == Some(encode_utf8(text))
}

/// Whether a stored row is the sealing of an entry under `key`.
pub open spec fn seals_entry(key: Seq<u8>, row: EntryModel, user_id: int, entry: PlainEntry) -> bool {
    &&& row.id == entry.id
    &&& row.user_id == user_id
    &&& row.service == entry.service
    &&& row.login == entry.login
    &&& seals_text(key, row.password_nonce, row.enc_password, entry.password)
    &&& seals_text(key, row.note_nonce, row.enc_note, entry.note)
}

/// Whether both texts of an entry are short enough to be sealed.
pub open spec fn sealable(password: Seq<char>, note: Seq<char>) -> bool {
    encode_utf8(password).len() <= MAX_PLAINTEXT_LEN && encode_utf8(note).len() <= MAX_PLAINTEXT_LEN
}

/// A row that seals an entry opens to that entry.
pub proof fn lemma_sealed_entry_opens(key: Seq<u8>, row: EntryModel, user_id: int, entry: PlainEntry)
    requires
        seals_entry(key, row, user_id, entry),
    ensures
        revealed(key, row) == Some(entry),
        opened(key, row.password_nonce, row.enc_password).is_some(),
{
    lemma_text_round_trip(entry.password);
    lemma_text_round_trip(entry.note);
}

/// Seals one text under `key` with a fresh nonce; gives nonce and ciphertext.
pub fn seal_text(key: &[u8], text: &str) -> (r: Result<(Vec<u8>, Vec<u8>), VaultError>)
    requires
        key@.len() == KEY_LEN,
    ensures
        r.is_ok() == (encode_utf8(text@).len() <= MAX_PLAINTEXT_LEN),
        match r {
            Ok((nonce, ciphertext)) => seals_text(key@, nonce@, ciphertext@, text@),
            Err(e) => e == VaultError::CryptoFailure,
        },
{
    seal(key, text.as_bytes())
}

/// Seals an entry of `user_id` under `key` into a row with the id `id`, each
/// of password and note under a fresh nonce of its own.
pub fn seal_entry(
    key: &[u8],
    id: i64,
    user_id: i64,
    service: String,
    login: String,
    password: &str,
    note: &str,
) -> (r: Result<VaultEntry, VaultError>)
    requires
        key@.len() == KEY_LEN,
    ensures
        r.is_ok() == sealable(password@, note@),
        match r {
            Ok(row) => seals_entry(
                key@,
                row@,
                user_id as int,
                PlainEntry {
                    id: id as int,
                    service: service@,
                    login: login@,
                    password: password@,
                    note: note@,
                },
            ),
            Err(e) => e == VaultError::CryptoFailure,
        },
{
    let (password_nonce, enc_password) = match seal_text(key, password) {
        Ok(pair) => pair,
        Err(e) => {
            return Err(e);
        },
    };
    let (note_nonce, enc_note) = match seal_text(key, note) {
        Ok(pair) => pair,
        Err(e) => {
            return Err(e);
        },
    };
    Ok(VaultEntry { id, user_id, service, login, enc_password, password_nonce, enc_note, note_nonce })
}

/// Opens one sealed field to its text. A field that does not open, or that
/// opens to bytes that are not UTF-8, is `CryptoFailure`.
pub fn open_text(key: &[u8], nonce: &[u8], ciphertext: &[u8]) -> (r: Result<String, VaultError>)
    requires
        key@.len() == KEY_LEN,
    ensures
        match r {
            Ok(text) => field_text(key@, nonce@, ciphertext@) == Some(text@),
            Err(e) => e == VaultError::CryptoFailure && field_text(key@, nonce@, ciphertext@).is_none(),
        },
{
    match open(key, nonce, ciphertext) {
        Ok(bytes) => match utf8_decode(bytes) {
            Some(text) => Ok(text),
            None => Err(VaultError::CryptoFailure),
        },
        Err(_) => Err(VaultError::CryptoFailure),
    }
}

/// Opens a stored row to the entry it seals.
pub fn open_entry(key: &[u8], row: &VaultEntry) -> (r: Result<Entry, VaultError>)
    requires
        key@.len() == KEY_LEN,
    ensures
        match r {
            Ok(entry) => revealed(key@, row@) == Some(entry@),
            Err(e) => e == VaultError::CryptoFailure && revealed(key@, row@).is_none(),
        },
{
    let password = match open_text(key, row.password_nonce.as_slice(), row.enc_password.as_slice()) {
        Ok(text) => text,
        Err(e) => {
            return Err(e);
        },
    };
    let note = match open_text(key, row.note_nonce.as_slice(), row.enc_note.as_slice()) {
        Ok(text) => text,
        Err(e) => {
            return Err(e);
        },
    };
    Ok(Entry { id: row.id, service: row.service.clone(), login: row.login.clone(), password, note })
}

/// Rows that do not all open do not all open when more rows follow.
pub proof fn lemma_revealed_all_prefix(key: Seq<u8>, rows: Seq<EntryModel>, user_id: int, n: int)
    requires
        0 <= n <= rows.len(),
        revealed_all(key, owned_by::<VaultEntry>(rows.take(n), user_id)).is_none(),
    ensures
        revealed_all(key, owned_by::<VaultEntry>(rows, user_id)).is_none(),
    decreases rows.len() - n,
{
    if n < rows.len() {
        assert(rows.take(n + 1).drop_last() =~= rows.take(n));
        let next = owned_by::<VaultEntry>(rows.take(n + 1), user_id);
        if rows.take(n + 1).last().user_id == user_id {
            assert(next.drop_last() =~= owned_by::<VaultEntry>(rows.take(n), user_id));
        }
        lemma_revealed_all_prefix(key, rows, user_id, n + 1);
    } else {
        assert(rows.take(n) =~= rows);
    }
}

/// Opens every entry of `user_id` under `key`, in the order of the table. One
/// row that does not open fails the whole read with `CryptoFailure`.
pub fn open_entries_of(store: &Store, key: &[u8], user_id: i64) -> (r: Result<Vec<Entry>, VaultError>)
    requires
        key@.len() == KEY_LEN,
    ensures
        match r {
            Ok(entries) => revealed_all(
                key@,
                owned_by::<VaultEntry>(store@.entries, user_id as int),
            ) == Some(models(entries@)),
            Err(e) => e == VaultError::CryptoFailure && revealed_all(
                key@,
                owned_by::<VaultEntry>(store@.entries, user_id as int),
            ).is_none(),
        },
{
    let ghost all = store@.entries;
    let mut entries: Vec<Entry> = Vec::new();
    let mut i: usize = 0;
    proof {
        assert(all.take(0) =~= Seq::<EntryModel>::empty());
        assert(models(entries@) =~= Seq::<PlainEntry>::empty());
    }
    while i < store.entries.len()
        invariant
            i <= store.entries.len(),
            all == store@.entries,
            key@.len() == KEY_LEN,
            revealed_all(key@, owned_by::<VaultEntry>(all.take(i as int), user_id as int)) == Some(
                models(entries@),
            ),
        decreases store.entries.len() - i,
    {
        let row = &store.entries[i];
        proof {
            assert(all.take(i + 1).drop_last() =~= all.take(i as int));
            assert(all.take(i + 1).last() == row@);
        }
        if row.user_id == user_id {
            let ghost seen = owned_by::<VaultEntry>(all.take(i + 1), user_id as int);
            proof {
                assert(seen.drop_last() =~= owned_by::<VaultEntry>(
                    all.take(i as int),
                    user_id as int,
                ));
                assert(seen.last() == row@);
            }
            match open_entry(key, row) {
                Ok(entry) => {
                    proof {
                        assert(models(entries@.push(entry)) =~= models(entries@).push(entry@));
                    }
                    entries.push(entry);
                },
                Err(e) => {
                    proof {
                        lemma_revealed_all_prefix(key@, all, user_id as int, i + 1);
                    }
                    return Err(e);
                },
            }
        }
        i = i + 1;
    }
    assert(all.take(i as int) =~= all);
    Ok(entries)
}

} // verus!
