//! What holds of the vault across calls: statements about two or more
//! operations, each proved from the contracts of the operations it names.

use crate::accounts::{first_named, lemma_first_named};
use crate::backup::{
    accepted, backup_contents, bundle_of_json, entries_json, entries_of_json, fields_of,
    imported_into, is_backup_of, is_export_of, numbered, BundleModel,
};
use crate::cipher::{key_of_text, opened, KEY_LEN, NONCE_LEN};
use crate::codec::base64_bytes;
use crate::entries::{lemma_sealed_entry_opens, revealed, revealed_all, seals_entry, Fields, PlainEntry};
use crate::error::VaultError;
use crate::fake_data_generator::{catalogue_fields, is_decoy_list, reads_catalogue, CATALOGUE_LEN};
use crate::kdf::{derived_key, password_matches, verification_hash};
use crate::otp::{
    is_fresh_secret, provisioning_uri, step_of, totp_accepts, totp_code, DIGITS,
};
use crate::codec::base64_text;
use crate::password_manager::{
    create_user_contract, duress_accepts, login_accepted, login_contract, EntriesOutcome,
};
use crate::pseudo_mode::add_pseudo_password_contract;
use crate::recovery::{unwrapped, wraps_key};
use crate::store::{fresh_id, ids, lemma_fresh_id_above, EntryModel, StoreModel, User, UserModel, VaultEntry};
use crate::table::{first_owned, lemma_first_owned, owned_by, without_owner};
use vstd::prelude::*;

verus! {

/// A password that the user's master hash accepts is never taken as a duress
/// password: the call fails with `DuressMatchesMaster` and the store stays as
/// it is, whatever salt was drawn.
pub proof fn law_master_password_refused(
    store: StoreModel,
    user_id: int,
    password: Seq<char>,
    salt: Seq<char>,
    stamp: Seq<char>,
)
    requires
        store.user_by_id(user_id) matches Some(user) && password_matches(password, user.hash),
    ensures
        store.add_pseudo_password_result(user_id, password, salt) == Err::<(), VaultError>(
            VaultError::DuressMatchesMaster,
        ),
        store.add_pseudo_password_state(user_id, password, salt, stamp) == store,
{
}

/// A password that the user's master hash does not accept is taken as a
/// duress password, once it is hashed and an id is left: the call succeeds
/// and the user has one credential more.
pub proof fn law_other_password_taken(
    store: StoreModel,
    user_id: int,
    password: Seq<char>,
    salt: Seq<char>,
    stamp: Seq<char>,
)
    requires
        store.user_by_id(user_id) matches Some(user) && !password_matches(password, user.hash),
        verification_hash(password, salt).is_some(),
        store.next_duress_id() <= i64::MAX,
    ensures
        store.add_pseudo_password_result(user_id, password, salt) == Ok::<(), VaultError>(()),
        store.add_pseudo_password_state(user_id, password, salt, stamp).duress.len()
            == store.duress.len() + 1,
        store.add_pseudo_password_state(user_id, password, salt, stamp).duress.last().user_id
            == user_id,
{
}

/// The user that signing up adds is found under the id handed back.
pub proof fn lemma_new_user_found(
    before: StoreModel,
    after: StoreModel,
    username: Seq<char>,
    password: Seq<char>,
    salt: Seq<char>,
    id: int,
)
    requires
        create_user_contract(before, after, username, password, salt, Ok(id)),
    ensures
        after.user_by_id(id) matches Some(user) && user.username == username && user.salt == salt
            && password_matches(password, user.hash),
{
    let stamp = after.log_stamp();
    assert(after.users == before.users.push(after.users.last()));
    lemma_fresh_id_above(ids::<User>(before.users));
    lemma_first_owned::<User>(before.users, id);
    assert forall|j: int| 0 <= j < before.users.len() implies (#[trigger] before.users[j]).id
        != id by {
        assert(ids::<User>(before.users)[j] == before.users[j].id);
    }
    assert(after.users.drop_last() =~= before.users);
    assert(first_owned::<User>(before.users, id).is_none());
}

/// The password that a user signed up with is never taken as a duress
/// password of that user.
pub proof fn law_signup_password_refused(
    before: StoreModel,
    after: StoreModel,
    username: Seq<char>,
    password: Seq<char>,
    salt: Seq<char>,
    id: int,
    duress_salt: Seq<char>,
    stamp: Seq<char>,
)
    requires
        create_user_contract(before, after, username, password, salt, Ok(id)),
    ensures
        after.add_pseudo_password_result(id, password, duress_salt) == Err::<(), VaultError>(
            VaultError::DuressMatchesMaster,
        ),
        after.add_pseudo_password_state(id, password, duress_salt, stamp) == after,
{
    lemma_new_user_found(before, after, username, password, salt, id);
}

/// Rows that all open each open.
pub proof fn lemma_revealed_all_each(key: Seq<u8>, rows: Seq<EntryModel>)
    requires
        revealed_all(key, rows).is_some(),
    ensures
        forall|i: int| 0 <= i < rows.len() ==> revealed(key, #[trigger] rows[i]).is_some(),
        revealed_all(key, rows).unwrap().len() == rows.len(),
    decreases rows.len(),
{
    if rows.len() > 0 {
        lemma_revealed_all_each(key, rows.drop_last());
        assert forall|i: int| 0 <= i < rows.len() implies revealed(key, #[trigger] rows[i]).is_some() by {
            if i < rows.len() - 1 {
                assert(rows.drop_last()[i] == rows[i]);
            }
        }
    }
}

/// The key of a login is a function of the password and the user's salt: two
/// logins of a user with the same password, the salt unchanged between
/// them, hand back the same key text, whatever else happened in the store.
/// The text reads back as the 32 bytes derived from password and salt.
pub proof fn law_login_key_is_stable(
    first_before: StoreModel,
    first_after: StoreModel,
    second_before: StoreModel,
    second_after: StoreModel,
    username: Seq<char>,
    password: Seq<char>,
    first: (int, Seq<char>, bool),
    second: (int, Seq<char>, bool),
)
    requires
        login_contract(first_before, first_after, username, password, Ok(first)),
        login_contract(second_before, second_after, username, password, Ok(second)),
        first_before.user_named(username).unwrap().salt == second_before.user_named(
            username,
        ).unwrap().salt,
    ensures
        first.1 == second.1,
        key_of_text(first.1) matches Some(key) && key.len() == KEY_LEN && derived_key(
            password,
            first_before.user_named(username).unwrap().salt,
        ) == Some(key),
{
}

/// A login with the master password is no duress login, and the key it hands
/// back opens the vault: reading the entries with it gives every entry that
/// the key derived from the master password opens.
pub proof fn law_master_login_opens_vault(
    before: StoreModel,
    after: StoreModel,
    username: Seq<char>,
    password: Seq<char>,
    id: int,
    key_text: Seq<char>,
    duress: bool,
)
    requires
        login_contract(before, after, username, password, Ok((id, key_text, duress))),
        before.user_named(username) matches Some(user) && password_matches(password, user.hash),
        derived_key(password, before.user_named(username).unwrap().salt) matches Some(key)
            && revealed_all(key, before.entries_of(before.user_named(username).unwrap().id)).is_some(),
    ensures
        !duress,
        id == before.user_named(username).unwrap().id,
        !after.probe_fails(id, key_text),
        after.get_entries_outcome(id, key_text) == EntriesOutcome::Opened(
            revealed_all(key_of_text(key_text).unwrap(), before.entries_of(id)).unwrap(),
        ),
{
    let user = before.user_named(username).unwrap();
    let key = derived_key(password, user.salt).unwrap();
    assert(after.entries == before.entries);
    lemma_revealed_all_each(key, before.entries_of(id));
    if before.entries_of(id).len() > 0 {
        let first = before.entries_of(id)[0];
        assert(revealed(key, first).is_some());
    }
}

/// An entry that was added is read back: where the key opens the user's
/// entries, it opens them after one was added under it too, and the read
/// gives the entries that were there, followed by the one added.
pub proof fn law_added_entry_is_read_back(
    before: StoreModel,
    after: StoreModel,
    user_id: int,
    key_text: Seq<char>,
    row: EntryModel,
    entry: PlainEntry,
    stamp: Seq<char>,
)
    requires
        key_of_text(key_text) matches Some(key) && revealed_all(key, before.entries_of(user_id)).is_some()
            && seals_entry(key, row, user_id, entry),
        before.inserts_entry(entry.password, entry.note, key_text),
        after == before.add_entry_state(
            user_id,
            entry.service,
            entry.password,
            entry.note,
            key_text,
            row,
            stamp,
        ),
    ensures
        after.get_entries_outcome(user_id, key_text) == EntriesOutcome::Opened(
            revealed_all(key_of_text(key_text).unwrap(), before.entries_of(user_id)).unwrap().push(entry),
        ),
{
    let key = key_of_text(key_text).unwrap();
    assert(after.entries == before.entries.push(row));
    assert(after.entries.drop_last() =~= before.entries);
    lemma_sealed_entry_opens(key, row, user_id, entry);
    assert(after.entries_of(user_id) == before.entries_of(user_id).push(row));
    assert(after.entries_of(user_id).drop_last() =~= before.entries_of(user_id));
    lemma_revealed_all_each(key, after.entries_of(user_id));
    assert(revealed(key, after.entries_of(user_id)[0]).is_some());
}

/// A duress password that was added logs in as one: the credential stored
/// accepts the password, so that a login of the user with it is accepted,
/// and the session that comes back is flagged as a duress session and
/// carries the key derived from the duress password and the user's own salt.
pub proof fn law_added_duress_password_logs_in(
    before: StoreModel,
    after: StoreModel,
    user_id: int,
    username: Seq<char>,
    password: Seq<char>,
    salt: Seq<char>,
)
    requires
        add_pseudo_password_contract(before, after, user_id, password, salt, Ok(())),
        before.user_named(username) matches Some(user) && user.id == user_id && before.user_by_id(
            user_id,
        ) == Some(user),
        password.len() > 0,
    ensures
        duress_accepts(after.duress, user_id, password),
        login_accepted(after, username, password),
        after.login_result(username, password) == (match derived_key(
            password,
            before.user_named(username).unwrap().salt,
        ) {
            None => Err::<(int, Seq<char>, bool), VaultError>(VaultError::CryptoFailure),
            Some(key) => if after.can_log() {
                Ok((user_id, base64_text(key), true))
            } else {
                Err(VaultError::StorageFailure)
            },
        }),
{
    assert(after.users == before.users);
    let last = after.duress.len() - 1;
    assert(after.duress[last].user_id == user_id && password_matches(
        password,
        after.duress[last].hash,
    ));
}

/// An envelope gives up the key it wraps: what setting recovery up stores
/// opens, for the secret it was made for, to the vault key.
pub proof fn law_envelope_gives_up_its_key(
    envelope: crate::store::EnvelopeModel,
    secret: Seq<char>,
    vault_key: Seq<u8>,
)
    requires
        wraps_key(envelope, secret, vault_key),
    ensures
        unwrapped(envelope, secret) == Ok::<Seq<u8>, VaultError>(vault_key),
{
}

/// A login with a one-time code hands back the key that was wrapped: where
/// the user's envelope wraps a key for the user's current secret, a code
/// that passes the check logs the user in with that key, and never as a
/// duress session.
pub proof fn law_otp_login_after_setup(
    store: StoreModel,
    username: Seq<char>,
    code: Seq<char>,
    now: int,
    vault_key: Seq<u8>,
)
    requires
        store.user_named(username) matches Some(user) && user.recovery matches Some(envelope)
            && user.otp_secret matches Some(secret) && wraps_key(envelope, secret, vault_key),
        store.verify_otp_result(username, code, now) == Ok::<bool, VaultError>(true),
        store.can_log(),
    ensures
        store.login_with_otp_result(username, code, now) == Ok::<
            (int, Seq<char>, bool),
            VaultError,
        >((store.user_named(username).unwrap().id, base64_text(vault_key), false)),
{
}

/// A login with a duress password is flagged as one: where the master hash
/// does not accept the password and a duress credential of the user does, a
/// session that comes back carries `is_duress = true`.
pub proof fn law_duress_login_flagged(
    before: StoreModel,
    after: StoreModel,
    username: Seq<char>,
    password: Seq<char>,
    id: int,
    key_text: Seq<char>,
    duress: bool,
)
    requires
        login_contract(before, after, username, password, Ok((id, key_text, duress))),
        before.user_named(username) matches Some(user) && !password_matches(password, user.hash),
    ensures
        duress,
        duress_accepts(before.duress, id, password),
        id == before.user_named(username).unwrap().id,
{
}

/// A read with a key that does not open the user's first entry never fails
/// and never opens an entry: it gives decoys or nothing, as the user's
/// settings say, and nothing of it depends on what the entries hold.
pub proof fn law_duress_read_hides_vault(store: StoreModel, user_id: int, key_text: Seq<char>)
    requires
        store.probe_fails(user_id, key_text),
    ensures
        store.get_entries_outcome(user_id, key_text) == if store.shows_fake_entries(user_id) {
            EntriesOutcome::Decoys
        } else {
            EntriesOutcome::Nothing
        },
{
}

/// A duress session reads nothing of the account's history: no events, no
/// figures, no trend and no photos, whatever the store holds.
pub proof fn law_duress_session_reads_nothing(
    store: StoreModel,
    user_id: i64,
    limit: int,
    cutoff: Seq<char>,
    stats: crate::statistics::StatsModel,
    trend: Seq<crate::statistics::Group>,
)
    requires
        store.in_duress_mode(user_id as int),
    ensures
        store.activity_logs(user_id as int, limit).len() == 0,
        store.failed_login_photos(user_id).len() == 0,
        store.shows_stats(user_id as int, stats) <==> stats == crate::statistics::no_stats(),
        store.shows_trend(user_id as int, cutoff, trend) <==> trend.len() == 0,
{
}

/// Every entry of a list of decoys is a row of the catalogue.
pub proof fn law_decoys_come_from_catalogue(list: Seq<PlainEntry>, count: nat, i: int)
    requires
        is_decoy_list(list, count),
        0 <= i < list.len(),
    ensures
        exists|k: int| 0 <= k < CATALOGUE_LEN && list[i].fields() == #[trigger] catalogue_fields(k),
        list[i].id < 0,
{
    let picks = choose|picks: Seq<int>| picks.no_duplicates() && #[trigger] reads_catalogue(list, picks);
    assert(list[i].fields() == catalogue_fields(picks[i]));
}

/// Without merging every entry of the list is taken.
pub proof fn lemma_accepted_all(rows: Seq<EntryModel>, user_id: int, source: Seq<Fields>)
    ensures
        accepted(rows, user_id, source, false) == source,
    decreases source.len(),
{
    if source.len() > 0 {
        lemma_accepted_all(rows, user_id, source.drop_last());
        assert(source.drop_last().push(source.last()) =~= source);
    } else {
        assert(source =~= Seq::<Fields>::empty());
    }
}

/// A table from which a user's rows were deleted holds no row of the user.
pub proof fn lemma_without_owner_none(rows: Seq<EntryModel>, user_id: int)
    ensures
        owned_by::<VaultEntry>(without_owner::<VaultEntry>(rows, user_id), user_id).len() == 0,
    decreases rows.len(),
{
    if rows.len() > 0 {
        lemma_without_owner_none(rows.drop_last(), user_id);
        if rows.last().user_id != user_id {
            let kept = without_owner::<VaultEntry>(rows.drop_last(), user_id);
            assert(kept.push(rows.last()).drop_last() =~= kept);
        }
    }
}

/// The rows of a user in a table that was extended are the user's rows of
/// the table as it was, followed by the user's rows of the extension.
pub proof fn lemma_owned_by_concat(front: Seq<EntryModel>, back: Seq<EntryModel>, user_id: int)
    ensures
        owned_by::<VaultEntry>(front + back, user_id) == owned_by::<VaultEntry>(front, user_id)
            + owned_by::<VaultEntry>(back, user_id),
    decreases back.len(),
{
    if back.len() == 0 {
        assert(front + back =~= front);
        assert(owned_by::<VaultEntry>(front, user_id) + owned_by::<VaultEntry>(back, user_id)
            =~= owned_by::<VaultEntry>(front, user_id));
    } else {
        lemma_owned_by_concat(front, back.drop_last(), user_id);
        assert((front + back).drop_last() =~= front + back.drop_last());
        assert((front + back).last() == back.last());
        if back.last().user_id == user_id {
            assert(owned_by::<VaultEntry>(front, user_id) + owned_by::<VaultEntry>(
                back.drop_last(),
                user_id,
            ).push(back.last()) =~= (owned_by::<VaultEntry>(front, user_id) + owned_by::<
                VaultEntry,
            >(back.drop_last(), user_id)).push(back.last()));
        }
    }
}

/// Rows that each seal an entry of the user, numbered upwards from `first`,
/// are all rows of the user and open to those entries.
pub proof fn lemma_sealed_rows_open(
    key: Seq<u8>,
    rows: Seq<EntryModel>,
    user_id: int,
    first: int,
    taken: Seq<Fields>,
)
    requires
        rows.len() == taken.len(),
        forall|k: int|
            0 <= k < taken.len() ==> seals_entry(key, #[trigger] rows[k], user_id, numbered(first, taken, k)),
    ensures
        owned_by::<VaultEntry>(rows, user_id) == rows,
        revealed_all(key, rows) == Some(Seq::new(rows.len(), |k: int| numbered(first, taken, k))),
        fields_of(Seq::new(rows.len(), |k: int| numbered(first, taken, k))) == taken,
    decreases rows.len(),
{
    let all = Seq::new(rows.len(), |k: int| numbered(first, taken, k));
    assert(fields_of(all) =~= taken);
    if rows.len() == 0 {
        assert(all =~= Seq::<PlainEntry>::empty());
    } else {
        let front = rows.drop_last();
        let front_taken = taken.drop_last();
        assert forall|k: int| 0 <= k < front_taken.len() implies seals_entry(
            key,
            #[trigger] front[k],
            user_id,
            numbered(first, front_taken, k),
        ) by {
            assert(front[k] == rows[k]);
            assert(front_taken[k] == taken[k]);
        }
        lemma_sealed_rows_open(key, front, user_id, first, front_taken);
        let k = rows.len() - 1;
        assert(seals_entry(key, rows[k], user_id, numbered(first, taken, k)));
        lemma_sealed_entry_opens(key, rows.last(), user_id, numbered(first, taken, k));
        assert(owned_by::<VaultEntry>(front, user_id).push(rows.last()) =~= rows);
        let before = Seq::new(front.len(), |k: int| numbered(first, front_taken, k));
        assert(before.push(numbered(first, taken, k)) =~= all) by {
            assert forall|j: int| 0 <= j < front.len() implies before[j] == all[j] by {
                assert(front_taken[j] == taken[j]);
            }
        }
    }
}

/// A backup that is imported without merging comes back whole: the user's
/// entries afterwards open, under the key they were sealed with, to the
/// entries that were exported, one for one and in the same order, and so to
/// the same multiset of service, login, password and note.
pub proof fn law_export_then_import(
    source: StoreModel,
    from_user: int,
    from_key: Seq<char>,
    exported: Seq<Fields>,
    before: Seq<EntryModel>,
    after: Seq<EntryModel>,
    to_user: int,
    to_key: Seq<u8>,
)
    requires
        source.exported_entries(from_user, from_key) == Ok::<Seq<Fields>, VaultError>(exported),
        imported_into(
            before,
            after,
            to_user,
            to_key,
            accepted(before, to_user, exported, false),
            false,
        ),
    ensures
        revealed_all(to_key, owned_by::<VaultEntry>(after, to_user)) matches Some(list) && fields_of(
            list,
        ) == exported && fields_of(list).to_multiset() == exported.to_multiset(),
{
    lemma_accepted_all(before, to_user, exported);
    let base = without_owner::<VaultEntry>(before, to_user);
    let first = fresh_id(ids::<VaultEntry>(base));
    let rows = after.skip(base.len() as int);
    assert(after.len() == base.len() + exported.len());
    assert(after =~= base + rows);
    lemma_owned_by_concat(base, rows, to_user);
    lemma_without_owner_none(before, to_user);
    assert forall|k: int| 0 <= k < exported.len() implies seals_entry(
        to_key,
        #[trigger] rows[k],
        to_user,
        numbered(first, exported, k),
    ) by {
        let i = base.len() + k;
        assert(seals_entry(to_key, after[i], to_user, numbered(first, exported, i - base.len())));
        assert(rows[k] == after[i]);
    }
    lemma_sealed_rows_open(to_key, rows, to_user, first, exported);
    assert(owned_by::<VaultEntry>(base, to_user) + rows =~= rows);
}

/// A bundle gives up its entries to the password that its key was derived
/// from: where the text of a bundle reads as the bundle, and the text sealed
/// in it reads as a list of entries, opening the bundle with that password
/// gives that list.
pub proof fn law_bundle_opens_for_its_password(
    text: Seq<char>,
    bundle: BundleModel,
    username: Seq<char>,
    salt: Seq<char>,
    key: Seq<u8>,
    json: Seq<char>,
    entries: Seq<Fields>,
    password: Seq<char>,
)
    requires
        is_backup_of(bundle, username, salt, key, json),
        derived_key(password, salt) == Some(key),
        bundle_of_json(text) == Some(bundle),
        entries_of_json(json) == Some(entries),
    ensures
        backup_contents(password, text) == Ok::<Seq<Fields>, VaultError>(entries),
{
    crate::codec::lemma_text_round_trip(json);
}

/// An export opens for the master password of the account it was made from:
/// where the key of the export is the key derived from that password and
/// the salt that the bundle carries, opening the text with the password
/// gives the entries that were exported.
pub proof fn law_export_opens_for_its_password(
    text: Seq<char>,
    username: Seq<char>,
    salt: Seq<char>,
    key: Seq<u8>,
    exported: Seq<Fields>,
    password: Seq<char>,
)
    requires
        is_export_of(text, username, salt, key, exported),
        derived_key(password, salt) == Some(key),
    ensures
        backup_contents(password, text) == Ok::<Seq<Fields>, VaultError>(exported),
{
    let bundle = choose|bundle: BundleModel|
        {
            &&& text == #[trigger] crate::json::json_pretty(crate::backup::bundle_object(bundle))
            &&& bundle_of_json(text) == Some(bundle)
            &&& is_backup_of(bundle, username, salt, key, entries_json(exported))
            &&& entries_of_json(entries_json(exported)) == Some(exported)
        };
    law_bundle_opens_for_its_password(
        text,
        bundle,
        username,
        salt,
        key,
        entries_json(exported),
        exported,
        password,
    );
}

/// Export, then import into another account without merging, brings every
/// entry across: the import reads from the text the entries that were
/// exported, and the entries of the target account afterwards open, under
/// the key of its own password, to the same entries one for one, and so to
/// the same multiset of service, login, password and note.
pub proof fn law_backup_round_trip(
    source: StoreModel,
    from_user: int,
    from_key: Seq<char>,
    username: Seq<char>,
    text: Seq<char>,
    backup_password: Seq<char>,
    target: StoreModel,
    to_user: int,
    current_password: Seq<char>,
    after: Seq<EntryModel>,
)
    requires
        source.user_by_id(from_user) matches Some(exporter) && source.exported_entries(
            from_user,
            from_key,
        ) matches Ok(exported) && is_export_of(
            text,
            username,
            exporter.salt,
            key_of_text(from_key).unwrap(),
            exported,
        ) && derived_key(backup_password, exporter.salt) == key_of_text(from_key),
        target.user_by_id(to_user) matches Some(importer) && derived_key(
            current_password,
            importer.salt,
        ) matches Some(to_key) && imported_into(
            target.entries,
            after,
            to_user,
            to_key,
            accepted(
                target.entries,
                to_user,
                target.import_source(to_user, current_password, backup_password, text).unwrap(),
                false,
            ),
            false,
        ),
    ensures
        target.import_source(to_user, current_password, backup_password, text) == Ok::<
            Seq<Fields>,
            VaultError,
        >(source.exported_entries(from_user, from_key).unwrap()),
        revealed_all(
            derived_key(current_password, target.user_by_id(to_user).unwrap().salt).unwrap(),
            owned_by::<VaultEntry>(after, to_user),
        ) matches Some(list) && fields_of(list) == source.exported_entries(
            from_user,
            from_key,
        ).unwrap() && fields_of(list).to_multiset() == source.exported_entries(
            from_user,
            from_key,
        ).unwrap().to_multiset(),
{
    let exporter = source.user_by_id(from_user).unwrap();
    let exported = source.exported_entries(from_user, from_key).unwrap();
    let key = key_of_text(from_key).unwrap();
    let to_key = derived_key(current_password, target.user_by_id(to_user).unwrap().salt).unwrap();
    law_export_opens_for_its_password(
        text,
        username,
        exporter.salt,
        key,
        exported,
        backup_password,
    );
    law_export_then_import(
        source,
        from_user,
        from_key,
        exported,
        target.entries,
        after,
        to_user,
        to_key,
    );
}

/// A bundle that the backup password does not open is refused with
/// `CryptoFailure`, whatever the account it was to be imported into holds.
pub proof fn law_wrong_backup_password(
    store: StoreModel,
    user_id: int,
    current_password: Seq<char>,
    backup_password: Seq<char>,
    backup_json: Seq<char>,
    merge: bool,
)
    requires
        store.user_by_id(user_id) matches Some(user) && derived_key(current_password, user.salt).is_some(),
        bundle_of_json(backup_json) matches Some(bundle) && derived_key(
            backup_password,
            bundle.salt,
        ) matches Some(key) && base64_bytes(bundle.encrypted_data) matches Some(ciphertext)
            && base64_bytes(bundle.nonce) matches Some(nonce) && nonce.len() == NONCE_LEN && opened(
            key,
            nonce,
            ciphertext,
        ).is_none(),
    ensures
        backup_contents(backup_password, backup_json) == Err::<Seq<Fields>, VaultError>(
            VaultError::CryptoFailure,
        ),
        store.import_result(user_id, current_password, backup_password, backup_json, merge) == Err::<
            nat,
            VaultError,
        >(VaultError::CryptoFailure),
{
}

/// Changing a user's one-time secret and envelope keeps every name where it
/// was.
pub proof fn lemma_first_named_update(users: Seq<UserModel>, at: int, user: UserModel, username: Seq<char>)
    requires
        0 <= at < users.len(),
        user.username == users[at].username,
    ensures
        first_named(users.update(at, user), username) == first_named(users, username),
    decreases users.len(),
{
    let changed = users.update(at, user);
    if at == users.len() - 1 {
        assert(changed.drop_last() =~= users.drop_last());
    } else {
        assert(changed.drop_last() =~= users.drop_last().update(at, user));
        lemma_first_named_update(users.drop_last(), at, user, username);
    }
}

/// After a reset of the one-time secret no one-time code logs the user in:
/// the recovery envelope is gone with the old secret, so that a code that
/// passes the check against the new secret meets `RecoveryUnavailable`, and
/// any other code `AuthFailure` or an earlier failure.
pub proof fn law_reset_blocks_otp_login(
    before: StoreModel,
    username: Seq<char>,
    fresh: Seq<char>,
    code: Seq<char>,
    now: int,
    stamp: Seq<char>,
)
    requires
        before.user_named(username).is_some(),
    ensures
        ({
            let after = before.reset_otp_secret_state(username, fresh);
            &&& after.user_named(username) matches Some(user) && user.recovery.is_none()
                && user.otp_secret == Some(fresh)
            &&& after.login_with_otp_result(username, code, now).is_err()
            &&& after.verify_otp_result(username, code, now) == Ok::<bool, VaultError>(true)
                ==> after.login_with_otp_result(username, code, now) == Err::<
                (int, Seq<char>, bool),
                VaultError,
            >(VaultError::RecoveryUnavailable)
            &&& after.login_with_otp_state(username, code, now, stamp) == after
        }),
{
    lemma_first_named(before.users, username);
    let at = first_named(before.users, username).unwrap();
    let user = UserModel { otp_secret: Some(fresh), recovery: None, ..before.users[at] };
    lemma_first_named_update(before.users, at, user, username);
}

/// Asking for a one-time secret is idempotent: a user who was given a fresh
/// secret is given the same secret when asked again, and the second asking
/// changes nothing, whatever would have been drawn.
pub proof fn law_generate_secret_idempotent(
    before: StoreModel,
    username: Seq<char>,
    first: Seq<char>,
    second: Seq<char>,
)
    requires
        before.user_named(username) matches Some(user) && user.otp_secret.is_none(),
        is_fresh_secret(first),
    ensures
        ({
            let after = before.generate_otp_secret_state(username, first);
            &&& before.generate_otp_secret_result(username, first) == Ok::<
                (Seq<char>, Seq<char>),
                VaultError,
            >((first, provisioning_uri(username, first)))
            &&& after.generate_otp_secret_result(username, second) == Ok::<
                (Seq<char>, Seq<char>),
                VaultError,
            >((first, provisioning_uri(username, first)))
            &&& after.generate_otp_secret_state(username, second) == after
        }),
{
    lemma_first_named(before.users, username);
    let at = first_named(before.users, username).unwrap();
    let user = UserModel { otp_secret: Some(first), ..before.users[at] };
    lemma_first_named_update(before.users, at, user, username);
}

/// The acceptance window: the code of the step that the clock reading falls
/// into, and the codes of the step before and the step after, are accepted.
pub proof fn law_totp_window(secret: Seq<u8>, time: int, step: int)
    requires
        step_of(time) - 1 <= step <= step_of(time) + 1,
    ensures
        totp_accepts(secret, totp_code(secret, DIGITS as int, step), time),
{
}

} // verus!
