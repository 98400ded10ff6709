//! The activity log: an append-only record of what happened to each account.
//! The most recent login event of a user tells whether the user's session is
//! a duress session, and a duress session reads an empty log.

use crate::clock::{
    current_timestamp, cutoff_timestamp, is_cutoff, is_stamp, MAX_CUTOFF_DAYS, MAX_SPAN_DAYS,
};
use crate::codec::{sorts_before, text_before, text_eq};
use crate::error::VaultError;
use crate::password_manager::verify_user_password;
use crate::store::{
    fresh_id, ids, lemma_models_push, models, next_id, ActivityLog, LogModel, PendingDeletion,
    PendingModel, Store, StoreModel,
};
use crate::table::{count_owned, find_owned, first_owned, owned_by, remove_owned, without_owner};
use vstd::prelude::*;

verus! {

/// The action type of a login with the master password or a one-time code.
pub open spec fn action_login() -> Seq<char> {
    "login"@
}

/// The action type of a duress access: a login with a duress password, or a
/// read of the entries with a key that does not open them.
pub open spec fn action_duress() -> Seq<char> {
    "pseudo_login_access"@
}

impl StoreModel {
    /// The id that the next event gets.
    pub open spec fn next_log_id(self) -> int {
        fresh_id(ids::<ActivityLog>(self.logs))
    }

    /// Whether the log can take one more event.
    pub open spec fn can_log(self) -> bool {
        self.next_log_id() <= i64::MAX
    }

    /// The store after one more event. A log whose ids are used up stays as
    /// it is.
    pub open spec fn with_log(
        self,
        user_id: int,
        action_type: Seq<char>,
        details: Seq<char>,
        timestamp: Seq<char>,
    ) -> StoreModel {
        if self.can_log() {
            StoreModel {
                logs: self.logs.push(
                    LogModel { id: self.next_log_id(), user_id, action_type, details, timestamp },
                ),
                ..self
            }
        } else {
            self
        }
    }

    /// The timestamp of the newest event.
    pub open spec fn log_stamp(self) -> Seq<char> {
        self.logs.last().timestamp
    }

    /// Whether the user's most recent login event is a duress access. A user
    /// without login events is not in duress mode.
    pub open spec fn in_duress_mode(self, user_id: int) -> bool {
        duress_mode(self.logs, user_id)
    }
}

/// Whether the last login event of `user_id` in `logs` is a duress access.
pub open spec fn duress_mode(logs: Seq<LogModel>, user_id: int) -> bool
    decreases logs.len(),
{
    if logs.len() == 0 {
        false
    } else if logs.last().user_id == user_id && logs.last().action_type == action_duress() {
        true
    } else if logs.last().user_id == user_id && logs.last().action_type == action_login() {
        false
    } else {
        duress_mode(logs.drop_last(), user_id)
    }
}

/// Appends an event to the activity log, stamped with the current time.
///
/// Fails with `StorageFailure`, and changes nothing, when the log's ids are
/// used up. It does not fail for want of a clock: where the clock gives no
/// reading, the event bears the stamp of the epoch.
pub fn log_activity(store: &mut Store, user_id: i64, action_type: &str, details: &str) -> (r:
    Result<(), VaultError>)
    ensures
        r.is_ok() == old(store)@.can_log(),
        r matches Err(e) ==> e == VaultError::StorageFailure,
        final(store)@ == old(store)@.with_log(
            user_id as int,
            action_type@,
            details@,
            final(store)@.log_stamp(),
        ),
        r.is_ok() ==> is_stamp(final(store)@.log_stamp()),
{
    match next_id(&store.logs) {
        None => Err(VaultError::StorageFailure),
        Some(id) => {
            let row = ActivityLog {
                id,
                user_id,
                action_type: action_type.to_owned(),
                details: details.to_owned(),
                timestamp: current_timestamp(),
            };
            proof {
                lemma_models_push(store.logs@, row);
            }
            store.logs.push(row);
            Ok(())
        },
    }
}

/// Whether the user's session is a duress session: the most recent login
/// event of the user is a duress access.
pub fn is_user_in_pseudo_mode(store: &Store, user_id: i64) -> (duress: bool)
    ensures
        duress == store@.in_duress_mode(user_id as int),
{
    let mut i: usize = store.logs.len();
    proof {
        assert(models(store.logs@).take(i as int) =~= models(store.logs@));
    }
    while i > 0
        invariant
            i <= store.logs.len(),
            duress_mode(models(store.logs@), user_id as int) == duress_mode(
                models(store.logs@).take(i as int),
                user_id as int,
            ),
        decreases i,
    {
        let log = &store.logs[i - 1];
        proof {
            let prefix = models(store.logs@).take(i as int);
            assert(prefix.last() == log@);
            assert(prefix.drop_last() =~= models(store.logs@).take(i - 1));
        }
        if log.user_id == user_id {
            if text_eq(log.action_type.as_str(), "pseudo_login_access") {
                return true;
            }
            if text_eq(log.action_type.as_str(), "login") {
                return false;
            }
        }
        i = i - 1;
    }
    false
}

/// The events of a user, newest first.
pub open spec fn newest_first(logs: Seq<LogModel>, user_id: int) -> Seq<LogModel>
    decreases logs.len(),
{
    if logs.len() == 0 {
        Seq::empty()
    } else if logs.last().user_id == user_id {
        seq![logs.last()] + newest_first(logs.drop_last(), user_id)
    } else {
        newest_first(logs.drop_last(), user_id)
    }
}

/// The log without the events of a user that are older than `cutoff`: whose
/// timestamp sorts before it.
pub open spec fn without_older(logs: Seq<LogModel>, user_id: int, cutoff: Seq<char>) -> Seq<LogModel>
    decreases logs.len(),
{
    if logs.len() == 0 {
        logs
    } else if logs.last().user_id == user_id && sorts_before(logs.last().timestamp, cutoff) {
        without_older(logs.drop_last(), user_id, cutoff)
    } else {
        without_older(logs.drop_last(), user_id, cutoff).push(logs.last())
    }
}

impl StoreModel {
    /// The events that a user is shown: none in a duress session, else the
    /// user's events, newest first, all of them for a negative `limit` and at
    /// most `limit` otherwise.
    pub open spec fn activity_logs(self, user_id: int, limit: int) -> Seq<LogModel> {
        let all = newest_first(self.logs, user_id);
        if self.in_duress_mode(user_id) {
            Seq::empty()
        } else if limit < 0 || limit >= all.len() {
            all
        } else {
            all.take(limit)
        }
    }

    /// The store without the events of a user.
    pub open spec fn without_logs_of(self, user_id: int) -> StoreModel {
        StoreModel { logs: without_owner::<ActivityLog>(self.logs, user_id), ..self }
    }

    /// The store without the events of a user that are older than `cutoff`.
    pub open spec fn without_logs_before(self, user_id: int, cutoff: Seq<char>) -> StoreModel {
        StoreModel { logs: without_older(self.logs, user_id, cutoff), ..self }
    }

    /// Whether a deletion of the user's log is pending.
    pub open spec fn deletion_pending(self, user_id: int) -> bool {
        first_owned::<PendingDeletion>(self.pending, user_id).is_some()
    }

    /// The store with a deletion of the user's log pending since `stamp`.
    pub open spec fn with_pending(self, user_id: int, stamp: Seq<char>) -> StoreModel {
        StoreModel {
            pending: without_owner::<PendingDeletion>(self.pending, user_id).push(
                PendingModel { user_id, scheduled_at: stamp },
            ),
            ..self
        }
    }

    /// The store without a pending deletion for the user.
    pub open spec fn without_pending(self, user_id: int) -> StoreModel {
        StoreModel { pending: without_owner::<PendingDeletion>(self.pending, user_id), ..self }
    }

    /// The store after the check for a pending deletion: where one is
    /// pending, the user's log is dropped and the request with it.
    pub open spec fn check_pending_state(self, user_id: int) -> StoreModel {
        if self.deletion_pending(user_id) {
            self.without_logs_of(user_id).without_pending(user_id)
        } else {
            self
        }
    }
}

/// A copy of an event.
fn copy_log(log: &ActivityLog) -> (copy: ActivityLog)
    ensures
        copy@ == log@,
{
    ActivityLog {
        id: log.id,
        user_id: log.user_id,
        action_type: log.action_type.clone(),
        details: log.details.clone(),
        timestamp: log.timestamp.clone(),
    }
}

/// Reads the events of `user_id`, newest first: all of them for a negative
/// `limit`, at most `limit` otherwise. A duress session reads an empty log.
pub fn get_activity_logs(store: &Store, user_id: i64, limit: i64) -> (logs: Vec<ActivityLog>)
    ensures
        models(logs@) == store@.activity_logs(user_id as int, limit as int),
{
    let mut logs: Vec<ActivityLog> = Vec::new();
    if is_user_in_pseudo_mode(store, user_id) {
        assert(models(logs@) =~= Seq::<LogModel>::empty());
        return logs;
    }
    let ghost all = store@.logs;
    let ghost wanted = newest_first(all, user_id as int);
    let mut i: usize = store.logs.len();
    proof {
        assert(all.take(i as int) =~= all);
        assert(models(logs@) + wanted =~= wanted);
    }
    while i > 0 && (limit < 0 || (logs.len() as u128) < (limit as u128))
        invariant
            i <= store.logs.len(),
            all == store@.logs,
            wanted == newest_first(all, user_id as int),
            wanted == models(logs@) + newest_first(all.take(i as int), user_id as int),
            limit >= 0 ==> logs@.len() <= limit,
        decreases i,
    {
        let log = &store.logs[i - 1];
        proof {
            let prefix = all.take(i as int);
            assert(prefix.last() == log@);
            assert(prefix.drop_last() =~= all.take(i - 1));
        }
        if log.user_id == user_id {
            let copy = copy_log(log);
            proof {
                assert(models(logs@.push(copy)) + newest_first(all.take(i - 1), user_id as int)
                    =~= models(logs@) + (seq![log@] + newest_first(
                    all.take(i - 1),
                    user_id as int,
                )));
            }
            logs.push(copy);
        }
        i = i - 1;
    }
    proof {
        let rest = newest_first(all.take(i as int), user_id as int);
        assert(models(logs@).len() == logs@.len());
        if i == 0 {
            assert(all.take(0) =~= Seq::<LogModel>::empty());
            assert(models(logs@) + rest =~= models(logs@));
        } else {
            assert(logs@.len() == limit);
            assert(wanted.take(limit as int) =~= models(logs@));
        }
    }
    logs
}

/// Counts the events of `user_id`.
pub fn get_activity_count(store: &Store, user_id: i64) -> (count: usize)
    ensures
        count == owned_by::<ActivityLog>(store@.logs, user_id as int).len(),
{
    count_owned(&store.logs, user_id)
}

/// Deletes every event of `user_id`.
pub fn clear_activity_logs(store: &mut Store, user_id: i64)
    ensures
        final(store)@ == old(store)@.without_logs_of(user_id as int),
{
    let _ = remove_owned(&mut store.logs, user_id);
}

/// Deletes the events of `user_id` whose timestamp sorts before `cutoff`,
/// and says how many there were.
pub fn cleanup_logs_before(store: &mut Store, user_id: i64, cutoff: &str) -> (deleted: usize)
    ensures
        final(store)@ == old(store)@.without_logs_before(user_id as int, cutoff@),
        deleted == old(store)@.logs.len() - final(store)@.logs.len(),
{
    let ghost start = store@;
    let ghost target = without_older(start.logs, user_id as int, cutoff@);
    let ghost before: nat = store.logs@.len();
    let mut deleted: usize = 0;
    let mut i: usize = store.logs.len();
    proof {
        assert(store@.logs.take(i as int) =~= store@.logs);
        assert(target =~= without_older(store@.logs.take(i as int), user_id as int, cutoff@)
            + store@.logs.skip(i as int));
    }
    while i > 0
        invariant
            i <= store.logs@.len(),
            deleted + store.logs@.len() == before,
            before <= usize::MAX,
            store@ == (StoreModel { logs: store@.logs, ..start }),
            target == without_older(store@.logs.take(i as int), user_id as int, cutoff@)
                + store@.logs.skip(i as int),
        decreases i,
    {
        let ghost cur = store@.logs;
        let log = &store.logs[i - 1];
        proof {
            assert(cur.take(i as int).drop_last() =~= cur.take(i - 1));
            assert(cur.take(i as int).last() == log@);
        }
        if log.user_id == user_id && text_before(log.timestamp.as_str(), cutoff) {
            let _ = store.logs.remove(i - 1);
            deleted = deleted + 1;
            proof {
                let next = store@.logs;
                assert(next.take(i - 1) =~= cur.take(i - 1));
                assert(next.skip(i - 1) =~= cur.skip(i as int));
            }
        } else {
            proof {
                assert(cur.skip(i - 1) =~= seq![cur[i - 1]] + cur.skip(i as int));
                assert(without_older(cur.take(i as int), user_id as int, cutoff@) + cur.skip(i as int)
                    =~= without_older(cur.take(i - 1), user_id as int, cutoff@) + cur.skip(i - 1));
            }
        }
        i = i - 1;
    }
    proof {
        assert(store@.logs.take(0) =~= Seq::<LogModel>::empty());
        assert(store@.logs.skip(0) =~= store@.logs);
        assert(target =~= store@.logs);
    }
    deleted
}

/// Deletes the events of `user_id` that are more than `days` days old, and
/// says how many there were.
///
/// A clock that gives no reading is `ClockFailure`. A cutoff that the
/// calendar cannot hold is `InputValidation`: that is so for every number of
/// days beyond [`MAX_SPAN_DAYS`], back or ahead, and for none up to
/// [`MAX_CUTOFF_DAYS`]. Nothing changes where the call fails. Otherwise the
/// outcome is that of [`cleanup_logs_before`] for the cutoff that lies so
/// many days before the reading of the clock.
pub fn cleanup_old_logs(store: &mut Store, user_id: i64, days: i64) -> (r: Result<usize, VaultError>)
    ensures
        match r {
            Ok(deleted) => exists|cutoff: Seq<char>|
                is_cutoff(cutoff, days as int) && final(store)@
                    == #[trigger] old(store)@.without_logs_before(user_id as int, cutoff) && deleted
                    == old(store)@.logs.len() - final(store)@.logs.len(),
            Err(e) => final(store)@ == old(store)@ && (e == VaultError::ClockFailure || (e
                == VaultError::InputValidation && !(-MAX_CUTOFF_DAYS <= days <= MAX_CUTOFF_DAYS))),
        },
        !(-MAX_SPAN_DAYS <= days <= MAX_SPAN_DAYS) ==> r.is_err(),
{
    match cutoff_timestamp(days) {
        Ok(cutoff) => {
            let deleted = cleanup_logs_before(store, user_id, cutoff.as_str());
            assert(is_cutoff(cutoff@, days as int));
            Ok(deleted)
        },
        Err(e) => Err(e),
    }
}

/// Asks for the log of `user_id` to be dropped at the next login, after
/// checking the master password. A request made before is replaced. The
/// request bears the stamp of the current time, and that of the epoch where
/// the clock gives no reading.
pub fn schedule_logs_deletion(store: &mut Store, user_id: i64, password: String) -> (r: Result<
    (),
    VaultError,
>)
    ensures
        r == old(store)@.verify_user_password_result(user_id as int, password@),
        final(store)@ == if r.is_ok() {
            old(store)@.with_pending(user_id as int, final(store)@.pending.last().scheduled_at)
        } else {
            old(store)@
        },
        r.is_ok() ==> is_stamp(final(store)@.pending.last().scheduled_at),
{
    match verify_user_password(store, user_id, password) {
        Ok(()) => {},
        Err(e) => {
            return Err(e);
        },
    }
    let _ = remove_owned(&mut store.pending, user_id);
    let row = PendingDeletion { user_id, scheduled_at: current_timestamp() };
    proof {
        lemma_models_push(store.pending@, row);
    }
    store.pending.push(row);
    Ok(())
}

/// Carries a pending deletion out: where one is pending for `user_id`, the
/// user's log is dropped and the request with it. Says whether one was.
pub fn check_pending_deletion(store: &mut Store, user_id: i64) -> (done: bool)
    ensures
        done == old(store)@.deletion_pending(user_id as int),
        final(store)@ == old(store)@.check_pending_state(user_id as int),
{
    if find_owned(&store.pending, user_id).is_some() {
        let _ = remove_owned(&mut store.logs, user_id);
        let _ = remove_owned(&mut store.pending, user_id);
        true
    } else {
        false
    }
}

/// Withdraws a pending deletion of the log of `user_id`.
pub fn cancel_logs_deletion(store: &mut Store, user_id: i64)
    ensures
        final(store)@ == old(store)@.without_pending(user_id as int),
{
    let _ = remove_owned(&mut store.pending, user_id);
}

} // verus!
