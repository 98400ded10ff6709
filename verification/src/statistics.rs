//! Figures drawn from the activity log: totals, the busiest day, and the
//! events counted by type and by day. A duress session is shown none of it.

use crate::activity_logger::is_user_in_pseudo_mode;
use crate::clock::{cutoff_timestamp, is_cutoff, MAX_CUTOFF_DAYS, MAX_SPAN_DAYS};
use crate::codec::{
    lemma_bytes_before_irreflexive, lemma_bytes_before_transitive, sorts_before, text_before,
    text_eq, text_of, utf8_decode,
};
use crate::error::VaultError;
use crate::sorting::{is_sorted, sort, Sortable};
use crate::store::{models, ActivityLog, LogModel, Store, StoreModel};
use crate::table::{count_owned, owned_by};
use vstd::prelude::*;
use vstd::utf8::*;

verus! {

/// How often an action was logged.
#[derive(Debug)]
pub struct ActionTypeCount {
    pub action_type: String,
    pub count: i64,
}

/// How many events were logged on a day.
#[derive(Debug)]
pub struct ActivityTrend {
    pub date: String,
    pub count: i64,
}

/// The figures of a user's activity.
#[derive(Debug)]
pub struct ActivityStats {
    pub total_logins: i64,
    pub total_actions: i64,
    pub last_login: Option<String>,
    pub most_active_day: Option<String>,
    pub actions_by_type: Vec<ActionTypeCount>,
}

/// Model of a count: what was counted, and how often.
pub type Group = (Seq<char>, int);

/// Model of an [`ActivityStats`].
pub struct StatsModel {
    pub total_logins: int,
    pub total_actions: int,
    pub last_login: Option<Seq<char>>,
    pub most_active_day: Option<Seq<char>>,
    pub actions_by_type: Seq<Group>,
}

impl View for ActionTypeCount {
    type V = Group;

    open spec fn view(&self) -> Group {
        (self.action_type@, self.count as int)
    }
}

impl View for ActivityTrend {
    type V = Group;

    open spec fn view(&self) -> Group {
        (self.date@, self.count as int)
    }
}

impl View for ActivityStats {
    type V = StatsModel;

    open spec fn view(&self) -> StatsModel {
        StatsModel {
            total_logins: self.total_logins as int,
            total_actions: self.total_actions as int,
            last_login: match self.last_login {
                Some(s) => Some(s@),
                None => None,
            },
            most_active_day: match self.most_active_day {
                Some(s) => Some(s@),
                None => None,
            },
            actions_by_type: models(self.actions_by_type@),
        }
    }
}

impl Sortable for ActionTypeCount {
    /// The greater count first.
    open spec fn before(a: Group, b: Group) -> bool {
        a.1 > b.1
    }

    proof fn lemma_before_transitive(a: Group, b: Group, c: Group) {
    }

    proof fn lemma_before_irreflexive(a: Group) {
    }

    fn is_before(&self, other: &Self) -> (before: bool) {
        self.count > other.count
    }
}

impl Sortable for ActivityTrend {
    /// The earlier day first.
    open spec fn before(a: Group, b: Group) -> bool {
        sorts_before(a.0, b.0)
    }

    proof fn lemma_before_transitive(a: Group, b: Group, c: Group) {
        lemma_bytes_before_transitive(encode_utf8(a.0), encode_utf8(b.0), encode_utf8(c.0));
    }

    proof fn lemma_before_irreflexive(a: Group) {
        lemma_bytes_before_irreflexive(encode_utf8(a.0));
    }

    fn is_before(&self, other: &Self) -> (before: bool) {
        text_before(self.date.as_str(), other.date.as_str())
    }
}

/// A count as it is shown: one that does not fit the type is shown as the
/// greatest that does.
pub open spec fn shown_count(n: int) -> int {
    if n > i64::MAX {
        i64::MAX as int
    } else {
        n
    }
}

/// The day of a timestamp: its first ten bytes, and all of it where it is
/// shorter or the cut would split a character.
pub open spec fn day_of(timestamp: Seq<char>) -> Seq<char> {
    let bytes = encode_utf8(timestamp);
    if bytes.len() <= 10 {
        timestamp
    } else {
        match text_of(bytes.take(10)) {
            Some(day) => day,
            None => timestamp,
        }
    }
}

/// The position of the group for `key`.
pub open spec fn group_at(groups: Seq<Group>, key: Seq<char>) -> Option<int>
    decreases groups.len(),
{
    if groups.len() == 0 {
        None
    } else {
        match group_at(groups.drop_last(), key) {
            Some(i) => Some(i),
            None => if groups.last().0 == key {
                Some(groups.len() - 1)
            } else {
                None
            },
        }
    }
}

/// The groups after one more occurrence of `key`: its group counts one more,
/// or a new group is added behind.
pub open spec fn bump(groups: Seq<Group>, key: Seq<char>) -> Seq<Group> {
    match group_at(groups, key) {
        Some(i) => groups.update(i, (key, groups[i].1 + 1)),
        None => groups.push((key, 1)),
    }
}

/// Whether an event of the log counts: it is the user's, and not older than
/// the cutoff where there is one.
pub open spec fn counts(log: LogModel, user_id: int, cutoff: Option<Seq<char>>) -> bool {
    log.user_id == user_id && match cutoff {
        Some(c) => !sorts_before(log.timestamp, c),
        None => true,
    }
}

/// What an event is counted under: its day or its action type.
pub open spec fn key_of(log: LogModel, by_day: bool) -> Seq<char> {
    if by_day {
        day_of(log.timestamp)
    } else {
        log.action_type
    }
}

/// The events that count, counted by day or by action type, in the order in
/// which the days or types first occur.
pub open spec fn tally(logs: Seq<LogModel>, user_id: int, by_day: bool, cutoff: Option<Seq<char>>) -> Seq<
    Group,
>
    decreases logs.len(),
{
    if logs.len() == 0 {
        Seq::empty()
    } else if counts(logs.last(), user_id, cutoff) {
        bump(tally(logs.drop_last(), user_id, by_day, cutoff), key_of(logs.last(), by_day))
    } else {
        tally(logs.drop_last(), user_id, by_day, cutoff)
    }
}

/// The groups as they are shown.
pub open spec fn shown_groups(groups: Seq<Group>) -> Seq<Group> {
    Seq::new(groups.len(), |i: int| (groups[i].0, shown_count(groups[i].1)))
}

/// The position of the first group with the greatest count.
pub open spec fn first_greatest(groups: Seq<Group>) -> Option<int>
    decreases groups.len(),
{
    if groups.len() == 0 {
        None
    } else {
        match first_greatest(groups.drop_last()) {
            None => Some(groups.len() - 1),
            Some(i) => if groups.last().1 > groups[i].1 {
                Some(groups.len() - 1)
            } else {
                Some(i)
            },
        }
    }
}

/// How many logins of the user the log holds.
pub open spec fn login_count(logs: Seq<LogModel>, user_id: int) -> int
    decreases logs.len(),
{
    if logs.len() == 0 {
        0
    } else if logs.last().user_id == user_id && logs.last().action_type == "login"@ {
        login_count(logs.drop_last(), user_id) + 1
    } else {
        login_count(logs.drop_last(), user_id)
    }
}

/// The timestamp of the user's most recent login.
pub open spec fn last_login(logs: Seq<LogModel>, user_id: int) -> Option<Seq<char>>
    decreases logs.len(),
{
    if logs.len() == 0 {
        None
    } else if logs.last().user_id == user_id && logs.last().action_type == "login"@ {
        Some(logs.last().timestamp)
    } else {
        last_login(logs.drop_last(), user_id)
    }
}

/// The figures of a duress session: nothing happened.
pub open spec fn no_stats() -> StatsModel {
    StatsModel {
        total_logins: 0,
        total_actions: 0,
        last_login: None,
        most_active_day: None,
        actions_by_type: Seq::empty(),
    }
}

impl StoreModel {
    /// The day on which the user was most active: the first of the days with
    /// the most events.
    pub open spec fn most_active_day(self, user_id: int) -> Option<Seq<char>> {
        let days = tally(self.logs, user_id, true, None);
        match first_greatest(days) {
            Some(i) => Some(days[i].0),
            None => None,
        }
    }

    /// Whether `stats` are the figures that the user is shown: those of
    /// [`no_stats`] in a duress session; else the totals, the most recent
    /// login, the busiest day, and the events counted by type, the most
    /// frequent type first.
    pub open spec fn shows_stats(self, user_id: int, stats: StatsModel) -> bool {
        if self.in_duress_mode(user_id) {
            stats == no_stats()
        } else {
            &&& stats.total_logins == shown_count(login_count(self.logs, user_id))
            &&& stats.total_actions == shown_count(
                owned_by::<ActivityLog>(self.logs, user_id).len() as int,
            )
            &&& stats.last_login == last_login(self.logs, user_id)
            &&& stats.most_active_day == self.most_active_day(user_id)
            &&& is_sorted::<ActionTypeCount>(stats.actions_by_type)
            &&& stats.actions_by_type.to_multiset() == shown_groups(
                tally(self.logs, user_id, false, None),
            ).to_multiset()
        }
    }

    /// Whether `trend` is the trend that the user is shown for a cutoff:
    /// nothing in a duress session; else the user's events that are not older
    /// than the cutoff, counted by day, the earliest day first.
    pub open spec fn shows_trend(self, user_id: int, cutoff: Seq<char>, trend: Seq<Group>) -> bool {
        if self.in_duress_mode(user_id) {
            trend.len() == 0
        } else {
            &&& is_sorted::<ActivityTrend>(trend)
            &&& trend.to_multiset() == shown_groups(
                tally(self.logs, user_id, true, Some(cutoff)),
            ).to_multiset()
        }
    }
}

/// The groups of a working list.
pub open spec fn working(groups: Seq<(String, u64)>) -> Seq<Group> {
    Seq::new(groups.len(), |i: int| (groups[i].0@, groups[i].1 as int))
}

/// A count as it is shown.
fn show_count(n: u64) -> (shown: i64)
    ensures
        shown == shown_count(n as int),
{
    if n > i64::MAX as u64 {
        i64::MAX
    } else {
        n as i64
    }
}

/// Cuts the day out of a timestamp.
fn day_text(timestamp: &String) -> (day: String)
    ensures
        day@ == day_of(timestamp@),
{
    let bytes = timestamp.as_str().as_bytes();
    if bytes.len() <= 10 {
        return timestamp.clone();
    }
    let mut head: Vec<u8> = Vec::new();
    let mut i: usize = 0;
    while i < 10
        invariant
            i <= 10 < bytes@.len(),
            head@ == bytes@.take(i as int),
        decreases 10 - i,
    {
        head.push(bytes[i]);
        assert(head@ =~= bytes@.take(i + 1));
        i = i + 1;
    }
    match utf8_decode(head) {
        Some(day) => day,
        None => timestamp.clone(),
    }
}

/// Finds the group for `key`.
fn find_group(groups: &Vec<(String, u64)>, key: &str) -> (found: Option<usize>)
    ensures
        match found {
            Some(i) => group_at(working(groups@), key@) == Some(i as int) && i < groups@.len(),
            None => group_at(working(groups@), key@).is_none(),
        },
{
    let ghost all = working(groups@);
    let mut i: usize = 0;
    assert(all.take(0) =~= Seq::<Group>::empty());
    while i < groups.len()
        invariant
            i <= groups.len(),
            all == working(groups@),
            group_at(all.take(i as int), key@).is_none(),
        decreases groups.len() - i,
    {
        proof {
            assert(all.take(i + 1).drop_last() =~= all.take(i as int));
            assert(all.take(i + 1).last() == all[i as int]);
        }
        if text_eq(groups[i].0.as_str(), key) {
            proof {
                lemma_group_at_prefix(all, key@, i + 1);
            }
            return Some(i);
        }
        i = i + 1;
    }
    assert(all.take(i as int) =~= all);
    None
}

/// A group found in a prefix is the group found in the whole list.
pub proof fn lemma_group_at_prefix(groups: Seq<Group>, key: Seq<char>, n: int)
    requires
        0 <= n <= groups.len(),
        group_at(groups.take(n), key).is_some(),
    ensures
        group_at(groups, key) == group_at(groups.take(n), key),
    decreases groups.len() - n,
{
    if n < groups.len() {
        assert(groups.take(n + 1).drop_last() =~= groups.take(n));
        lemma_group_at_prefix(groups, key, n + 1);
    } else {
        assert(groups.take(n) =~= groups);
    }
}

/// Counts the events of `user_id` that are not older than the cutoff, by day
/// or by action type.
fn count_events(store: &Store, user_id: i64, by_day: bool, cutoff: Option<&str>) -> (groups: Vec<
    (String, u64),
>)
    ensures
        working(groups@) == tally(
            store@.logs,
            user_id as int,
            by_day,
            match cutoff {
                Some(c) => Some(c@),
                None => None,
            },
        ),
{
    let ghost all = store@.logs;
    let ghost limit: Option<Seq<char>> = match cutoff {
        Some(c) => Some(c@),
        None => None,
    };
    let mut groups: Vec<(String, u64)> = Vec::new();
    let mut i: usize = 0;
    proof {
        assert(all.take(0) =~= Seq::<LogModel>::empty());
        assert(working(groups@) =~= Seq::<Group>::empty());
    }
    while i < store.logs.len()
        invariant
            i <= store.logs.len(),
            all == store@.logs,
            limit == match cutoff {
                Some(c) => Some(c@),
                None => None,
            },
            working(groups@) == tally(all.take(i as int), user_id as int, by_day, limit),
            forall|g: int| 0 <= g < groups@.len() ==> (#[trigger] groups@[g]).1 <= i,
        decreases store.logs.len() - i,
    {
        let log = &store.logs[i];
        proof {
            assert(all.take(i + 1).drop_last() =~= all.take(i as int));
            assert(all.take(i + 1).last() == log@);
        }
        let recent = match cutoff {
            Some(c) => !text_before(log.timestamp.as_str(), c),
            None => true,
        };
        if log.user_id == user_id && recent {
            let key = if by_day {
                day_text(&log.timestamp)
            } else {
                log.action_type.clone()
            };
            let ghost before = working(groups@);
            match find_group(&groups, key.as_str()) {
                Some(at) => {
                    let count = groups[at].1;
                    groups.set(at, (key, count + 1));
                    assert(working(groups@) =~= before.update(at as int, (key@, before[at as int].1 + 1)));
                },
                None => {
                    groups.push((key, 1));
                    assert(working(groups@) =~= before.push((key@, 1int)));
                },
            }
        }
        i = i + 1;
    }
    assert(all.take(i as int) =~= all);
    groups
}

/// Finds the first group with the greatest count.
fn find_greatest(groups: &Vec<(String, u64)>) -> (found: Option<usize>)
    ensures
        match found {
            Some(i) => first_greatest(working(groups@)) == Some(i as int) && i < groups@.len(),
            None => first_greatest(working(groups@)).is_none(),
        },
{
    let ghost all = working(groups@);
    let mut best: Option<usize> = None;
    let mut i: usize = 0;
    assert(all.take(0) =~= Seq::<Group>::empty());
    while i < groups.len()
        invariant
            i <= groups.len(),
            all == working(groups@),
            match best {
                Some(b) => first_greatest(all.take(i as int)) == Some(b as int) && b < i,
                None => first_greatest(all.take(i as int)).is_none(),
            },
        decreases groups.len() - i,
    {
        proof {
            assert(all.take(i + 1).drop_last() =~= all.take(i as int));
            assert(all.take(i + 1).last() == all[i as int]);
        }
        best = match best {
            None => Some(i),
            Some(b) => {
                assert(all.take(i + 1)[b as int] == all[b as int]);
                if groups[i].1 > groups[b].1 {
                    Some(i)
                } else {
                    Some(b)
                }
            },
        };
        i = i + 1;
    }
    assert(all.take(i as int) =~= all);
    best
}

/// Counts the logins of `user_id` and finds the most recent.
fn logins_of(store: &Store, user_id: i64) -> (found: (u64, Option<String>))
    ensures
        found.0 == login_count(store@.logs, user_id as int),
        match found.1 {
            Some(stamp) => last_login(store@.logs, user_id as int) == Some(stamp@),
            None => last_login(store@.logs, user_id as int).is_none(),
        },
{
    let ghost all = store@.logs;
    let mut count: u64 = 0;
    let mut last: Option<String> = None;
    let mut i: usize = 0;
    assert(all.take(0) =~= Seq::<LogModel>::empty());
    while i < store.logs.len()
        invariant
            i <= store.logs.len(),
            all == store@.logs,
            count <= i,
            count == login_count(all.take(i as int), user_id as int),
            match last {
                Some(stamp) => last_login(all.take(i as int), user_id as int) == Some(stamp@),
                None => last_login(all.take(i as int), user_id as int).is_none(),
            },
        decreases store.logs.len() - i,
    {
        let log = &store.logs[i];
        proof {
            assert(all.take(i + 1).drop_last() =~= all.take(i as int));
            assert(all.take(i + 1).last() == log@);
        }
        if log.user_id == user_id && text_eq(log.action_type.as_str(), "login") {
            count = count + 1;
            last = Some(log.timestamp.clone());
        }
        i = i + 1;
    }
    assert(all.take(i as int) =~= all);
    (count, last)
}

/// Reads the figures of the activity of `user_id`. A duress session reads
/// figures in which nothing ever happened.
pub fn get_activity_stats(store: &Store, user_id: i64) -> (stats: ActivityStats)
    ensures
        store@.shows_stats(user_id as int, stats@),
{
    if is_user_in_pseudo_mode(store, user_id) {
        let stats = ActivityStats {
            total_logins: 0,
            total_actions: 0,
            last_login: None,
            most_active_day: None,
            actions_by_type: Vec::new(),
        };
        assert(stats@.actions_by_type =~= Seq::<Group>::empty());
        return stats;
    }
    let (logins, last) = logins_of(store, user_id);
    let actions = count_owned(&store.logs, user_id);
    let days = count_events(store, user_id, true, None);
    let most_active_day = match find_greatest(&days) {
        Some(at) => Some(days[at].0.clone()),
        None => None,
    };
    let types = count_events(store, user_id, false, None);
    let ghost counted = shown_groups(working(types@));
    let mut rows: Vec<ActionTypeCount> = Vec::new();
    let mut i: usize = 0;
    while i < types.len()
        invariant
            i <= types.len(),
            counted == shown_groups(working(types@)),
            rows@.len() == i,
            forall|k: int| 0 <= k < i ==> (#[trigger] rows@[k])@ == counted[k],
        decreases types.len() - i,
    {
        let row = ActionTypeCount {
            action_type: types[i].0.clone(),
            count: show_count(types[i].1),
        };
        assert(row@ == counted[i as int]);
        rows.push(row);
        i = i + 1;
    }
    assert(models(rows@) =~= counted);
    let actions_by_type = sort(rows);
    ActivityStats {
        total_logins: show_count(logins),
        total_actions: show_count(actions as u64),
        last_login: last,
        most_active_day,
        actions_by_type,
    }
}

/// Reads the events of `user_id` that are not older than `cutoff`, counted
/// by day, the earliest day first. A duress session reads nothing.
pub fn activity_trend_since(store: &Store, user_id: i64, cutoff: &str) -> (trend: Vec<ActivityTrend>)
    ensures
        store@.shows_trend(user_id as int, cutoff@, models(trend@)),
{
    if is_user_in_pseudo_mode(store, user_id) {
        return Vec::new();
    }
    let days = count_events(store, user_id, true, Some(cutoff));
    let ghost counted = shown_groups(working(days@));
    let mut rows: Vec<ActivityTrend> = Vec::new();
    let mut i: usize = 0;
    while i < days.len()
        invariant
            i <= days.len(),
            counted == shown_groups(working(days@)),
            rows@.len() == i,
            forall|k: int| 0 <= k < i ==> (#[trigger] rows@[k])@ == counted[k],
        decreases days.len() - i,
    {
        let row = ActivityTrend { date: days[i].0.clone(), count: show_count(days[i].1) };
        assert(row@ == counted[i as int]);
        rows.push(row);
        i = i + 1;
    }
    assert(models(rows@) =~= counted);
    sort(rows)
}

/// Reads the events of `user_id` of the last `days` days, counted by day,
/// the earliest day first. A duress session reads nothing, whatever the
/// clock says.
///
/// Otherwise a clock that gives no reading is `ClockFailure`, and a cutoff
/// that the calendar cannot hold is `InputValidation`: that is so for every
/// number of days beyond [`MAX_SPAN_DAYS`], back or ahead, and for none up
/// to [`MAX_CUTOFF_DAYS`]. The outcome is then that of
/// [`activity_trend_since`] for the cutoff that lies so many days before the
/// reading of the clock.
pub fn get_activity_trend(store: &Store, user_id: i64, days: i64) -> (r: Result<
    Vec<ActivityTrend>,
    VaultError,
>)
    ensures
        match r {
            Ok(trend) => if store@.in_duress_mode(user_id as int) {
                trend@.len() == 0
            } else {
                exists|cutoff: Seq<char>|
                    is_cutoff(cutoff, days as int) && #[trigger] store@.shows_trend(
                        user_id as int,
                        cutoff,
                        models(trend@),
                    )
            },
            Err(e) => !store@.in_duress_mode(user_id as int) && (e == VaultError::ClockFailure || (e
                == VaultError::InputValidation && !(-MAX_CUTOFF_DAYS <= days <= MAX_CUTOFF_DAYS))),
        },
        !store@.in_duress_mode(user_id as int) && !(-MAX_SPAN_DAYS <= days <= MAX_SPAN_DAYS)
            ==> r.is_err(),
{
    if is_user_in_pseudo_mode(store, user_id) {
        return Ok(Vec::new());
    }
    let cutoff = match cutoff_timestamp(days) {
        Ok(cutoff) => cutoff,
        Err(e) => {
            return Err(e);
        },
    };
    let trend = activity_trend_since(store, user_id, cutoff.as_str());
    let ghost shown = models(trend@);
    let r: Result<Vec<ActivityTrend>, VaultError> = Ok(trend);
    proof {
        assert(is_cutoff(cutoff@, days as int));
        assert(store@.shows_trend(user_id as int, cutoff@, shown));
        assert(r matches Ok(t) && models(t@) == shown);
    }
    r
}

} // verus!
