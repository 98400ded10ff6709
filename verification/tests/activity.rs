use xpass::activity_logger::{
    cancel_logs_deletion, check_pending_deletion, cleanup_logs_before, cleanup_old_logs,
    clear_activity_logs, get_activity_count, get_activity_logs, is_user_in_pseudo_mode,
    log_activity, schedule_logs_deletion,
};
use xpass::clock::{current_timestamp, cutoff_of, read_clock, stamp_of};
use xpass::error::VaultError;
use xpass::password_manager::create_user_with_salt;
use xpass::statistics::{activity_trend_since, get_activity_stats, get_activity_trend};
use xpass::store::{ActivityLog, Store};

const SALT: &str = "c29tZXNhbHRzb21lc2FsdA";

fn s(text: &str) -> String {
    text.to_string()
}

fn put(store: &mut Store, user_id: i64, action: &str, timestamp: &str) {
    let id = store.logs.iter().map(|l| l.id).max().unwrap_or(0) + 1;
    store.logs.push(ActivityLog {
        id,
        user_id,
        action_type: s(action),
        details: format!("{} of user {}", action, user_id),
        timestamp: s(timestamp),
    });
}

fn sample() -> Store {
    let mut store = Store::new();
    put(&mut store, 1, "account_created", "2026-01-01T08:00:00+00:00");
    put(&mut store, 1, "login", "2026-01-01T09:00:00+00:00");
    put(&mut store, 2, "login", "2026-01-01T10:00:00+00:00");
    put(&mut store, 1, "add_entry", "2026-01-02T09:00:00+00:00");
    put(&mut store, 1, "add_entry", "2026-01-02T09:30:00+00:00");
    put(&mut store, 1, "login", "2026-01-02T11:00:00+00:00");
    put(&mut store, 1, "add_entry", "2026-01-03T09:00:00+00:00");
    store
}

#[test]
fn an_event_is_appended_with_the_next_id() {
    let mut store = Store::new();
    assert_eq!(log_activity(&mut store, 3, "login", "first"), Ok(()));
    assert_eq!(log_activity(&mut store, 4, "add_entry", "second"), Ok(()));
    assert_eq!(store.logs.len(), 2);
    assert_eq!(store.logs[0].id, 1);
    assert_eq!(store.logs[1].id, 2);
    assert_eq!(store.logs[1].user_id, 4);
    assert_eq!(store.logs[1].action_type, "add_entry");
    assert_eq!(store.logs[1].details, "second");
    assert!(chrono::DateTime::parse_from_rfc3339(&store.logs[1].timestamp).is_ok());
}

#[test]
fn a_full_log_takes_no_event() {
    let mut store = Store::new();
    put(&mut store, 1, "login", "t");
    store.logs[0].id = i64::MAX;
    assert_eq!(log_activity(&mut store, 1, "login", "x"), Err(VaultError::StorageFailure));
    assert_eq!(store.logs.len(), 1);
}

#[test]
fn events_are_read_newest_first() {
    let store = sample();
    let all = get_activity_logs(&store, 1, -1);
    let ids: Vec<i64> = all.iter().map(|l| l.id).collect();
    assert_eq!(ids, vec![7, 6, 5, 4, 2, 1]);
    assert_eq!(all[0].action_type, "add_entry");
    assert_eq!(all[0].timestamp, "2026-01-03T09:00:00+00:00");
    assert_eq!(all[0].details, "add_entry of user 1");
    let ids: Vec<i64> = get_activity_logs(&store, 1, 2).iter().map(|l| l.id).collect();
    assert_eq!(ids, vec![7, 6]);
    assert_eq!(get_activity_logs(&store, 1, 0).len(), 0);
    assert_eq!(get_activity_logs(&store, 1, 6).len(), 6);
    assert_eq!(get_activity_logs(&store, 1, 100).len(), 6);
    assert_eq!(get_activity_logs(&store, 2, -5).len(), 1);
    assert_eq!(get_activity_logs(&store, 3, -1).len(), 0);
}

#[test]
fn a_duress_session_reads_no_events() {
    let mut store = sample();
    put(&mut store, 1, "pseudo_login_access", "2026-01-04T09:00:00+00:00");
    put(&mut store, 1, "add_entry", "2026-01-04T09:01:00+00:00");
    assert!(is_user_in_pseudo_mode(&store, 1));
    assert!(!is_user_in_pseudo_mode(&store, 2));
    assert!(get_activity_logs(&store, 1, -1).is_empty());
    assert_eq!(get_activity_logs(&store, 2, -1).len(), 1);
    assert_eq!(get_activity_count(&store, 1), 8);
    put(&mut store, 1, "login", "2026-01-05T09:00:00+00:00");
    assert!(!is_user_in_pseudo_mode(&store, 1));
    assert_eq!(get_activity_logs(&store, 1, -1).len(), 9);
}

#[test]
fn events_are_counted_and_cleared() {
    let mut store = sample();
    assert_eq!(get_activity_count(&store, 1), 6);
    assert_eq!(get_activity_count(&store, 2), 1);
    assert_eq!(get_activity_count(&store, 3), 0);
    clear_activity_logs(&mut store, 1);
    assert_eq!(get_activity_count(&store, 1), 0);
    assert_eq!(get_activity_count(&store, 2), 1);
    assert_eq!(store.logs.len(), 1);
}

#[test]
fn old_events_are_cleaned_up() {
    let mut store = sample();
    assert_eq!(cleanup_logs_before(&mut store, 1, "2026-01-02T09:30:00+00:00"), 3);
    let ids: Vec<i64> = store.logs.iter().map(|l| l.id).collect();
    assert_eq!(ids, vec![3, 5, 6, 7]);
    assert_eq!(cleanup_logs_before(&mut store, 1, "2026-01-02T09:30:00+00:00"), 0);
    assert_eq!(cleanup_logs_before(&mut store, 2, "9"), 1);
    assert_eq!(cleanup_logs_before(&mut store, 1, ""), 0);
    assert_eq!(store.logs.len(), 3);
}

#[test]
fn old_events_are_cleaned_up_by_the_clock() {
    let mut store = sample();
    log_activity(&mut store, 1, "login", "now").unwrap();
    assert_eq!(cleanup_old_logs(&mut store, 1, 30), Ok(6));
    assert_eq!(store.logs.len(), 2);
    assert_eq!(cleanup_old_logs(&mut store, 1, -1), Ok(1));
    assert_eq!(cleanup_old_logs(&mut store, 2, 700_000), Ok(0));
    assert_eq!(cleanup_old_logs(&mut store, 2, 1_000_000), Ok(0));
    assert_eq!(cleanup_old_logs(&mut store, 2, 200_000_000), Err(VaultError::InputValidation));
    assert_eq!(cleanup_old_logs(&mut store, 2, -200_000_000), Err(VaultError::InputValidation));
    assert_eq!(
        cleanup_old_logs(&mut store, 2, 106_751_991_168),
        Err(VaultError::InputValidation)
    );
    assert_eq!(cleanup_old_logs(&mut store, 2, i64::MIN), Err(VaultError::InputValidation));
    assert_eq!(store.logs.len(), 1);
}

#[test]
fn a_deletion_is_scheduled_and_carried_out() {
    let mut store = sample();
    create_user_with_salt(&mut store, s("alice"), s("Pw1!"), s(SALT)).unwrap();
    assert_eq!(schedule_logs_deletion(&mut store, 1, s("nope")), Err(VaultError::AuthFailure));
    assert_eq!(schedule_logs_deletion(&mut store, 5, s("Pw1!")), Err(VaultError::NotFound));
    assert!(store.pending.is_empty());
    assert!(!check_pending_deletion(&mut store, 1));
    assert_eq!(schedule_logs_deletion(&mut store, 1, s("Pw1!")), Ok(()));
    assert_eq!(schedule_logs_deletion(&mut store, 1, s("Pw1!")), Ok(()));
    assert_eq!(store.pending.len(), 1);
    assert_eq!(store.pending[0].user_id, 1);
    assert!(!check_pending_deletion(&mut store, 2));
    assert!(check_pending_deletion(&mut store, 1));
    assert!(store.pending.is_empty());
    assert_eq!(get_activity_count(&store, 1), 0);
    assert_eq!(get_activity_count(&store, 2), 1);
    assert!(!check_pending_deletion(&mut store, 1));
}

#[test]
fn a_scheduled_deletion_is_cancelled() {
    let mut store = sample();
    create_user_with_salt(&mut store, s("alice"), s("Pw1!"), s(SALT)).unwrap();
    schedule_logs_deletion(&mut store, 1, s("Pw1!")).unwrap();
    cancel_logs_deletion(&mut store, 1);
    assert!(store.pending.is_empty());
    assert!(!check_pending_deletion(&mut store, 1));
    assert_eq!(get_activity_count(&store, 1), 7);
}

#[test]
fn stamps_are_written_from_readings() {
    assert_eq!(stamp_of(Some((0, 0))), "1970-01-01T00:00:00+00:00");
    assert_eq!(stamp_of(Some((1_767_258_000, 0))), "2026-01-01T09:00:00+00:00");
    assert_eq!(stamp_of(Some((1_767_258_000, 500_000_000))), "2026-01-01T09:00:00.500+00:00");
    assert_eq!(stamp_of(Some((253_402_300_799, 0))), "9999-12-31T23:59:59+00:00");
    assert_eq!(stamp_of(None), "1970-01-01T00:00:00+00:00");
    assert_eq!(stamp_of(Some((253_402_300_800, 0))), "1970-01-01T00:00:00+00:00");
    assert_eq!(stamp_of(Some((u64::MAX, 0))), "1970-01-01T00:00:00+00:00");
    assert_eq!(stamp_of(Some((5, 2_000_000_000))), "1970-01-01T00:00:00+00:00");
    let now = current_timestamp();
    assert!(chrono::DateTime::parse_from_rfc3339(&now).is_ok());
    assert!(now.as_str() > "2020");
    let (seconds, nanos) = read_clock().unwrap();
    assert!(seconds > 1_600_000_000);
    assert!(nanos < 1_000_000_000);
}

#[test]
fn cutoffs_are_written_from_readings() {
    let reading = Some((1_767_258_000, 0));
    assert_eq!(cutoff_of(reading, 0), Ok("2026-01-01T09:00:00+00:00".to_string()));
    assert_eq!(cutoff_of(reading, 1), Ok("2025-12-31T09:00:00+00:00".to_string()));
    assert_eq!(cutoff_of(reading, 366), Ok("2024-12-31T09:00:00+00:00".to_string()));
    assert_eq!(cutoff_of(reading, -1), Ok("2026-01-02T09:00:00+00:00".to_string()));
    assert!(cutoff_of(reading, 1_000_000).is_ok());
    assert!(cutoff_of(reading, -1_000_000).is_ok());
    assert!(cutoff_of(Some((0, 0)), 1_000_000).is_ok());
    assert!(cutoff_of(Some((253_402_300_799, 999_999_999)), -1_000_000).is_ok());
    assert_eq!(cutoff_of(reading, 200_000_000), Err(VaultError::InputValidation));
    assert_eq!(cutoff_of(reading, 106_751_991_168), Err(VaultError::InputValidation));
    assert_eq!(cutoff_of(reading, i64::MIN), Err(VaultError::InputValidation));
    assert_eq!(cutoff_of(None, 1), Err(VaultError::ClockFailure));
    assert_eq!(cutoff_of(Some((253_402_300_800, 0)), 1), Err(VaultError::ClockFailure));
    assert_eq!(cutoff_of(Some((u64::MAX, 0)), i64::MAX), Err(VaultError::ClockFailure));
}

#[test]
fn the_figures_of_a_user() {
    let store = sample();
    let stats = get_activity_stats(&store, 1);
    assert_eq!(stats.total_logins, 2);
    assert_eq!(stats.total_actions, 6);
    assert_eq!(stats.last_login.as_deref(), Some("2026-01-02T11:00:00+00:00"));
    assert_eq!(stats.most_active_day.as_deref(), Some("2026-01-02"));
    let by_type: Vec<(&str, i64)> =
        stats.actions_by_type.iter().map(|a| (a.action_type.as_str(), a.count)).collect();
    assert_eq!(by_type, vec![("add_entry", 3), ("login", 2), ("account_created", 1)]);
}

#[test]
fn the_figures_of_a_user_without_events() {
    let store = sample();
    let stats = get_activity_stats(&store, 9);
    assert_eq!(stats.total_logins, 0);
    assert_eq!(stats.total_actions, 0);
    assert!(stats.last_login.is_none());
    assert!(stats.most_active_day.is_none());
    assert!(stats.actions_by_type.is_empty());
}

#[test]
fn the_figures_of_a_duress_session() {
    let mut store = sample();
    put(&mut store, 1, "pseudo_login_access", "2026-01-04T09:00:00+00:00");
    let stats = get_activity_stats(&store, 1);
    assert_eq!(stats.total_logins, 0);
    assert_eq!(stats.total_actions, 0);
    assert!(stats.last_login.is_none());
    assert!(stats.most_active_day.is_none());
    assert!(stats.actions_by_type.is_empty());
    assert!(activity_trend_since(&store, 1, "").is_empty());
    assert_eq!(get_activity_trend(&store, 1, 10_000_000).unwrap().len(), 0);
}

#[test]
fn the_trend_counts_events_by_day() {
    let mut store = sample();
    put(&mut store, 1, "login", "2025-12-31T23:59:59+00:00");
    let trend: Vec<(String, i64)> = activity_trend_since(&store, 1, "2026-01-01T09:00:00+00:00")
        .into_iter()
        .map(|t| (t.date, t.count))
        .collect();
    assert_eq!(
        trend,
        vec![(s("2026-01-01"), 1), (s("2026-01-02"), 3), (s("2026-01-03"), 1)]
    );
    let all: Vec<(String, i64)> =
        activity_trend_since(&store, 1, "").into_iter().map(|t| (t.date, t.count)).collect();
    assert_eq!(
        all,
        vec![(s("2025-12-31"), 1), (s("2026-01-01"), 2), (s("2026-01-02"), 3), (s("2026-01-03"), 1)]
    );
    assert!(activity_trend_since(&store, 1, "2027").is_empty());
}

#[test]
fn the_trend_by_the_clock() {
    let mut store = sample();
    log_activity(&mut store, 1, "login", "now").unwrap();
    let trend = get_activity_trend(&store, 1, 1).unwrap();
    assert_eq!(trend.len(), 1);
    assert_eq!(trend[0].count, 1);
    assert_eq!(trend[0].date.len(), 10);
    assert_eq!(get_activity_trend(&store, 1, 1_000_000).unwrap().len(), 4);
    assert!(matches!(
        get_activity_trend(&store, 1, 200_000_000),
        Err(VaultError::InputValidation)
    ));
    assert!(matches!(get_activity_trend(&store, 1, i64::MAX), Err(VaultError::InputValidation)));
}
