//! The system clock: its reading in seconds since the epoch, and the text
//! that events, bundles and photos are stamped with. A clock that gives no
//! reading is an outcome like any other: nothing here stops the program.

use crate::error::VaultError;
use vstd::prelude::*;

verus! {

/// The RFC 3339 text that the chrono crate writes for the instant that lies
/// `seconds` seconds and `nanos` nanoseconds after the epoch, in UTC; `None`
/// where the crate's calendar does not hold the instant.
pub uninterp spec fn rfc3339_text(seconds: int, nanos: int) -> Option<Seq<char>>;

/// The RFC 3339 text that the chrono crate writes for the instant that lies
/// `days` days before the one given by `seconds` and `nanos`; `None` where
/// the crate's calendar does not hold one of the two, or the span of days.
pub uninterp spec fn rfc3339_text_before(seconds: int, nanos: int, days: int) -> Option<Seq<char>>;

/// The last second that stamps are written for: the end of the year 9999.
pub const MAX_STAMP_SECONDS: u64 = 253_402_300_799;

/// Nanoseconds in a second.
pub const NANOS_PER_SECOND: u32 = 1_000_000_000;

/// The greatest number of days, back or ahead, that can be a span of time.
pub const MAX_SPAN_DAYS: i64 = 106_751_991_167;

/// The greatest number of days, back or ahead, for which a cutoff is owed
/// whenever the clock gives a reading.
pub const MAX_CUTOFF_DAYS: i64 = 1_000_000;

/// An instant of the system clock.
#[verifier::external_type_specification]
#[verifier::external_body]
pub struct ExSystemTime(std::time::SystemTime);

/// Calls `SystemTime::now`.
///
/// Trusted: nothing is said of the instant, which depends on the clock.
#[verifier::external_body]
fn system_now() -> (now: std::time::SystemTime) {
    std::time::SystemTime::now()
}

/// Calls `SystemTime::duration_since` with `UNIX_EPOCH`.
///
/// Trusted: nothing is said of the time elapsed; there is none for an
/// instant before the epoch.
#[verifier::external_body]
fn since_epoch(instant: &std::time::SystemTime) -> (elapsed: Option<core::time::Duration>) {
    match instant.duration_since(std::time::UNIX_EPOCH) {
        Ok(elapsed) => Some(elapsed),
        Err(_) => None,
    }
}

/// Calls `Duration::as_secs`.
///
/// Trusted: nothing is said of the number.
#[verifier::external_body]
fn whole_seconds(elapsed: &core::time::Duration) -> (seconds: u64) {
    elapsed.as_secs()
}

/// Calls `Duration::subsec_nanos`.
///
/// Trusted: the fraction of a second is less than a second.
#[verifier::external_body]
fn fraction_nanos(elapsed: &core::time::Duration) -> (nanos: u32)
    ensures
        nanos < 1_000_000_000,
{
    elapsed.subsec_nanos()
}

/// Calls `chrono::DateTime::from_timestamp` and `DateTime::to_rfc3339`.
///
/// Trusted: the text is a function of seconds and nanoseconds alone. The
/// crate's calendar reaches some 262,000 years to either side of the year 0,
/// so that there is a text for every instant from the epoch to the end of
/// the year 9999. Neither call unwinds.
#[verifier::external_body]
fn render_instant(seconds: i64, nanos: u32) -> (text: Option<String>)
    ensures
        text.deep_view() == rfc3339_text(seconds as int, nanos as int),
        0 <= seconds <= 253_402_300_799 && nanos < 1_000_000_000 ==> text.is_some(),
{
    chrono::DateTime::from_timestamp(seconds, nanos).map(|instant| instant.to_rfc3339())
}

/// Calls `chrono::DateTime::from_timestamp`, `TimeDelta::try_days`,
/// `DateTime::checked_sub_signed` and `DateTime::to_rfc3339`.
///
/// Trusted: the text is a function of seconds, nanoseconds and days alone.
/// The crate holds no span of more than 106,751,991,167 days. Its calendar
/// reaches some 262,000 years to either side of the year 0, so that there is
/// a text for every instant at most 1,000,000 days away from one between the
/// epoch and the end of the year 9999. None of the calls unwinds.
#[verifier::external_body]
fn render_instant_before(seconds: i64, nanos: u32, days: i64) -> (text: Option<String>)
    ensures
        text.deep_view() == rfc3339_text_before(seconds as int, nanos as int, days as int),
        text.is_some() ==> -106_751_991_167 <= days <= 106_751_991_167,
        0 <= seconds <= 253_402_300_799 && nanos < 1_000_000_000 && -1_000_000 <= days
            <= 1_000_000 ==> text.is_some(),
{
    let instant = chrono::DateTime::from_timestamp(seconds, nanos)?;
    let span = chrono::TimeDelta::try_days(days)?;
    instant.checked_sub_signed(span).map(|cutoff| cutoff.to_rfc3339())
}

/// Whether a reading is one that stamps are written for: between the epoch
/// and the end of the year 9999.
pub open spec fn stampable(seconds: int, nanos: int) -> bool {
    0 <= seconds <= MAX_STAMP_SECONDS && 0 <= nanos < NANOS_PER_SECOND
}

/// Whether a text is a stamp: the RFC 3339 text of an instant between the
/// epoch and the end of the year 9999.
pub open spec fn is_stamp(text: Seq<char>) -> bool {
    exists|seconds: int, nanos: int|
        stampable(seconds, nanos) && #[trigger] rfc3339_text(seconds, nanos) == Some(text)
}

/// Whether a text is a cutoff for a number of days: the RFC 3339 text of the
/// instant that lies so many days before one between the epoch and the end
/// of the year 9999.
pub open spec fn is_cutoff(text: Seq<char>, days: int) -> bool {
    exists|seconds: int, nanos: int|
        stampable(seconds, nanos) && #[trigger] rfc3339_text_before(seconds, nanos, days) == Some(
            text,
        )
}

/// Reads the clock: whole seconds since the epoch and the fraction of a
/// second in nanoseconds. A clock that stands before the epoch gives no
/// reading.
pub fn read_clock() -> (reading: Option<(u64, u32)>)
    ensures
        reading matches Some((_, nanos)) ==> nanos < NANOS_PER_SECOND,
{
    match since_epoch(&system_now()) {
        Some(elapsed) => Some((whole_seconds(&elapsed), fraction_nanos(&elapsed))),
        None => None,
    }
}

/// Writes the stamp of a reading: its RFC 3339 text, and that of the epoch
/// where there is no reading or the reading lies beyond the year 9999.
pub fn stamp_of(reading: Option<(u64, u32)>) -> (stamp: String)
    ensures
        is_stamp(stamp@),
        match reading {
            Some((seconds, nanos)) if stampable(seconds as int, nanos as int) => rfc3339_text(
                seconds as int,
                nanos as int,
            ) == Some(stamp@),
            _ => rfc3339_text(0, 0) == Some(stamp@),
        },
{
    match reading {
        Some((seconds, nanos)) if seconds <= MAX_STAMP_SECONDS && nanos < NANOS_PER_SECOND => {
            let stamp = render_instant(seconds as i64, nanos).unwrap();
            assert(stampable(seconds as int, nanos as int));
            stamp
        },
        _ => {
            let stamp = render_instant(0, 0).unwrap();
            assert(stampable(0, 0));
            stamp
        },
    }
}

/// Writes the stamp of the current time. No operation is refused for want
/// of a clock: where the clock gives no reading, what is stamped bears the
/// epoch.
pub fn current_timestamp() -> (stamp: String)
    ensures
        is_stamp(stamp@),
{
    stamp_of(read_clock())
}

/// What the cutoff of a reading is: `ClockFailure` where there is no reading
/// or it lies beyond the year 9999, `InputValidation` where the calendar
/// does not hold the instant so many days before it.
pub open spec fn cutoff_result(reading: Option<(u64, u32)>, days: int) -> Result<Seq<char>, VaultError> {
    match reading {
        Some((seconds, nanos)) if stampable(seconds as int, nanos as int) => {
            match rfc3339_text_before(seconds as int, nanos as int, days) {
                Some(text) => Ok(text),
                None => Err(VaultError::InputValidation),
            }
        },
        _ => Err(VaultError::ClockFailure),
    }
}

/// Writes the cutoff that lies `days` days before a reading.
pub fn cutoff_of(reading: Option<(u64, u32)>, days: i64) -> (r: Result<String, VaultError>)
    ensures
        match r {
            Ok(text) => cutoff_result(reading, days as int) == Ok::<Seq<char>, VaultError>(text@),
            Err(e) => cutoff_result(reading, days as int) == Err::<Seq<char>, VaultError>(e),
        },
        r matches Ok(text) ==> is_cutoff(text@, days as int) && -MAX_SPAN_DAYS <= days
            <= MAX_SPAN_DAYS,
        -MAX_CUTOFF_DAYS <= days <= MAX_CUTOFF_DAYS ==> !(r matches Err(e) && e
            == VaultError::InputValidation),
{
    match reading {
        Some((seconds, nanos)) if seconds <= MAX_STAMP_SECONDS && nanos < NANOS_PER_SECOND => {
            assert(stampable(seconds as int, nanos as int));
            match render_instant_before(seconds as i64, nanos, days) {
                Some(text) => Ok(text),
                None => Err(VaultError::InputValidation),
            }
        },
        _ => Err(VaultError::ClockFailure),
    }
}

/// Writes the cutoff that lies `days` days before the current time.
///
/// A clock that gives no reading is `ClockFailure`. With a reading, a cutoff
/// is owed for every number of days up to [`MAX_CUTOFF_DAYS`], back or
/// ahead; beyond [`MAX_SPAN_DAYS`] there is none.
pub fn cutoff_timestamp(days: i64) -> (r: Result<String, VaultError>)
    ensures
        match r {
            Ok(text) => is_cutoff(text@, days as int) && -MAX_SPAN_DAYS <= days <= MAX_SPAN_DAYS,
            Err(e) => e == VaultError::ClockFailure || (e == VaultError::InputValidation && !(
            -MAX_CUTOFF_DAYS <= days <= MAX_CUTOFF_DAYS)),
        },
{
    cutoff_of(read_clock(), days)
}

} // verus!
