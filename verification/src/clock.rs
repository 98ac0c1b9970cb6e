//! The wall clock.

use std::time::{Duration, SystemTime, SystemTimeError};
use vstd::prelude::*;

verus! {

/// Whether a character can stand in a date and a time that are written out.
pub open spec fn stamp_char(c: char) -> bool {
    '0' <= c <= '9' || c == '-' || c == '+' || c == ':' || c == '.' || c == ' '
}

/// Whether a text is made of the characters of dates and times.
pub open spec fn stamp_like(s: Seq<char>) -> bool {
    s.len() > 0 && forall|i: int| 0 <= i < s.len() ==> stamp_char(#[trigger] s[i])
}

#[verifier::external_type_specification]
#[verifier::external_body]
pub struct ExSystemTime(SystemTime);

#[verifier::external_type_specification]
#[verifier::external_body]
pub struct ExSystemTimeError(SystemTimeError);

/// How far a time lies after the Unix epoch, where it does not lie before it.
pub uninterp spec fn after_epoch(time: SystemTime) -> Option<Duration>;

/// The whole milliseconds in a duration.
pub uninterp spec fn whole_millis(duration: Duration) -> u128;

/// The whole seconds in a duration.
pub uninterp spec fn whole_seconds(duration: Duration) -> u64;

/// The whole nanoseconds in a duration.
pub uninterp spec fn whole_nanos(duration: Duration) -> u128;

/// `SystemTime::now` gives the current time. Nothing is claimed of it.
pub assume_specification[ SystemTime::now ]() -> (r: SystemTime)
;

/// `Duration::as_millis` gives the whole milliseconds in a duration.
pub assume_specification[ Duration::as_millis ](duration: &Duration) -> (r: u128)
    ensures
        r == whole_millis(*duration),
;

/// `Duration::as_secs` gives the whole seconds in a duration.
pub assume_specification[ Duration::as_secs ](duration: &Duration) -> (r: u64)
    ensures
        r == whole_seconds(*duration),
;

/// `Duration::as_nanos` gives the whole nanoseconds in a duration.
pub assume_specification[ Duration::as_nanos ](duration: &Duration) -> (r: u128)
    ensures
        r == whole_nanos(*duration),
;

/// `SystemTime::duration_since` gives how far a time lies after the Unix epoch,
/// and an error for one that lies before it.
#[verifier::external_body]
fn measure(time: SystemTime) -> (r: Result<Duration, SystemTimeError>)
    ensures
        match r {
            Ok(duration) => after_epoch(time) == Some(duration),
            Err(_) => after_epoch(time) is None,
        },
{
    time.duration_since(std::time::UNIX_EPOCH)
}

/// A number, at most the greatest that 64 bits hold.
pub open spec fn capped(n: u128) -> u64 {
    if n > u64::MAX {
        u64::MAX
    } else {
        n as u64
    }
}

/// A number, at most the greatest that 64 bits hold.
fn cap(n: u128) -> (r: u64)
    ensures
        r == capped(n),
{
    if n > u64::MAX as u128 {
        u64::MAX
    } else {
        n as u64
    }
}

/// The milliseconds of a time that lies so far after the Unix epoch, at most the
/// greatest number there is, and zero for one that lies before it.
pub open spec fn millis_shown(since: Option<Duration>) -> u64 {
    match since {
        Some(duration) => capped(whole_millis(duration)),
        None => 0,
    }
}

/// The nanoseconds of a time that lies so far after the Unix epoch, at most the
/// greatest number there is, and zero for one that lies before it.
pub open spec fn nanos_shown(since: Option<Duration>) -> u64 {
    match since {
        Some(duration) => capped(whole_nanos(duration)),
        None => 0,
    }
}

/// The seconds of a time that lies so far after the Unix epoch, and zero for one
/// that lies before it.
pub open spec fn seconds_shown(since: Option<Duration>) -> u64 {
    match since {
        Some(duration) => whole_seconds(duration),
        None => 0,
    }
}

/// The milliseconds of a time that lies so far after the Unix epoch.
pub fn millis_after_epoch(since: Option<Duration>) -> (r: u64)
    ensures
        r == millis_shown(since),
{
    match since {
        Some(duration) => cap(duration.as_millis()),
        None => 0,
    }
}

/// The nanoseconds of a time that lies so far after the Unix epoch.
pub fn nanos_after_epoch(since: Option<Duration>) -> (r: u64)
    ensures
        r == nanos_shown(since),
{
    match since {
        Some(duration) => cap(duration.as_nanos()),
        None => 0,
    }
}

/// The seconds of a time that lies so far after the Unix epoch.
pub fn seconds_after_epoch(since: Option<Duration>) -> (r: u64)
    ensures
        r == seconds_shown(since),
{
    match since {
        Some(duration) => duration.as_secs(),
        None => 0,
    }
}

/// How far the current time lies after the Unix epoch, where it does not lie
/// before it.
fn since_epoch() -> (r: Option<Duration>)
    ensures
        exists|time: SystemTime| r == #[trigger] after_epoch(time),
{
    match measure(SystemTime::now()) {
        Ok(duration) => Some(duration),
        Err(_) => None,
    }
}

/// Milliseconds since the Unix epoch, zero before it.
pub fn unix_millis() -> (r: u64)
    ensures
        exists|time: SystemTime| r == millis_shown(#[trigger] after_epoch(time)),
{
    millis_after_epoch(since_epoch())
}

/// Nanoseconds since the Unix epoch, zero before it.
pub fn unix_nanos() -> (r: u64)
    ensures
        exists|time: SystemTime| r == nanos_shown(#[trigger] after_epoch(time)),
{
    nanos_after_epoch(since_epoch())
}

/// Seconds since the Unix epoch, zero before it.
pub fn unix_seconds() -> (r: u64)
    ensures
        exists|time: SystemTime| r == seconds_shown(#[trigger] after_epoch(time)),
{
    seconds_after_epoch(since_epoch())
}

/// A time after the epoch is told in whole milliseconds, seconds or nanoseconds,
/// or as the greatest number there is; one before the epoch is told as zero.
pub proof fn law_times_are_told_in_whole_units(d: Duration)
    ensures
        whole_millis(d) <= u64::MAX ==> millis_shown(Some(d)) == whole_millis(d),
        whole_millis(d) > u64::MAX ==> millis_shown(Some(d)) == u64::MAX,
        whole_nanos(d) <= u64::MAX ==> nanos_shown(Some(d)) == whole_nanos(d),
        whole_nanos(d) > u64::MAX ==> nanos_shown(Some(d)) == u64::MAX,
        seconds_shown(Some(d)) == whole_seconds(d),
        millis_shown(None) == 0,
        nanos_shown(None) == 0,
        seconds_shown(None) == 0,
{
}

/// A date that is written out has digits and what stands between them, and
/// nothing else.
pub proof fn law_stamps_are_digits_and_marks(s: Seq<char>, i: int)
    requires
        stamp_like(s),
        0 <= i < s.len(),
    ensures
        '0' <= s[i] <= '9' || s[i] == '-' || s[i] == '+' || s[i] == ':' || s[i] == '.' || s[i]
            == ' ',
{
    assert(stamp_char(s[i]));
}

} // verus!
