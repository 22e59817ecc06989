//! The wall clock, in milliseconds since the Unix epoch.

use vstd::prelude::*;

verus! {

/// A moment on the system's clock.
#[verifier::external_type_specification]
#[verifier::external_body]
pub struct ExSystemTime(std::time::SystemTime);

/// The failure to measure a span that would be negative.
#[verifier::external_type_specification]
#[verifier::external_body]
pub struct ExSystemTimeError(std::time::SystemTimeError);

/// `SystemTime::now` reads the system's clock, which may say anything.
pub assume_specification[ std::time::SystemTime::now ]() -> std::time::SystemTime;

/// `SystemTime::duration_since`, counted from the Unix epoch: a failure for a moment before it.
/// Moments and spans are opaque, so that nothing is stated of the span that comes out.
#[verifier::external_body]
fn since_unix_epoch(moment: std::time::SystemTime) -> Result<
    std::time::Duration,
    std::time::SystemTimeError,
> {
    moment.duration_since(std::time::UNIX_EPOCH)
}

/// `Duration::as_millis` gives the whole milliseconds of a span. A span is opaque, so that nothing
/// is stated of the number.
pub assume_specification[ std::time::Duration::as_millis ](span: &std::time::Duration) -> u128;

/// The timestamp of a moment that lies `elapsed_ms` milliseconds after the epoch; 0 for a moment
/// before it.
pub fn unix_ms(elapsed_ms: Option<u128>) -> (now: u64)
    ensures
        now == match elapsed_ms {
            Some(ms) => ms % 0x1_0000_0000_0000_0000,
            None => 0,
        },
{
    match elapsed_ms {
        Some(ms) => (ms % 0x1_0000_0000_0000_0000u128) as u64,
        None => 0,
    }
}

/// Whether a span is what the system counts from the Unix epoch to a moment.
pub closed spec fn epoch_span(
    moment: std::time::SystemTime,
    outcome: Result<std::time::Duration, std::time::SystemTimeError>,
) -> bool {
    call_ensures(since_unix_epoch, (moment,), outcome)
}

/// Whether a timestamp is that of a moment: the whole milliseconds that the system counts from
/// the epoch to it, or 0 where it counts none.
pub open spec fn is_timestamp_of(moment: std::time::SystemTime, now: u64) -> bool {
    ||| exists|span: std::time::Duration, ms: u128|
        {
            &&& #[trigger] epoch_span(
                moment,
                Ok::<std::time::Duration, std::time::SystemTimeError>(span),
            )
            &&& #[trigger] call_ensures(std::time::Duration::as_millis, (&span,), ms)
            &&& now == ms % 0x1_0000_0000_0000_0000
        }
    ||| exists|error: std::time::SystemTimeError| #[trigger]
        epoch_span(moment, Err::<std::time::Duration, std::time::SystemTimeError>(error)) && now
            == 0
}

/// Whether a timestamp is one that the clock was read to show. What the clock shows is up to the
/// machine, so that nothing follows from this but that the clock was read.
#[verifier::inline]
pub open spec fn clock_shows(now: u64) -> bool {
    call_ensures(unix_now_ms, (), now)
}

/// What the clock is read to show is the timestamp of a moment that the system's clock gave.
pub proof fn law_clock_shows_the_system_time(now: u64)
    requires
        clock_shows(now),
    ensures
        exists|moment: std::time::SystemTime| #[trigger]
            call_ensures(std::time::SystemTime::now, (), moment) && is_timestamp_of(moment, now),
{
}

/// The current timestamp: `unix_ms` of what the system's clock says. The clock may say anything,
/// and every value can come out; `clock_shows` names what came out.
pub fn unix_now_ms() -> (now: u64)
    ensures
        exists|moment: std::time::SystemTime| #[trigger]
            call_ensures(std::time::SystemTime::now, (), moment) && is_timestamp_of(moment, now),
{
    let moment = std::time::SystemTime::now();
    assert(call_ensures(std::time::SystemTime::now, (), moment));
    match since_unix_epoch(moment) {
        Ok(span) => {
            assert(epoch_span(
                moment,
                Ok::<std::time::Duration, std::time::SystemTimeError>(span),
            ));
            let ms: u128 = span.as_millis();
            assert(call_ensures(std::time::Duration::as_millis, (&span,), ms));
            let now: u64 = unix_ms(Some(ms));
            assert(is_timestamp_of(moment, now));
            now
        },
        Err(error) => {
            assert(epoch_span(
                moment,
                Err::<std::time::Duration, std::time::SystemTimeError>(error),
            ));
            let now: u64 = unix_ms(None);
            assert(is_timestamp_of(moment, now));
            now
        },
    }
}

/// A timestamp is the number of milliseconds since the epoch, for every moment that 64 bits can
/// date; moments before the epoch are dated as the epoch.
pub proof fn law_timestamps_count_milliseconds(elapsed_ms: Option<u128>, now: u64)
    requires
        call_ensures(unix_ms, (elapsed_ms,), now),
    ensures
        elapsed_ms matches Some(ms) ==> (ms <= u64::MAX ==> now == ms),
        elapsed_ms is None ==> now == 0,
{
}

} // verus!
