//! Wall-clock time.

use vstd::prelude::*;

verus! {

/// The clock reading in milliseconds, as the journal stores it: zero where the
/// clock stands before the epoch.
pub open spec fn stored_ms(since_epoch: Option<u128>) -> i64 {
    match since_epoch {
        Some(ms) => ms as i64,
        None => 0,
    }
}

/// Calls `SystemTime::elapsed` on the Unix epoch: the milliseconds since the
/// epoch, or `None` where the clock stands before it. Nothing is claimed of the
/// reading.
#[verifier::external_body]
fn ms_since_epoch() -> (reading: Option<u128>) {
    match std::time::UNIX_EPOCH.elapsed() {
        Ok(elapsed) => Some(elapsed.as_millis()),
        Err(_) => None,
    }
}

/// The clock reading in milliseconds, as the journal stores it.
pub fn to_stored_ms(since_epoch: Option<u128>) -> (ms: i64)
    ensures
        ms == stored_ms(since_epoch),
{
    match since_epoch {
        Some(ms) => {
            #[verifier::truncate]
            (ms as i64)
        },
        None => 0,
    }
}

/// Whether the system clock can have given this reading: the milliseconds since
/// the epoch, or `None` where it stands before the epoch.
pub closed spec fn clock_gave(reading: Option<u128>) -> bool {
    call_ensures(ms_since_epoch, (), reading)
}

/// Whether this can have been the time: a reading of the system clock, as the
/// journal stores it.
pub open spec fn can_be_now(ms: i64) -> bool {
    exists|reading: Option<u128>| #[trigger] clock_gave(reading) && ms == stored_ms(reading)
}

/// Milliseconds since the epoch, read from the system clock.
pub fn now_ms() -> (ms: i64)
    ensures
        can_be_now(ms),
{
    let reading: Option<u128> = ms_since_epoch();
    assert(clock_gave(reading));
    to_stored_ms(reading)
}

/// Declares `std::time::Instant`, a reading of the monotonic clock. It is only
/// carried from the start of a measurement to its end.
#[verifier::external_type_specification]
#[verifier::external_body]
pub struct ExInstant(std::time::Instant);

/// Calls `Instant::now`. Nothing is claimed of the reading.
#[verifier::external_body]
fn instant_now() -> (start: std::time::Instant) {
    std::time::Instant::now()
}

/// Whether the monotonic clock can have given this reading.
pub closed spec fn started(start: std::time::Instant) -> bool {
    call_ensures(instant_now, (), start)
}

/// Whether a measurement that started with this reading can have given so many
/// milliseconds, as the journal stores them.
pub closed spec fn measured(start: std::time::Instant, ms: u64) -> bool {
    exists|elapsed: u128|
        #[trigger] call_ensures(elapsed_ms, (&start,), elapsed) && ms == elapsed as u64
}

/// Whether this can have been a length of time that was measured.
pub open spec fn can_have_taken(ms: u64) -> bool {
    exists|start: std::time::Instant| #[trigger] started(start) && measured(start, ms)
}

/// Starts to measure a length of time.
pub(crate) fn start_timer() -> (start: std::time::Instant)
    ensures
        started(start),
{
    instant_now()
}

/// Calls `Instant::elapsed`: the milliseconds since a reading. Nothing is
/// claimed of their number.
#[verifier::external_body]
pub(crate) fn elapsed_ms(start: &std::time::Instant) -> (ms: u128) {
    start.elapsed().as_millis()
}

/// A number of milliseconds, as the journal stores a duration: its lower 64
/// bits.
pub fn to_duration_ms(elapsed: u128) -> (ms: u64)
    ensures
        ms == elapsed as u64,
{
    #[verifier::truncate]
    (elapsed as u64)
}

/// The milliseconds since a reading, as the journal stores them: what
/// [`elapsed_ms`] returned for that reading, as a duration.
pub(crate) fn timer_ms(start: &std::time::Instant) -> (ms: u64)
    ensures
        exists|elapsed: u128|
            #[trigger] call_ensures(elapsed_ms, (start,), elapsed) && ms == elapsed as u64,
        measured(*start, ms),
{
    to_duration_ms(elapsed_ms(start))
}

/// A reading is stored as it is, as long as 63 bits hold it; a clock before the
/// epoch is stored as zero.
pub proof fn law_reading_is_stored_as_it_is(ms: u128)
    ensures
        ms < 0x8000_0000_0000_0000 ==> stored_ms(Some(ms)) == ms,
        stored_ms(None) == 0,
{
}

/// The time is a reading of the system clock in milliseconds, as it came; and a
/// length of time is what was measured from a start that was read.
pub proof fn law_time_is_a_reading(now: i64, taken: u64)
    ensures
        can_be_now(now) <==> exists|reading: Option<u128>| #[trigger]
            clock_gave(reading) && now == (match reading {
                Some(ms) => ms as i64,
                None => 0,
            }),
        can_have_taken(taken) <==> exists|start: std::time::Instant| #[trigger]
            started(start) && measured(start, taken),
{
}

/// A measurement is what the monotonic clock says has elapsed, in milliseconds,
/// as it came.
proof fn law_measurement_is_a_reading(
    start: std::time::Instant,
    taken: u64,
    reading: Option<u128>,
)
    ensures
        measured(start, taken) <==> exists|elapsed: u128| #[trigger]
            call_ensures(elapsed_ms, (&start,), elapsed) && taken == elapsed as u64,
        started(start) <==> call_ensures(instant_now, (), start),
        clock_gave(reading) <==> call_ensures(ms_since_epoch, (), reading),
{
}

} // verus!
