//! Readings of the machine's clocks, as plain numbers.

use vstd::prelude::*;

verus! {

/// A monotonic clock reading of `std`.
#[verifier::external_type_specification]
#[verifier::external_body]
pub struct ExInstant(std::time::Instant);

/// The nanoseconds of the longest duration that `std` can express.
pub open spec fn max_nanos() -> nat {
    (u64::MAX * 1_000_000_000 + 999_999_999) as nat
}

/// The milliseconds of the longest duration that `std` can express.
pub open spec fn max_millis() -> nat {
    (u64::MAX * 1000 + 999) as nat
}

/// `std::time::Instant::now`. Nothing is promised of the reading.
#[verifier::external_body]
pub(crate) fn instant_now() -> (r: std::time::Instant) {
    std::time::Instant::now()
}

/// `std::time::Instant::elapsed` in nanoseconds: no more than a duration can hold.
#[verifier::external_body]
pub(crate) fn nanos_since(origin: &std::time::Instant) -> (r: u128)
    ensures
        r <= max_nanos(),
{
    origin.elapsed().as_nanos()
}

/// `std::time::SystemTime::elapsed` since the UNIX epoch, as seconds and
/// nanoseconds of a second; `None` when the clock stands before the epoch.
#[verifier::external_body]
pub(crate) fn unix_time() -> (r: Option<(u64, u32)>)
    ensures
        is_unix_time(r),
{
    std::time::UNIX_EPOCH.elapsed().ok().map(|d| (d.as_secs(), d.subsec_nanos()))
}

/// Whether a reading of the wall clock can come: seconds and the nanoseconds of
/// a second, or nothing before the epoch.
pub open spec fn is_unix_time(t: Option<(u64, u32)>) -> bool {
    t matches Some((_, nanos)) ==> nanos < 1_000_000_000
}

/// The whole seconds of a reading; 0 before the epoch.
pub open spec fn secs_spec(t: Option<(u64, u32)>) -> u64 {
    match t {
        Some((secs, _)) => secs,
        None => 0,
    }
}

/// The whole milliseconds of a reading; 0 before the epoch.
pub open spec fn millis_spec(t: Option<(u64, u32)>) -> nat {
    match t {
        Some((secs, nanos)) => secs as nat * 1000 + nanos as nat / 1_000_000,
        None => 0,
    }
}

/// The whole seconds of a reading of the wall clock.
pub fn secs_of(t: Option<(u64, u32)>) -> (r: u64)
    ensures
        r == secs_spec(t),
{
    match t {
        Some((secs, _)) => secs,
        None => 0,
    }
}

/// The whole milliseconds of a reading of the wall clock.
pub fn millis_of(t: Option<(u64, u32)>) -> (r: u128)
    ensures
        r == millis_spec(t),
{
    match t {
        Some((secs, nanos)) => secs as u128 * 1000 + nanos as u128 / 1_000_000,
        None => 0,
    }
}

/// Seconds since the UNIX epoch; 0 when the clock stands before it.
pub fn unix_secs() -> (r: u64)
    ensures
        exists|t: Option<(u64, u32)>| is_unix_time(t) && r == #[trigger] secs_spec(t),
{
    secs_of(unix_time())
}

/// Milliseconds since the UNIX epoch; 0 when the clock stands before it.
pub fn unix_millis() -> (r: u128)
    ensures
        exists|t: Option<(u64, u32)>| is_unix_time(t) && r == #[trigger] millis_spec(t),
        r <= max_millis(),
{
    millis_of(unix_time())
}

/// A second has a thousand milliseconds: the seconds and the milliseconds of a
/// reading agree, and before the epoch both are 0.
pub proof fn law_milliseconds_of_a_second(secs: u64, nanos: u32, ms: u32)
    requires
        nanos < 1_000_000,
        ms < 1000,
    ensures
        millis_spec(Some((secs, (ms * 1_000_000 + nanos) as u32))) == secs * 1000 + ms,
        secs_spec(Some((secs, (ms * 1_000_000 + nanos) as u32))) == secs,
        millis_spec(None) == 0 && secs_spec(None) == 0,
{
    assert((ms * 1_000_000 + nanos) / 1_000_000 == ms);
}

} // verus!
