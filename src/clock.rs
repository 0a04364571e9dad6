use vstd::prelude::*;

use std::time::SystemTime;

verus! {

/// The RFC 3339 text of the instant `secs` seconds and `nanos` nanoseconds
/// after the Unix epoch, in UTC, as chrono writes it.
pub uninterp spec fn rfc3339_of(secs: int, nanos: int) -> Seq<char>;

/// The earliest whole second chrono represents: the start of year -262143.
pub const MIN_RENDERABLE_SECS: i64 = -8_334_601_315_200;

/// The latest whole second chrono represents: the last second of year 262142.
pub const MAX_RENDERABLE_SECS: i64 = 8_210_266_876_799;

/// The instants chrono can represent, with a nanosecond part below one
/// second.
pub open spec fn renderable(secs: int, nanos: int) -> bool {
    MIN_RENDERABLE_SECS <= secs <= MAX_RENDERABLE_SECS && 0 <= nanos < 1_000_000_000
}

/// Readings of the system clock, carried through unread.
#[verifier::external_type_specification]
#[verifier::external_body]
pub struct ExSystemTime(std::time::SystemTime);

/// Relies on `std::time::SystemTime::now`: the system clock's reading.
/// Nothing is promised of which time it is.
#[verifier::external_body]
pub(crate) fn system_now() -> (r: SystemTime) {
    SystemTime::now()
}

/// Relies on `SystemTime::duration_since(UNIX_EPOCH)`: the whole seconds and
/// the nanoseconds past them from the Unix epoch to `t`, or `None` where `t`
/// lies before the epoch. `Duration::subsec_nanos` is below one second.
#[verifier::external_body]
pub(crate) fn since_epoch(t: &SystemTime) -> (r: Option<(u64, u32)>)
    ensures
        r matches Some(p) ==> p.1 < 1_000_000_000,
{
    match t.duration_since(std::time::UNIX_EPOCH) {
        Ok(d) => Some((d.as_secs(), d.subsec_nanos())),
        Err(_) => None,
    }
}

/// Relies on `chrono::DateTime::from_timestamp` and `DateTime::to_rfc3339`:
/// the RFC 3339 text of an instant, or `None` where chrono cannot represent
/// it.
#[verifier::external_body]
pub(crate) fn rfc3339(secs: i64, nanos: u32) -> (r: Option<String>)
    ensures
        r matches Some(t) ==> t@ == rfc3339_of(secs as int, nanos as int),
        renderable(secs as int, nanos as int) ==> r is Some,
{
    match chrono::DateTime::from_timestamp(secs, nanos) {
        Some(t) => Some(t.to_rfc3339()),
        None => None,
    }
}

/// The clock's reading as seconds and nanoseconds since the Unix epoch, or
/// `None` where the clock reads a time before it.
pub(crate) fn clock_reading() -> (r: Option<(u64, u32)>)
    ensures
        r matches Some(p) ==> p.1 < 1_000_000_000,
{
    let t = system_now();
    since_epoch(&t)
}

/// A reading that can be written as a timestamp.
pub open spec fn stamped(reading: Option<(u64, u32)>) -> bool {
    reading matches Some(p) && renderable(p.0 as int, p.1 as int)
}

/// The RFC 3339 text of a clock reading, or `None` where there is no reading
/// or it lies past chrono's range.
pub fn timestamp_of(reading: Option<(u64, u32)>) -> (r: Option<String>)
    ensures
        r is Some <==> stamped(reading),
        r matches Some(t) ==> t@ == rfc3339_of(reading->Some_0.0 as int, reading->Some_0.1 as int),
{
    match reading {
        Some((secs, nanos)) => {
            if secs <= MAX_RENDERABLE_SECS as u64 && nanos < 1_000_000_000 {
                rfc3339(secs as i64, nanos)
            } else {
                None
            }
        },
        None => None,
    }
}

} // verus!
