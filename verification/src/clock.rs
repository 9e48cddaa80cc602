use vstd::prelude::*;

verus! {

/// A point in time in UTC: whole seconds since the Unix epoch and the
/// nanoseconds past that second.
#[derive(Debug, Clone, Copy, PartialEq, Eq, Structural)]
pub struct Timestamp {
    pub secs: i64,
    pub nanos: u32,
}

#[verifier::external_type_specification]
#[verifier::external_body]
pub struct ExSystemTime(std::time::SystemTime);

#[verifier::external_body]
/// Calls `std::time::SystemTime::now`, the system clock's current reading.
/// Which time comes out is left open: it rests on the clock.
fn system_now() -> (t: std::time::SystemTime) {
    std::time::SystemTime::now()
}

#[verifier::external_body]
/// Calls `SystemTime::duration_since` with `UNIX_EPOCH`, and gives the whole
/// seconds and the nanoseconds past them (`Duration::subsec_nanos`, always
/// below one second); `None` when `t` lies before the epoch. What is left
/// open is which `t` a reading holds.
fn since_epoch(t: std::time::SystemTime) -> (r: Option<(u64, u32)>)
    ensures
        r matches Some(d) ==> d.1 < 1_000_000_000,
{
    match t.duration_since(std::time::UNIX_EPOCH) {
        Ok(d) => Some((d.as_secs(), d.subsec_nanos())),
        Err(_) => None,
    }
}

#[verifier::external_body]
/// Calls `chrono::DateTime::<Utc>::from_timestamp` and reads the result's
/// seconds and nanoseconds back. chrono documents that these round-trip, so a
/// result holds exactly the arguments; it refuses seconds outside its range of
/// dates (years up to 262142, far beyond the stated bound) and nanoseconds
/// that are not below one second or a leap second.
fn utc_from_timestamp(secs: i64, nanos: u32) -> (r: Option<Timestamp>)
    ensures
        r matches Some(t) ==> t == (Timestamp { secs, nanos }),
        0 <= secs <= 8_000_000_000_000 && nanos < 1_000_000_000 ==> r is Some,
{
    match chrono::DateTime::<chrono::Utc>::from_timestamp(secs, nanos) {
        Some(d) => Some(Timestamp { secs: d.timestamp(), nanos: d.timestamp_subsec_nanos() }),
        None => None,
    }
}

/// The UTC time for a clock reading given as whole seconds and nanoseconds
/// since the Unix epoch (`None` for a clock set before 1970): chrono's
/// `DateTime::from_timestamp` of that reading, read back. A reading before
/// 1970 or beyond the seconds an `i64` holds gives `None`; any reading chrono
/// accepts gives exactly its seconds and nanoseconds.
pub fn timestamp_from_reading(reading: Option<(u64, u32)>) -> (t: Option<Timestamp>)
    ensures
        match reading {
            None => t is None,
            Some(d) => {
                &&& d.0 > 0x7fff_ffff_ffff_ffff ==> t is None
                &&& d.0 <= 8_000_000_000_000 && d.1 < 1_000_000_000 ==> t == Some(
                    (Timestamp { secs: d.0 as i64, nanos: d.1 }),
                )
                &&& t matches Some(x) ==> x == (Timestamp { secs: d.0 as i64, nanos: d.1 })
                    && x.secs >= 0
            },
        },
{
    match reading {
        Some((secs, nanos)) => {
            if secs > 0x7fff_ffff_ffff_ffff {
                None
            } else {
                utc_from_timestamp(secs as i64, nanos)
            }
        },
        None => None,
    }
}

/// The current time in UTC, as `chrono::Utc::now` builds it from the system
/// clock; `None` where that call would panic (a clock set before 1970) or the
/// reading lies beyond chrono's dates.
pub fn now_utc() -> (r: Option<Timestamp>)
    ensures
        r matches Some(t) ==> t.secs >= 0 && t.nanos < 1_000_000_000,
{
    timestamp_from_reading(since_epoch(system_now()))
}

} // verus!
