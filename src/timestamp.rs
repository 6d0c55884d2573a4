//! Conversion of the browsers' native timestamps to UNIX instants.
use vstd::prelude::*;

verus! {

/// Offset of the UNIX epoch (1970-01-01 00:00:00 UTC) from the Windows
/// FILETIME epoch (1601-01-01 00:00:00 UTC), in microseconds:
/// ((1970 - 1601) * 365 + 89) days, 89 being the leap days in between.
pub const WINDOWS_UNIX_EPOCH_OFFSET_MICROS: i64 = 11644473600000000;

/// Smallest UNIX timestamp (seconds) that a cookie expiry can hold:
/// -9999-01-01 00:00:00 UTC.
pub const MIN_UNIX_SECONDS: i64 = -377705116800;

/// Largest UNIX timestamp (seconds) that a cookie expiry can hold:
/// 9999-12-31 23:59:59 UTC.
pub const MAX_UNIX_SECONDS: i64 = 253402300799;

/// A Chrome time (microseconds since the Windows epoch) as nanoseconds
/// since the UNIX epoch.
pub open spec fn chrome_to_unix_nanos_spec(chrome_time: int) -> int {
    (chrome_time - WINDOWS_UNIX_EPOCH_OFFSET_MICROS) * 1000
}

/// `seconds` brought into the range an expiry can hold.
pub open spec fn clamp_unix_seconds_spec(seconds: int) -> int {
    if seconds < MIN_UNIX_SECONDS {
        MIN_UNIX_SECONDS as int
    } else if seconds > MAX_UNIX_SECONDS {
        MAX_UNIX_SECONDS as int
    } else {
        seconds
    }
}

/// Convert a Chrome timestamp (based on the Windows epoch) in microseconds
/// to a UNIX timestamp in nanoseconds, exactly.
pub fn chrome_to_unix_timestamp_nanos(chrome_time: i64) -> (r: i128)
    ensures
        r == chrome_to_unix_nanos_spec(chrome_time as int),
{
    let nanos: i128 = chrome_time as i128 * 1000;
    nanos - WINDOWS_UNIX_EPOCH_OFFSET_MICROS as i128 * 1000
}

/// Clamp a UNIX timestamp in seconds to the range an expiry can hold;
/// values inside the range are kept as they are.
pub fn clamp_unix_seconds(seconds: i64) -> (r: i64)
    ensures
        r == clamp_unix_seconds_spec(seconds as int),
        MIN_UNIX_SECONDS <= r <= MAX_UNIX_SECONDS,
{
    if seconds < MIN_UNIX_SECONDS {
        MIN_UNIX_SECONDS
    } else if seconds > MAX_UNIX_SECONDS {
        MAX_UNIX_SECONDS
    } else {
        seconds
    }
}

/// A UNIX timestamp in seconds, clamped to the range an expiry can hold,
/// as nanoseconds.
pub fn unix_seconds_to_nanos_clamped(seconds: i64) -> (r: i128)
    ensures
        r == clamp_unix_seconds_spec(seconds as int) * 1_000_000_000,
{
    let s = clamp_unix_seconds(seconds);
    s as i128 * 1_000_000_000
}

/// The Windows-to-UNIX epoch offset maps to the UNIX epoch, and Chrome's
/// time zero lies that many seconds before it.
pub proof fn lemma_chrome_epoch_offset()
    ensures
        chrome_to_unix_nanos_spec(11_644_473_600_000_000) == 0,
        chrome_to_unix_nanos_spec(0) == -11_644_473_600 * 1_000_000_000,
{
}

} // verus!
