//! Temperature readings and the schedule on which they are logged.

use vstd::prelude::*;

verus! {

/// Seconds between two logged temperature readings.
pub const LOG_INTERVAL: i64 = 300;

/// Reading that the peripheral reports at 0 °C: readings count hundredths of
/// a degree upward from -55 °C.
pub const CENTIDEGREE_OFFSET: i64 = 5500;

/// The temperature, in hundredths of a degree Celsius, that a reading stands for.
pub open spec fn centidegrees(reading: u32) -> int {
    reading - CENTIDEGREE_OFFSET
}

/// Converts a reading of the peripheral to hundredths of a degree Celsius.
pub fn decode_temp(reading: u32) -> (temp: i64)
    ensures
        temp == centidegrees(reading),
{
    reading as i64 - CENTIDEGREE_OFFSET
}

/// Seconds from `timestamp`, in seconds since the epoch, to the next reading
/// that is due. Readings are due at the multiples of the interval; a
/// timestamp on a multiple waits a whole interval. Before the epoch the wait
/// is counted from the multiple at or after the timestamp.
pub open spec fn until_next_log(timestamp: i64) -> int {
    if timestamp >= 0 {
        LOG_INTERVAL - timestamp % LOG_INTERVAL
    } else {
        LOG_INTERVAL + (-timestamp) % (LOG_INTERVAL as int)
    }
}

/// Tells how many seconds to wait at `timestamp` for the next reading that is due.
pub fn seconds_until_next_log(timestamp: i64) -> (wait: u64)
    ensures
        wait == until_next_log(timestamp),
        timestamp >= 0 ==> 1 <= wait <= LOG_INTERVAL && (timestamp + wait) % (LOG_INTERVAL as int)
            == 0,
{
    if timestamp >= 0 {
        (LOG_INTERVAL - timestamp % LOG_INTERVAL) as u64
    } else {
        let back: u64 = (-(timestamp + 1)) as u64 + 1;
        LOG_INTERVAL as u64 + back % (LOG_INTERVAL as u64)
    }
}

} // verus!
