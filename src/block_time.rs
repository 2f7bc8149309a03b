//! A small procedure that reports the chain's latest block time next to the
//! local clock, and how long the chain queries took.

use vstd::prelude::*;

verus! {

/// The procedure.
pub struct BlockTime;

/// Its response.
#[derive(Debug)]
pub struct TimeCheck {
    pub block_time: i64,
    pub block_hash: String,
    pub system_time: i64,
    pub time_elapsed: i64,
}

/// Milliseconds of a clock reading given in microseconds, rounded down.
pub open spec fn millis_of(micros: i64) -> int {
    micros as int / 1000
}

/// Elapsed microseconds between two readings; zero where that does not fit
/// in an `i64`.
pub open spec fn elapsed_of(start: i64, end: i64) -> int {
    let d = end as int - start as int;
    if i64::MIN <= d <= i64::MAX {
        d
    } else {
        0
    }
}

/// Milliseconds of a clock reading given in microseconds, rounded down.
pub fn micros_to_millis(micros: i64) -> (r: i64)
    ensures
        r as int == millis_of(micros),
{
    if micros >= 0 {
        micros / 1000
    } else {
        let t: i64 = (-(micros + 1)) / 1000;
        assert((micros as int) / 1000 == -(t as int) - 1) by (nonlinear_arith)
            requires
                micros < 0,
                t as int == (-(micros as int + 1)) / 1000,
        ;
        -t - 1
    }
}

impl BlockTime {
    /// Assembles the response from the chain's values and two clock readings
    /// in microseconds since the epoch, taken before and after the queries.
    pub fn assemble(block_time: i64, block_hash: String, start_micros: i64, end_micros: i64) -> (r:
        TimeCheck)
        ensures
            r.block_time == block_time,
            r.block_hash@ == block_hash@,
            r.system_time as int == millis_of(start_micros),
            r.time_elapsed as int == elapsed_of(start_micros, end_micros),
    {
        let d: i128 = end_micros as i128 - start_micros as i128;
        let time_elapsed: i64 = if d >= i64::MIN as i128 && d <= i64::MAX as i128 {
            d as i64
        } else {
            0
        };
        TimeCheck {
            block_time,
            block_hash,
            system_time: micros_to_millis(start_micros),
            time_elapsed,
        }
    }
}

} // verus!
