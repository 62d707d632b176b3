//! Readings of the clock. The clock itself is read outside the library (it
//! differs between the browser and a native host); what is computed from a
//! reading is here.
use vstd::prelude::*;

verus! {

/// Microseconds since the epoch from a clock reading (`None` for a clock
/// before the epoch, which reads as 0), held at `i64::MAX` beyond it.
pub fn micros_from_reading(reading: Option<u128>) -> (r: i64)
    ensures
        r as int == match reading {
            Some(m) => if m > i64::MAX { i64::MAX as int } else { m as int },
            None => 0,
        },
{
    match reading {
        Some(m) => if m > i64::MAX as u128 {
            i64::MAX
        } else {
            m as i64
        },
        None => 0,
    }
}

} // verus!
