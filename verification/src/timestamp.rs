//! Instants as microseconds since the Unix epoch, the way the database stores them.
use vstd::prelude::*;

verus! {

/// An instant: microseconds since 1970-01-01T00:00:00Z.
#[derive(Clone, Copy, Debug, PartialEq, Eq, Structural)]
pub struct Timestamp {
    pub micros: i64,
}

impl Timestamp {
    /// The Unix epoch itself.
    pub fn unix_epoch() -> (r: Timestamp)
        ensures
            r.micros == 0,
    {
        Timestamp { micros: 0 }
    }

    pub fn from_micros_since_unix_epoch(micros: i64) -> (r: Timestamp)
        ensures
            r.micros == micros,
    {
        Timestamp { micros }
    }

    pub fn to_micros_since_unix_epoch(&self) -> (r: i64)
        ensures
            r == self.micros,
    {
        self.micros
    }
}

} // verus!
