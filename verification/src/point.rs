//! One sample of a counter.

use vstd::prelude::*;
use crate::double::Double;

verus! {

/// The value `val` of a counter at time `ts`, in microseconds since the epoch.
#[derive(Clone, Copy, Debug, PartialEq, Eq, Hash, Structural)]
pub struct TSPoint {
    pub ts: i64,
    pub val: Double,
}

impl TSPoint {
    pub fn new(ts: i64, val: Double) -> (r: TSPoint)
        ensures
            r == (TSPoint { ts, val }),
    {
        TSPoint { ts, val }
    }
}

} // verus!
