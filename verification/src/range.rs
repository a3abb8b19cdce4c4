//! Half-open ranges of timestamps.

use vstd::prelude::*;

verus! {

/// The timestamps `t` with `left <= t < right`, in microseconds.
#[derive(Clone, Copy, Debug, PartialEq, Eq, Hash, Structural)]
pub struct I64Range {
    pub left: i64,
    pub right: i64,
}

impl I64Range {
    /// A range is valid when its ends are in order.
    pub open spec fn spec_is_valid(self) -> bool {
        self.left <= self.right
    }

    /// Whether `t` lies in the range.
    pub open spec fn spec_contains(self, t: i64) -> bool {
        self.left <= t < self.right
    }

    /// The length of the range, which is negative when the ends are out of
    /// order.
    pub open spec fn spec_duration(self) -> int {
        self.right - self.left
    }

    pub fn new(left: i64, right: i64) -> (r: I64Range)
        ensures
            r == (I64Range { left, right }),
    {
        I64Range { left, right }
    }

    #[verifier::when_used_as_spec(spec_is_valid)]
    pub fn is_valid(self) -> (r: bool)
        ensures
            r == self.spec_is_valid(),
    {
        self.left <= self.right
    }

    #[verifier::when_used_as_spec(spec_contains)]
    pub fn contains(self, t: i64) -> (r: bool)
        ensures
            r == self.spec_contains(t),
    {
        self.left <= t && t < self.right
    }

    /// The length of the range in microseconds.
    pub fn duration(self) -> (r: i128)
        ensures
            r == self.spec_duration(),
    {
        let hi: i128 = self.right as i128;
        let lo: i128 = self.left as i128;
        hi - lo
    }
}

} // verus!
