//! Paired stereo samples.

use vstd::prelude::*;
use crate::fixed::iabs;

verus! {

/// Two synchronized channel samples, processed atomically as one unit and
/// never split across operations.
#[derive(Clone, Copy, Debug, PartialEq, Eq, Structural)]
pub struct SamplePair {
    pub left: i64,
    pub right: i64,
}

impl SamplePair {
    /// Both channels within the given magnitude bound.
    pub open spec fn bounded(self, limit: int) -> bool {
        iabs(self.left as int) <= limit && iabs(self.right as int) <= limit
    }

    /// Silence on both channels.
    pub fn zero() -> (r: SamplePair)
        ensures
            r.left == 0,
            r.right == 0,
    {
        SamplePair { left: 0, right: 0 }
    }

    /// The same value on both channels.
    pub fn splat(v: i64) -> (r: SamplePair)
        ensures
            r.left == v,
            r.right == v,
    {
        SamplePair { left: v, right: v }
    }
}

} // verus!
