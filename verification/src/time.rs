//! Simulated time: a total-ordered instant and a signed interval.
//!
//! Both are fixed-point counts of billionths of a second (see [`crate::num`]).
//! Wall-clock time plays no role anywhere in the simulator.
use vstd::prelude::*;

use crate::num::Scalar;
use crate::num::sat64;

verus! {

/// A point in simulated time.  Total-ordered; the world's clock starts at
/// zero and never moves backwards.
#[derive(Copy, Clone, PartialEq, Eq, Structural, Debug, Hash)]
pub struct Instant {
    pub at: Scalar,
}

/// A signed offset between two instants, in seconds.
#[derive(Copy, Clone, PartialEq, Eq, Structural, Debug, Hash)]
pub struct Interval {
    pub length: Scalar,
}

impl Instant {
    /// The instant zero, where every world's clock begins.
    pub open spec fn spec_origin() -> Instant {
        Instant { at: Scalar { raw: 0 } }
    }

    #[verifier::when_used_as_spec(spec_origin)]
    pub fn origin() -> (r: Instant)
        ensures
            r == Instant::spec_origin(),
    {
        Instant { at: Scalar { raw: 0 } }
    }

    /// The signed offset from `self` to `other`.
    pub fn delta(self, other: Self) -> (r: Interval)
        ensures
            r.length.raw as int == sat64(other.at.raw - self.at.raw),
    {
        Interval { length: other.at.sub_sat(self.at) }
    }

    /// The instant `self + interval`, saturating at the bounds of the
    /// representation.
    pub fn plus(self, interval: Interval) -> (r: Instant)
        ensures
            r.at.raw as int == sat64(self.at.raw + interval.length.raw),
    {
        Instant { at: self.at.add_sat(interval.length) }
    }

    /// The raw count of billionths of a second since the origin.
    pub fn raw(self) -> (r: i64)
        ensures
            r == self.at.raw,
    {
        self.at.raw
    }
}

impl Default for Instant {
    /// The default instant is the origin.
    fn default() -> (r: Self)
        ensures
            r == Instant::spec_origin(),
    {
        Instant::origin()
    }
}

impl Interval {
    /// Exactly one second.
    pub fn one() -> (r: Self)
        ensures
            r.length.raw == crate::num::SCALE,
    {
        Interval { length: Scalar { raw: crate::num::SCALE } }
    }

    /// An interval of the given raw count of billionths of a second.
    pub fn from_raw(raw: i64) -> (r: Self)
        ensures
            r.length.raw == raw,
    {
        Interval { length: Scalar { raw } }
    }

    /// A whole number of seconds.
    pub fn from_secs(secs: i32) -> (r: Self)
        ensures
            r.length.raw as int == secs as int * crate::num::SCALE as int,
    {
        Interval { length: Scalar::of_int(secs) }
    }

    /// The raw count of billionths of a second.
    pub fn raw(self) -> (r: i64)
        ensures
            r == self.length.raw,
    {
        self.length.raw
    }
}

} // verus!
