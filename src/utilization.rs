//! Utilization as an exact ratio of busy to elapsed units.

use vstd::prelude::*;

verus! {

/// An upper bound on any tick total: eight 64-bit counters summed.
pub const TICKS_BOUND: u128 = 147573952589676412928;

/// `part / whole` of the time or memory in use. A `whole` of zero is the
/// no-change sample: nothing elapsed between two reads, or memory reported
/// a zero total; it reads as 0 %.
#[derive(Clone, Copy, Debug, PartialEq, Eq, Structural)]
pub struct Utilization {
    pub part: u128,
    pub whole: u128,
}

/// The percentage in hundredths of a percent, rounded down.
pub open spec fn hundredths_of(u: Utilization) -> int {
    if u.whole == 0 {
        0
    } else {
        (10000 * u.part) as int / u.whole as int
    }
}

impl Utilization {
    /// At most all of the whole is in use, and the whole fits the tick bound.
    pub open spec fn well_formed(self) -> bool {
        self.part <= self.whole && self.whole <= TICKS_BOUND
    }

    /// The sample that stands for "nothing to compare": 0 % and flagged.
    pub fn no_change() -> (r: Utilization)
        ensures
            r.part == 0,
            r.whole == 0,
    {
        Utilization { part: 0, whole: 0 }
    }

    /// Whether this is the no-change sample.
    pub fn is_no_change(&self) -> (r: bool)
        ensures
            r == (self.whole == 0),
    {
        self.whole == 0
    }

    /// The percentage in hundredths of a percent (6000 for 60.00 %), rounded down.
    pub fn hundredths(&self) -> (r: u128)
        requires
            self.well_formed(),
        ensures
            r == hundredths_of(*self),
            0 <= r <= 10000,
    {
        if self.whole == 0 {
            0
        } else {
            proof {
                lemma_hundredths_bounded(*self);
            }
            10000 * self.part / self.whole
        }
    }
}

/// A well-formed utilization is between 0 % and 100 %.
pub proof fn lemma_hundredths_bounded(u: Utilization)
    requires
        u.part <= u.whole,
    ensures
        0 <= hundredths_of(u) <= 10000,
{
    if u.whole > 0 {
        let p = 10000 * u.part as int;
        let w = u.whole as int;
        assert(p <= 10000 * w) by (nonlinear_arith)
            requires
                p == 10000 * u.part as int,
                u.part as int <= w,
        ;
        assert(p / w <= 10000) by (nonlinear_arith)
            requires
                p <= 10000 * w,
                w > 0,
        ;
        assert(p / w >= 0) by (nonlinear_arith)
            requires
                p >= 0,
                w > 0,
        ;
    }
}

} // verus!
