//! The signs that bisection has stopped gaining accuracy.

use vstd::prelude::*;
use crate::float::Double;

verus! {

/// Whether the bisection of a subrange has gained nothing but round-off: the
/// two halves add up to the estimate of the whole within `1e-5` of their sum,
/// and their error estimates to no less than 99% of the error estimate of the
/// whole. `slack` is `1e-5` times the magnitude of the sum, `floor` is 99% of
/// the error estimate of the whole.
pub fn bisection_stalled(change: Double, slack: Double, delta12: Double, floor: Double) -> (r: bool)
    ensures
        r == (change.abs().le(slack) && delta12.ge(floor)),
{
    change.abs().le(slack) && delta12.ge(floor)
}

/// The counts of bisections that gained nothing but round-off.
#[derive(Clone, Copy, Debug, PartialEq, Eq, Structural)]
pub struct Roundoff {
    /// stalled bisections while not extrapolating
    pub type1: usize,
    /// stalled bisections while extrapolating
    pub type2: usize,
    /// bisections past the tenth whose error estimate grew
    pub type3: usize,
}

impl Roundoff {
    pub open spec fn spec_record(
        self,
        uncertain: bool,
        stalled: bool,
        grew: bool,
        extrapolate: bool,
        iteration: usize,
    ) -> Roundoff {
        Roundoff {
            type1: if uncertain && stalled && !extrapolate {
                (self.type1 + 1) as usize
            } else {
                self.type1
            },
            type2: if uncertain && stalled && extrapolate {
                (self.type2 + 1) as usize
            } else {
                self.type2
            },
            type3: if uncertain && iteration > 10 && grew {
                (self.type3 + 1) as usize
            } else {
                self.type3
            },
        }
    }

    /// Too much round-off to go on: ten stalled bisections, or twenty whose
    /// error estimate grew.
    pub open spec fn spec_excessive(self) -> bool {
        self.type1 + self.type2 >= 10 || self.type3 >= 20
    }

    /// Enough round-off while extrapolating to distrust the extrapolated
    /// error estimate: five stalled bisections.
    pub open spec fn spec_doubtful(self) -> bool {
        self.type2 >= 5
    }

    /// No bisection counted.
    pub fn new() -> (r: Roundoff)
        ensures
            r == (Roundoff { type1: 0, type2: 0, type3: 0 }),
    {
        Roundoff { type1: 0, type2: 0, type3: 0 }
    }

    /// Counts one bisection. Nothing is counted unless it is `uncertain`,
    /// that is, unless in both halves the error estimate differs from the
    /// deviation from the mean. A `stalled` bisection counts as type 1, or as
    /// type 2 while extrapolating; past the tenth iteration one whose error
    /// estimate `grew` counts as type 3.
    #[verifier::when_used_as_spec(spec_record)]
    pub fn record(
        self,
        uncertain: bool,
        stalled: bool,
        grew: bool,
        extrapolate: bool,
        iteration: usize,
    ) -> (r: Roundoff)
        requires
            self.type1 < usize::MAX,
            self.type2 < usize::MAX,
            self.type3 < usize::MAX,
        ensures
            r == self.spec_record(uncertain, stalled, grew, extrapolate, iteration),
    {
        let mut r = self;
        if uncertain {
            if stalled {
                if !extrapolate {
                    r.type1 += 1;
                } else {
                    r.type2 += 1;
                }
            }
            if iteration > 10 && grew {
                r.type3 += 1;
            }
        }
        r
    }

    #[verifier::when_used_as_spec(spec_excessive)]
    pub fn excessive(self) -> (r: bool)
        requires
            self.type1 + self.type2 <= usize::MAX,
        ensures
            r == self.spec_excessive(),
    {
        self.type1 + self.type2 >= 10 || self.type3 >= 20
    }

    #[verifier::when_used_as_spec(spec_doubtful)]
    pub fn doubtful(self) -> (r: bool)
        ensures
            r == self.spec_doubtful(),
    {
        self.type2 >= 5
    }
}

} // verus!
