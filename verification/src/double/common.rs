//! Points, configuration and integrands in two dimensions.

use vstd::prelude::*;
use crate::common::Tolerance;
use crate::float::Double;
use crate::single::points::{Points, POINTS_LIMIT};

verus! {

/// Point in 2-dimension
pub type Point2 = (Double, Double);

/// Singular points in two dimensions, coordinate by coordinate.
#[derive(Clone, Debug, PartialEq)]
pub struct Points2 {
    /// the first coordinates
    pub xs: Points,
    /// the second coordinates
    pub ys: Points,
}

impl Points2 {
    /// Each point has both coordinates.
    pub open spec fn wf(&self) -> bool {
        self.xs@.len() == self.ys@.len()
    }

    /// The points, in order.
    pub open spec fn view(&self) -> Seq<Point2> {
        Seq::new(self.xs@.len(), |k: int| (self.xs@[k], self.ys@[k]))
    }

    /// No point.
    pub fn new() -> (p: Points2)
        ensures
            p.wf(),
            p.xs@.len() == 0,
            p@.len() == 0,
    {
        Points2 { xs: Points::new(), ys: Points::new() }
    }

    /// The number of points.
    pub fn len(&self) -> (n: usize)
        ensures
            n == self.xs@.len(),
    {
        self.xs.len()
    }

    /// Whether there is no point.
    pub fn is_empty(&self) -> (r: bool)
        ensures
            r == (self.xs@.len() == 0),
    {
        self.xs.is_empty()
    }

    /// The points of `v`, in the same order, as far as a vector may hold
    /// them.
    pub fn from_vec(v: &Vec<Point2>) -> (p: Points2)
        ensures
            p.wf(),
            v@.len() <= POINTS_LIMIT ==> p@ == v@,
            p.xs@.len() <= v@.len(),
    {
        let mut xs = Points::with_capacity(v.len());
        let mut ys = Points::with_capacity(v.len());
        let mut k: usize = 0;
        while k < v.len() && k < POINTS_LIMIT
            invariant
                k <= v@.len(),
                k <= POINTS_LIMIT,
                xs@.len() == k,
                ys@.len() == k,
                forall|j: int| 0 <= j < k ==> xs@[j] == v@[j].0 && ys@[j] == v@[j].1,
            decreases v@.len() - k,
        {
            xs.push(v[k].0);
            ys.push(v[k].1);
            k += 1;
        }
        let p = Points2 { xs, ys };
        assert(v@.len() <= POINTS_LIMIT ==> p@ =~= v@);
        p
    }

    /// The same points with their coordinates exchanged.
    pub fn swapped(&self) -> (p: Points2)
        ensures
            p.xs@ == self.ys@,
            p.ys@ == self.xs@,
    {
        Points2 { xs: self.ys.clone(), ys: self.xs.clone() }
    }
}

/// Integration configuration
#[derive(Clone, Debug, PartialEq)]
pub struct IntegrationConfig2 {
    /// the tolerance to be satisfied
    pub tolerance: Tolerance,
    /// the most evaluations of the integrand that one integration may make
    pub max_evals: usize,
    /// specify singular points
    pub points: Points2,
}

impl IntegrationConfig2 {
    /// Each singular point has both coordinates, and with the two ends of a
    /// range they are no more than a vector of points may hold.
    pub open spec fn wf(&self) -> bool {
        self.points.wf() && self.points.xs@.len() + 2 <= POINTS_LIMIT
    }

    /// Whether each singular point has both coordinates, and with the two
    /// ends of a range they are no more than a vector of points may hold.
    pub fn is_wf(&self) -> (r: bool)
        ensures
            r == self.wf(),
    {
        self.points.xs.len() == self.points.ys.len() && self.points.xs.len() <= POINTS_LIMIT - 2
    }
}

impl Default for IntegrationConfig2 {
    /// The default tolerance, 2000 evaluations, no singular point.
    fn default() -> (r: Self)
        ensures
            r.tolerance == Tolerance::standard(),
            r.max_evals == 2000,
            r.points.xs@.len() == 0,
            r.wf(),
    {
        Self { tolerance: Tolerance::default(), max_evals: 2000, points: Points2::new() }
    }
}

/// The function that is to be integrated
pub trait Integrand2 {
    /// Whether an evaluation at `x`, made of this integrand, may return `y`
    /// and leave the integrand as `after`. An integrand that says nothing of
    /// its values leaves every outcome open.
    open spec fn yields(&self, x: Point2, y: Double, after: &Self) -> bool {
        true
    }

    /// apply function to explanatory variable `x`
    fn apply(&mut self, x: Point2) -> (y: Double)
        ensures
            old(self).yields(x, y, final(self)),
    ;
}

} // verus!
