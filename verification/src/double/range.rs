//! 2-dimentional range types

use vstd::prelude::*;
use crate::float::Double;
use crate::single::common::Range;

verus! {

/// A range that depends on a coordinate.
pub trait RangeFn {
    /// Whether `r` may be the range at the coordinate `x`. A range that says
    /// nothing of its ends leaves every range open.
    open spec fn gives(&self, x: Double, r: Range) -> bool {
        true
    }

    /// The range at the coordinate `x`.
    fn at(&self, x: Double) -> (r: Range)
        ensures
            self.gives(x, r),
    ;
}

/// The same range at every coordinate.
#[derive(Clone, Copy, Debug, PartialEq, Eq)]
pub struct Constant {
    pub range: Range,
}

impl RangeFn for Constant {
    open spec fn gives(&self, x: Double, r: Range) -> bool {
        r == self.range
    }

    fn at(&self, x: Double) -> (r: Range) {
        self.range
    }
}

/// 2-dimentional range type API
pub trait Range2 {
    /// The ends that the range fixes are not NaN.
    spec fn wf(&self) -> bool;

    /// Whether the ends that the range fixes are not NaN.
    fn is_wf(&self) -> (r: bool)
        ensures
            r == self.wf(),
    ;
}

/// Rectangle range
#[derive(Clone, Copy, Debug, PartialEq, Eq, Hash)]
pub struct Rectangle {
    pub xrange: Range,
    pub yrange: Range,
}

impl Rectangle {
    /// The rectangle from `x1` to `x2` and from `y1` to `y2`, or `None` if
    /// one of them is a NaN. Infinite rectangles are not supported.
    pub fn new(x1: Double, x2: Double, y1: Double, y2: Double) -> (r: Option<Rectangle>)
        requires
            x1.is_nan() || x2.is_nan() || y1.is_nan() || y2.is_nan() || (x1.is_finite()
                && x2.is_finite() && y1.is_finite() && y2.is_finite()),
        ensures
            r == if x1.is_nan() || x2.is_nan() || y1.is_nan() || y2.is_nan() {
                None
            } else {
                Some(
                    Rectangle {
                        xrange: Range { begin: x1, end: x2 },
                        yrange: Range { begin: y1, end: y2 },
                    },
                )
            },
            r.is_some() ==> r.unwrap().wf(),
    {
        let xrange = match Range::new(x1, x2) {
            Some(r) => r,
            None => {
                return None;
            },
        };
        let yrange = match Range::new(y1, y2) {
            Some(r) => r,
            None => {
                return None;
            },
        };
        Some(Rectangle { xrange, yrange })
    }
}

impl Range2 for Rectangle {
    open spec fn wf(&self) -> bool {
        self.xrange.wf() && self.yrange.wf()
    }

    fn is_wf(&self) -> (r: bool) {
        self.xrange.is_wf() && self.yrange.is_wf()
    }
}

/// Range of `x` varies based on `y` value
#[derive(Clone, Copy, Debug)]
pub struct DynamicX<G: RangeFn> {
    pub xrange: G,
    pub yrange: Range,
}

impl<G: RangeFn> DynamicX<G> {
    /// The range from `y1` to `y2` in `y` and, at each `y`, over `xrange` in
    /// `x`; `None` if `y1` or `y2` is a NaN.
    pub fn new(xrange: G, y1: Double, y2: Double) -> (r: Option<DynamicX<G>>)
        ensures
            r == if y1.is_nan() || y2.is_nan() {
                None
            } else {
                Some(DynamicX { xrange, yrange: Range { begin: y1, end: y2 } })
            },
            r.is_some() ==> r.unwrap().wf(),
    {
        match Range::new(y1, y2) {
            Some(yrange) => Some(DynamicX { xrange, yrange }),
            None => None,
        }
    }
}

impl<G: RangeFn> Range2 for DynamicX<G> {
    open spec fn wf(&self) -> bool {
        self.yrange.wf()
    }

    fn is_wf(&self) -> (r: bool) {
        self.yrange.is_wf()
    }
}

/// Range of `y` varies based on `x` value
#[derive(Clone, Copy, Debug)]
pub struct DynamicY<G: RangeFn> {
    pub xrange: Range,
    pub yrange: G,
}

impl<G: RangeFn> DynamicY<G> {
    /// The range from `x1` to `x2` in `x` and, at each `x`, over `yrange` in
    /// `y`; `None` if `x1` or `x2` is a NaN.
    pub fn new(x1: Double, x2: Double, yrange: G) -> (r: Option<DynamicY<G>>)
        ensures
            r == if x1.is_nan() || x2.is_nan() {
                None
            } else {
                Some(DynamicY { xrange: Range { begin: x1, end: x2 }, yrange })
            },
            r.is_some() ==> r.unwrap().wf(),
    {
        match Range::new(x1, x2) {
            Some(xrange) => Some(DynamicY { xrange, yrange }),
            None => None,
        }
    }
}

impl<G: RangeFn> Range2 for DynamicY<G> {
    open spec fn wf(&self) -> bool {
        self.xrange.wf()
    }

    fn is_wf(&self) -> (r: bool) {
        self.xrange.is_wf()
    }
}

/// A rectangle as a range of `x` that is the same at every `y`.
pub fn rectangle_as_dynamic_x(square: Rectangle) -> (r: DynamicX<Constant>)
    ensures
        r == (DynamicX { xrange: Constant { range: square.xrange }, yrange: square.yrange }),
{
    DynamicX { xrange: Constant { range: square.xrange }, yrange: square.yrange }
}

/// A rectangle as a range of `y` that is the same at every `x`.
pub fn rectangle_as_dynamic_y(square: Rectangle) -> (r: DynamicY<Constant>)
    ensures
        r == (DynamicY { xrange: square.xrange, yrange: Constant { range: square.yrange } }),
{
    DynamicY { xrange: square.xrange, yrange: Constant { range: square.yrange } }
}

/// Conversion into `Range2`
pub trait IntoRange2 {
    type IntoRange: Range2;

    fn into_range(self) -> Self::IntoRange;
}

impl<T: Range2> IntoRange2 for T {
    type IntoRange = T;

    fn into_range(self) -> (r: T)
        ensures
            r == self,
    {
        self
    }
}

} // verus!
