//! Tolerances, solutions, and results that carry a value beside an error.

use vstd::prelude::*;
use crate::error::{InvalidTolerance, RuntimeError};
use crate::float::{Double, Float, DEFAULT_TOLERANCE_BITS, MAX_BITS};

verus! {

/// Specify the tolerance which must be satisfied after calculation.
#[derive(Clone, Copy, Debug, PartialEq, Eq)]
pub enum Tolerance {
    /// `delta < absolute`
    Absolute(Double),
    /// `delta < relative * result`
    Relative(Double),
    /// `delta < max(absolute, relative * result)`
    AbsOrRel(Double, Double),
    /// `delta < min(absolute, relative * result)`
    AbsAndRel(Double, Double),
}

impl Tolerance {
    pub open spec fn spec_contains_nan(&self) -> bool {
        match *self {
            Tolerance::Absolute(x) => x.is_nan(),
            Tolerance::Relative(x) => x.is_nan(),
            Tolerance::AbsOrRel(x, y) => x.is_nan() || y.is_nan(),
            Tolerance::AbsAndRel(x, y) => x.is_nan() || y.is_nan(),
        }
    }

    /// The relative part of the tolerance, where it has one.
    pub open spec fn spec_relative(&self) -> Option<Double> {
        match *self {
            Tolerance::Absolute(_) => None,
            Tolerance::Relative(y) => Some(y),
            Tolerance::AbsOrRel(_, y) => Some(y),
            Tolerance::AbsAndRel(_, y) => Some(y),
        }
    }

    /// The absolute bound, given the product `scaled` of the magnitude and
    /// the relative part.
    pub open spec fn spec_bound(&self, scaled: Double) -> Double {
        match *self {
            Tolerance::Absolute(x) => x,
            Tolerance::Relative(_) => scaled,
            Tolerance::AbsOrRel(x, _) => x.max(scaled),
            Tolerance::AbsAndRel(x, _) => x.min(scaled),
        }
    }

    /// The tolerance that is used where none is given: absolute or relative
    /// `1.49e-8`, whichever is looser.
    pub open spec fn standard() -> Tolerance {
        Tolerance::AbsOrRel(
            Double::from_bits(DEFAULT_TOLERANCE_BITS),
            Double::from_bits(DEFAULT_TOLERANCE_BITS),
        )
    }

    /// Whether an error estimate meets the tolerance at some magnitude of the
    /// result: it is zero, or no greater than the bound for some product of
    /// magnitude and relative part. For an absolute tolerance this says that
    /// the error estimate does not exceed it.
    pub open spec fn admits(&self, delta: Double) -> bool {
        delta.num_eq(Double::from_bits(0)) || exists|scaled: Double|
            delta.le(#[trigger] self.spec_bound(scaled))
    }

    /// Whether a component of the tolerance is a NaN.
    #[verifier::when_used_as_spec(spec_contains_nan)]
    pub fn contains_nan(&self) -> (r: bool)
        ensures
            r == self.spec_contains_nan(),
    {
        match *self {
            Tolerance::Absolute(x) => x.is_nan(),
            Tolerance::Relative(x) => x.is_nan(),
            Tolerance::AbsOrRel(x, y) => x.is_nan() || y.is_nan(),
            Tolerance::AbsAndRel(x, y) => x.is_nan() || y.is_nan(),
        }
    }

    /// The tolerance itself, unless a component of it is a NaN.
    pub fn checked(self) -> (r: Result<Tolerance, InvalidTolerance>)
        ensures
            r == if self.contains_nan() {
                Err::<Tolerance, InvalidTolerance>(InvalidTolerance)
            } else {
                Ok::<Tolerance, InvalidTolerance>(self)
            },
    {
        if self.contains_nan() {
            Err(InvalidTolerance)
        } else {
            Ok(self)
        }
    }

    /// The relative part of the tolerance, where it has one.
    #[verifier::when_used_as_spec(spec_relative)]
    pub fn relative(&self) -> (r: Option<Double>)
        ensures
            r == self.spec_relative(),
    {
        match *self {
            Tolerance::Absolute(_) => None,
            Tolerance::Relative(y) => Some(y),
            Tolerance::AbsOrRel(_, y) => Some(y),
            Tolerance::AbsAndRel(_, y) => Some(y),
        }
    }

    /// The absolute bound, given the product `scaled` of the magnitude and
    /// the relative part: the absolute part alone, the product alone, the
    /// larger of the two, or the smaller.
    #[verifier::when_used_as_spec(spec_bound)]
    pub fn bound(&self, scaled: Double) -> (r: Double)
        ensures
            r == self.spec_bound(scaled),
    {
        match *self {
            Tolerance::Absolute(x) => x,
            Tolerance::Relative(_) => scaled,
            Tolerance::AbsOrRel(x, _) => x.max(scaled),
            Tolerance::AbsAndRel(x, _) => x.min(scaled),
        }
    }

    /// Whether `r` is the absolute tolerance at the magnitude `value`: the
    /// bound for a product that the arithmetic `fl` gives for the magnitude
    /// and the relative part, or the absolute part where there is no relative
    /// part.
    pub open spec fn is_absolute<A: Float>(&self, fl: &A, value: Double, r: Double) -> bool {
        match self.relative() {
            None => r == self.bound(value),
            Some(y) => exists|scaled: Double| #[trigger]
                fl.is_product(value, y, scaled) && r == self.bound(scaled),
        }
    }

    /// Calculate the absolute tolerance from an estimate of the magnitude.
    /// The product of the magnitude and the relative part is asked of `fl`;
    /// an absolute tolerance asks for none.
    pub fn to_abs<A: Float>(&self, fl: &A, value: Double) -> (r: Double)
        ensures
            self.is_absolute(fl, value, r),
            forall|delta: Double| delta.le(r) ==> #[trigger] self.meets(fl, value, delta),
            self.relative().is_none() ==> r == self.bound(value),
            exists|scaled: Double| r == self.bound(scaled),
            forall|delta: Double| delta.le(r) ==> self.admits(delta),
    {
        match self.relative() {
            None => self.bound(value),
            Some(y) => {
                let scaled = fl.mul(value, y);
                self.bound(scaled)
            },
        }
    }

    /// Whether the error estimate `delta` meets the tolerance at the
    /// magnitude `value` in the arithmetic `fl`: it does not exceed an
    /// absolute tolerance that `fl` gives at that magnitude.
    pub open spec fn meets<A: Float>(&self, fl: &A, value: Double, delta: Double) -> bool {
        exists|r: Double| #[trigger] self.is_absolute(fl, value, r) && delta.le(r)
    }

    /// Whether the error estimate `delta` is zero, or meets the tolerance at
    /// some magnitude in the arithmetic `fl`.
    pub open spec fn accepts<A: Float>(&self, fl: &A, delta: Double) -> bool {
        delta.num_eq(Double::from_bits(0)) || exists|value: Double| #[trigger]
            self.meets(fl, value, delta)
    }

    /// Where the arithmetic gives one product for the magnitude and the
    /// relative part, and neither that product nor the absolute part is a
    /// NaN, the absolute tolerances at one magnitude are ordered: that of
    /// `AbsOrRel(a, r)` is no smaller, and that of `AbsAndRel(a, r)` no
    /// larger, than those of `Absolute(a)` and of `Relative(r)`.
    pub proof fn lemma_tolerances_ordered<A: Float>(
        fl: &A,
        a: Double,
        r: Double,
        value: Double,
        scaled: Double,
        absolute: Double,
        relative: Double,
        loosest: Double,
        tightest: Double,
    )
        requires
            !a.is_nan(),
            !scaled.is_nan(),
            forall|p: Double| #[trigger] fl.is_product(value, r, p) ==> p == scaled,
            Tolerance::Absolute(a).is_absolute(fl, value, absolute),
            Tolerance::Relative(r).is_absolute(fl, value, relative),
            Tolerance::AbsOrRel(a, r).is_absolute(fl, value, loosest),
            Tolerance::AbsAndRel(a, r).is_absolute(fl, value, tightest),
        ensures
            absolute.le(loosest),
            relative.le(loosest),
            tightest.le(absolute),
            tightest.le(relative),
    {
        Self::lemma_abs_or_rel_is_loosest(a, r, scaled);
        Self::lemma_abs_and_rel_is_tightest(a, r, scaled);
    }

    /// An absolute tolerance admits the error estimates that are zero or do
    /// not exceed it, and no others.
    pub proof fn lemma_admits_absolute(a: Double, delta: Double)
        ensures
            Tolerance::Absolute(a).admits(delta) <==> delta.num_eq(Double::from_bits(0))
                || delta.le(a),
    {
        if delta.le(a) {
            assert(delta.le(Tolerance::Absolute(a).spec_bound(a)));
        }
    }

    /// With the same product, the bound of `AbsOrRel(a, r)` is no smaller
    /// than that of `Absolute(a)` and that of `Relative(r)`, unless `a` or the
    /// product is a NaN.
    pub proof fn lemma_abs_or_rel_is_loosest(a: Double, r: Double, scaled: Double)
        requires
            !a.is_nan(),
            !scaled.is_nan(),
        ensures
            Tolerance::Absolute(a).bound(scaled).le(Tolerance::AbsOrRel(a, r).bound(scaled)),
            Tolerance::Relative(r).bound(scaled).le(Tolerance::AbsOrRel(a, r).bound(scaled)),
    {
    }

    /// With the same product, the bound of `AbsAndRel(a, r)` is no larger
    /// than that of `Absolute(a)` and that of `Relative(r)`, unless `a` or the
    /// product is a NaN.
    pub proof fn lemma_abs_and_rel_is_tightest(a: Double, r: Double, scaled: Double)
        requires
            !a.is_nan(),
            !scaled.is_nan(),
        ensures
            Tolerance::AbsAndRel(a, r).bound(scaled).le(Tolerance::Absolute(a).bound(scaled)),
            Tolerance::AbsAndRel(a, r).bound(scaled).le(Tolerance::Relative(r).bound(scaled)),
    {
    }
}

impl Default for Tolerance {
    /// Absolute or relative `1.49e-8`, whichever is looser.
    fn default() -> (r: Self)
        ensures
            r == Tolerance::standard(),
    {
        Tolerance::AbsOrRel(
            Double::from_bits(DEFAULT_TOLERANCE_BITS),
            Double::from_bits(DEFAULT_TOLERANCE_BITS),
        )
    }
}

/// `ValueWithError` is a type that holds both partial result (value) and failure
/// (error).
///
/// It is quite similar to `Result`, but the partial result can always be
/// extracted by calling `unwrap_unchecked()`.
#[derive(Clone, Copy, Debug, PartialEq, PartialOrd, Eq, Ord, Hash)]
pub struct ValueWithError<T, E> {
    pub value: T,
    pub error: Option<E>,
}

impl<T, E> ValueWithError<T, E> {
    /// Create a new instance with no error
    pub fn new(value: T) -> (r: Self)
        ensures
            r == (ValueWithError::<T, E> { value, error: None }),
    {
        Self { value, error: None }
    }

    /// Create a new instance with given error
    pub fn with_error(value: T, error: E) -> (r: Self)
        ensures
            r == (ValueWithError { value, error: Some(error) }),
    {
        Self { value, error: Some(error) }
    }

    /// Return true if the instance contains an error
    pub fn has_err(&self) -> (r: bool)
        ensures
            r == self.error.is_some(),
    {
        self.error.is_some()
    }

    /// Convert into the inner value.
    ///
    /// Return `None` if the instance has an error.
    pub fn ok(self) -> (r: Option<T>)
        ensures
            r == if self.error.is_some() {
                None
            } else {
                Some(self.value)
            },
    {
        match self.error {
            Some(_) => None,
            None => Some(self.value),
        }
    }

    /// Convert into the inner error
    ///
    /// Return `None` if the instance does not contains an error
    pub fn err(self) -> (r: Option<E>)
        ensures
            r == self.error,
    {
        self.error
    }

    /// Converts from `&ValueWithError<T, E>` to `ValueWithError<&T, &E>`.
    pub fn as_ref(&self) -> (r: ValueWithError<&T, &E>)
        ensures
            *r.value == self.value,
            r.error.is_some() == self.error.is_some(),
            r.error.is_some() ==> *r.error.unwrap() == self.error.unwrap(),
    {
        ValueWithError { value: &self.value, error: self.error.as_ref() }
    }

    /// Converts from `&mut ValueWithError<T, E>` to
    /// `ValueWithError<&mut T, &mut E>`.
    pub fn as_mut(&mut self) -> (r: ValueWithError<&mut T, &mut E>)
        ensures
            *r.value == old(self).value,
            r.error.is_some() == old(self).error.is_some(),
            r.error.is_some() ==> *r.error.unwrap() == old(self).error.unwrap(),
            final(self).value == *final(r.value),
            r.error.is_some() ==> final(self).error == Some(*final(r.error.unwrap())),
            r.error.is_none() ==> final(self).error.is_none(),
    {
        ValueWithError { value: &mut self.value, error: self.error.as_mut() }
    }

    /// Extract the inner value regardless of the error. With an error, the
    /// value is the best that was reached, and may miss the tolerance.
    pub fn unwrap_unchecked(self) -> (r: T)
        ensures
            r == self.value,
    {
        self.value
    }

    /// Extract the inner value if the instance does not have an error.
    /// Else, it returns optb.
    pub fn unwrap_or(self, optb: T) -> (r: T)
        ensures
            r == if self.error.is_some() {
                optb
            } else {
                self.value
            },
    {
        match self.error {
            Some(_) => optb,
            None => self.value,
        }
    }

    /// Extract the inner value if the instance does not have an error.
    /// Else, it calls `op` with the error value.
    pub fn unwrap_or_else<F: FnOnce(E) -> T>(self, op: F) -> (r: T)
        requires
            self.error.is_some() ==> op.requires((self.error.unwrap(),)),
        ensures
            self.error.is_none() ==> r == self.value,
            self.error.is_some() ==> op.ensures((self.error.unwrap(),), r),
    {
        match self.error {
            Some(e) => op(e),
            None => self.value,
        }
    }

    /// Extract the content of error, which must be there.
    pub fn unwrap_err(self) -> (r: E)
        requires
            self.error.is_some(),
        ensures
            Some(r) == self.error,
    {
        self.expect_err("called `ValueWithError::unwrap_err() but it does not contains an error")
    }

    /// Extract the content of error, which must be there. `msg` says what
    /// the caller expected.
    pub fn expect_err(self, msg: &str) -> (r: E)
        requires
            self.error.is_some(),
        ensures
            Some(r) == self.error,
    {
        match self.error {
            Some(e) => e,
            None => vstd::pervasive::unreached(),
        }
    }

    /// Converts into `Result<T, E>`.
    pub fn into_result(self) -> (r: Result<T, E>)
        ensures
            r == match self.error {
                Some(e) => Err::<T, E>(e),
                None => Ok::<T, E>(self.value),
            },
    {
        match self.error {
            Some(e) => Err(e),
            None => Ok(self.value),
        }
    }

    /// Extract the inner value of an instance without an error.
    pub fn unwrap(self) -> (r: T)
        requires
            self.error.is_none(),
        ensures
            r == self.value,
    {
        self.expect("called `ValueWithError::unwrap()` but it contains an error")
    }

    /// Extract the inner value of an instance without an error. `msg` says
    /// what the caller expected.
    pub fn expect(self, msg: &str) -> (r: T)
        requires
            self.error.is_none(),
        ensures
            r == self.value,
    {
        self.value
    }
}

/// Estimation result for integral.
#[derive(Clone, Copy, Debug, PartialEq, Eq)]
pub struct Solution {
    /// Estimation for the integral
    pub estimate: Double,
    /// Estimated maximum absolute error for the estimation
    pub delta: Double,
    /// What times the integrand was evaluated
    pub nevals: usize,
}

impl Solution {
    /// The solution before any evaluation: estimate zero, error the largest
    /// finite double.
    pub open spec fn initial() -> Solution {
        Solution { estimate: Double::from_bits(0), delta: Double::from_bits(MAX_BITS), nevals: 0 }
    }
}

impl Default for Solution {
    /// No evaluation yet: estimate zero, error the largest finite double.
    fn default() -> (r: Self)
        ensures
            r == Solution::initial(),
    {
        Self { estimate: Double::from_bits(0), delta: Double::from_bits(MAX_BITS), nevals: 0 }
    }
}

/// Result of numerical integration
pub type IntegrationResult = ValueWithError<Solution, RuntimeError>;

} // verus!
