//! The ways in which an integration can fall short.

use vstd::prelude::*;

verus! {

/// Calculation error information occured during integration.
#[derive(Clone, Copy, Debug, PartialEq, Eq, Hash, Structural)]
#[non_exhaustive]
pub enum RuntimeError {
    /// The maximum number of subdivisions has been achieved.
    InsufficientIteration,
    /// Roundoff error prevents the given tolerance from being achieved.
    RoundoffError,
    /// A subrange was too small to calculate the integral over it.
    SubrangeTooSmall,
    /// The integral is divergent, or slowly convergent.
    Divergent,
    /// The integrand has returned a NaN.
    NanValueEncountered,
}

/// A tolerance with a NaN for a component: no error estimate can meet it.
#[derive(Clone, Copy, Debug, PartialEq, Eq, Hash, Structural)]
pub struct InvalidTolerance;

impl InvalidTolerance {
    /// One line that names the error.
    pub fn description(&self) -> (r: &'static str)
        ensures
            r@ == "tolerance must not contain NAN"@,
    {
        "tolerance must not contain NAN"
    }
}

impl RuntimeError {
    /// One line that names the error.
    pub fn description(&self) -> (r: &'static str)
        ensures
            r@ == match *self {
                RuntimeError::InsufficientIteration => "number of iteration was insufficient"@,
                RuntimeError::RoundoffError => "cannot reach tolerance because of roundoff error"@,
                RuntimeError::SubrangeTooSmall => "subrange is too small to calculate the integral"@,
                RuntimeError::Divergent => "integral is divergent, or slowly convergent"@,
                RuntimeError::NanValueEncountered => "integrand has returned a NAN value"@,
            },
    {
        match self {
            RuntimeError::InsufficientIteration => "number of iteration was insufficient",
            RuntimeError::RoundoffError => "cannot reach tolerance because of roundoff error",
            RuntimeError::SubrangeTooSmall => "subrange is too small to calculate the integral",
            RuntimeError::Divergent => "integral is divergent, or slowly convergent",
            RuntimeError::NanValueEncountered => "integrand has returned a NAN value",
        }
    }

    /// Whether raising the evaluation budget can help: true of
    /// `InsufficientIteration` alone.
    pub fn is_budget(&self) -> (r: bool)
        ensures
            r == (*self == RuntimeError::InsufficientIteration),
    {
        match self {
            RuntimeError::InsufficientIteration => true,
            _ => false,
        }
    }
}

} // verus!
