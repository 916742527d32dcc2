//! Adaptive numerical integration of a scalar function over a finite or
//! infinite range, after the QUADPACK family of algorithms.
//!
//! The library carries every double as its IEEE-754 bit pattern ([`Double`]).
//! Ordering, sign and NaN tests are computed on the bits, and are proved to
//! be those of the numbers that the bits denote; so is the square root. The
//! other rounding operations (sum, difference, product, quotient) are taken
//! from the caller through the [`Float`] trait, and everything the library
//! proves holds for every
//! implementation of it: the bookkeeping of subranges, the budget of
//! evaluations, and the decisions that lead to a result or to an error.
//!
//! The arithmetic, an integrand, a range that depends on a coordinate and an
//! algorithm each carry a relation between what they are given and what they
//! may return. Where a contract speaks of a value that one of them gave, it
//! names the value through that relation.
//!
//! Each algorithm is a chain of steps: a rule is evaluated over a range, and
//! a function of the library decides, from what the arithmetic has made of
//! the result, what follows. The contract of an integration says which
//! chains it may have run through, and gives the result that ends the chain.

pub mod common;
pub mod double;
pub mod error;
pub mod float;
pub mod root;
pub mod single;

pub use crate::common::{IntegrationResult, Solution, Tolerance, ValueWithError};
pub use crate::error::{InvalidTolerance, RuntimeError};
pub use crate::float::{Double, Float};
pub use crate::single::algorithm::{Algorithm, Described, AUTO, QAG, QAGP, QAGS};
pub use crate::single::{integral, Integrand, Integrator};
