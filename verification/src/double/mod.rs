//! Two-dimensional integration, as an integral of integrals.

pub mod algorithm;
pub mod common;
pub mod integral;
pub mod integrator;
pub mod range;

pub use crate::double::common::{Integrand2, IntegrationConfig2, Point2, Points2};
pub use crate::double::integral::{integral2, integral2_with_config};
pub use crate::double::integrator::Integrator2;
