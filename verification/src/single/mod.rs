//! One-dimensional integration.

pub mod algorithm;
pub mod common;
pub mod integral;
pub mod integrator;
pub mod points;
pub mod qelg;
pub mod qk;
pub mod util;
pub mod workspace;

pub use crate::single::common::{Integrand, IntegrationConfig, Range};
pub use crate::single::integral::{integral, integral_with_config};
pub use crate::single::integrator::Integrator;
pub use crate::single::points::Points;
pub use crate::single::qelg::ExtrapolationTable;
pub use crate::single::qk::{qk, qk17, qk25, qk33, qk41, qk49, qk57, QKResult};
pub use crate::single::workspace::{SubRangeInfo, WorkSpace};
