//! A numerical optimisation engine over deterministic fixed-point
//! arithmetic.
//!
//! The crate searches for a parameter vector minimising a
//! caller-supplied objective and reports the outcome with convergence
//! diagnostics.  All numeric work is carried out on [`fixed::Scalar`],
//! a signed fixed-point value with 36 fractional bits, so every
//! computation is exact, verified and reproducible.
//!
//! - [`cost`] turns residual vectors into scalar costs and analytical
//!   gradients;
//! - [`problem`] binds an objective to configuration and parameter
//!   names;
//! - [`nelder_mead`], [`cmaes`] and [`adam`] are the optimisers,
//!   selected directly or through [`optimiser::AnyOptimiser`];
//! - [`results`] is the immutable record of one run.

pub mod adam;
pub mod cmaes;
pub mod cost;
pub mod fixed;
pub mod nelder_mead;
pub mod objective;
pub mod optimiser;
pub mod problem;
pub mod results;
pub mod vecops;
