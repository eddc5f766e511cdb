//! The immutable record of one optimisation run.

use vstd::prelude::*;

use crate::fixed::Scalar;

verus! {

/// Outcome of a single `run`: the best point found, its objective
/// value, the number of iterations performed, and whether the stopping
/// criterion (rather than the iteration cap) ended the search.
#[derive(Clone, Debug)]
pub struct OptimisationResults {
    /// The best parameter vector found.
    pub x: Vec<Scalar>,
    /// The objective value at `x`.
    pub fun: Scalar,
    /// Iterations performed before termination.
    pub nit: usize,
    /// True exactly when a convergence criterion fired; false when the
    /// iteration cap was exhausted without meeting a tolerance.
    pub success: bool,
}

/// Precondition failure of an optimiser run, reported as an error
/// value rather than attempted with a numerical fallback.
#[derive(Clone, Copy, PartialEq, Eq, Structural, Debug)]
pub enum OptimiseError {
    /// The objective exposes no analytical gradient, which the chosen
    /// optimiser requires.
    GradientUnavailable,
    /// The objective returned a gradient of the wrong dimension.
    GradientDimension,
}

} // verus!
