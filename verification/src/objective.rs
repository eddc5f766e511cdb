//! The caller-supplied objective capability.

use vstd::prelude::*;

use crate::fixed::Scalar;

verus! {

/// An objective function over a parameter vector.
///
/// The engine is agnostic to how the objective is implemented; the
/// capability carries no contract, so every optimiser is verified to
/// behave safely for every value an objective may return (including
/// stochastic or externally stateful ones).
pub trait Objective: Sized {
    /// Evaluates the objective at `x`.
    fn value(&self, x: &Vec<Scalar>) -> Scalar;

    /// The analytical gradient at `x`, when the objective carries one.
    /// `None` means gradient information is unavailable.
    fn gradient(&self, x: &Vec<Scalar>) -> Option<Vec<Scalar>>;
}

} // verus!
