//! Selection among the optimiser variants.
//!
//! The three optimisers share one capability — configure, then run a
//! problem from an initial vector — expressed as a tagged union
//! selected at the call site or stored as a problem's default.

use vstd::prelude::*;

use crate::adam::Adam;
use crate::cmaes::CmaEs;
use crate::fixed::Scalar;
use crate::nelder_mead::NelderMead;
use crate::objective::Objective;
use crate::problem::Problem;
use crate::results::{OptimisationResults, OptimiseError};

verus! {

/// One of the three optimiser variants.
#[derive(Clone, Copy, Debug)]
pub enum AnyOptimiser {
    /// The derivative-free simplex method.
    NelderMead(NelderMead),
    /// The covariance-adaptation evolution strategy.
    CmaEs(CmaEs),
    /// The first-order gradient method.
    Adam(Adam),
}

impl AnyOptimiser {
    /// The selected variant's iteration cap.
    pub open spec fn spec_max_iter(&self) -> usize {
        match self {
            AnyOptimiser::NelderMead(nm) => nm.max_iter,
            AnyOptimiser::CmaEs(c) => c.max_iter,
            AnyOptimiser::Adam(a) => a.max_iter,
        }
    }

    /// Runs the selected optimiser on a problem.  Only the gradient
    /// variant can fail; the result's point always has the dimension
    /// of `x0`.
    pub fn run<O: Objective>(&self, problem: &Problem<O>, x0: Vec<Scalar>) -> (res: Result<
        OptimisationResults,
        OptimiseError,
    >)
        requires
            x0@.len() < 0x4000000000000000,
            self matches AnyOptimiser::Adam(a) ==> a.wf(),
        ensures
            match res {
                Ok(r) => r.x@.len() == x0@.len() && r.nit <= self.spec_max_iter() && (!r.success
                    ==> r.nit == self.spec_max_iter()),
                Err(_) => self is Adam,
            },
    {
        match self {
            AnyOptimiser::NelderMead(nm) => Ok(nm.run(problem, x0)),
            AnyOptimiser::CmaEs(c) => Ok(c.run(problem, x0)),
            AnyOptimiser::Adam(a) => a.run(problem, x0),
        }
    }
}

} // verus!
