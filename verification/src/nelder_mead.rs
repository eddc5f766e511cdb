//! The Nelder-Mead simplex optimiser.
//!
//! A derivative-free search that maintains an `(n + 1)`-vertex simplex
//! in `n`-dimensional space and transforms it by the classical
//! reflect / expand / contract / shrink rules until the objective
//! spread or the positional spread of the best vertices falls below
//! the configured tolerances, or the iteration cap is reached.

use vstd::prelude::*;

use crate::fixed::{Scalar, SCALE};
use crate::objective::Objective;
use crate::problem::Problem;
use crate::results::OptimisationResults;
use crate::vecops::{
    argmax, argmax_except, argmin, argmin_except, centroid_except, max_abs_diff, reflect_through,
    vec_copy,
};

verus! {

use vstd::pervasive::VecAdditionalExecFns;

/// Default iteration cap.
pub const DEFAULT_MAX_ITER: usize = 1000;

/// Default objective-spread tolerance: `1e-6` in raw units.
pub const DEFAULT_THRESHOLD_RAW: i64 = 68719;

/// Default initial simplex edge length: `0.1` in raw units.
pub const DEFAULT_SIGMA0_RAW: i64 = 6871947673;

/// Default positional tolerance: `1e-6` in raw units.
pub const DEFAULT_POSITION_TOLERANCE_RAW: i64 = 68719;

/// Configuration of a Nelder-Mead run.  Immutable after building; each
/// `with_` call returns an updated copy, so a base configuration can
/// be reused across runs.
#[derive(Clone, Copy, Debug)]
pub struct NelderMead {
    /// Hard cap on the number of iterations.
    pub max_iter: usize,
    /// Convergence tolerance on the best-to-worst objective spread.
    pub threshold: Scalar,
    /// Edge length of the initial simplex built around the start.
    pub sigma0: Scalar,
    /// Convergence tolerance on the best-to-second-best vertex
    /// distance.
    pub position_tolerance: Scalar,
}

impl NelderMead {
    /// The default configuration.
    pub fn new() -> (r: NelderMead)
        ensures
            r.max_iter == DEFAULT_MAX_ITER,
            r.threshold.raw == DEFAULT_THRESHOLD_RAW,
            r.sigma0.raw == DEFAULT_SIGMA0_RAW,
            r.position_tolerance.raw == DEFAULT_POSITION_TOLERANCE_RAW,
    {
        NelderMead {
            max_iter: DEFAULT_MAX_ITER,
            threshold: Scalar { raw: DEFAULT_THRESHOLD_RAW },
            sigma0: Scalar { raw: DEFAULT_SIGMA0_RAW },
            position_tolerance: Scalar { raw: DEFAULT_POSITION_TOLERANCE_RAW },
        }
    }

    /// A copy with a different iteration cap.
    pub fn with_max_iter(self, max_iter: usize) -> (r: NelderMead)
        ensures
            r.max_iter == max_iter,
            r.threshold == self.threshold,
            r.sigma0 == self.sigma0,
            r.position_tolerance == self.position_tolerance,
    {
        NelderMead { max_iter, ..self }
    }

    /// A copy with a different objective-spread tolerance.
    pub fn with_threshold(self, threshold: Scalar) -> (r: NelderMead)
        ensures
            r.threshold == threshold,
            r.max_iter == self.max_iter,
            r.sigma0 == self.sigma0,
            r.position_tolerance == self.position_tolerance,
    {
        NelderMead { threshold, ..self }
    }

    /// A copy with a different initial simplex edge length.
    pub fn with_sigma0(self, sigma0: Scalar) -> (r: NelderMead)
        ensures
            r.sigma0 == sigma0,
            r.max_iter == self.max_iter,
            r.threshold == self.threshold,
            r.position_tolerance == self.position_tolerance,
    {
        NelderMead { sigma0, ..self }
    }

    /// A copy with a different positional tolerance.
    pub fn with_position_tolerance(self, position_tolerance: Scalar) -> (r: NelderMead)
        ensures
            r.position_tolerance == position_tolerance,
            r.max_iter == self.max_iter,
            r.threshold == self.threshold,
            r.sigma0 == self.sigma0,
    {
        NelderMead { position_tolerance, ..self }
    }

    /// Runs the simplex search from `x0`.
    ///
    /// The result's point has the dimension of `x0`, at most `max_iter`
    /// iterations are performed, and `success` is true exactly when a
    /// convergence criterion (not the iteration cap) ended the search;
    /// on a zero-dimensional problem the single point is already
    /// converged.
    pub fn run<O: Objective>(&self, problem: &Problem<O>, x0: Vec<Scalar>) -> (res:
        OptimisationResults)
        ensures
            res.x@.len() == x0@.len(),
            res.nit <= self.max_iter,
            !res.success ==> res.nit == self.max_iter,
            x0@.len() >= 1 && self.max_iter >= 1 ==> res.nit >= 1,
            x0@.len() == 0 ==> res.nit == 0 && res.success,
    {
        let n = x0.len();
        if n == 0 {
            let fun = problem.evaluate(&x0);
            return OptimisationResults { x: x0, fun, nit: 0, success: true };
        }
        let mut vertices: Vec<Vec<Scalar>> = Vec::new();
        let mut values: Vec<Scalar> = Vec::new();
        let f0 = problem.evaluate(&x0);
        vertices.push(vec_copy(&x0));
        values.push(f0);
        let mut i: usize = 0;
        while i < n
            invariant
                0 <= i <= n,
                x0@.len() == n,
                vertices@.len() == i + 1,
                values@.len() == i + 1,
                forall|j: int| 0 <= j < vertices@.len() ==> (#[trigger] vertices@[j])@.len() == n,
            decreases n - i,
        {
            let mut v = vec_copy(&x0);
            let bumped = v[i].add(self.sigma0);
            v.set(i, bumped);
            let f = problem.evaluate(&v);
            vertices.push(v);
            values.push(f);
            i = i + 1;
        }
        let two = Scalar { raw: 2 * SCALE };
        let neg_half = Scalar { raw: -(SCALE / 2) };
        let mut it: usize = 0;
        let mut converged = false;
        while it < self.max_iter && !converged
            invariant
                x0@.len() == n,
                n >= 1,
                vertices@.len() == n + 1,
                values@.len() == n + 1,
                forall|j: int| 0 <= j < vertices@.len() ==> (#[trigger] vertices@[j])@.len() == n,
                it <= self.max_iter,
                converged ==> it >= 1,
            decreases self.max_iter - it,
        {
            it = it + 1;
            let ib = argmin(&values);
            let iw = argmax(&values);
            let isb = argmin_except(&values, ib);
            let spread = values[iw].sub(values[ib]);
            let pos = max_abs_diff(&vertices[ib], &vertices[isb]);
            if spread.raw <= self.threshold.raw || pos.raw <= self.position_tolerance.raw {
                converged = true;
            } else {
                let isw = argmax_except(&values, iw);
                let centroid = centroid_except(&vertices, iw, n);
                let xr = reflect_through(&centroid, &vertices[iw], Scalar { raw: SCALE });
                let fr = problem.evaluate(&xr);
                if fr.raw < values[ib].raw {
                    let xe = reflect_through(&centroid, &vertices[iw], two);
                    let fe = problem.evaluate(&xe);
                    if fe.raw < fr.raw {
                        vertices.set(iw, xe);
                        values.set(iw, fe);
                    } else {
                        vertices.set(iw, xr);
                        values.set(iw, fr);
                    }
                } else if fr.raw < values[isw].raw {
                    vertices.set(iw, xr);
                    values.set(iw, fr);
                } else {
                    let xc = reflect_through(&centroid, &vertices[iw], neg_half);
                    let fc = problem.evaluate(&xc);
                    if fc.raw < values[iw].raw {
                        vertices.set(iw, xc);
                        values.set(iw, fc);
                    } else {
                        let mut j: usize = 0;
                        while j < vertices.len()
                            invariant
                                0 <= j <= vertices@.len(),
                                vertices@.len() == n + 1,
                                values@.len() == n + 1,
                                ib < vertices@.len(),
                                forall|t: int|
                                    0 <= t < vertices@.len() ==> (
                                    #[trigger] vertices@[t])@.len() == n,
                            decreases vertices@.len() - j,
                        {
                            if j != ib {
                                let vb = vec_copy(&vertices[ib]);
                                let vnew = reflect_through(&vb, &vertices[j], neg_half);
                                let fnew = problem.evaluate(&vnew);
                                vertices.set(j, vnew);
                                values.set(j, fnew);
                            }
                            j = j + 1;
                        }
                    }
                }
            }
        }
        let ib = argmin(&values);
        OptimisationResults { x: vec_copy(&vertices[ib]), fun: values[ib], nit: it, success:
            converged }
    }
}

impl Default for NelderMead {
    /// The same configuration as `new`.
    fn default() -> (r: NelderMead)
        ensures
            r.max_iter == DEFAULT_MAX_ITER,
            r.threshold.raw == DEFAULT_THRESHOLD_RAW,
            r.sigma0.raw == DEFAULT_SIGMA0_RAW,
            r.position_tolerance.raw == DEFAULT_POSITION_TOLERANCE_RAW,
    {
        NelderMead::new()
    }
}

} // verus!
