//! The Adam first-order gradient optimiser.
//!
//! Requires the objective to expose an analytical gradient.  Keeps
//! exponentially decayed first- and second-moment estimates per
//! parameter, bias-corrects them, and applies a step scaled by the
//! configured step size; terminates on a gradient-norm or
//! objective-value threshold, or at the iteration cap.

use vstd::prelude::*;

use crate::fixed::{lemma_fx_div_nonneg, lemma_fx_mul_nonneg, lemma_fx_mul_unit, Scalar, SCALE};
use crate::objective::Objective;
use crate::problem::Problem;
use crate::results::{OptimisationResults, OptimiseError};
use crate::vecops::{vec_add, vec_div_scalar, vec_max_abs, vec_mul_elem, vec_scale, vec_zero};

verus! {

/// Default iteration cap.
pub const ADAM_DEFAULT_MAX_ITER: usize = 1000;

/// Default step size: `0.001` in raw units.
pub const ADAM_DEFAULT_STEP_RAW: i64 = 68719476;

/// Default first-moment decay `0.9` in raw units.
pub const ADAM_DEFAULT_BETA1_RAW: i64 = 61847529062;

/// Default second-moment decay `0.999` in raw units.
pub const ADAM_DEFAULT_BETA2_RAW: i64 = 68650757259;

/// Default denominator guard `1e-8` in raw units.
pub const ADAM_DEFAULT_EPSILON_RAW: i64 = 687;

/// Default convergence tolerance `1e-6` in raw units.
pub const ADAM_DEFAULT_THRESHOLD_RAW: i64 = 68719;

/// Configuration of an Adam run.  Immutable after building; each
/// `with_` call returns an updated copy.
#[derive(Clone, Copy, Debug)]
pub struct Adam {
    /// Hard cap on the number of iterations.
    pub max_iter: usize,
    /// Multiplier of the bias-corrected update.
    pub step_size: Scalar,
    /// Decay rate of the first-moment estimate; in `[0, 1)`.
    pub beta1: Scalar,
    /// Decay rate of the second-moment estimate; in `[0, 1)`.
    pub beta2: Scalar,
    /// Positive guard added to the update's denominator.
    pub epsilon: Scalar,
    /// Convergence tolerance on the gradient norm and the
    /// objective-value change.
    pub threshold: Scalar,
}

impl Adam {
    /// The configuration is runnable: decay rates lie in `[0, 1)` and
    /// the denominator guard is positive.
    pub open spec fn wf(&self) -> bool {
        &&& 0 <= self.beta1.raw < SCALE
        &&& 0 <= self.beta2.raw < SCALE
        &&& self.epsilon.raw > 0
    }

    /// The default configuration.
    pub fn new() -> (r: Adam)
        ensures
            r.max_iter == ADAM_DEFAULT_MAX_ITER,
            r.step_size.raw == ADAM_DEFAULT_STEP_RAW,
            r.beta1.raw == ADAM_DEFAULT_BETA1_RAW,
            r.beta2.raw == ADAM_DEFAULT_BETA2_RAW,
            r.epsilon.raw == ADAM_DEFAULT_EPSILON_RAW,
            r.threshold.raw == ADAM_DEFAULT_THRESHOLD_RAW,
            r.wf(),
    {
        Adam {
            max_iter: ADAM_DEFAULT_MAX_ITER,
            step_size: Scalar { raw: ADAM_DEFAULT_STEP_RAW },
            beta1: Scalar { raw: ADAM_DEFAULT_BETA1_RAW },
            beta2: Scalar { raw: ADAM_DEFAULT_BETA2_RAW },
            epsilon: Scalar { raw: ADAM_DEFAULT_EPSILON_RAW },
            threshold: Scalar { raw: ADAM_DEFAULT_THRESHOLD_RAW },
        }
    }

    /// A copy with a different iteration cap.
    pub fn with_max_iter(self, max_iter: usize) -> (r: Adam)
        ensures
            r == (Adam { max_iter, ..self }),
    {
        Adam { max_iter, ..self }
    }

    /// A copy with a different step size.
    pub fn with_step_size(self, step_size: Scalar) -> (r: Adam)
        ensures
            r == (Adam { step_size, ..self }),
    {
        Adam { step_size, ..self }
    }

    /// A copy with a different convergence tolerance.
    pub fn with_threshold(self, threshold: Scalar) -> (r: Adam)
        ensures
            r == (Adam { threshold, ..self }),
    {
        Adam { threshold, ..self }
    }

    /// A copy with different decay rates, each forced into `[0, 1)` so
    /// the configuration stays runnable.
    pub fn with_betas(self, beta1: Scalar, beta2: Scalar) -> (r: Adam)
        ensures
            r.beta1.raw == crate::fixed::clamp_unit_raw(beta1.raw as int),
            r.beta2.raw == crate::fixed::clamp_unit_raw(beta2.raw as int),
            r.max_iter == self.max_iter,
            r.step_size == self.step_size,
            r.epsilon == self.epsilon,
            r.threshold == self.threshold,
            0 <= r.beta1.raw < SCALE,
            0 <= r.beta2.raw < SCALE,
    {
        Adam { beta1: clamp_unit(beta1), beta2: clamp_unit(beta2), ..self }
    }

    /// Runs the gradient descent from `x0`.
    ///
    /// Fails, without touching the parameters, when the objective
    /// exposes no gradient or returns one of the wrong dimension.  On
    /// success the result's point has the dimension of `x0`, at most
    /// `max_iter` iterations are performed, and `success` is true
    /// exactly when a convergence criterion (not the iteration cap)
    /// ended the search.
    pub fn run<O: Objective>(&self, problem: &Problem<O>, x0: Vec<Scalar>) -> (res: Result<
        OptimisationResults,
        OptimiseError,
    >)
        requires
            self.wf(),
        ensures
            match res {
                Ok(r) => r.x@.len() == x0@.len() && r.nit <= self.max_iter && (!r.success
                    ==> r.nit == self.max_iter) && (self.max_iter >= 1 ==> r.nit >= 1),
                Err(e) => e == OptimiseError::GradientUnavailable || e
                    == OptimiseError::GradientDimension,
            },
    {
        let n = x0.len();
        let ghost n0 = x0@.len();
        let mut x = x0;
        let mut m = vec_zero(n);
        let mut v = vec_zero(n);
        let one = Scalar { raw: SCALE };
        let mut b1t = one;
        let mut b2t = one;
        let mut fprev = Scalar::zero();
        let mut have_prev = false;
        let mut it: usize = 0;
        let mut converged = false;
        while it < self.max_iter && !converged
            invariant
                self.wf(),
                x@.len() == n0,
                m@.len() == n0,
                v@.len() == n0,
                n == n0,
                it <= self.max_iter,
                converged ==> it >= 1,
                one.raw == SCALE,
                0 <= b1t.raw <= SCALE,
                0 <= b2t.raw <= SCALE,
                forall|k: int| 0 <= k < v@.len() ==> (#[trigger] v@[k]).raw >= 0,
            decreases self.max_iter - it,
        {
            it = it + 1;
            let fg = problem.evaluate_with_gradient(&x);
            let (fx, g) = match fg {
                Some(p) => p,
                None => {
                    return Err(OptimiseError::GradientUnavailable);
                },
            };
            if g.len() != n {
                return Err(OptimiseError::GradientDimension);
            }
            proof {
                lemma_fx_mul_unit(b1t.raw as int, self.beta1.raw as int);
                lemma_fx_mul_unit(b2t.raw as int, self.beta2.raw as int);
            }
            b1t = b1t.mul(self.beta1);
            b2t = b2t.mul(self.beta2);
            let m_decay = vec_scale(self.beta1, &m);
            let one_minus_b1 = one.sub(self.beta1);
            let m_fresh = vec_scale(one_minus_b1, &g);
            m = vec_add(&m_decay, &m_fresh);
            let g2 = vec_mul_elem(&g, &g);
            let v_decay = vec_scale(self.beta2, &v);
            let one_minus_b2 = one.sub(self.beta2);
            let v_fresh = vec_scale(one_minus_b2, &g2);
            let v_new = vec_add(&v_decay, &v_fresh);
            proof {
                assert forall|k: int| 0 <= k < v_new@.len() implies (#[trigger] v_new@[k]).raw
                    >= 0 by {
                    lemma_fx_mul_nonneg(self.beta2.raw as int, v@[k].raw as int);
                    assert(v_decay@[k].raw >= 0);
                    crate::cost::lemma_square_nonneg(g@[k].raw as int);
                    assert(g2@[k].raw >= 0);
                    lemma_fx_mul_nonneg(one_minus_b2.raw as int, g2@[k].raw as int);
                    assert(v_fresh@[k].raw >= 0);
                    assert(v_new@[k].raw as int == crate::fixed::fx_add(
                        v_decay@[k].raw as int,
                        v_fresh@[k].raw as int,
                    ));
                }
            }
            v = v_new;
            let d1 = one.sub(b1t);
            let d2 = one.sub(b2t);
            assert(d1.raw > 0);
            assert(d2.raw > 0);
            let mhat = vec_div_scalar(&m, d1);
            let vhat = vec_div_scalar(&v, d2);
            let mut xnew: Vec<Scalar> = Vec::new();
            let mut k: usize = 0;
            while k < n
                invariant
                    0 <= k <= n,
                    n == n0,
                    x@.len() == n0,
                    mhat@.len() == n0,
                    vhat@.len() == n0,
                    v@.len() == n0,
                    d2.raw > 0,
                    self.wf(),
                    xnew@.len() == k,
                    forall|t: int| 0 <= t < v@.len() ==> (#[trigger] v@[t]).raw >= 0,
                    forall|t: int|
                        0 <= t < vhat@.len() ==> (#[trigger] vhat@[t]).raw as int
                            == crate::fixed::fx_div(v@[t].raw as int, d2.raw as int),
                decreases n - k,
            {
                proof {
                    lemma_fx_div_nonneg(v@[k as int].raw as int, d2.raw as int);
                }
                let root = vhat[k].sqrt();
                let denom = root.add(self.epsilon);
                assert(denom.raw > 0);
                let delta = self.step_size.mul(mhat[k]).div(denom);
                xnew.push(x[k].sub(delta));
                k = k + 1;
            }
            x = xnew;
            let ginf = vec_max_abs(&g);
            if ginf.raw <= self.threshold.raw {
                converged = true;
            } else if have_prev {
                let df = fx.sub(fprev);
                let adf = if df.raw < 0 {
                    df.neg()
                } else {
                    df
                };
                if adf.raw <= self.threshold.raw {
                    converged = true;
                }
            }
            fprev = fx;
            have_prev = true;
        }
        let fun = problem.evaluate(&x);
        Ok(OptimisationResults { x, fun, nit: it, success: converged })
    }
}

/// Forces a decay rate into `[0, 1)`.
fn clamp_unit(s: Scalar) -> (r: Scalar)
    ensures
        r.raw as int == crate::fixed::clamp_unit_raw(s.raw as int),
        0 <= r.raw < SCALE,
{
    if s.raw < 0 {
        Scalar { raw: 0 }
    } else if s.raw >= SCALE {
        Scalar { raw: SCALE - 1 }
    } else {
        s
    }
}

impl Default for Adam {
    /// The same configuration as `new`.
    fn default() -> (r: Adam)
        ensures
            r.wf(),
            r.max_iter == ADAM_DEFAULT_MAX_ITER,
    {
        Adam::new()
    }
}

} // verus!
