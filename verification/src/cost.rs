//! Cost metrics over residual vectors.
//!
//! A metric turns a vector of residuals (and optionally per-parameter
//! sensitivity vectors) into a scalar cost and, when an analytical form
//! exists, a gradient obtained through the chain rule.  Each metric's
//! cost and gradient are pinned exactly, formula by formula, over the
//! raw fixed-point integers.

use vstd::prelude::*;

use crate::fixed::{
    clamp_raw, fx_add, fx_div, fx_div_int, fx_mul, fx_scale_int, ln_fx, sqrt_floor, Scalar,
    MAX_RAW, MIN_RAW, SCALE,
};

verus! {

/// Raw value of two pi, rounded toward zero.
pub const TWO_PI_RAW: i64 = 431777206544;

/// View of a sequence of scalars as the sequence of their raw values.
pub open spec fn raws(s: Seq<Scalar>) -> Seq<int> {
    s.map_values(|x: Scalar| x.raw as int)
}

/// View of per-parameter sensitivity vectors as raw-value sequences.
pub open spec fn raws2(s: Seq<Vec<Scalar>>) -> Seq<Seq<int>> {
    s.map_values(|v: Vec<Scalar>| raws(v@))
}

/// Fixed-point sum of squared residuals.
pub open spec fn sse_raw(r: Seq<int>) -> int
    decreases r.len(),
{
    if r.len() == 0 {
        0
    } else {
        fx_add(sse_raw(r.drop_last()), fx_mul(r.last(), r.last()))
    }
}

/// Fixed-point sum of `2 * r[i] * s[i]`: the derivative of a sum of
/// squares through the chain rule.
pub open spec fn dot2_raw(r: Seq<int>, s: Seq<int>) -> int
    decreases r.len(),
{
    if r.len() == 0 {
        0
    } else {
        fx_add(dot2_raw(r.drop_last(), s.drop_last()), fx_scale_int(2, fx_mul(r.last(), s.last())))
    }
}

/// Fixed-point sum of `r[i] * s[i]`.
pub open spec fn dot1_raw(r: Seq<int>, s: Seq<int>) -> int
    decreases r.len(),
{
    if r.len() == 0 {
        0
    } else {
        fx_add(dot1_raw(r.drop_last(), s.drop_last()), fx_mul(r.last(), s.last()))
    }
}

/// Every clamped raw value lies in the representable range.
pub proof fn lemma_clamp_range(v: int)
    ensures
        MIN_RAW as int <= clamp_raw(v) <= MAX_RAW as int,
{
}

/// Multiplying by a zero residual sum gives a zero cost.
pub proof fn lemma_fx_mul_zero(a: int)
    ensures
        fx_mul(a, 0) == 0,
{
    assert(crate::fixed::abs_i(0) == 0);
    assert(crate::fixed::abs_i(a) * 0 == 0) by (nonlinear_arith);
    assert(0int / (SCALE as int) == 0);
}

/// A fixed-point square is non-negative.
pub proof fn lemma_square_nonneg(a: int)
    ensures
        0 <= fx_mul(a, a) <= MAX_RAW as int,
{
    let m = (crate::fixed::abs_i(a) * crate::fixed::abs_i(a)) / (SCALE as int);
    assert(crate::fixed::abs_i(a) * crate::fixed::abs_i(a) >= 0) by (nonlinear_arith);
    assert(m >= 0) by {
        vstd::arithmetic::div_mod::lemma_div_is_ordered(
            0,
            crate::fixed::abs_i(a) * crate::fixed::abs_i(a),
            SCALE as int,
        );
        assert(0int / (SCALE as int) == 0);
    }
}

/// The sum of squared residuals is non-negative.
pub proof fn lemma_sse_nonneg(r: Seq<int>)
    ensures
        0 <= sse_raw(r) <= MAX_RAW as int,
    decreases r.len(),
{
    if r.len() == 0 {
    } else {
        lemma_sse_nonneg(r.drop_last());
        lemma_square_nonneg(r.last());
    }
}

/// Sum of squares of a residual vector, exactly `sse_raw` of its view.
pub(crate) fn sum_squares(residuals: &Vec<Scalar>) -> (s: Scalar)
    ensures
        s.raw as int == sse_raw(raws(residuals@)),
{
    let mut acc = Scalar::zero();
    let mut i: usize = 0;
    while i < residuals.len()
        invariant
            0 <= i <= residuals@.len(),
            acc.raw as int == sse_raw(raws(residuals@).take(i as int)),
        decreases residuals@.len() - i,
    {
        let x = residuals[i];
        acc = acc.add(x.mul(x));
        proof {
            let s = raws(residuals@);
            assert(s.take(i + 1).drop_last() =~= s.take(i as int));
            assert(s.take(i + 1).last() == residuals@[i as int].raw as int);
        }
        i = i + 1;
    }
    proof {
        assert(raws(residuals@).take(residuals@.len() as int) =~= raws(residuals@));
    }
    acc
}

/// Sum of `2 * r[i] * s[i]`, exactly `dot2_raw` of the two views.
fn dot2(residuals: &Vec<Scalar>, sens: &Vec<Scalar>) -> (d: Scalar)
    requires
        sens@.len() == residuals@.len(),
    ensures
        d.raw as int == dot2_raw(raws(residuals@), raws(sens@)),
{
    let mut acc = Scalar::zero();
    let mut i: usize = 0;
    while i < residuals.len()
        invariant
            0 <= i <= residuals@.len(),
            sens@.len() == residuals@.len(),
            acc.raw as int == dot2_raw(raws(residuals@).take(i as int), raws(sens@).take(i as int)),
        decreases residuals@.len() - i,
    {
        let x = residuals[i];
        let y = sens[i];
        acc = acc.add(x.mul(y).scale_int(2));
        proof {
            let r = raws(residuals@);
            let s = raws(sens@);
            assert(r.take(i + 1).drop_last() =~= r.take(i as int));
            assert(s.take(i + 1).drop_last() =~= s.take(i as int));
            assert(r.take(i + 1).last() == residuals@[i as int].raw as int);
            assert(s.take(i + 1).last() == sens@[i as int].raw as int);
        }
        i = i + 1;
    }
    proof {
        assert(raws(residuals@).take(residuals@.len() as int) =~= raws(residuals@));
        assert(raws(sens@).take(sens@.len() as int) =~= raws(sens@));
    }
    acc
}

/// Sum of `r[i] * s[i]`, exactly `dot1_raw` of the two views.
fn dot1(residuals: &Vec<Scalar>, sens: &Vec<Scalar>) -> (d: Scalar)
    requires
        sens@.len() == residuals@.len(),
    ensures
        d.raw as int == dot1_raw(raws(residuals@), raws(sens@)),
{
    let mut acc = Scalar::zero();
    let mut i: usize = 0;
    while i < residuals.len()
        invariant
            0 <= i <= residuals@.len(),
            sens@.len() == residuals@.len(),
            acc.raw as int == dot1_raw(raws(residuals@).take(i as int), raws(sens@).take(i as int)),
        decreases residuals@.len() - i,
    {
        let x = residuals[i];
        let y = sens[i];
        acc = acc.add(x.mul(y));
        proof {
            let r = raws(residuals@);
            let s = raws(sens@);
            assert(r.take(i + 1).drop_last() =~= r.take(i as int));
            assert(s.take(i + 1).drop_last() =~= s.take(i as int));
            assert(r.take(i + 1).last() == residuals@[i as int].raw as int);
            assert(s.take(i + 1).last() == sens@[i as int].raw as int);
        }
        i = i + 1;
    }
    proof {
        assert(raws(residuals@).take(residuals@.len() as int) =~= raws(residuals@));
        assert(raws(sens@).take(sens@.len() as int) =~= raws(sens@));
    }
    acc
}

/// Rejected configuration of a cost metric.
#[derive(Clone, Copy, PartialEq, Eq, Structural, Debug)]
pub enum MetricError {
    /// The variance handed to a Gaussian metric was not positive.
    NonPositiveVariance,
}

/// A cost metric applied to residuals between simulated and observed
/// data.
///
/// `spec_cost` and `spec_gradient` are the metric's defining formulas;
/// the executable methods are proved to return exactly those values.
/// An empty residual vector always costs zero, and empty sensitivities
/// always yield an empty gradient.
pub trait CostMetric: Sized {
    /// Well-formedness of the metric's fixed configuration.
    spec fn wf(&self) -> bool;

    /// The cost of a residual vector, on raw fixed-point values.
    spec fn spec_cost(&self, r: Seq<int>) -> int;

    /// Whether the metric supports analytical gradients.
    spec fn spec_has_gradient(&self) -> bool;

    /// The gradient, one component per sensitivity vector.
    spec fn spec_gradient(&self, r: Seq<int>, s: Seq<Seq<int>>) -> Seq<int>;

    /// The metric's stable identifier.
    spec fn spec_name(&self) -> Seq<char>;

    /// Evaluates the cost of a residual vector.  The residual count is
    /// bounded so that per-observation factors fit the machine word.
    fn evaluate(&self, residuals: &Vec<Scalar>) -> (c: Scalar)
        requires
            self.wf(),
            residuals@.len() < 0x4000000000000000,
        ensures
            c.raw as int == self.spec_cost(raws(residuals@)),
            residuals@.len() == 0 ==> c.raw == 0,
    ;

    /// The stable identifier of the metric.
    fn name(&self) -> (n: &'static str)
        ensures
            n@ == self.spec_name(),
    ;

    /// Evaluates the cost together with its gradient with respect to
    /// the parameters, when the metric has an analytical form.  Each
    /// sensitivity vector must pair elementwise with the residuals.
    fn evaluate_with_sensitivities(
        &self,
        residuals: &Vec<Scalar>,
        sensitivities: &Vec<Vec<Scalar>>,
    ) -> (res: Option<(Scalar, Vec<Scalar>)>)
        requires
            self.wf(),
            residuals@.len() < 0x4000000000000000,
            forall|i: int|
                0 <= i < sensitivities@.len() ==> (
                #[trigger] sensitivities@[i])@.len() == residuals@.len(),
        ensures
            match res {
                Some(cg) => self.spec_has_gradient() && cg.0.raw as int == self.spec_cost(
                    raws(residuals@),
                ) && cg.1@.len() == sensitivities@.len() && raws(cg.1@) == self.spec_gradient(
                    raws(residuals@),
                    raws2(sensitivities@),
                ),
                None => !self.spec_has_gradient(),
            },
    ;
}

/// Weighted sum of squared residuals.
#[derive(Clone, Copy, PartialEq, Eq, Structural, Debug)]
pub struct SumSquaredError {
    /// Multiplier applied to the summed squares.
    pub weight: Scalar,
}

impl SumSquaredError {
    /// Builds the metric; a missing weight defaults to one.
    pub fn new(weight: Option<Scalar>) -> (m: SumSquaredError)
        ensures
            m.weight == (match weight {
                Some(w) => w,
                None => Scalar { raw: SCALE },
            }),
    {
        match weight {
            Some(w) => SumSquaredError { weight: w },
            None => SumSquaredError { weight: Scalar::one() },
        }
    }
}

impl Default for SumSquaredError {
    /// The metric with weight one.
    fn default() -> (m: SumSquaredError)
        ensures
            m.weight.raw == SCALE,
    {
        SumSquaredError { weight: Scalar { raw: SCALE } }
    }
}

impl CostMetric for SumSquaredError {
    open spec fn wf(&self) -> bool {
        true
    }

    /// `weight * sum of r[i]^2`.
    open spec fn spec_cost(&self, r: Seq<int>) -> int {
        fx_mul(self.weight.raw as int, sse_raw(r))
    }

    open spec fn spec_has_gradient(&self) -> bool {
        true
    }

    /// Component `j` is `weight * sum of 2 * r[i] * s[j][i]`.
    open spec fn spec_gradient(&self, r: Seq<int>, s: Seq<Seq<int>>) -> Seq<int> {
        Seq::new(s.len(), |j: int| fx_mul(self.weight.raw as int, dot2_raw(r, s[j])))
    }

    open spec fn spec_name(&self) -> Seq<char> {
        "sse"@
    }

    fn evaluate(&self, residuals: &Vec<Scalar>) -> (c: Scalar) {
        let ss = sum_squares(residuals);
        proof {
            lemma_fx_mul_zero(self.weight.raw as int);
        }
        self.weight.mul(ss)
    }

    fn name(&self) -> (n: &'static str) {
        "sse"
    }

    fn evaluate_with_sensitivities(
        &self,
        residuals: &Vec<Scalar>,
        sensitivities: &Vec<Vec<Scalar>>,
    ) -> (res: Option<(Scalar, Vec<Scalar>)>) {
        let ss = sum_squares(residuals);
        let cost = self.weight.mul(ss);
        let mut gradient: Vec<Scalar> = Vec::new();
        let mut j: usize = 0;
        while j < sensitivities.len()
            invariant
                0 <= j <= sensitivities@.len(),
                gradient@.len() == j,
                forall|i: int|
                    0 <= i < sensitivities@.len() ==> (
                    #[trigger] sensitivities@[i])@.len() == residuals@.len(),
                forall|k: int|
                    0 <= k < j ==> (#[trigger] gradient@[k]).raw as int == fx_mul(
                        self.weight.raw as int,
                        dot2_raw(raws(residuals@), raws(sensitivities@[k]@)),
                    ),
            decreases sensitivities@.len() - j,
        {
            let d = dot2(residuals, &sensitivities[j]);
            gradient.push(self.weight.mul(d));
            j = j + 1;
        }
        proof {
            assert(raws(gradient@) =~= self.spec_gradient(raws(residuals@), raws2(sensitivities@)));
        }
        Some((cost, gradient))
    }
}

/// Weighted root of the mean squared residual.
#[derive(Clone, Copy, PartialEq, Eq, Structural, Debug)]
pub struct RootMeanSquaredError {
    /// Multiplier applied to the root.
    pub weight: Scalar,
}

/// The raw root-mean-squared value of a non-empty residual vector.
pub open spec fn rmse_raw(r: Seq<int>) -> int {
    sqrt_floor(fx_div_int(sse_raw(r), r.len() as int) * (SCALE as int))
}

impl RootMeanSquaredError {
    /// Builds the metric; a missing weight defaults to one.
    pub fn new(weight: Option<Scalar>) -> (m: RootMeanSquaredError)
        ensures
            m.weight == (match weight {
                Some(w) => w,
                None => Scalar { raw: SCALE },
            }),
    {
        match weight {
            Some(w) => RootMeanSquaredError { weight: w },
            None => RootMeanSquaredError { weight: Scalar::one() },
        }
    }
}

impl Default for RootMeanSquaredError {
    /// The metric with weight one.
    fn default() -> (m: RootMeanSquaredError)
        ensures
            m.weight.raw == SCALE,
    {
        RootMeanSquaredError { weight: Scalar { raw: SCALE } }
    }
}

impl CostMetric for RootMeanSquaredError {
    open spec fn wf(&self) -> bool {
        true
    }

    /// `weight * sqrt(sum of r[i]^2 / n)`, and zero on no residuals.
    open spec fn spec_cost(&self, r: Seq<int>) -> int {
        if r.len() == 0 {
            0
        } else {
            fx_mul(self.weight.raw as int, rmse_raw(r))
        }
    }

    open spec fn spec_has_gradient(&self) -> bool {
        true
    }

    /// Component `j` is `weight * (sum of 2 * r[i] * s[j][i]) / (2 * n *
    /// rmse)`, or zero at a perfect fit where the root vanishes.
    open spec fn spec_gradient(&self, r: Seq<int>, s: Seq<Seq<int>>) -> Seq<int> {
        if r.len() == 0 {
            Seq::new(s.len(), |j: int| 0int)
        } else if rmse_raw(r) <= 0 {
            Seq::new(s.len(), |j: int| 0int)
        } else {
            Seq::new(
                s.len(),
                |j: int|
                    fx_mul(
                        self.weight.raw as int,
                        fx_div(dot2_raw(r, s[j]), fx_scale_int(2 * r.len() as int, rmse_raw(r))),
                    ),
            )
        }
    }

    open spec fn spec_name(&self) -> Seq<char> {
        "rmse"@
    }

    fn evaluate(&self, residuals: &Vec<Scalar>) -> (c: Scalar) {
        if residuals.len() == 0 {
            return Scalar::zero();
        }
        let ss = sum_squares(residuals);
        proof {
            lemma_sse_nonneg(raws(residuals@));
        }
        let mse = ss.div_int(residuals.len() as u64);
        let root = mse.sqrt();
        self.weight.mul(root)
    }

    fn name(&self) -> (n: &'static str) {
        "rmse"
    }

    fn evaluate_with_sensitivities(
        &self,
        residuals: &Vec<Scalar>,
        sensitivities: &Vec<Vec<Scalar>>,
    ) -> (res: Option<(Scalar, Vec<Scalar>)>) {
        if residuals.len() == 0 {
            let mut gradient: Vec<Scalar> = Vec::new();
            let mut j: usize = 0;
            while j < sensitivities.len()
                invariant
                    0 <= j <= sensitivities@.len(),
                    gradient@.len() == j,
                    forall|k: int| 0 <= k < j ==> (#[trigger] gradient@[k]).raw == 0,
                decreases sensitivities@.len() - j,
            {
                gradient.push(Scalar::zero());
                j = j + 1;
            }
            proof {
                assert(raws(gradient@) =~= self.spec_gradient(
                    raws(residuals@),
                    raws2(sensitivities@),
                ));
            }
            return Some((Scalar::zero(), gradient));
        }
        let ss = sum_squares(residuals);
        proof {
            lemma_sse_nonneg(raws(residuals@));
        }
        let n = residuals.len();
        let mse = ss.div_int(n as u64);
        let root = mse.sqrt();
        let cost = self.weight.mul(root);
        let mut gradient: Vec<Scalar> = Vec::new();
        if root.raw <= 0 {
            let mut j: usize = 0;
            while j < sensitivities.len()
                invariant
                    0 <= j <= sensitivities@.len(),
                    gradient@.len() == j,
                    forall|k: int| 0 <= k < j ==> (#[trigger] gradient@[k]).raw == 0,
                decreases sensitivities@.len() - j,
            {
                gradient.push(Scalar::zero());
                j = j + 1;
            }
            proof {
                assert(raws(gradient@) =~= self.spec_gradient(
                    raws(residuals@),
                    raws2(sensitivities@),
                ));
            }
            return Some((cost, gradient));
        }
        let den = root.scale_int(2 * (n as i64));
        assert(den.raw > 0) by {
            assert(2 * (n as int) * (root.raw as int) > 0) by (nonlinear_arith)
                requires
                    n as int >= 1,
                    root.raw as int >= 1,
            ;
        }
        let mut j: usize = 0;
        while j < sensitivities.len()
            invariant
                0 <= j <= sensitivities@.len(),
                gradient@.len() == j,
                den.raw as int == fx_scale_int(2 * raws(residuals@).len() as int, rmse_raw(raws(residuals@))),
                den.raw > 0,
                rmse_raw(raws(residuals@)) > 0,
                residuals@.len() > 0,
                forall|i: int|
                    0 <= i < sensitivities@.len() ==> (
                    #[trigger] sensitivities@[i])@.len() == residuals@.len(),
                forall|k: int|
                    0 <= k < j ==> (#[trigger] gradient@[k]).raw as int == fx_mul(
                        self.weight.raw as int,
                        fx_div(
                            dot2_raw(raws(residuals@), raws(sensitivities@[k]@)),
                            fx_scale_int(2 * raws(residuals@).len() as int, rmse_raw(raws(residuals@))),
                        ),
                    ),
            decreases sensitivities@.len() - j,
        {
            let d = dot2(residuals, &sensitivities[j]);
            gradient.push(self.weight.mul(d.div(den)));
            j = j + 1;
        }
        proof {
            assert(raws(gradient@) =~= self.spec_gradient(raws(residuals@), raws2(sensitivities@)));
        }
        Some((cost, gradient))
    }
}

/// The cached logarithmic term of a Gaussian negative log-likelihood:
/// `ln(2 * pi * variance)` in fixed point.
pub open spec fn spec_log_term(variance: int) -> int {
    let t = fx_mul(TWO_PI_RAW as int, variance);
    if t > 0 {
        ln_fx(t)
    } else {
        0
    }
}

/// Weighted Gaussian negative log-likelihood of the residuals.
#[derive(Clone, Copy, PartialEq, Eq, Structural, Debug)]
pub struct GaussianNll {
    /// Multiplier applied to the likelihood.
    pub weight: Scalar,
    /// Variance of the Gaussian; always positive.
    pub variance: Scalar,
    /// Cached `ln(2 * pi * variance)`.
    pub log_term: Scalar,
}

impl GaussianNll {
    /// A well-formed Gaussian metric: positive variance and a cached
    /// logarithmic term that matches it.
    pub open spec fn inv(&self) -> bool {
        self.variance.raw > 0 && self.log_term.raw as int == spec_log_term(self.variance.raw as int)
    }

    /// Builds the metric, rejecting a non-positive variance.  A missing
    /// weight defaults to one.  (Fixed-point scalars are always finite,
    /// so positivity is the whole validity condition.)
    pub fn new(weight: Option<Scalar>, variance: Scalar) -> (res: Result<GaussianNll, MetricError>)
        ensures
            match res {
                Ok(m) => variance.raw > 0 && m.variance == variance && m.inv() && m.weight
                    == (match weight {
                    Some(w) => w,
                    None => Scalar { raw: SCALE },
                }),
                Err(e) => variance.raw <= 0 && e == MetricError::NonPositiveVariance,
            },
    {
        if variance.raw <= 0 {
            return Err(MetricError::NonPositiveVariance);
        }
        let t = Scalar { raw: TWO_PI_RAW }.mul(variance);
        let log_term = if t.raw > 0 {
            t.ln()
        } else {
            Scalar::zero()
        };
        let w = match weight {
            Some(w) => w,
            None => Scalar::one(),
        };
        Ok(GaussianNll { weight: w, variance, log_term })
    }

    /// Builds the metric with the variance forced into the valid range
    /// `[one raw unit, MAX_RAW]`, for callers that must not fail.
    pub fn new_clamped(variance: Scalar) -> (m: GaussianNll)
        ensures
            m.variance.raw == (if variance.raw <= 0 {
                1int
            } else {
                variance.raw as int
            }),
            m.variance.raw > 0,
            m.inv(),
            m.weight.raw == SCALE,
    {
        let clamped = if variance.raw <= 0 {
            Scalar { raw: 1 }
        } else {
            variance
        };
        match GaussianNll::new(Some(Scalar::one()), clamped) {
            Ok(m) => m,
            Err(_) => {
                proof {
                    assert(false);
                }
                GaussianNll {
                    weight: Scalar { raw: SCALE },
                    variance: Scalar { raw: 1 },
                    log_term: Scalar { raw: 0 },
                }
            },
        }
    }
}

impl Default for GaussianNll {
    /// Weight one, variance one; the cached term matches the variance.
    fn default() -> (m: GaussianNll)
        ensures
            m.weight.raw == SCALE,
            m.variance.raw == SCALE,
            m.inv(),
    {
        let t = Scalar { raw: TWO_PI_RAW }.mul(Scalar { raw: SCALE });
        let log_term = if t.raw > 0 {
            t.ln()
        } else {
            Scalar::zero()
        };
        GaussianNll { weight: Scalar { raw: SCALE }, variance: Scalar { raw: SCALE }, log_term }
    }
}

impl CostMetric for GaussianNll {
    open spec fn wf(&self) -> bool {
        self.inv()
    }

    /// `weight * (n * log_term / 2 + (sse / variance) / 2)`, and zero
    /// on no residuals.
    open spec fn spec_cost(&self, r: Seq<int>) -> int {
        if r.len() == 0 {
            0
        } else {
            fx_mul(
                self.weight.raw as int,
                fx_add(
                    fx_div_int(fx_scale_int(r.len() as int, self.log_term.raw as int), 2),
                    fx_div_int(fx_div(sse_raw(r), self.variance.raw as int), 2),
                ),
            )
        }
    }

    open spec fn spec_has_gradient(&self) -> bool {
        true
    }

    /// Component `j` is `weight * (sum of r[i] * s[j][i]) / variance`.
    open spec fn spec_gradient(&self, r: Seq<int>, s: Seq<Seq<int>>) -> Seq<int> {
        if r.len() == 0 {
            Seq::new(s.len(), |j: int| 0int)
        } else {
            Seq::new(
                s.len(),
                |j: int|
                    fx_mul(
                        self.weight.raw as int,
                        fx_div(dot1_raw(r, s[j]), self.variance.raw as int),
                    ),
            )
        }
    }

    open spec fn spec_name(&self) -> Seq<char> {
        "gaussian_nll"@
    }

    fn evaluate(&self, residuals: &Vec<Scalar>) -> (c: Scalar) {
        if residuals.len() == 0 {
            return Scalar::zero();
        }
        let ss = sum_squares(residuals);
        let t1 = self.log_term.scale_int(residuals.len() as i64).div_int(2);
        let t2 = ss.div(self.variance).div_int(2);
        self.weight.mul(t1.add(t2))
    }

    fn name(&self) -> (n: &'static str) {
        "gaussian_nll"
    }

    fn evaluate_with_sensitivities(
        &self,
        residuals: &Vec<Scalar>,
        sensitivities: &Vec<Vec<Scalar>>,
    ) -> (res: Option<(Scalar, Vec<Scalar>)>) {
        if residuals.len() == 0 {
            let mut gradient: Vec<Scalar> = Vec::new();
            let mut j: usize = 0;
            while j < sensitivities.len()
                invariant
                    0 <= j <= sensitivities@.len(),
                    gradient@.len() == j,
                    forall|k: int| 0 <= k < j ==> (#[trigger] gradient@[k]).raw == 0,
                decreases sensitivities@.len() - j,
            {
                gradient.push(Scalar::zero());
                j = j + 1;
            }
            proof {
                assert(raws(gradient@) =~= self.spec_gradient(
                    raws(residuals@),
                    raws2(sensitivities@),
                ));
            }
            return Some((Scalar::zero(), gradient));
        }
        let ss = sum_squares(residuals);
        let t1 = self.log_term.scale_int(residuals.len() as i64).div_int(2);
        let t2 = ss.div(self.variance).div_int(2);
        let cost = self.weight.mul(t1.add(t2));
        let mut gradient: Vec<Scalar> = Vec::new();
        let mut j: usize = 0;
        while j < sensitivities.len()
            invariant
                0 <= j <= sensitivities@.len(),
                gradient@.len() == j,
                self.variance.raw > 0,
                residuals@.len() > 0,
                forall|i: int|
                    0 <= i < sensitivities@.len() ==> (
                    #[trigger] sensitivities@[i])@.len() == residuals@.len(),
                forall|k: int|
                    0 <= k < j ==> (#[trigger] gradient@[k]).raw as int == fx_mul(
                        self.weight.raw as int,
                        fx_div(
                            dot1_raw(raws(residuals@), raws(sensitivities@[k]@)),
                            self.variance.raw as int,
                        ),
                    ),
            decreases sensitivities@.len() - j,
        {
            let d = dot1(residuals, &sensitivities[j]);
            gradient.push(self.weight.mul(d.div(self.variance)));
            j = j + 1;
        }
        proof {
            assert(raws(gradient@) =~= self.spec_gradient(raws(residuals@), raws2(sensitivities@)));
        }
        Some((cost, gradient))
    }
}

/// Doubling the weight of a Gaussian negative log-likelihood metric
/// doubles its cost on every residual vector, up to saturation: with
/// the same variance and cached term, the metric of weight two reports
/// exactly twice (clamped to the representable range) what the metric
/// of weight one reports.
pub proof fn lemma_gaussian_nll_weight_scaling(base: GaussianNll, twice: GaussianNll, r: Seq<int>)
    requires
        base.inv(),
        twice.inv(),
        base.weight.raw == SCALE,
        twice.weight.raw as int == 2 * (SCALE as int),
        twice.variance == base.variance,
        twice.log_term == base.log_term,
    ensures
        twice.spec_cost(r) == clamp_raw(2 * base.spec_cost(r)),
{
    if r.len() == 0 {
    } else {
        let inner = fx_add(
            fx_div_int(fx_scale_int(r.len() as int, base.log_term.raw as int), 2),
            fx_div_int(fx_div(sse_raw(r), base.variance.raw as int), 2),
        );
        lemma_clamp_range(
            fx_div_int(fx_scale_int(r.len() as int, base.log_term.raw as int), 2) + fx_div_int(
                fx_div(sse_raw(r), base.variance.raw as int),
                2,
            ),
        );
        lemma_fx_mul_one(inner);
        lemma_fx_mul_two(inner);
    }
}

/// Multiplying by the fixed-point one is the identity on in-range
/// values.
pub proof fn lemma_fx_mul_one(b: int)
    requires
        MIN_RAW as int <= b <= MAX_RAW as int,
    ensures
        fx_mul(SCALE as int, b) == b,
{
    let ab = crate::fixed::abs_i(b);
    assert((SCALE as int) * ab == ab * (SCALE as int)) by (nonlinear_arith);
    vstd::arithmetic::div_mod::lemma_div_multiples_vanish(ab, SCALE as int);
    assert(((SCALE as int) * ab) / (SCALE as int) == ab);
}

/// Multiplying by the fixed-point two doubles in-range values, up to
/// saturation.
pub proof fn lemma_fx_mul_two(b: int)
    requires
        MIN_RAW as int <= b <= MAX_RAW as int,
    ensures
        fx_mul(2 * (SCALE as int), b) == clamp_raw(2 * b),
{
    let ab = crate::fixed::abs_i(b);
    assert((2 * (SCALE as int)) * ab == (SCALE as int) * (2 * ab)) by (nonlinear_arith);
    vstd::arithmetic::div_mod::lemma_div_multiples_vanish(2 * ab, SCALE as int);
    assert(((SCALE as int) * (2 * ab)) / (SCALE as int) == 2 * ab);
}

} // verus!
