//! The CMA-ES optimiser: covariance matrix adaptation evolution
//! strategy.
//!
//! Maintains a Gaussian search distribution (mean, step size and
//! covariance matrix).  Each generation samples a population from a
//! deterministic seeded generator, ranks it by objective value,
//! recombines the mean as a rank-weighted average of the best
//! candidates, and updates the covariance with the rank-one and
//! rank-mu terms and the step size by cumulative adaptation.  Loss of
//! positive definiteness is repaired during factorisation, before the
//! next sampling step, never surfaced to the caller.

use vstd::prelude::*;

use crate::cost::{dot1_raw, lemma_sse_nonneg, raws, raws2, sum_squares};
use crate::fixed::{fx_div, fx_mul, fx_sub, sqrt_floor, Scalar, SCALE};
use crate::objective::Objective;
use crate::problem::Problem;
use crate::results::OptimisationResults;
use crate::vecops::{vec_add, vec_copy, vec_div_int, vec_scale, vec_scale_int, vec_zero};

verus! {

/// Default iteration (generation) cap.
pub const CMAES_DEFAULT_MAX_ITER: usize = 500;

/// Default initial step size: `0.3` in raw units.
pub const CMAES_DEFAULT_SIGMA0_RAW: i64 = 20615843020;

/// Default convergence tolerance: `1e-6` in raw units.
pub const CMAES_DEFAULT_THRESHOLD_RAW: i64 = 68719;

/// Default population size per generation.
pub const CMAES_DEFAULT_POPULATION: usize = 8;

/// The multiplier of Knuth's 64-bit linear congruential generator.
pub const LCG_MUL: u64 = 6364136223846793005;

/// The increment of Knuth's 64-bit linear congruential generator.
pub const LCG_INC: u64 = 1442695040888963407;

/// One step of the deterministic generator: reproducibility comes
/// from this being a pure function of the previous state.
pub open spec fn lcg_spec(s: int) -> int {
    (s * (LCG_MUL as int) + (LCG_INC as int)) % 0x10000000000000000
}

/// Advances the pseudo-random state.
fn lcg_next(s: u64) -> (r: u64)
    ensures
        r as int == lcg_spec(s as int),
{
    assert((s as u128) * 6364136223846793005u128 + 1442695040888963407u128
        < 0x80000000000000000000000000000000u128) by (nonlinear_arith)
        requires
            s as u128 <= 0xffffffffffffffffu128,
    ;
    assert(LCG_MUL as u128 == 6364136223846793005u128);
    assert(LCG_INC as u128 == 1442695040888963407u128);
    let wide: u128 = (s as u128) * (LCG_MUL as u128) + (LCG_INC as u128);
    (wide % 0x10000000000000000u128) as u64
}

/// The generator state after `k` steps from `s`.
pub open spec fn lcg_iter(k: nat, s: int) -> int
    decreases k,
{
    if k == 0 {
        s
    } else {
        lcg_spec(lcg_iter((k - 1) as nat, s))
    }
}

/// Sum of the first `k` uniform draws from state `s`: draw `t` is the
/// top 36 bits of the state after `t` steps.
pub open spec fn gauss_sum(s: int, k: nat) -> int
    decreases k,
{
    if k == 0 {
        0
    } else {
        gauss_sum(s, (k - 1) as nat) + lcg_iter(k, s) / 0x10000000
    }
}

/// One standard-normal deviate as the sum of twelve uniform draws
/// (shifted by six), together with the advanced generator state.
/// Both are exact functions of the input state, which is what makes a
/// seeded run reproducible; the value always lies in `[-6, 6]`.
fn gauss(state: u64) -> (r: (Scalar, u64))
    ensures
        r.1 as int == lcg_iter(12, state as int),
        r.0.raw as int == gauss_sum(state as int, 12) - 6 * (SCALE as int),
        -6 * (SCALE as int) <= r.0.raw as int <= 6 * (SCALE as int),
{
    let mut s = state;
    let mut acc: i64 = 0;
    let mut i: usize = 0;
    while i < 12
        invariant
            0 <= i <= 12,
            s as int == lcg_iter(i as nat, state as int),
            acc as int == gauss_sum(state as int, i as nat),
            0 <= acc <= i * (SCALE as int),
        decreases 12 - i,
    {
        s = lcg_next(s);
        let u = s >> 28;
        assert(u == s / 0x10000000u64 && u < 0x1000000000u64) by (bit_vector)
            requires
                u == s >> 28u64,
        ;
        assert(s as int == lcg_iter((i + 1) as nat, state as int));
        assert(u as int == lcg_iter((i + 1) as nat, state as int) / 0x10000000);
        acc = acc + u as i64;
        i = i + 1;
    }
    (Scalar { raw: acc - 6 * SCALE }, s)
}

/// A square matrix held as rows of coordinates.
pub open spec fn is_square(m: Seq<Vec<Scalar>>, n: int) -> bool {
    m.len() == n && forall|i: int| 0 <= i < n ==> (#[trigger] m[i])@.len() == n
}

/// The identity matrix.
fn mat_identity(n: usize) -> (r: Vec<Vec<Scalar>>)
    ensures
        is_square(r@, n as int),
        forall|i: int, j: int|
            0 <= i < n && 0 <= j < n ==> (#[trigger] r@[i]@[j]).raw as int == (if i == j {
                SCALE as int
            } else {
                0int
            }),
{
    let mut r: Vec<Vec<Scalar>> = Vec::new();
    let mut i: usize = 0;
    while i < n
        invariant
            0 <= i <= n,
            r@.len() == i,
            forall|t: int| 0 <= t < i ==> (#[trigger] r@[t])@.len() == n,
            forall|t: int, u: int|
                0 <= t < i && 0 <= u < n ==> (#[trigger] r@[t]@[u]).raw as int == (if t == u {
                    SCALE as int
                } else {
                    0int
                }),
        decreases n - i,
    {
        let mut row = vec_zero(n);
        row.set(i, Scalar { raw: SCALE });
        r.push(row);
        i = i + 1;
    }
    r
}

/// Scales every entry of a matrix.
fn mat_scale(c: Scalar, m: &Vec<Vec<Scalar>>, n: usize) -> (r: Vec<Vec<Scalar>>)
    requires
        is_square(m@, n as int),
    ensures
        is_square(r@, n as int),
        forall|i: int, j: int|
            0 <= i < n && 0 <= j < n ==> (#[trigger] r@[i]@[j]).raw as int == fx_mul(
                c.raw as int,
                m@[i]@[j].raw as int,
            ),
{
    let mut r: Vec<Vec<Scalar>> = Vec::new();
    let mut i: usize = 0;
    while i < n
        invariant
            0 <= i <= n,
            is_square(m@, n as int),
            r@.len() == i,
            forall|t: int| 0 <= t < i ==> (#[trigger] r@[t])@.len() == n,
            forall|t: int, u: int|
                0 <= t < i && 0 <= u < n ==> (#[trigger] r@[t]@[u]).raw as int == fx_mul(
                    c.raw as int,
                    m@[t]@[u].raw as int,
                ),
        decreases n - i,
    {
        r.push(vec_scale(c, &m[i]));
        i = i + 1;
    }
    r
}

/// Entrywise sum of two matrices.
fn mat_add(a: &Vec<Vec<Scalar>>, b: &Vec<Vec<Scalar>>, n: usize) -> (r: Vec<Vec<Scalar>>)
    requires
        is_square(a@, n as int),
        is_square(b@, n as int),
    ensures
        is_square(r@, n as int),
        forall|i: int, j: int|
            0 <= i < n && 0 <= j < n ==> (#[trigger] r@[i]@[j]).raw as int == crate::fixed::fx_add(
                a@[i]@[j].raw as int,
                b@[i]@[j].raw as int,
            ),
{
    let mut r: Vec<Vec<Scalar>> = Vec::new();
    let mut i: usize = 0;
    while i < n
        invariant
            0 <= i <= n,
            is_square(a@, n as int),
            is_square(b@, n as int),
            r@.len() == i,
            forall|t: int| 0 <= t < i ==> (#[trigger] r@[t])@.len() == n,
            forall|t: int, u: int|
                0 <= t < i && 0 <= u < n ==> (#[trigger] r@[t]@[u]).raw as int
                    == crate::fixed::fx_add(a@[t]@[u].raw as int, b@[t]@[u].raw as int),
        decreases n - i,
    {
        r.push(vec_add(&a[i], &b[i]));
        i = i + 1;
    }
    r
}

/// The outer product `v * v^T`, scaled by a plain integer weight; the
/// result is symmetric by construction.
fn mat_outer_scale_int(w: i64, v: &Vec<Scalar>, n: usize) -> (r: Vec<Vec<Scalar>>)
    requires
        v@.len() == n,
    ensures
        is_square(r@, n as int),
        forall|i: int, j: int|
            0 <= i < n && 0 <= j < n ==> (#[trigger] r@[i]@[j]).raw as int
                == crate::fixed::fx_scale_int(
                w as int,
                fx_mul(v@[i].raw as int, v@[j].raw as int),
            ),
{
    let mut r: Vec<Vec<Scalar>> = Vec::new();
    let mut i: usize = 0;
    while i < n
        invariant
            0 <= i <= n,
            v@.len() == n,
            r@.len() == i,
            forall|t: int| 0 <= t < i ==> (#[trigger] r@[t])@.len() == n,
            forall|t: int, u: int|
                0 <= t < i && 0 <= u < n ==> (#[trigger] r@[t]@[u]).raw as int
                    == crate::fixed::fx_scale_int(
                    w as int,
                    fx_mul(v@[t].raw as int, v@[u].raw as int),
                ),
        decreases n - i,
    {
        let row = vec_scale_int(w, &vec_scale(v[i], v));
        r.push(row);
        i = i + 1;
    }
    r
}

/// Divides every entry by a positive integer.
fn mat_div_int(m: &Vec<Vec<Scalar>>, d: u64, n: usize) -> (r: Vec<Vec<Scalar>>)
    requires
        is_square(m@, n as int),
        d > 0,
    ensures
        is_square(r@, n as int),
        forall|i: int, j: int|
            0 <= i < n && 0 <= j < n ==> (#[trigger] r@[i]@[j]).raw as int
                == crate::fixed::fx_div_int(m@[i]@[j].raw as int, d as int),
{
    let mut r: Vec<Vec<Scalar>> = Vec::new();
    let mut i: usize = 0;
    while i < n
        invariant
            0 <= i <= n,
            d > 0,
            is_square(m@, n as int),
            r@.len() == i,
            forall|t: int| 0 <= t < i ==> (#[trigger] r@[t])@.len() == n,
            forall|t: int, u: int|
                0 <= t < i && 0 <= u < n ==> (#[trigger] r@[t]@[u]).raw as int
                    == crate::fixed::fx_div_int(m@[t]@[u].raw as int, d as int),
        decreases n - i,
    {
        r.push(vec_div_int(&m[i], d));
        i = i + 1;
    }
    r
}

/// Multiplies a matrix by a vector: entry `i` is exactly the
/// fixed-point dot product of row `i` with the vector.
fn mat_vec(m: &Vec<Vec<Scalar>>, v: &Vec<Scalar>, n: usize) -> (r: Vec<Scalar>)
    requires
        is_square(m@, n as int),
        v@.len() == n,
    ensures
        r@.len() == n,
        forall|i: int|
            0 <= i < n ==> (#[trigger] r@[i]).raw as int == dot1_raw(raws(m@[i]@), raws(v@)),
{
    let mut r: Vec<Scalar> = Vec::new();
    let mut i: usize = 0;
    while i < n
        invariant
            0 <= i <= n,
            is_square(m@, n as int),
            v@.len() == n,
            r@.len() == i,
            forall|t: int|
                0 <= t < i ==> (#[trigger] r@[t]).raw as int == dot1_raw(raws(m@[t]@), raws(v@)),
        decreases n - i,
    {
        let mut acc = Scalar::zero();
        let mut j: usize = 0;
        while j < n
            invariant
                0 <= j <= n,
                i < n,
                is_square(m@, n as int),
                v@.len() == n,
                acc.raw as int == dot1_raw(raws(m@[i as int]@).take(j as int), raws(v@).take(j as int)),
            decreases n - j,
        {
            acc = acc.add(m[i][j].mul(v[j]));
            proof {
                let row = raws(m@[i as int]@);
                let vv = raws(v@);
                assert(row.take(j + 1).drop_last() =~= row.take(j as int));
                assert(vv.take(j + 1).drop_last() =~= vv.take(j as int));
                assert(row.take(j + 1).last() == m@[i as int]@[j as int].raw as int);
                assert(vv.take(j + 1).last() == v@[j as int].raw as int);
            }
            j = j + 1;
        }
        proof {
            assert(raws(m@[i as int]@).take(n as int) =~= raws(m@[i as int]@));
            assert(raws(v@).take(n as int) =~= raws(v@));
        }
        r.push(acc);
        i = i + 1;
    }
    r
}

/// Cholesky factorisation with on-the-fly repair: a pivot that drifts
/// to zero or below is lifted back to a positive value, so the factor
/// always exists and sampling never fails.
/// Entry `(i, j)` of the matrix after the first `k` products of
/// already-computed factor entries have been subtracted from it.
pub open spec fn chol_reduce(c: Seq<Seq<int>>, i: nat, j: nat, k: nat) -> int
    decreases i, j, 0nat, k,
{
    if k == 0 || k > j || j > i {
        c[i as int][j as int]
    } else {
        fx_sub(
            chol_reduce(c, i, j, (k - 1) as nat),
            fx_mul(chol_entry(c, i, (k - 1) as nat), chol_entry(c, j, (k - 1) as nat)),
        )
    }
}

/// Entry `(i, j)` of the repaired Cholesky factor: below the diagonal
/// the fully reduced entry divided by the pivot; on the diagonal the
/// square root of the reduced entry, lifted to one raw unit whenever
/// numerical drift made it non-positive (the repair); zero above.
pub open spec fn chol_entry(c: Seq<Seq<int>>, i: nat, j: nat) -> int
    decreases i, j, 1nat, 0nat,
{
    if j < i {
        fx_div(chol_reduce(c, i, j, j), chol_entry(c, j, j))
    } else if j == i {
        let d = chol_reduce(c, i, i, i);
        let dp = if d <= 0 {
            1int
        } else {
            d
        };
        sqrt_floor(dp * (SCALE as int))
    } else {
        0
    }
}

/// Cholesky factorisation with on-the-fly repair: every entry of the
/// factor is pinned by `chol_entry`, every pivot is positive, and a
/// pivot that drifts to zero or below is lifted back to a positive
/// value, so the factor always exists and sampling never fails.
fn cholesky_repair(c: &Vec<Vec<Scalar>>, n: usize) -> (r: Vec<Vec<Scalar>>)
    requires
        is_square(c@, n as int),
    ensures
        is_square(r@, n as int),
        forall|i: int| 0 <= i < n ==> (#[trigger] r@[i])@[i].raw > 0,
        forall|i: int, j: int|
            0 <= i < n && 0 <= j < n ==> (#[trigger] r@[i]@[j]).raw as int == chol_entry(
                raws2(c@),
                i as nat,
                j as nat,
            ),
{
    let ghost cv = raws2(c@);
    let mut l: Vec<Vec<Scalar>> = Vec::new();
    let mut i: usize = 0;
    while i < n
        invariant
            0 <= i <= n,
            is_square(c@, n as int),
            cv == raws2(c@),
            l@.len() == i,
            forall|t: int| 0 <= t < i ==> (#[trigger] l@[t])@.len() == n,
            forall|t: int| 0 <= t < i ==> (#[trigger] l@[t])@[t].raw > 0,
            forall|t: int, u: int|
                0 <= t < i && 0 <= u < n ==> (#[trigger] l@[t]@[u]).raw as int == chol_entry(
                    cv,
                    t as nat,
                    u as nat,
                ),
        decreases n - i,
    {
        let mut row = vec_zero(n);
        let mut j: usize = 0;
        while j < i
            invariant
                0 <= j <= i < n,
                is_square(c@, n as int),
                cv == raws2(c@),
                l@.len() == i,
                row@.len() == n,
                forall|t: int| 0 <= t < i ==> (#[trigger] l@[t])@.len() == n,
                forall|t: int| 0 <= t < i ==> (#[trigger] l@[t])@[t].raw > 0,
                forall|t: int, u: int|
                    0 <= t < i && 0 <= u < n ==> (#[trigger] l@[t]@[u]).raw as int == chol_entry(
                        cv,
                        t as nat,
                        u as nat,
                    ),
                forall|u: int|
                    0 <= u < j ==> (#[trigger] row@[u]).raw as int == chol_entry(
                        cv,
                        i as nat,
                        u as nat,
                    ),
                forall|u: int| j <= u < n ==> (#[trigger] row@[u]).raw == 0,
            decreases i - j,
        {
            let mut s = c[i][j];
            assert(s.raw as int == chol_reduce(cv, i as nat, j as nat, 0));
            let mut k: usize = 0;
            while k < j
                invariant
                    0 <= k <= j < i < n,
                    is_square(c@, n as int),
                    cv == raws2(c@),
                    l@.len() == i,
                    row@.len() == n,
                    s.raw as int == chol_reduce(cv, i as nat, j as nat, k as nat),
                    forall|t: int| 0 <= t < i ==> (#[trigger] l@[t])@.len() == n,
                    forall|t: int, u: int|
                        0 <= t < i && 0 <= u < n ==> (#[trigger] l@[t]@[u]).raw as int
                            == chol_entry(cv, t as nat, u as nat),
                    forall|u: int|
                        0 <= u < j ==> (#[trigger] row@[u]).raw as int == chol_entry(
                            cv,
                            i as nat,
                            u as nat,
                        ),
                decreases j - k,
            {
                proof {
                    assert(row@[k as int].raw as int == chol_entry(cv, i as nat, k as nat));
                    assert(l@[j as int]@[k as int].raw as int == chol_entry(
                        cv,
                        j as nat,
                        k as nat,
                    ));
                    assert(chol_reduce(cv, i as nat, j as nat, (k + 1) as nat) == fx_sub(
                        chol_reduce(cv, i as nat, j as nat, k as nat),
                        fx_mul(
                            chol_entry(cv, i as nat, k as nat),
                            chol_entry(cv, j as nat, k as nat),
                        ),
                    ));
                }
                s = s.sub(row[k].mul(l[j][k]));
                k = k + 1;
            }
            let piv = l[j][j];
            assert(piv.raw > 0);
            assert(piv.raw as int == chol_entry(cv, j as nat, j as nat));
            row.set(j, s.div(piv));
            proof {
                assert(chol_entry(cv, i as nat, j as nat) == fx_div(
                    chol_reduce(cv, i as nat, j as nat, j as nat),
                    chol_entry(cv, j as nat, j as nat),
                ));
            }
            j = j + 1;
        }
        let mut d = c[i][i];
        assert(d.raw as int == chol_reduce(cv, i as nat, i as nat, 0));
        let mut k: usize = 0;
        while k < i
            invariant
                0 <= k <= i < n,
                is_square(c@, n as int),
                cv == raws2(c@),
                row@.len() == n,
                d.raw as int == chol_reduce(cv, i as nat, i as nat, k as nat),
                forall|u: int|
                    0 <= u < i ==> (#[trigger] row@[u]).raw as int == chol_entry(
                        cv,
                        i as nat,
                        u as nat,
                    ),
            decreases i - k,
        {
            proof {
                assert(row@[k as int].raw as int == chol_entry(cv, i as nat, k as nat));
                assert(chol_reduce(cv, i as nat, i as nat, (k + 1) as nat) == fx_sub(
                    chol_reduce(cv, i as nat, i as nat, k as nat),
                    fx_mul(chol_entry(cv, i as nat, k as nat), chol_entry(cv, i as nat, k as nat)),
                ));
            }
            d = d.sub(row[k].mul(row[k]));
            k = k + 1;
        }
        let dpos = if d.raw <= 0 {
            Scalar { raw: 1 }
        } else {
            d
        };
        let root = dpos.sqrt();
        assert(root.raw > 0);
        proof {
            assert(chol_entry(cv, i as nat, i as nat) == sqrt_floor(
                (if chol_reduce(cv, i as nat, i as nat, i as nat) <= 0 {
                    1int
                } else {
                    chol_reduce(cv, i as nat, i as nat, i as nat)
                }) * (SCALE as int),
            ));
        }
        row.set(i, root);
        proof {
            assert forall|u: int| i < u < n implies #[trigger] chol_entry(cv, i as nat, u as nat)
                == 0 by {}
        }
        l.push(row);
        i = i + 1;
    }
    l
}

/// Configuration of a CMA-ES run.  Immutable after building; each
/// `with_` call returns an updated copy.  Identical seed,
/// configuration and deterministic objective reproduce the identical
/// trajectory and result.
#[derive(Clone, Copy, Debug)]
pub struct CmaEs {
    /// Hard cap on the number of generations.
    pub max_iter: usize,
    /// Initial step size of the search distribution.
    pub sigma0: Scalar,
    /// Seed of the deterministic pseudo-random generator.
    pub seed: u64,
    /// Convergence tolerance on the generation's value spread.
    pub threshold: Scalar,
    /// Candidates sampled per generation.
    pub population: usize,
}

impl CmaEs {
    /// The default configuration.
    pub fn new() -> (r: CmaEs)
        ensures
            r.max_iter == CMAES_DEFAULT_MAX_ITER,
            r.sigma0.raw == CMAES_DEFAULT_SIGMA0_RAW,
            r.seed == 0,
            r.threshold.raw == CMAES_DEFAULT_THRESHOLD_RAW,
            r.population == CMAES_DEFAULT_POPULATION,
    {
        CmaEs {
            max_iter: CMAES_DEFAULT_MAX_ITER,
            sigma0: Scalar { raw: CMAES_DEFAULT_SIGMA0_RAW },
            seed: 0,
            threshold: Scalar { raw: CMAES_DEFAULT_THRESHOLD_RAW },
            population: CMAES_DEFAULT_POPULATION,
        }
    }

    /// A copy with a different generation cap.
    pub fn with_max_iter(self, max_iter: usize) -> (r: CmaEs)
        ensures
            r == (CmaEs { max_iter, ..self }),
    {
        CmaEs { max_iter, ..self }
    }

    /// A copy with a different initial step size.
    pub fn with_sigma0(self, sigma0: Scalar) -> (r: CmaEs)
        ensures
            r == (CmaEs { sigma0, ..self }),
    {
        CmaEs { sigma0, ..self }
    }

    /// A copy with a different generator seed.
    pub fn with_seed(self, seed: u64) -> (r: CmaEs)
        ensures
            r == (CmaEs { seed, ..self }),
    {
        CmaEs { seed, ..self }
    }

    /// A copy with a different convergence tolerance.
    pub fn with_threshold(self, threshold: Scalar) -> (r: CmaEs)
        ensures
            r == (CmaEs { threshold, ..self }),
    {
        CmaEs { threshold, ..self }
    }

    /// A copy with a different population size.
    pub fn with_population(self, population: usize) -> (r: CmaEs)
        ensures
            r == (CmaEs { population, ..self }),
    {
        CmaEs { population, ..self }
    }

    /// Runs the evolution strategy from `x0`.
    ///
    /// The result's point has the dimension of `x0`, at most
    /// `max_iter` generations are performed, and `success` is true
    /// exactly when the value-spread criterion (not the generation
    /// cap) ended the search.  The population is forced into
    /// `[2, 256]` before use.
    pub fn run<O: Objective>(&self, problem: &Problem<O>, x0: Vec<Scalar>) -> (res:
        OptimisationResults)
        requires
            x0@.len() < 0x4000000000000000,
        ensures
            res.x@.len() == x0@.len(),
            res.nit <= self.max_iter,
            !res.success ==> res.nit == self.max_iter,
            x0@.len() >= 1 && self.max_iter >= 1 ==> res.nit >= 1,
            x0@.len() == 0 ==> res.nit == 0 && res.success,
    {
        let n = x0.len();
        if n == 0 {
            let fun = problem.evaluate(&x0);
            return OptimisationResults { x: x0, fun, nit: 0, success: true };
        }
        let lambda: usize = if self.population < 2 {
            2
        } else if self.population > 256 {
            256
        } else {
            self.population
        };
        let mu: usize = lambda / 2;
        assert(1 <= mu <= 128);
        // integer recombination weights mu, mu-1, ..., 1 and their sums
        assert((mu as u64) * (mu as u64 + 1) <= 128 * 129 && (mu as u64) * (mu as u64 + 1) >= 2)
            by (nonlinear_arith)
            requires
                1 <= mu as u64 <= 128,
        ;
        let wsum: u64 = ((mu as u64) * (mu as u64 + 1)) / 2;
        assert(1 <= wsum <= 8256);
        let mut wsq: u64 = 0;
        let mut i: usize = 0;
        while i < mu
            invariant
                0 <= i <= mu,
                mu <= 128,
                wsq <= i * 16384,
            decreases mu - i,
        {
            let w = (mu - i) as u64;
            assert(w * w <= 128 * 128) by (nonlinear_arith)
                requires
                    w <= 128,
            ;
            wsq = wsq + w * w;
            i = i + 1;
        }
        let one = Scalar { raw: SCALE };
        let two = Scalar { raw: 2 * SCALE };
        // effective selection mass and learning rates, all in fixed point
        assert(wsum * wsum <= 8256 * 8256) by (nonlinear_arith)
            requires
                wsum <= 8256,
        ;
        let mueff = guard_pos(
            Scalar::from_int((wsum * wsum) as i64).div(guard_pos(Scalar::from_int(wsq as i64))),
        );
        let n_s = Scalar::from_int(n as i64);
        let cs = Scalar::from_int(4).div(guard_pos(n_s.add(Scalar::from_int(4))));
        let ds = one.add(cs);
        let cc = cs;
        let np2 = n_s.add(two);
        let c1 = two.div(guard_pos(np2.mul(np2).add(mueff)));
        let cmu_raw = mueff.div(guard_pos(np2.mul(np2).add(mueff)));
        let csum: i128 = cmu_raw.raw as i128 + c1.raw as i128;
        let cmu = if csum >= SCALE as i128 {
            one.sub(c1)
        } else {
            cmu_raw
        };
        let chi = guard_pos(n_s.sqrt());
        let mut mean = vec_copy(&x0);
        let mut sigma = self.sigma0;
        let mut cov = mat_identity(n);
        let mut pc = vec_zero(n);
        let mut ps = vec_zero(n);
        let mut state: u64 = self.seed;
        let mut best_x = vec_copy(&x0);
        let mut best_f = problem.evaluate(&x0);
        let mut it: usize = 0;
        let mut converged = false;
        while it < self.max_iter && !converged
            invariant
                n == x0@.len(),
                n >= 1,
                lambda >= 2,
                lambda <= 256,
                mu >= 1,
                mu <= 128,
                mu <= lambda,
                wsum > 0,
                it <= self.max_iter,
                converged ==> it >= 1,
                one.raw == SCALE,
                mean@.len() == n,
                best_x@.len() == n,
                pc@.len() == n,
                ps@.len() == n,
                is_square(cov@, n as int),
                ds.raw > 0,
                chi.raw > 0,
            decreases self.max_iter - it,
        {
            it = it + 1;
            let l = cholesky_repair(&cov, n);
            let mut xs: Vec<Vec<Scalar>> = Vec::new();
            let mut zs: Vec<Vec<Scalar>> = Vec::new();
            let mut ys: Vec<Vec<Scalar>> = Vec::new();
            let mut fs: Vec<Scalar> = Vec::new();
            let mut c: usize = 0;
            while c < lambda
                invariant
                    0 <= c <= lambda,
                    n >= 1,
                    mean@.len() == n,
                    is_square(l@, n as int),
                    xs@.len() == c,
                    zs@.len() == c,
                    ys@.len() == c,
                    fs@.len() == c,
                    forall|t: int| 0 <= t < c ==> (#[trigger] xs@[t])@.len() == n,
                    forall|t: int| 0 <= t < c ==> (#[trigger] zs@[t])@.len() == n,
                    forall|t: int| 0 <= t < c ==> (#[trigger] ys@[t])@.len() == n,
                decreases lambda - c,
            {
                let mut z: Vec<Scalar> = Vec::new();
                let mut k: usize = 0;
                while k < n
                    invariant
                        0 <= k <= n,
                        z@.len() == k,
                    decreases n - k,
                {
                    let (g, s2) = gauss(state);
                    state = s2;
                    z.push(g);
                    k = k + 1;
                }
                let y = mat_vec(&l, &z, n);
                let xi = vec_add(&mean, &vec_scale(sigma, &y));
                let f = problem.evaluate(&xi);
                xs.push(xi);
                zs.push(z);
                ys.push(y);
                fs.push(f);
                c = c + 1;
            }
            // rank: indices of the mu best candidates, best first
            let order = best_indices(&fs, mu);
            // track the best candidate ever seen
            let ibest = order[0];
            if fs[ibest].raw < best_f.raw {
                best_f = fs[ibest];
                best_x = vec_copy(&xs[ibest]);
            }
            // rank-weighted recombination of mean, z-average, y-average
            let mut macc = vec_zero(n);
            let mut zacc = vec_zero(n);
            let mut yacc = vec_zero(n);
            let mut t: usize = 0;
            while t < mu
                invariant
                    0 <= t <= mu,
                    mu <= 128,
                    mu <= order@.len(),
                    n >= 1,
                    macc@.len() == n,
                    zacc@.len() == n,
                    yacc@.len() == n,
                    xs@.len() == fs@.len(),
                    zs@.len() == fs@.len(),
                    ys@.len() == fs@.len(),
                    forall|q: int| 0 <= q < order@.len() ==> (#[trigger] order@[q]) < fs@.len(),
                    forall|q: int| 0 <= q < xs@.len() ==> (#[trigger] xs@[q])@.len() == n,
                    forall|q: int| 0 <= q < zs@.len() ==> (#[trigger] zs@[q])@.len() == n,
                    forall|q: int| 0 <= q < ys@.len() ==> (#[trigger] ys@[q])@.len() == n,
                decreases mu - t,
            {
                let w = (mu - t) as i64;
                let idx = order[t];
                macc = vec_add(&macc, &vec_scale_int(w, &xs[idx]));
                zacc = vec_add(&zacc, &vec_scale_int(w, &zs[idx]));
                yacc = vec_add(&yacc, &vec_scale_int(w, &ys[idx]));
                t = t + 1;
            }
            let mean_new = vec_div_int(&macc, wsum);
            let zmean = vec_div_int(&zacc, wsum);
            let ymean = vec_div_int(&yacc, wsum);
            // cumulative paths
            let k_arg = cs.mul(two.sub(cs)).mul(mueff);
            let k_pos = if k_arg.raw < 0 {
                Scalar::zero()
            } else {
                k_arg
            };
            let k = k_pos.sqrt();
            ps = vec_add(&vec_scale(one.sub(cs), &ps), &vec_scale(k, &zmean));
            pc = vec_add(&vec_scale(one.sub(cc), &pc), &vec_scale(k, &ymean));
            // covariance: decay plus rank-one plus rank-mu
            let decay_arg = one.sub(c1).sub(cmu);
            let decay = if decay_arg.raw < 0 {
                Scalar::zero()
            } else {
                decay_arg
            };
            let rank_one = mat_outer_scale_int(1, &pc, n);
            let mut rank_mu: Vec<Vec<Scalar>> = mat_identity(n);
            let mut t2: usize = 0;
            while t2 < mu
                invariant
                    0 <= t2 <= mu,
                    mu <= 128,
                    mu <= order@.len(),
                    n >= 1,
                    is_square(rank_mu@, n as int),
                    ys@.len() == fs@.len(),
                    forall|q: int| 0 <= q < order@.len() ==> (#[trigger] order@[q]) < fs@.len(),
                    forall|q: int| 0 <= q < ys@.len() ==> (#[trigger] ys@[q])@.len() == n,
                decreases mu - t2,
            {
                let w = (mu - t2) as i64;
                let idx = order[t2];
                let wterm = mat_outer_scale_int(w, &ys[idx], n);
                if t2 == 0 {
                    rank_mu = wterm;
                } else {
                    rank_mu = mat_add(&rank_mu, &wterm, n);
                }
                t2 = t2 + 1;
            }
            let rank_mu_avg = mat_div_int(&rank_mu, wsum, n);
            cov = mat_add(
                &mat_scale(decay, &cov, n),
                &mat_add(&mat_scale(c1, &rank_one, n), &mat_scale(cmu, &rank_mu_avg, n), n),
                n,
            );
            // cumulative step-size adaptation
            let ss = sum_squares(&ps);
            proof {
                lemma_sse_nonneg(raws(ps@));
            }
            let norm = ss.sqrt();
            let arg = cs.div(ds).mul(norm.div(chi).sub(one));
            sigma = sigma.mul(arg.exp());
            mean = mean_new;
            // convergence: the generation's value spread under the
            // tolerance
            let iworst = crate::vecops::argmax(&fs);
            let ibest2 = crate::vecops::argmin(&fs);
            let spread = fs[iworst].sub(fs[ibest2]);
            if spread.raw <= self.threshold.raw {
                converged = true;
            }
        }
        OptimisationResults { x: best_x, fun: best_f, nit: it, success: converged }
    }
}

/// Replaces a non-positive scalar by the smallest positive one, so it
/// can serve as a divisor.
fn guard_pos(s: Scalar) -> (r: Scalar)
    ensures
        r.raw > 0,
{
    if s.raw <= 0 {
        Scalar { raw: 1 }
    } else {
        s
    }
}

/// Whether the integer `j` occurs in the index sequence.
spec fn appears(s: Seq<usize>, j: int) -> bool {
    exists|q: int| 0 <= q < s.len() && (#[trigger] s[q]) as int == j
}

/// Indices of the `mu` best (lowest) values, best first: distinct,
/// ordered by value, and every selected value is at most every
/// unselected one.
fn best_indices(values: &Vec<Scalar>, mu: usize) -> (r: Vec<usize>)
    requires
        0 < mu <= values@.len(),
    ensures
        r@.len() == mu,
        forall|q: int| 0 <= q < r@.len() ==> (#[trigger] r@[q]) < values@.len(),
        forall|q1: int, q2: int| 0 <= q1 < q2 < mu ==> r@[q1] != r@[q2],
        forall|q1: int, q2: int|
            0 <= q1 < q2 < mu ==> values@[#[trigger] r@[q1] as int].raw <= values@[
                #[trigger] r@[q2] as int].raw,
        forall|q: int, j: int|
            #![trigger r@[q], values@[j]]
            0 <= q < mu && 0 <= j < values@.len() && (forall|p: int|
                0 <= p < mu ==> (#[trigger] r@[p]) != j as usize) ==> values@[
                r@[q] as int].raw <= values@[j].raw,
{
    let nv = values.len();
    let mut idx: Vec<usize> = Vec::new();
    let mut i: usize = 0;
    while i < nv
        invariant
            0 <= i <= nv,
            idx@.len() == i,
            forall|q: int| 0 <= q < i ==> (#[trigger] idx@[q]) == q,
        decreases nv - i,
    {
        idx.push(i);
        i = i + 1;
    }
    proof {
        assert forall|j: int| 0 <= j < nv implies #[trigger] appears(idx@, j) by {
            assert(idx@[j] as int == j);
        }
    }
    let mut p: usize = 0;
    while p < mu
        invariant
            0 <= p <= mu,
            0 < mu <= nv,
            nv == values@.len(),
            idx@.len() == nv,
            forall|q: int| 0 <= q < nv ==> (#[trigger] idx@[q]) < nv,
            forall|q1: int, q2: int| 0 <= q1 < q2 < nv ==> idx@[q1] != idx@[q2],
            forall|j: int| 0 <= j < nv ==> #[trigger] appears(idx@, j),
            forall|a: int, b: int|
                0 <= a < p && a <= b < nv ==> values@[#[trigger] idx@[a] as int].raw <= values@[
                    #[trigger] idx@[b] as int].raw,
        decreases mu - p,
    {
        let mut m: usize = p;
        let mut j: usize = p + 1;
        while j < nv
            invariant
                p <= m < nv,
                p < j <= nv,
                p < nv,
                nv == values@.len(),
                idx@.len() == nv,
                forall|q: int| 0 <= q < nv ==> (#[trigger] idx@[q]) < nv,
                forall|t: int|
                    p <= t < j ==> values@[idx@[m as int] as int].raw <= values@[
                        #[trigger] idx@[t] as int].raw,
            decreases nv - j,
        {
            if values[idx[j]].raw < values[idx[m]].raw {
                m = j;
            }
            j = j + 1;
        }
        let a = idx[p];
        let b = idx[m];
        let ghost before = idx@;
        idx.set(p, b);
        idx.set(m, a);
        proof {
            let after = idx@;
            assert(after =~= before.update(p as int, b).update(m as int, a));
            assert forall|j2: int| 0 <= j2 < nv implies #[trigger] appears(after, j2) by {
                assert(appears(before, j2));
                let q0 = choose|q: int| 0 <= q < nv && (#[trigger] before[q]) as int == j2;
                if q0 == p as int {
                    assert(after[m as int] as int == j2);
                } else if q0 == m as int {
                    assert(after[p as int] as int == j2);
                } else {
                    assert(after[q0] as int == j2);
                }
            }
        }
        p = p + 1;
    }
    let mut r: Vec<usize> = Vec::new();
    let mut q: usize = 0;
    while q < mu
        invariant
            0 <= q <= mu,
            0 < mu <= nv,
            nv == values@.len(),
            idx@.len() == nv,
            r@.len() == q,
            forall|t: int| 0 <= t < q ==> (#[trigger] r@[t]) == idx@[t],
            forall|t: int| 0 <= t < nv ==> (#[trigger] idx@[t]) < nv,
            forall|q1: int, q2: int| 0 <= q1 < q2 < nv ==> idx@[q1] != idx@[q2],
            forall|j: int| 0 <= j < nv ==> #[trigger] appears(idx@, j),
            forall|a: int, b: int|
                0 <= a < mu && a <= b < nv ==> values@[#[trigger] idx@[a] as int].raw <= values@[
                    #[trigger] idx@[b] as int].raw,
        decreases mu - q,
    {
        r.push(idx[q]);
        q = q + 1;
    }
    proof {
        assert forall|qq: int, j: int|
            #![trigger r@[qq], values@[j]]
            0 <= qq < mu && 0 <= j < values@.len() && (forall|pp: int|
                0 <= pp < mu ==> (#[trigger] r@[pp]) != j as usize) implies values@[
            r@[qq] as int].raw <= values@[j].raw by {
            assert(appears(idx@, j));
            let t0 = choose|t: int| 0 <= t < nv && (#[trigger] idx@[t]) as int == j;
            if t0 < mu {
                assert(r@[t0] == idx@[t0]);
                assert(false);
            } else {
                assert(values@[idx@[qq] as int].raw <= values@[idx@[t0] as int].raw);
            }
        }
    }
    r
}

} // verus!
