//! Verified elementwise operations on parameter vectors.
//!
//! Each helper pins every coordinate of its result to the fixed-point
//! formula the optimisers are specified with.

use vstd::prelude::*;

use crate::cost::raws;
use crate::fixed::{fx_add, fx_div_int, fx_mul, fx_sub, Scalar};

verus! {

/// Elementwise saturating sum of two vectors.
pub fn vec_add(a: &Vec<Scalar>, b: &Vec<Scalar>) -> (r: Vec<Scalar>)
    requires
        a@.len() == b@.len(),
    ensures
        r@.len() == a@.len(),
        forall|k: int|
            0 <= k < a@.len() ==> (#[trigger] r@[k]).raw as int == fx_add(
                a@[k].raw as int,
                b@[k].raw as int,
            ),
{
    let mut r: Vec<Scalar> = Vec::new();
    let mut i: usize = 0;
    while i < a.len()
        invariant
            0 <= i <= a@.len(),
            a@.len() == b@.len(),
            r@.len() == i,
            forall|k: int|
                0 <= k < i ==> (#[trigger] r@[k]).raw as int == fx_add(
                    a@[k].raw as int,
                    b@[k].raw as int,
                ),
        decreases a@.len() - i,
    {
        r.push(a[i].add(b[i]));
        i = i + 1;
    }
    r
}

/// Elementwise saturating difference of two vectors.
pub fn vec_sub(a: &Vec<Scalar>, b: &Vec<Scalar>) -> (r: Vec<Scalar>)
    requires
        a@.len() == b@.len(),
    ensures
        r@.len() == a@.len(),
        forall|k: int|
            0 <= k < a@.len() ==> (#[trigger] r@[k]).raw as int == fx_sub(
                a@[k].raw as int,
                b@[k].raw as int,
            ),
{
    let mut r: Vec<Scalar> = Vec::new();
    let mut i: usize = 0;
    while i < a.len()
        invariant
            0 <= i <= a@.len(),
            a@.len() == b@.len(),
            r@.len() == i,
            forall|k: int|
                0 <= k < i ==> (#[trigger] r@[k]).raw as int == fx_sub(
                    a@[k].raw as int,
                    b@[k].raw as int,
                ),
        decreases a@.len() - i,
    {
        r.push(a[i].sub(b[i]));
        i = i + 1;
    }
    r
}

/// Multiplies every coordinate by a scalar factor.
pub fn vec_scale(c: Scalar, a: &Vec<Scalar>) -> (r: Vec<Scalar>)
    ensures
        r@.len() == a@.len(),
        forall|k: int|
            0 <= k < a@.len() ==> (#[trigger] r@[k]).raw as int == fx_mul(
                c.raw as int,
                a@[k].raw as int,
            ),
{
    let mut r: Vec<Scalar> = Vec::new();
    let mut i: usize = 0;
    while i < a.len()
        invariant
            0 <= i <= a@.len(),
            r@.len() == i,
            forall|k: int|
                0 <= k < i ==> (#[trigger] r@[k]).raw as int == fx_mul(
                    c.raw as int,
                    a@[k].raw as int,
                ),
        decreases a@.len() - i,
    {
        r.push(c.mul(a[i]));
        i = i + 1;
    }
    r
}

/// Elementwise saturating product of two vectors.
pub fn vec_mul_elem(a: &Vec<Scalar>, b: &Vec<Scalar>) -> (r: Vec<Scalar>)
    requires
        a@.len() == b@.len(),
    ensures
        r@.len() == a@.len(),
        forall|k: int|
            0 <= k < a@.len() ==> (#[trigger] r@[k]).raw as int == fx_mul(
                a@[k].raw as int,
                b@[k].raw as int,
            ),
{
    let mut r: Vec<Scalar> = Vec::new();
    let mut i: usize = 0;
    while i < a.len()
        invariant
            0 <= i <= a@.len(),
            a@.len() == b@.len(),
            r@.len() == i,
            forall|k: int|
                0 <= k < i ==> (#[trigger] r@[k]).raw as int == fx_mul(
                    a@[k].raw as int,
                    b@[k].raw as int,
                ),
        decreases a@.len() - i,
    {
        r.push(a[i].mul(b[i]));
        i = i + 1;
    }
    r
}

/// Divides every coordinate by a non-zero scalar.
pub fn vec_div_scalar(a: &Vec<Scalar>, d: Scalar) -> (r: Vec<Scalar>)
    requires
        d.raw != 0,
    ensures
        r@.len() == a@.len(),
        forall|k: int|
            0 <= k < a@.len() ==> (#[trigger] r@[k]).raw as int == crate::fixed::fx_div(
                a@[k].raw as int,
                d.raw as int,
            ),
{
    let mut r: Vec<Scalar> = Vec::new();
    let mut i: usize = 0;
    while i < a.len()
        invariant
            0 <= i <= a@.len(),
            d.raw != 0,
            r@.len() == i,
            forall|k: int|
                0 <= k < i ==> (#[trigger] r@[k]).raw as int == crate::fixed::fx_div(
                    a@[k].raw as int,
                    d.raw as int,
                ),
        decreases a@.len() - i,
    {
        r.push(a[i].div(d));
        i = i + 1;
    }
    r
}

/// The largest coordinate magnitude of a vector.
pub fn vec_max_abs(a: &Vec<Scalar>) -> (r: Scalar)
    ensures
        r.raw >= 0,
        forall|k: int|
            0 <= k < a@.len() ==> (#[trigger] spec_abs_diff(a@[k].raw as int, 0)) <= r.raw as int,
        r.raw == 0 || exists|k: int|
            0 <= k < a@.len() && #[trigger] spec_abs_diff(a@[k].raw as int, 0) == r.raw as int,
{
    let mut m = Scalar::zero();
    let mut i: usize = 0;
    while i < a.len()
        invariant
            0 <= i <= a@.len(),
            m.raw >= 0,
            forall|k: int|
                0 <= k < i ==> (#[trigger] spec_abs_diff(a@[k].raw as int, 0)) <= m.raw as int,
            m.raw == 0 || exists|k: int|
                0 <= k < i && #[trigger] spec_abs_diff(a@[k].raw as int, 0) == m.raw as int,
        decreases a@.len() - i,
    {
        let d = a[i].sub(Scalar::zero());
        let ad = if d.raw < 0 {
            d.neg()
        } else {
            d
        };
        assert(ad.raw as int == spec_abs_diff(a@[i as int].raw as int, 0));
        if ad.raw > m.raw {
            m = ad;
        }
        i = i + 1;
    }
    m
}

/// Multiplies every coordinate by a plain integer factor.
pub fn vec_scale_int(k: i64, a: &Vec<Scalar>) -> (r: Vec<Scalar>)
    ensures
        r@.len() == a@.len(),
        forall|t: int|
            0 <= t < a@.len() ==> (#[trigger] r@[t]).raw as int == crate::fixed::fx_scale_int(
                k as int,
                a@[t].raw as int,
            ),
{
    let mut r: Vec<Scalar> = Vec::new();
    let mut i: usize = 0;
    while i < a.len()
        invariant
            0 <= i <= a@.len(),
            r@.len() == i,
            forall|t: int|
                0 <= t < i ==> (#[trigger] r@[t]).raw as int == crate::fixed::fx_scale_int(
                    k as int,
                    a@[t].raw as int,
                ),
        decreases a@.len() - i,
    {
        r.push(a[i].scale_int(k));
        i = i + 1;
    }
    r
}

/// Divides every coordinate by a positive integer count.
pub fn vec_div_int(a: &Vec<Scalar>, m: u64) -> (r: Vec<Scalar>)
    requires
        m > 0,
    ensures
        r@.len() == a@.len(),
        forall|t: int|
            0 <= t < a@.len() ==> (#[trigger] r@[t]).raw as int == crate::fixed::fx_div_int(
                a@[t].raw as int,
                m as int,
            ),
{
    let mut r: Vec<Scalar> = Vec::new();
    let mut i: usize = 0;
    while i < a.len()
        invariant
            0 <= i <= a@.len(),
            m > 0,
            r@.len() == i,
            forall|t: int|
                0 <= t < i ==> (#[trigger] r@[t]).raw as int == crate::fixed::fx_div_int(
                    a@[t].raw as int,
                    m as int,
                ),
        decreases a@.len() - i,
    {
        r.push(a[i].div_int(m));
        i = i + 1;
    }
    r
}

/// The all-zero vector of a given dimension.
pub fn vec_zero(n: usize) -> (r: Vec<Scalar>)
    ensures
        r@.len() == n,
        forall|k: int| 0 <= k < n ==> (#[trigger] r@[k]).raw == 0,
{
    let mut r: Vec<Scalar> = Vec::new();
    let mut i: usize = 0;
    while i < n
        invariant
            0 <= i <= n,
            r@.len() == i,
            forall|k: int| 0 <= k < i ==> (#[trigger] r@[k]).raw == 0,
        decreases n - i,
    {
        r.push(Scalar::zero());
        i = i + 1;
    }
    r
}

/// The affine point `c + coef * (c - w)`: reflection, expansion,
/// contraction and shrinkage all arise from one formula.
pub fn reflect_through(c: &Vec<Scalar>, w: &Vec<Scalar>, coef: Scalar) -> (r: Vec<Scalar>)
    requires
        c@.len() == w@.len(),
    ensures
        r@.len() == c@.len(),
        forall|k: int|
            0 <= k < c@.len() ==> (#[trigger] r@[k]).raw as int == fx_add(
                c@[k].raw as int,
                fx_mul(coef.raw as int, fx_sub(c@[k].raw as int, w@[k].raw as int)),
            ),
{
    let mut r: Vec<Scalar> = Vec::new();
    let mut i: usize = 0;
    while i < c.len()
        invariant
            0 <= i <= c@.len(),
            c@.len() == w@.len(),
            r@.len() == i,
            forall|k: int|
                0 <= k < i ==> (#[trigger] r@[k]).raw as int == fx_add(
                    c@[k].raw as int,
                    fx_mul(coef.raw as int, fx_sub(c@[k].raw as int, w@[k].raw as int)),
                ),
        decreases c@.len() - i,
    {
        r.push(c[i].add(coef.mul(c[i].sub(w[i]))));
        i = i + 1;
    }
    r
}

/// Index of the first minimum of a non-empty value vector.
pub fn argmin(values: &Vec<Scalar>) -> (r: usize)
    requires
        values@.len() > 0,
    ensures
        0 <= r < values@.len(),
        forall|j: int| 0 <= j < values@.len() ==> values@[r as int].raw <= (#[trigger] values@[j]).raw,
        forall|j: int| 0 <= j < r ==> (#[trigger] values@[j]).raw > values@[r as int].raw,
{
    let mut best: usize = 0;
    let mut i: usize = 1;
    while i < values.len()
        invariant
            0 <= best < i <= values@.len(),
            forall|j: int| 0 <= j < i ==> values@[best as int].raw <= (#[trigger] values@[j]).raw,
            forall|j: int| 0 <= j < best ==> (#[trigger] values@[j]).raw > values@[best as int].raw,
        decreases values@.len() - i,
    {
        if values[i].raw < values[best].raw {
            best = i;
        }
        i = i + 1;
    }
    best
}

/// Index of the first maximum of a non-empty value vector.
pub fn argmax(values: &Vec<Scalar>) -> (r: usize)
    requires
        values@.len() > 0,
    ensures
        0 <= r < values@.len(),
        forall|j: int| 0 <= j < values@.len() ==> values@[r as int].raw >= (#[trigger] values@[j]).raw,
        forall|j: int| 0 <= j < r ==> (#[trigger] values@[j]).raw < values@[r as int].raw,
{
    let mut best: usize = 0;
    let mut i: usize = 1;
    while i < values.len()
        invariant
            0 <= best < i <= values@.len(),
            forall|j: int| 0 <= j < i ==> values@[best as int].raw >= (#[trigger] values@[j]).raw,
            forall|j: int| 0 <= j < best ==> (#[trigger] values@[j]).raw < values@[best as int].raw,
        decreases values@.len() - i,
    {
        if values[i].raw > values[best].raw {
            best = i;
        }
        i = i + 1;
    }
    best
}

/// Index of the first minimum among positions other than `skip`.
pub fn argmin_except(values: &Vec<Scalar>, skip: usize) -> (r: usize)
    requires
        values@.len() >= 2,
        skip < values@.len(),
    ensures
        0 <= r < values@.len(),
        r != skip,
        forall|j: int|
            0 <= j < values@.len() && j != skip ==> values@[r as int].raw <= (
            #[trigger] values@[j]).raw,
{
    let mut best: usize = if skip == 0 {
        1
    } else {
        0
    };
    let mut i: usize = 0;
    while i < values.len()
        invariant
            0 <= best < values@.len(),
            best != skip,
            skip < values@.len(),
            0 <= i <= values@.len(),
            forall|j: int|
                0 <= j < i && j != skip ==> values@[best as int].raw <= (#[trigger] values@[j]).raw,
        decreases values@.len() - i,
    {
        if i != skip && values[i].raw < values[best].raw {
            best = i;
        }
        i = i + 1;
    }
    best
}

/// Index of the first maximum among positions other than `skip`.
pub fn argmax_except(values: &Vec<Scalar>, skip: usize) -> (r: usize)
    requires
        values@.len() >= 2,
        skip < values@.len(),
    ensures
        0 <= r < values@.len(),
        r != skip,
        forall|j: int|
            0 <= j < values@.len() && j != skip ==> values@[r as int].raw >= (
            #[trigger] values@[j]).raw,
{
    let mut best: usize = if skip == 0 {
        1
    } else {
        0
    };
    let mut i: usize = 0;
    while i < values.len()
        invariant
            0 <= best < values@.len(),
            best != skip,
            skip < values@.len(),
            0 <= i <= values@.len(),
            forall|j: int|
                0 <= j < i && j != skip ==> values@[best as int].raw >= (#[trigger] values@[j]).raw,
        decreases values@.len() - i,
    {
        if i != skip && values[i].raw > values[best].raw {
            best = i;
        }
        i = i + 1;
    }
    best
}

/// An elementwise copy of a vector.
pub fn vec_copy(a: &Vec<Scalar>) -> (r: Vec<Scalar>)
    ensures
        r@ == a@,
{
    let mut r: Vec<Scalar> = Vec::new();
    let mut i: usize = 0;
    while i < a.len()
        invariant
            0 <= i <= a@.len(),
            r@ == a@.take(i as int),
        decreases a@.len() - i,
    {
        r.push(a[i]);
        proof {
            assert(a@.take(i + 1) =~= a@.take(i as int).push(a@[i as int]));
        }
        i = i + 1;
    }
    proof {
        assert(a@.take(a@.len() as int) =~= a@);
    }
    r
}

/// The largest coordinatewise distance `|a[k] - b[k]|`, measured with
/// saturating arithmetic.
pub fn max_abs_diff(a: &Vec<Scalar>, b: &Vec<Scalar>) -> (r: Scalar)
    requires
        a@.len() == b@.len(),
    ensures
        r.raw >= 0,
        forall|k: int|
            0 <= k < a@.len() ==> (#[trigger] spec_abs_diff(a@[k].raw as int, b@[k].raw as int))
                <= r.raw as int,
        r.raw == 0 || exists|k: int|
            0 <= k < a@.len() && #[trigger] spec_abs_diff(a@[k].raw as int, b@[k].raw as int)
                == r.raw as int,
{
    let mut m = Scalar::zero();
    let mut i: usize = 0;
    while i < a.len()
        invariant
            0 <= i <= a@.len(),
            a@.len() == b@.len(),
            m.raw >= 0,
            forall|k: int|
                0 <= k < i ==> (#[trigger] spec_abs_diff(a@[k].raw as int, b@[k].raw as int))
                    <= m.raw as int,
            m.raw == 0 || exists|k: int|
                0 <= k < i && #[trigger] spec_abs_diff(a@[k].raw as int, b@[k].raw as int)
                    == m.raw as int,
        decreases a@.len() - i,
    {
        let d = a[i].sub(b[i]);
        let ad = if d.raw < 0 {
            d.neg()
        } else {
            d
        };
        assert(ad.raw as int == spec_abs_diff(a@[i as int].raw as int, b@[i as int].raw as int));
        if ad.raw > m.raw {
            m = ad;
        }
        i = i + 1;
    }
    m
}

/// Saturating absolute difference of two raw values.
pub open spec fn spec_abs_diff(a: int, b: int) -> int {
    let d = fx_sub(a, b);
    if d < 0 {
        crate::fixed::clamp_raw(-d)
    } else {
        d
    }
}

/// Views a simplex (a vector of vertices) as raw coordinate sequences.
pub open spec fn simplex_raws(s: Seq<Vec<Scalar>>) -> Seq<Seq<int>> {
    s.map_values(|v: Vec<Scalar>| raws(v@))
}

/// Fixed-point sum of column `k` over the first `i` vertices, skipping
/// the vertex at `skip`.
pub open spec fn sum_col_except(s: Seq<Seq<int>>, skip: int, k: int, i: int) -> int
    decreases i,
{
    if i <= 0 {
        0
    } else if i - 1 == skip {
        sum_col_except(s, skip, k, i - 1)
    } else {
        fx_add(sum_col_except(s, skip, k, i - 1), s[i - 1][k])
    }
}

/// Centroid of all simplex vertices but the one at `skip`: coordinate
/// `k` is the fixed-point mean of the remaining vertices' coordinates.
pub fn centroid_except(simplex: &Vec<Vec<Scalar>>, skip: usize, dim: usize) -> (r: Vec<Scalar>)
    requires
        simplex@.len() >= 2,
        skip < simplex@.len(),
        forall|j: int| 0 <= j < simplex@.len() ==> (#[trigger] simplex@[j])@.len() == dim,
    ensures
        r@.len() == dim,
        forall|k: int|
            0 <= k < dim ==> (#[trigger] r@[k]).raw as int == fx_div_int(
                sum_col_except(simplex_raws(simplex@), skip as int, k, simplex@.len() as int),
                simplex@.len() - 1,
            ),
{
    let nv = simplex.len();
    let mut r: Vec<Scalar> = Vec::new();
    let mut k: usize = 0;
    while k < dim
        invariant
            0 <= k <= dim,
            r@.len() == k,
            simplex@.len() >= 2,
            skip < simplex@.len(),
            nv == simplex@.len(),
            forall|j: int| 0 <= j < simplex@.len() ==> (#[trigger] simplex@[j])@.len() == dim,
            forall|t: int|
                0 <= t < k ==> (#[trigger] r@[t]).raw as int == fx_div_int(
                    sum_col_except(simplex_raws(simplex@), skip as int, t, simplex@.len() as int),
                    simplex@.len() - 1,
                ),
        decreases dim - k,
    {
        let mut acc = Scalar::zero();
        let mut j: usize = 0;
        while j < nv
            invariant
                0 <= j <= nv,
                nv == simplex@.len(),
                skip < simplex@.len(),
                k < dim,
                forall|t: int| 0 <= t < simplex@.len() ==> (#[trigger] simplex@[t])@.len() == dim,
                acc.raw as int == sum_col_except(
                    simplex_raws(simplex@),
                    skip as int,
                    k as int,
                    j as int,
                ),
            decreases nv - j,
        {
            if j != skip {
                acc = acc.add(simplex[j][k]);
            }
            proof {
                assert(simplex_raws(simplex@)[j as int] == raws(simplex@[j as int]@));
            }
            j = j + 1;
        }
        r.push(acc.div_int((nv - 1) as u64));
        k = k + 1;
    }
    r
}

} // verus!
