//! Fixed-point scalar arithmetic.
//!
//! Every quantity the engine works with is a [`Scalar`]: a signed value
//! held as `raw / SCALE`, where `SCALE = 2^36`.  Arithmetic saturates at
//! `MAX_RAW` / `MIN_RAW` instead of wrapping, and each operation's result
//! is pinned exactly by a matching spec function, so all downstream
//! formulas can be stated and proved over the integers.

use vstd::prelude::*;

verus! {

use vstd::arithmetic::power2::pow2;

/// Number of raw units per unit value: 2^36.
pub const SCALE: i64 = 68719476736;

/// Largest raw magnitude a `Scalar` can hold.
pub const MAX_RAW: i64 = 9223372036854775807;

/// Smallest raw value a `Scalar` can hold (symmetric with `MAX_RAW`).
pub const MIN_RAW: i64 = -9223372036854775807;

/// Saturates an unbounded integer into the representable raw range.
pub open spec fn clamp_raw(v: int) -> int {
    if v > MAX_RAW as int {
        MAX_RAW as int
    } else if v < MIN_RAW as int {
        MIN_RAW as int
    } else {
        v
    }
}

/// Magnitude of an integer.
pub open spec fn abs_i(a: int) -> int {
    if a >= 0 {
        a
    } else {
        -a
    }
}

/// Saturating fixed-point addition on raw values.
pub open spec fn fx_add(a: int, b: int) -> int {
    clamp_raw(a + b)
}

/// Saturating fixed-point subtraction on raw values.
pub open spec fn fx_sub(a: int, b: int) -> int {
    clamp_raw(a - b)
}

/// Saturating fixed-point multiplication on raw values: the product of
/// the magnitudes is rescaled by `SCALE` rounding toward zero, and the
/// sign is reapplied.
pub open spec fn fx_mul(a: int, b: int) -> int {
    let m = (abs_i(a) * abs_i(b)) / (SCALE as int);
    if (a < 0) != (b < 0) {
        clamp_raw(-m)
    } else {
        clamp_raw(m)
    }
}

/// Saturating fixed-point division on raw values, rounding toward zero.
pub open spec fn fx_div(a: int, b: int) -> int {
    let m = (abs_i(a) * (SCALE as int)) / abs_i(b);
    if (a < 0) != (b < 0) {
        clamp_raw(-m)
    } else {
        clamp_raw(m)
    }
}

/// Division of a fixed-point value by a plain integer count, rounding
/// toward zero.
pub open spec fn fx_div_int(a: int, n: int) -> int {
    let m = abs_i(a) / n;
    if a < 0 {
        clamp_raw(-m)
    } else {
        clamp_raw(m)
    }
}

/// Multiplication of a fixed-point value by a plain (possibly negative)
/// integer factor.
pub open spec fn fx_scale_int(k: int, a: int) -> int {
    clamp_raw(k * a)
}

/// Characterises `r` as the integer square root of `v`.
pub open spec fn is_sqrt_floor(v: int, r: int) -> bool {
    r >= 0 && r * r <= v && (r + 1) * (r + 1) > v
}

/// The non-negative integer square root: the unique `r >= 0` with
/// `r * r <= v < (r + 1) * (r + 1)`.
pub open spec fn sqrt_floor(v: int) -> int {
    choose|r: int| is_sqrt_floor(v, r)
}

/// `sqrt_floor` is pinned by its characterisation.
pub proof fn lemma_sqrt_floor_unique(v: int, r: int)
    requires
        r >= 0,
        r * r <= v,
        (r + 1) * (r + 1) > v,
    ensures
        sqrt_floor(v) == r,
{
    assert(is_sqrt_floor(v, r));
    let w = sqrt_floor(v);
    assert(is_sqrt_floor(v, w));
    if w < r {
        assert((w + 1) * (w + 1) <= r * r) by (nonlinear_arith)
            requires
                w >= 0,
                r >= 0,
                w + 1 <= r,
        ;
    }
    if w > r {
        assert((r + 1) * (r + 1) <= w * w) by (nonlinear_arith)
            requires
                w >= 0,
                r >= 0,
                r + 1 <= w,
        ;
    }
}

/// A product of non-negative values is non-negative.
pub proof fn lemma_fx_mul_nonneg(a: int, b: int)
    requires
        a >= 0,
        b >= 0,
    ensures
        fx_mul(a, b) >= 0,
{
    assert(a * b >= 0) by (nonlinear_arith)
        requires
            a >= 0,
            b >= 0,
    ;
    assert((a * b) / (SCALE as int) >= 0) by {
        vstd::arithmetic::div_mod::lemma_div_is_ordered(0, a * b, SCALE as int);
        assert(0int / (SCALE as int) == 0);
    }
}

/// A quotient of a non-negative value by a positive one is
/// non-negative.
pub proof fn lemma_fx_div_nonneg(a: int, b: int)
    requires
        a >= 0,
        b > 0,
    ensures
        fx_div(a, b) >= 0,
{
    assert(a * (SCALE as int) >= 0) by (nonlinear_arith)
        requires
            a >= 0,
    ;
    assert((a * (SCALE as int)) / b >= 0) by {
        vstd::arithmetic::div_mod::lemma_div_is_ordered(0, a * (SCALE as int), b);
        assert(0int / b == 0);
    }
}

/// A product of factors in `[0, 1]` and `[0, 1)` stays in `[0, 1)`.
pub proof fn lemma_fx_mul_unit(a: int, b: int)
    requires
        0 <= a <= SCALE as int,
        0 <= b < SCALE as int,
    ensures
        0 <= fx_mul(a, b) < SCALE as int,
{
    lemma_fx_mul_nonneg(a, b);
    assert(a * b <= (SCALE as int) * b) by (nonlinear_arith)
        requires
            a <= SCALE as int,
            b >= 0,
    ;
    vstd::arithmetic::div_mod::lemma_div_is_ordered(a * b, (SCALE as int) * b, SCALE as int);
    vstd::arithmetic::div_mod::lemma_div_multiples_vanish(b, SCALE as int);
}

/// Raw value of the natural logarithm of two, rounded toward zero.
pub const LN2_RAW: i64 = 47632711549;

/// Halves `v` (rounding down) until it falls below `2 * SCALE`,
/// returning the normalised mantissa and the number of halvings.
pub open spec fn norm_down(v: int) -> (int, int)
    decreases v,
{
    if v >= 2 * (SCALE as int) {
        let (m, e) = norm_down(v / 2);
        (m, e + 1)
    } else {
        (v, 0)
    }
}

/// Doubles a positive `v` until it reaches `SCALE`, returning the
/// normalised mantissa and the (negative) count of doublings.
pub open spec fn norm_up(v: int) -> (int, int)
    decreases 2 * (SCALE as int) - v,
{
    if 0 < v && v < SCALE as int {
        let (m, e) = norm_up(2 * v);
        (m, e - 1)
    } else {
        (v, 0)
    }
}

/// Normalises a positive raw value to a mantissa in `[SCALE, 2 * SCALE)`
/// and a binary exponent.
pub open spec fn normalize_fx(v: int) -> (int, int) {
    if v >= SCALE as int {
        norm_down(v)
    } else {
        norm_up(v)
    }
}

/// The truncated series `2 * (z + z^3/3 + ... + z^15/15)` for
/// `ln((1 + z) / (1 - z))`, evaluated in fixed point.
pub open spec fn ln_series(z: int) -> int {
    let z2 = fx_mul(z, z);
    let p3 = fx_mul(z, z2);
    let p5 = fx_mul(p3, z2);
    let p7 = fx_mul(p5, z2);
    let p9 = fx_mul(p7, z2);
    let p11 = fx_mul(p9, z2);
    let p13 = fx_mul(p11, z2);
    let p15 = fx_mul(p13, z2);
    let s = fx_add(
        z,
        fx_add(
            fx_div_int(p3, 3),
            fx_add(
                fx_div_int(p5, 5),
                fx_add(
                    fx_div_int(p7, 7),
                    fx_add(
                        fx_div_int(p9, 9),
                        fx_add(
                            fx_div_int(p11, 11),
                            fx_add(fx_div_int(p13, 13), fx_div_int(p15, 15)),
                        ),
                    ),
                ),
            ),
        ),
    );
    fx_scale_int(2, s)
}

/// Fixed-point natural logarithm of a positive raw value: the mantissa's
/// log comes from `ln_series` and the exponent contributes `e * ln 2`.
pub open spec fn ln_fx(v: int) -> int {
    let m = normalize_fx(v).0;
    let e = normalize_fx(v).1;
    let z = fx_div(fx_sub(m, SCALE as int), fx_add(m, SCALE as int));
    fx_add(fx_scale_int(e, LN2_RAW as int), ln_series(z))
}

/// Forces a raw value into the half-open unit interval `[0, 1)`.
pub open spec fn clamp_unit_raw(v: int) -> int {
    if v < 0 {
        0
    } else if v >= SCALE as int {
        SCALE as int - 1
    } else {
        v
    }
}

/// Clamps the argument of the exponential series to `[-1, 1]`.
pub open spec fn exp_clamp(u: int) -> int {
    if u > SCALE as int {
        SCALE as int
    } else if u < -(SCALE as int) {
        -(SCALE as int)
    } else {
        u
    }
}

/// Fixed-point exponential: the Taylor series through the eighth power,
/// on an argument clamped to `[-1, 1]`.
pub open spec fn exp_fx(u0: int) -> int {
    let u = exp_clamp(u0);
    let u2 = fx_mul(u, u);
    let u3 = fx_mul(u2, u);
    let u4 = fx_mul(u3, u);
    let u5 = fx_mul(u4, u);
    let u6 = fx_mul(u5, u);
    let u7 = fx_mul(u6, u);
    let u8 = fx_mul(u7, u);
    fx_add(
        SCALE as int,
        fx_add(
            u,
            fx_add(
                fx_div_int(u2, 2),
                fx_add(
                    fx_div_int(u3, 6),
                    fx_add(
                        fx_div_int(u4, 24),
                        fx_add(
                            fx_div_int(u5, 120),
                            fx_add(
                                fx_div_int(u6, 720),
                                fx_add(fx_div_int(u7, 5040), fx_div_int(u8, 40320)),
                            ),
                        ),
                    ),
                ),
            ),
        ),
    )
}

/// A saturating signed fixed-point number with 36 fractional bits.
#[derive(Clone, Copy, PartialEq, Eq, Structural, Debug)]
pub struct Scalar {
    pub raw: i64,
}

/// Saturates a wide intermediate into an `i64` raw value.
fn clamp_i128(v: i128) -> (r: i64)
    ensures
        r as int == clamp_raw(v as int),
{
    if v > MAX_RAW as i128 {
        MAX_RAW
    } else if v < MIN_RAW as i128 {
        MIN_RAW
    } else {
        v as i64
    }
}

impl Scalar {
    /// The value zero.
    pub fn zero() -> (r: Scalar)
        ensures
            r.raw == 0,
    {
        Scalar { raw: 0 }
    }

    /// The value one (`SCALE` raw units).
    pub fn one() -> (r: Scalar)
        ensures
            r.raw == SCALE,
    {
        Scalar { raw: SCALE }
    }

    /// Builds a scalar directly from its raw representation.
    pub fn from_raw(raw: i64) -> (r: Scalar)
        ensures
            r.raw == raw,
    {
        Scalar { raw }
    }

    /// Converts a plain integer to the scalar of the same value,
    /// saturating when it is out of range.
    pub fn from_int(v: i64) -> (r: Scalar)
        ensures
            r.raw as int == clamp_raw(v * SCALE),
    {
        assert((v as i128) * (SCALE as i128) <= 0x8000000000000000i128 * 0x1000000000i128
            && (v as i128) * (SCALE as i128) >= -(0x8000000000000000i128 * 0x1000000000i128))
            by (nonlinear_arith)
            requires
                -0x8000000000000000i128 <= v as i128 <= 0x8000000000000000i128,
        ;
        let w: i128 = v as i128 * SCALE as i128;
        Scalar { raw: clamp_i128(w) }
    }

    /// Saturating addition.
    pub fn add(self, o: Scalar) -> (r: Scalar)
        ensures
            r.raw as int == fx_add(self.raw as int, o.raw as int),
    {
        let s: i128 = self.raw as i128 + o.raw as i128;
        Scalar { raw: clamp_i128(s) }
    }

    /// Saturating subtraction.
    pub fn sub(self, o: Scalar) -> (r: Scalar)
        ensures
            r.raw as int == fx_sub(self.raw as int, o.raw as int),
    {
        let s: i128 = self.raw as i128 - o.raw as i128;
        Scalar { raw: clamp_i128(s) }
    }

    /// Saturating negation.
    pub fn neg(self) -> (r: Scalar)
        ensures
            r.raw as int == clamp_raw(-(self.raw as int)),
    {
        let s: i128 = -(self.raw as i128);
        Scalar { raw: clamp_i128(s) }
    }

    /// Saturating fixed-point multiplication.
    pub fn mul(self, o: Scalar) -> (r: Scalar)
        ensures
            r.raw as int == fx_mul(self.raw as int, o.raw as int),
    {
        let a: i128 = self.raw as i128;
        let b: i128 = o.raw as i128;
        let ua: u128 = (if a < 0 { -a } else { a }) as u128;
        let ub: u128 = (if b < 0 { -b } else { b }) as u128;
        assert(ua * ub <= 0x8000000000000000u128 * 0x8000000000000000u128) by (nonlinear_arith)
            requires
                ua <= 0x8000000000000000u128,
                ub <= 0x8000000000000000u128,
        ;
        let q: u128 = (ua * ub) / (SCALE as u128);
        assert(q <= 0x8000000000000000u128 * 0x8000000000000000u128);
        if (a < 0) != (b < 0) {
            Scalar { raw: clamp_i128(-(q as i128)) }
        } else {
            Scalar { raw: clamp_i128(q as i128) }
        }
    }

    /// Saturating fixed-point division.  Division by zero is excluded by
    /// precondition; callers test the divisor first.
    pub fn div(self, o: Scalar) -> (r: Scalar)
        requires
            o.raw != 0,
        ensures
            r.raw as int == fx_div(self.raw as int, o.raw as int),
    {
        let a: i128 = self.raw as i128;
        let b: i128 = o.raw as i128;
        let ua: u128 = (if a < 0 { -a } else { a }) as u128;
        let ub: u128 = (if b < 0 { -b } else { b }) as u128;
        assert(ua * (SCALE as u128) <= 0x8000000000000000u128 * 0x1000000000u128) by (nonlinear_arith)
            requires
                ua <= 0x8000000000000000u128,
        ;
        let q: u128 = (ua * (SCALE as u128)) / ub;
        assert(q <= ua * (SCALE as u128)) by {
            assert(ub >= 1);
            vstd::arithmetic::div_mod::lemma_div_is_ordered_by_denominator(
                (ua * (SCALE as u128)) as int, 1, ub as int);
        }
        if (a < 0) != (b < 0) {
            Scalar { raw: clamp_i128(-(q as i128)) }
        } else {
            Scalar { raw: clamp_i128(q as i128) }
        }
    }

    /// Division by a positive integer count.
    pub fn div_int(self, n: u64) -> (r: Scalar)
        requires
            n > 0,
        ensures
            r.raw as int == fx_div_int(self.raw as int, n as int),
    {
        let a: i128 = self.raw as i128;
        let ua: u128 = (if a < 0 { -a } else { a }) as u128;
        let q: u128 = ua / (n as u128);
        assert(q <= ua) by {
            vstd::arithmetic::div_mod::lemma_div_is_ordered_by_denominator(
                ua as int, 1, n as int);
        }
        if a < 0 {
            Scalar { raw: clamp_i128(-(q as i128)) }
        } else {
            Scalar { raw: clamp_i128(q as i128) }
        }
    }

    /// Saturating multiplication by a plain integer factor.
    pub fn scale_int(self, k: i64) -> (r: Scalar)
        ensures
            r.raw as int == fx_scale_int(k as int, self.raw as int),
    {
        assert((k as i128) * (self.raw as i128) <= 0x8000000000000000i128 * 0x8000000000000000i128
            && (k as i128) * (self.raw as i128) >= -(0x8000000000000000i128 * 0x8000000000000000i128))
            by (nonlinear_arith)
            requires
                -0x8000000000000000i128 <= k as i128 <= 0x8000000000000000i128,
                -0x8000000000000000i128 <= self.raw as i128 <= 0x8000000000000000i128,
        ;
        let w: i128 = k as i128 * self.raw as i128;
        assert(w == k as int * self.raw as int);
        Scalar { raw: clamp_i128(w) }
    }

    /// Fixed-point square root of a non-negative scalar: the result is
    /// the floor of the exact root in raw units.
    pub fn sqrt(self) -> (r: Scalar)
        requires
            self.raw >= 0,
        ensures
            r.raw as int == sqrt_floor(self.raw as int * SCALE as int),
            is_sqrt_floor(self.raw as int * SCALE as int, r.raw as int),
            r.raw >= 0,
            self.raw > 0 ==> r.raw > 0,
    {
        let v: u128 = (self.raw as u128) * (SCALE as u128);
        proof {
            if self.raw > 0 {
                assert(v >= SCALE as u128) by (nonlinear_arith)
                    requires
                        v == (self.raw as u128) * (SCALE as u128),
                        self.raw >= 1,
                ;
            }
        }
        assert(v < 0x4000000000000u128 * 0x4000000000000u128) by (nonlinear_arith)
            requires
                v <= 0x8000000000000000u128 * 0x1000000000u128,
        ;
        let mut lo: u128 = 0;
        let mut hi: u128 = 0x4000000000000u128;
        while lo + 1 < hi
            invariant
                lo < hi,
                hi <= 0x4000000000000u128,
                lo * lo <= v,
                v < hi * hi,
                self.raw > 0 ==> v >= SCALE as u128,
            decreases hi - lo,
        {
            let mid: u128 = lo + (hi - lo) / 2;
            assert(lo < mid && mid < hi);
            assert(mid * mid <= 0x4000000000000u128 * 0x4000000000000u128) by (nonlinear_arith)
                requires
                    mid <= 0x4000000000000u128,
            ;
            if mid * mid <= v {
                lo = mid;
            } else {
                hi = mid;
            }
        }
        assert(hi == lo + 1);
        proof {
            lemma_sqrt_floor_unique(v as int, lo as int);
            if self.raw > 0 && lo == 0 {
                assert(v >= SCALE as u128);
                assert(hi == 1);
                assert(v < hi * hi);
                assert(hi * hi == 1) by (nonlinear_arith)
                    requires
                        hi == 1u128,
                ;
                assert(false);
            }
        }
        Scalar { raw: lo as i64 }
    }

    /// Fixed-point natural logarithm of a positive scalar.
    pub fn ln(self) -> (r: Scalar)
        requires
            self.raw > 0,
        ensures
            r.raw as int == ln_fx(self.raw as int),
    {
        let orig: u64 = self.raw as u64;
        let mut m: u64 = orig;
        let mut e: i64 = 0;
        proof {
            vstd::arithmetic::power2::lemma2_to64();
            vstd::arithmetic::power2::lemma2_to64_rest();
            assert(pow2(0) == 1);
            assert(pow2(0) * (m as int) == m as int) by (nonlinear_arith)
                requires
                    pow2(0) == 1,
            ;
            assert((orig as int) * pow2(0) == orig as int) by (nonlinear_arith)
                requires
                    pow2(0) == 1,
            ;
        }
        if m >= SCALE as u64 {
            while m >= 2 * (SCALE as u64)
                invariant
                    m >= SCALE as u64,
                    0 <= e,
                    pow2(e as nat) * (m as int) <= 2 * (orig as int),
                    orig < 0x8000000000000000u64,
                    normalize_fx(orig as int).0 == norm_down(m as int).0,
                    normalize_fx(orig as int).1 == norm_down(m as int).1 + e,
                decreases m,
            {
                proof {
                    vstd::arithmetic::power2::lemma2_to64();
                    vstd::arithmetic::power2::lemma_pow2_pos(e as nat);
                    if e >= 28 {
                        if e > 28 {
                            vstd::arithmetic::power2::lemma_pow2_strictly_increases(28, e as nat);
                        }
                        assert(pow2(e as nat) * (m as int) > 2 * (orig as int)) by (nonlinear_arith)
                            requires
                                pow2(e as nat) >= 0x10000000,
                                m as int >= 2 * (SCALE as int),
                                SCALE == 68719476736i64,
                                orig < 0x8000000000000000u64,
                        ;
                        assert(false);
                    }
                    assert(pow2((e + 1) as nat) == 2 * pow2(e as nat)) by {
                        vstd::arithmetic::power2::lemma_pow2_adds(1, e as nat);
                        vstd::arithmetic::power2::lemma2_to64();
                    }
                    let md = m as int / 2;
                    assert(2 * md <= m as int) by {
                        vstd::arithmetic::div_mod::lemma_fundamental_div_mod(m as int, 2);
                    }
                    assert(pow2((e + 1) as nat) * md <= pow2(e as nat) * (m as int))
                        by (nonlinear_arith)
                        requires
                            pow2((e + 1) as nat) == 2 * pow2(e as nat),
                            pow2(e as nat) > 0,
                            2 * md <= m as int,
                            md >= 0,
                    ;
                }
                m = m / 2;
                e = e + 1;
            }
            assert(normalize_fx(orig as int).0 == m as int
                && normalize_fx(orig as int).1 == e as int);
        } else {
            while m < SCALE as u64
                invariant
                    1 <= m,
                    m < 2 * (SCALE as u64),
                    -36 <= e <= 0,
                    m as int == (orig as int) * pow2((-e) as nat),
                    normalize_fx(orig as int).0 == norm_up(m as int).0,
                    normalize_fx(orig as int).1 == norm_up(m as int).1 + e,
                decreases 2 * (SCALE as int) - m,
            {
                proof {
                    vstd::arithmetic::power2::lemma2_to64();
                    vstd::arithmetic::power2::lemma2_to64_rest();
                    vstd::arithmetic::power2::lemma_pow2_pos((-e) as nat);
                    assert(pow2((-e) as nat) <= m as int) by (nonlinear_arith)
                        requires
                            m as int == (orig as int) * pow2((-e) as nat),
                            orig >= 1,
                            pow2((-e) as nat) > 0,
                    ;
                    if e <= -36 {
                        if e < -36 {
                            vstd::arithmetic::power2::lemma_pow2_strictly_increases(36, (-e) as nat);
                        }
                        assert(false);
                    }
                    assert(pow2((-(e - 1)) as nat) == 2 * pow2((-e) as nat)) by {
                        vstd::arithmetic::power2::lemma_pow2_adds(1, (-e) as nat);
                        vstd::arithmetic::power2::lemma2_to64();
                    }
                    assert((orig as int) * (2 * pow2((-e) as nat))
                        == 2 * ((orig as int) * pow2((-e) as nat))) by (nonlinear_arith);
                }
                m = 2 * m;
                e = e - 1;
            }
            assert(normalize_fx(orig as int).0 == m as int
                && normalize_fx(orig as int).1 == e as int);
        }
        assert(SCALE as u64 <= m && m < 2 * (SCALE as u64));
        assert(norm_down(m as int) == (m as int, 0int));
        assert(norm_up(m as int) == (m as int, 0int));
        let num = Scalar { raw: (m - SCALE as u64) as i64 };
        let den = Scalar { raw: (m + SCALE as u64) as i64 };
        let z = num.div(den);
        let z2 = z.mul(z);
        let p3 = z.mul(z2);
        let p5 = p3.mul(z2);
        let p7 = p5.mul(z2);
        let p9 = p7.mul(z2);
        let p11 = p9.mul(z2);
        let p13 = p11.mul(z2);
        let p15 = p13.mul(z2);
        let s = z.add(
            p3.div_int(3).add(
                p5.div_int(5).add(
                    p7.div_int(7).add(
                        p9.div_int(9).add(
                            p11.div_int(11).add(p13.div_int(13).add(p15.div_int(15))),
                        ),
                    ),
                ),
            ),
        );
        let series = s.scale_int(2);
        let lead = Scalar { raw: LN2_RAW }.scale_int(e);
        let r = lead.add(series);
        assert(r.raw as int == ln_fx(self.raw as int));
        r
    }

    /// Fixed-point exponential; the argument is clamped to `[-1, 1]`
    /// before the series is evaluated.
    pub fn exp(self) -> (r: Scalar)
        ensures
            r.raw as int == exp_fx(self.raw as int),
    {
        let u = if self.raw > SCALE {
            Scalar { raw: SCALE }
        } else if self.raw < -SCALE {
            Scalar { raw: -SCALE }
        } else {
            self
        };
        let u2 = u.mul(u);
        let u3 = u2.mul(u);
        let u4 = u3.mul(u);
        let u5 = u4.mul(u);
        let u6 = u5.mul(u);
        let u7 = u6.mul(u);
        let u8 = u7.mul(u);
        let r = Scalar { raw: SCALE }.add(
            u.add(
                u2.div_int(2).add(
                    u3.div_int(6).add(
                        u4.div_int(24).add(
                            u5.div_int(120).add(
                                u6.div_int(720).add(u7.div_int(5040).add(u8.div_int(40320))),
                            ),
                        ),
                    ),
                ),
            ),
        );
        assert(r.raw as int == exp_fx(self.raw as int));
        r
    }
}

} // verus!
