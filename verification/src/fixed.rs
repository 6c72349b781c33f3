//! Fixed-point scalar arithmetic.
//!
//! A scalar is an `i64` counting multiples of `1 / SCALE` (so `SCALE` raw
//! units stand for the value one).  Sums saturate at `MAX_RAW`, and every
//! quotient is truncated toward zero, which makes each operation total; the
//! spec functions below state each result exactly.

use vstd::prelude::*;

verus! {

/// Number of raw units in the value one.
pub const SCALE: i64 = 1_000_000_000;

/// Largest magnitude a scalar may take; sums and products saturate here.
pub const MAX_RAW: i64 = i64::MAX;

/// Default tolerance of the epsilon comparisons: 100 raw units, the value 1e-7.
pub const EPSILON: i64 = 100;

/// Magnitude of an integer.
pub open spec fn spec_abs(x: int) -> int {
    if x < 0 {
        -x
    } else {
        x
    }
}

/// True when `x` lies in the representable scalar range.
pub open spec fn in_range(x: int) -> bool {
    -(MAX_RAW as int) <= x <= MAX_RAW as int
}

/// Clamp an integer into the representable scalar range.
pub open spec fn sat(x: int) -> int {
    if x > MAX_RAW as int {
        MAX_RAW as int
    } else if x < -(MAX_RAW as int) {
        -(MAX_RAW as int)
    } else {
        x
    }
}

/// Quotient of `p` by `q`, truncated toward zero.
pub open spec fn trunc_div(p: int, q: int) -> int
    recommends
        q != 0,
{
    if (p >= 0) == (q >= 0) {
        spec_abs(p) / spec_abs(q)
    } else {
        -(spec_abs(p) / spec_abs(q))
    }
}

/// Saturating scalar addition.
pub open spec fn add_s(a: int, b: int) -> int {
    sat(a + b)
}

/// Saturating scalar subtraction.
pub open spec fn sub_s(a: int, b: int) -> int {
    sat(a - b)
}

/// Scalar negation (the range is symmetric, so only `i64::MIN` would clamp).
pub open spec fn neg_s(a: int) -> int {
    sat(-a)
}

/// Fixed-point product: `a * b` rescaled by `SCALE`, truncated toward zero.
pub open spec fn mul_s(a: int, b: int) -> int {
    sat(trunc_div(a * b, SCALE as int))
}

/// Fixed-point quotient: `a / b` rescaled by `SCALE`, truncated toward zero.
pub open spec fn div_s(a: int, b: int) -> int
    recommends
        b != 0,
{
    sat(trunc_div(a * SCALE, b))
}

/// Quotient of a scalar by a plain integer `k` (no rescaling).
pub open spec fn divi_s(a: int, k: int) -> int
    recommends
        k != 0,
{
    sat(trunc_div(a, k))
}

/// Floor of the square root of a natural number.
pub open spec fn isqrt(n: nat) -> nat
    decreases n,
{
    if n == 0 {
        0
    } else {
        let r = isqrt((n - 1) as nat);
        if (r + 1) * (r + 1) <= n {
            r + 1
        } else {
            r
        }
    }
}

/// Fixed-point square root: the root of `x * SCALE` raw units, so that
/// `sqrt_s` of the value one is the value one.  Zero on non-positive input.
pub open spec fn sqrt_s(x: int) -> int {
    if x <= 0 {
        0
    } else {
        sat(isqrt((x * SCALE) as nat) as int)
    }
}

/// True when `a` and `b` differ by less than `eps` raw units.
pub open spec fn almost_eq_s(a: int, b: int, eps: int) -> bool {
    spec_abs(a - b) < eps
}

/// `isqrt` brackets its argument between consecutive squares.
pub proof fn lemma_isqrt_bounds(n: nat)
    ensures
        isqrt(n) * isqrt(n) <= n,
        n < (isqrt(n) + 1) * (isqrt(n) + 1),
    decreases n,
{
    if n == 0 {
        assert(isqrt(0) == 0);
        assert(0 < (0 + 1) * (0 + 1)) by (nonlinear_arith);
    } else {
        lemma_isqrt_bounds((n - 1) as nat);
        let r = isqrt((n - 1) as nat);
        if (r + 1) * (r + 1) <= n {
            assert(isqrt(n) == r + 1);
            assert(n <= (n - 1) + 1);
            assert(n == (r + 1) * (r + 1));
            assert((r + 2) * (r + 2) > (r + 1) * (r + 1)) by (nonlinear_arith);
            assert(n < (isqrt(n) + 1) * (isqrt(n) + 1));
        } else {
            assert(isqrt(n) == r);
            assert(r * r <= n - 1);
            assert(n < (r + 1) * (r + 1));
        }
    }
}

/// Any number bracketed between consecutive squares of `r` is `isqrt` of it.
pub proof fn lemma_isqrt_unique(n: nat, r: nat)
    requires
        r * r <= n,
        n < (r + 1) * (r + 1),
    ensures
        r == isqrt(n),
{
    lemma_isqrt_bounds(n);
    let q = isqrt(n);
    if r < q {
        assert((r + 1) * (r + 1) <= q * q) by (nonlinear_arith)
            requires
                r + 1 <= q,
        ;
    }
    if q < r {
        assert((q + 1) * (q + 1) <= r * r) by (nonlinear_arith)
            requires
                q + 1 <= r,
        ;
    }
}

/// A number at least `m * m` has a root at least `m`.
pub proof fn lemma_isqrt_ge(m: nat, n: nat)
    requires
        m * m <= n,
    ensures
        isqrt(n) >= m,
{
    lemma_isqrt_bounds(n);
    if isqrt(n) < m {
        assert((isqrt(n) + 1) * (isqrt(n) + 1) <= m * m) by (nonlinear_arith)
            requires
                isqrt(n) + 1 <= m,
        ;
    }
}

/// A number below `m * m` has a root below `m`.
pub proof fn lemma_isqrt_lt(m: nat, n: nat)
    requires
        n < m * m,
    ensures
        isqrt(n) < m,
{
    lemma_isqrt_bounds(n);
    if isqrt(n) >= m {
        assert(m * m <= isqrt(n) * isqrt(n)) by (nonlinear_arith)
            requires
                m <= isqrt(n),
        ;
    }
}

/// Magnitudes multiply: `|a * b| == |a| * |b|`.
pub proof fn lemma_abs_mul(a: int, b: int)
    ensures
        spec_abs(a * b) == spec_abs(a) * spec_abs(b),
        (a * b >= 0) == ((a >= 0) == (b >= 0)) || a * b == 0,
{
    if a >= 0 && b >= 0 {
        assert(a * b >= 0) by (nonlinear_arith)
            requires
                a >= 0,
                b >= 0,
        ;
    } else if a >= 0 && b < 0 {
        assert(a * b <= 0 && a * b == -(a * (-b))) by (nonlinear_arith)
            requires
                a >= 0,
                b < 0,
        ;
    } else if a < 0 && b >= 0 {
        assert(a * b <= 0 && a * b == -((-a) * b)) by (nonlinear_arith)
            requires
                a < 0,
                b >= 0,
        ;
    } else {
        assert(a * b >= 0 && a * b == (-a) * (-b)) by (nonlinear_arith)
            requires
                a < 0,
                b < 0,
        ;
    }
}

/// The remainder a truncating division leaves behind is smaller than the
/// divisor, and the quotient's magnitude never exceeds the exact ratio.
pub proof fn lemma_trunc_div_rem(p: int, q: int)
    requires
        q > 0,
    ensures
        spec_abs(p - q * trunc_div(p, q)) < q,
        spec_abs(trunc_div(p, q)) * q <= spec_abs(p),
        (p - q * trunc_div(p, q)) * p >= 0,
{
    let m = spec_abs(p);
    vstd::arithmetic::div_mod::lemma_fundamental_div_mod(m, q);
    vstd::arithmetic::div_mod::lemma_mod_bound(m, q);
    assert(m == q * (m / q) + m % q);
    assert((m / q) * q == q * (m / q)) by (nonlinear_arith);
    if p >= 0 {
        assert(trunc_div(p, q) == m / q);
        assert(p - q * trunc_div(p, q) == m % q);
        assert((p - q * trunc_div(p, q)) * p >= 0) by (nonlinear_arith)
            requires
                p - q * trunc_div(p, q) >= 0,
                p >= 0,
        ;
    } else {
        assert(trunc_div(p, q) == -(m / q));
        assert(q * trunc_div(p, q) == -(q * (m / q))) by (nonlinear_arith)
            requires
                trunc_div(p, q) == -(m / q),
        ;
        assert(p - q * trunc_div(p, q) == -(m % q));
        assert(spec_abs(trunc_div(p, q)) * q == q * (m / q)) by (nonlinear_arith)
            requires
                spec_abs(trunc_div(p, q)) == m / q,
        ;
        assert((p - q * trunc_div(p, q)) * p >= 0) by (nonlinear_arith)
            requires
                p - q * trunc_div(p, q) <= 0,
                p < 0,
        ;
    }
}

/// Magnitude of a scalar, as an unsigned wide integer.
fn abs_mag(a: i64) -> (m: u128)
    ensures
        m as int == spec_abs(a as int),
{
    if a >= 0 {
        a as u128
    } else {
        (-(a as i128)) as u128
    }
}

/// Clamp an unsigned magnitude into the scalar range and apply a sign.
pub(crate) fn clamp_signed(q: u128, neg: bool) -> (r: i64)
    ensures
        r as int == sat(
            if neg {
                -(q as int)
            } else {
                q as int
            },
        ),
{
    if q > MAX_RAW as u128 {
        if neg {
            -MAX_RAW
        } else {
            MAX_RAW
        }
    } else {
        if neg {
            -(q as i64)
        } else {
            q as i64
        }
    }
}

/// Saturating addition of two scalars.
pub fn fx_add(a: i64, b: i64) -> (r: i64)
    ensures
        r as int == add_s(a as int, b as int),
{
    let s: i128 = a as i128 + b as i128;
    if s > MAX_RAW as i128 {
        MAX_RAW
    } else if s < -(MAX_RAW as i128) {
        -MAX_RAW
    } else {
        s as i64
    }
}

/// Saturating subtraction of two scalars.
pub fn fx_sub(a: i64, b: i64) -> (r: i64)
    ensures
        r as int == sub_s(a as int, b as int),
{
    let s: i128 = a as i128 - b as i128;
    if s > MAX_RAW as i128 {
        MAX_RAW
    } else if s < -(MAX_RAW as i128) {
        -MAX_RAW
    } else {
        s as i64
    }
}

/// Scalar negation.
pub fn fx_neg(a: i64) -> (r: i64)
    ensures
        r as int == neg_s(a as int),
{
    if a < -MAX_RAW {
        MAX_RAW
    } else {
        -a
    }
}

/// Fixed-point multiplication.
pub fn fx_mul(a: i64, b: i64) -> (r: i64)
    ensures
        r as int == mul_s(a as int, b as int),
{
    let ma: u128 = abs_mag(a);
    let mb: u128 = abs_mag(b);
    proof {
        assert(ma * mb <= 0x8000_0000_0000_0000u128 * 0x8000_0000_0000_0000u128)
            by (nonlinear_arith)
            requires
                ma <= 0x8000_0000_0000_0000u128,
                mb <= 0x8000_0000_0000_0000u128,
        ;
    }
    let p: u128 = ma * mb;
    let q: u128 = p / (SCALE as u128);
    let neg: bool = (a < 0) != (b < 0);
    let r = clamp_signed(q, neg);
    proof {
        lemma_abs_mul(a as int, b as int);
        assert(p as int == spec_abs((a as int) * (b as int)));
    }
    r
}

/// Fixed-point division; the divisor must not be zero.
pub fn fx_div(a: i64, b: i64) -> (r: i64)
    requires
        b != 0,
    ensures
        r as int == div_s(a as int, b as int),
{
    let ma: u128 = abs_mag(a);
    let mb: u128 = abs_mag(b);
    proof {
        assert(ma * (SCALE as u128) <= 0x8000_0000_0000_0000u128 * (SCALE as u128))
            by (nonlinear_arith)
            requires
                ma <= 0x8000_0000_0000_0000u128,
        ;
    }
    let p: u128 = ma * (SCALE as u128);
    let q: u128 = p / mb;
    let neg: bool = (a < 0) != (b < 0);
    let r = clamp_signed(q, neg);
    proof {
        lemma_abs_mul(a as int, SCALE as int);
        assert(p as int == spec_abs((a as int) * (SCALE as int)));
    }
    r
}

/// Quotient of a scalar by a positive plain integer (no rescaling).
pub fn fx_divi(a: i64, k: i64) -> (r: i64)
    requires
        k > 0,
    ensures
        r as int == divi_s(a as int, k as int),
{
    let ma: u128 = abs_mag(a);
    let q: u128 = ma / (k as u128);
    clamp_signed(q, a < 0)
}

/// Floor of the square root of an arbitrary unsigned wide integer, by
/// bisection over the bracketing invariant.
pub fn isqrt_u128(n: u128) -> (r: u128)
    ensures
        r as nat == isqrt(n as nat),
{
    let mut lo: u128 = 0;
    let mut hi: u128 = 0x1_0000_0000_0000_0000u128;
    proof {
        assert((hi as nat) * (hi as nat) > n as nat) by (nonlinear_arith)
            requires
                hi == 0x1_0000_0000_0000_0000u128,
                n <= u128::MAX,
        ;
    }
    while lo + 1 < hi
        invariant
            lo < hi,
            hi <= 0x1_0000_0000_0000_0000u128,
            (lo as nat) * (lo as nat) <= n as nat,
            (n as nat) < (hi as nat) * (hi as nat),
        decreases hi - lo,
    {
        let mid: u128 = lo + (hi - lo) / 2;
        proof {
            assert(mid * mid <= u128::MAX) by (nonlinear_arith)
                requires
                    mid < 0x1_0000_0000_0000_0000u128,
            ;
        }
        if mid * mid <= n {
            lo = mid;
        } else {
            hi = mid;
        }
    }
    proof {
        lemma_isqrt_unique(n as nat, lo as nat);
    }
    lo
}

/// Fixed-point square root of a non-negative scalar.
pub fn fx_sqrt(x: i64) -> (r: i64)
    requires
        x >= 0,
    ensures
        r as int == sqrt_s(x as int),
{
    if x == 0 {
        0
    } else {
        proof {
            assert((x as u128) * (SCALE as u128) <= 0x8000_0000_0000_0000u128 * (SCALE as u128))
                by (nonlinear_arith)
                requires
                    x as u128 <= 0x8000_0000_0000_0000u128,
            ;
        }
        let m: u128 = (x as u128) * (SCALE as u128);
        let s: u128 = isqrt_u128(m);
        clamp_signed(s, false)
    }
}

/// Exact wide product of two scalars.
pub(crate) fn mul_wide(a: i64, b: i64) -> (t: i128)
    ensures
        t as int == (a as int) * (b as int),
        -0x4000_0000_0000_0000_0000_0000_0000_0000 <= t as int
            <= 0x4000_0000_0000_0000_0000_0000_0000_0000,
{
    proof {
        assert((a as int) * (b as int) <= 0x8000_0000_0000_0000 * 0x8000_0000_0000_0000
            && (a as int) * (b as int) >= -(0x8000_0000_0000_0000 * 0x8000_0000_0000_0000))
            by (nonlinear_arith)
            requires
                -0x8000_0000_0000_0000 <= a as int <= 0x8000_0000_0000_0000,
                -0x8000_0000_0000_0000 <= b as int <= 0x8000_0000_0000_0000,
        ;
    }
    a as i128 * b as i128
}

/// Quotient by `SCALE`, truncated toward zero and clamped, of a sum given as
/// a positive and a negative unsigned part.
pub(crate) fn sm_div_scale(pos: u128, neg: u128) -> (r: i64)
    ensures
        r as int == sat(trunc_div(pos as int - neg as int, SCALE as int)),
{
    if pos >= neg {
        let m: u128 = pos - neg;
        clamp_signed(m / (SCALE as u128), false)
    } else {
        let m: u128 = neg - pos;
        clamp_signed(m / (SCALE as u128), true)
    }
}

/// Taylor polynomial for the sine of `x` (radians), evaluated in fixed point.
pub open spec fn sin_s(x: int) -> int {
    let x2 = mul_s(x, x);
    let x3 = mul_s(x2, x);
    let x5 = mul_s(x3, x2);
    let x7 = mul_s(x5, x2);
    let x9 = mul_s(x7, x2);
    let x11 = mul_s(x9, x2);
    let x13 = mul_s(x11, x2);
    let t1 = sub_s(x, divi_s(x3, 6));
    let t2 = add_s(t1, divi_s(x5, 120));
    let t3 = sub_s(t2, divi_s(x7, 5040));
    let t4 = add_s(t3, divi_s(x9, 362880));
    let t5 = sub_s(t4, divi_s(x11, 39916800));
    add_s(t5, divi_s(x13, 6227020800))
}

/// Taylor polynomial for the cosine of `x` (radians), evaluated in fixed point.
pub open spec fn cos_s(x: int) -> int {
    let x2 = mul_s(x, x);
    let x4 = mul_s(x2, x2);
    let x6 = mul_s(x4, x2);
    let x8 = mul_s(x6, x2);
    let x10 = mul_s(x8, x2);
    let x12 = mul_s(x10, x2);
    let t1 = sub_s(SCALE as int, divi_s(x2, 2));
    let t2 = add_s(t1, divi_s(x4, 24));
    let t3 = sub_s(t2, divi_s(x6, 720));
    let t4 = add_s(t3, divi_s(x8, 40320));
    let t5 = sub_s(t4, divi_s(x10, 3628800));
    add_s(t5, divi_s(x12, 479001600))
}

/// Tangent as the ratio of the two polynomials; zero where the cosine
/// polynomial vanishes.
pub open spec fn tan_s(x: int) -> int {
    let c = cos_s(x);
    if c == 0 {
        0
    } else {
        div_s(sin_s(x), c)
    }
}

/// Sine of `x` radians.
pub fn fx_sin(x: i64) -> (r: i64)
    ensures
        r as int == sin_s(x as int),
{
    let x2: i64 = fx_mul(x, x);
    let x3: i64 = fx_mul(x2, x);
    let x5: i64 = fx_mul(x3, x2);
    let x7: i64 = fx_mul(x5, x2);
    let x9: i64 = fx_mul(x7, x2);
    let x11: i64 = fx_mul(x9, x2);
    let x13: i64 = fx_mul(x11, x2);
    let t1: i64 = fx_sub(x, fx_divi(x3, 6));
    let t2: i64 = fx_add(t1, fx_divi(x5, 120));
    let t3: i64 = fx_sub(t2, fx_divi(x7, 5040));
    let t4: i64 = fx_add(t3, fx_divi(x9, 362880));
    let t5: i64 = fx_sub(t4, fx_divi(x11, 39916800));
    fx_add(t5, fx_divi(x13, 6227020800))
}

/// Cosine of `x` radians.
pub fn fx_cos(x: i64) -> (r: i64)
    ensures
        r as int == cos_s(x as int),
{
    let x2: i64 = fx_mul(x, x);
    let x4: i64 = fx_mul(x2, x2);
    let x6: i64 = fx_mul(x4, x2);
    let x8: i64 = fx_mul(x6, x2);
    let x10: i64 = fx_mul(x8, x2);
    let x12: i64 = fx_mul(x10, x2);
    let t1: i64 = fx_sub(SCALE, fx_divi(x2, 2));
    let t2: i64 = fx_add(t1, fx_divi(x4, 24));
    let t3: i64 = fx_sub(t2, fx_divi(x6, 720));
    let t4: i64 = fx_add(t3, fx_divi(x8, 40320));
    let t5: i64 = fx_sub(t4, fx_divi(x10, 3628800));
    fx_add(t5, fx_divi(x12, 479001600))
}

/// Tangent of `x` radians.
pub fn fx_tan(x: i64) -> (r: i64)
    ensures
        r as int == tan_s(x as int),
{
    let c: i64 = fx_cos(x);
    if c == 0 {
        0
    } else {
        fx_div(fx_sin(x), c)
    }
}

/// True when two scalars differ by less than `epsilon` raw units.
pub fn almost_equal_with_epsilon(a: i64, b: i64, epsilon: i64) -> (r: bool)
    ensures
        r == almost_eq_s(a as int, b as int, epsilon as int),
{
    let d: i128 = a as i128 - b as i128;
    let m: i128 = if d < 0 {
        -d
    } else {
        d
    };
    m < epsilon as i128
}

} // verus!
