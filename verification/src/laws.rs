//! Algebraic laws of the vector arithmetic.
//!
//! Fixed-point arithmetic saturates and truncates, so each law states the
//! range on which it holds: the exact laws ask that no intermediate sum
//! saturates, and the approximate ones bound the truncation error by the
//! default tolerance [`EPSILON`].

use vstd::prelude::*;

use crate::fixed::{
    add_s, almost_eq_s, div_s, in_range, isqrt, lemma_abs_mul, lemma_isqrt_bounds,
    lemma_trunc_div_rem, mul_s, sat, spec_abs, trunc_div, EPSILON, MAX_RAW, SCALE,
};
use crate::scene::Vector;

verus! {

/// Vector addition is commutative.
pub proof fn lemma_vector_add_commutes(a: Vector, b: Vector)
    ensures
        a.spec_add(b) == b.spec_add(a),
{
}

/// Vector addition is associative wherever the intermediate sums stay
/// representable.
pub proof fn lemma_vector_add_associates(a: Vector, b: Vector, c: Vector)
    requires
        in_range(a.x + b.x),
        in_range(a.y + b.y),
        in_range(a.z + b.z),
        in_range(b.x + c.x),
        in_range(b.y + c.y),
        in_range(b.z + c.z),
    ensures
        a.spec_add(b).spec_add(c) == a.spec_add(b.spec_add(c)),
{
}

/// Subtracting a vector from itself gives the zero vector exactly.
pub proof fn lemma_vector_sub_self_is_zero(a: Vector)
    ensures
        a.spec_sub(a) == (Vector { x: 0, y: 0, z: 0 }),
{
}

/// Truncated rescaling almost distributes over addition: splitting the
/// product costs at most two raw units per component.
proof fn lemma_scale_add_distributes(x: int, y: int, k: int)
    requires
        in_range(x + y),
        spec_abs((x + y) * k) <= MAX_RAW as int,
        spec_abs(x * k) <= MAX_RAW as int,
        spec_abs(y * k) <= MAX_RAW as int,
    ensures
        almost_eq_s(mul_s(add_s(x, y), k), add_s(mul_s(x, k), mul_s(y, k)), EPSILON as int),
{
    let s = SCALE as int;
    let p = (x + y) * k;
    let p1 = x * k;
    let p2 = y * k;
    assert(p == p1 + p2) by (nonlinear_arith)
        requires
            p == (x + y) * k,
            p1 == x * k,
            p2 == y * k,
    ;
    let t = trunc_div(p, s);
    let t1 = trunc_div(p1, s);
    let t2 = trunc_div(p2, s);
    lemma_trunc_div_rem(p, s);
    lemma_trunc_div_rem(p1, s);
    lemma_trunc_div_rem(p2, s);
    // None of the three quotients saturates.
    assert(spec_abs(t) <= spec_abs(t) * s) by (nonlinear_arith)
        requires
            s >= 1,
            spec_abs(t) >= 0,
    ;
    assert(spec_abs(t1) <= spec_abs(t1) * s) by (nonlinear_arith)
        requires
            s >= 1,
            spec_abs(t1) >= 0,
    ;
    assert(spec_abs(t2) <= spec_abs(t2) * s) by (nonlinear_arith)
        requires
            s >= 1,
            spec_abs(t2) >= 0,
    ;
    assert(mul_s(add_s(x, y), k) == t);
    assert(mul_s(x, k) == t1);
    assert(mul_s(y, k) == t2);
    // The two split quotients together stay far from the saturation bound.
    assert(spec_abs(t1 + t2) * s <= 2 * (MAX_RAW as int)) by (nonlinear_arith)
        requires
            spec_abs(t1) * s <= spec_abs(p1),
            spec_abs(t2) * s <= spec_abs(p2),
            spec_abs(p1) <= MAX_RAW as int,
            spec_abs(p2) <= MAX_RAW as int,
            s > 0,
    ;
    assert(spec_abs(t1 + t2) <= MAX_RAW as int) by (nonlinear_arith)
        requires
            spec_abs(t1 + t2) * s <= 2 * (MAX_RAW as int),
            s >= 2,
            spec_abs(t1 + t2) >= 0,
    ;
    assert(add_s(t1, t2) == t1 + t2);
    // The three remainders bound the defect: |t - t1 - t2| <= 2.
    let r = p - s * t;
    let r1 = p1 - s * t1;
    let r2 = p2 - s * t2;
    assert(s * (t - t1 - t2) == r1 + r2 - r) by (nonlinear_arith)
        requires
            p == p1 + p2,
            r == p - s * t,
            r1 == p1 - s * t1,
            r2 == p2 - s * t2,
    ;
    assert(spec_abs(s * (t - t1 - t2)) < 3 * s);
    lemma_abs_mul(s, t - t1 - t2);
    assert(spec_abs(t - t1 - t2) < 3) by (nonlinear_arith)
        requires
            s * spec_abs(t - t1 - t2) < 3 * s,
            s > 0,
            spec_abs(t - t1 - t2) >= 0,
    ;
}

/// A coordinate's magnitude never exceeds the vector's length root: if
/// `x * x + other` lies below `(l + 1)^2` then `|x| <= l`.
proof fn lemma_component_le_root(x: int, other: int, l: int)
    requires
        other >= 0,
        l >= 0,
        x * x + other <= l * l + 2 * l,
    ensures
        spec_abs(x) <= l,
{
    let a = spec_abs(x);
    if a > l {
        assert(false) by (nonlinear_arith)
            requires
                a >= l + 1,
                l >= 0,
                other >= 0,
                x * x + other <= l * l + 2 * l,
                a == x || a == -x,
        ;
    }
}

/// Dividing a coordinate by the vector's length leaves a quotient that
/// never saturates, stays within one, and divides back within one
/// remainder of the exact product.
proof fn lemma_norm_component(x: int, l: int)
    requires
        1 <= l,
        spec_abs(x) <= l,
    ensures
        div_s(x, l) == trunc_div(x * (SCALE as int), l),
        spec_abs(div_s(x, l)) <= SCALE as int,
        spec_abs(div_s(x, l)) * l <= spec_abs(x) * (SCALE as int),
        spec_abs(x * (SCALE as int) - l * trunc_div(x * (SCALE as int), l)) < l,
{
    let s = SCALE as int;
    lemma_trunc_div_rem(x * s, l);
    lemma_abs_mul(x, s);
    let t = trunc_div(x * s, l);
    assert(spec_abs(t) * l <= spec_abs(x) * s);
    assert(spec_abs(x) * s <= l * s) by (nonlinear_arith)
        requires
            spec_abs(x) <= l,
            s >= 0,
    ;
    assert(spec_abs(t) <= s) by (nonlinear_arith)
        requires
            spec_abs(t) * l <= l * s,
            l >= 1,
            s >= 0,
            spec_abs(t) >= 0,
    ;
}

/// The squared quotient is bounded above by the squared exact ratio.
proof fn lemma_sq_upper(n: int, xi: int, l: int, s: int)
    requires
        spec_abs(n) * l <= spec_abs(xi) * s,
        l >= 0,
        s >= 0,
    ensures
        n * n * (l * l) <= xi * xi * (s * s),
{
    let a = spec_abs(n);
    let b = spec_abs(xi);
    assert(n * n * (l * l) <= xi * xi * (s * s)) by (nonlinear_arith)
        requires
            a * l <= b * s,
            a >= 0,
            b >= 0,
            l >= 0,
            s >= 0,
            a == n || a == -n,
            b == xi || b == -xi,
    ;
}

/// The squared quotient is bounded below by the squared exact ratio, up to
/// one remainder per factor.
proof fn lemma_sq_lower(n: int, xi: int, l: int, s: int)
    requires
        spec_abs(xi * s - l * n) <= l,
        spec_abs(xi) <= l,
        l >= 1,
        s >= 1,
    ensures
        n * n * (l * l) >= xi * xi * (s * s) - 2 * l * (l * s),
{
    let r = xi * s - l * n;
    let ar = spec_abs(r);
    let axi = spec_abs(xi);
    assert(n * n * (l * l) >= xi * xi * (s * s) - 2 * l * (l * s)) by (nonlinear_arith)
        requires
            r == xi * s - l * n,
            ar <= l,
            ar >= 0,
            ar == r || ar == -r,
            axi <= l,
            axi >= 0,
            axi == xi || axi == -xi,
            l >= 1,
            s >= 1,
    ;
}

/// Normalizing keeps length: for a vector whose length is neither tiny nor
/// huge (at least 1/50 and at most a thousand), the normalized vector's
/// length is one up to the default tolerance.  Below the lower bound the
/// raw coordinates carry too few digits for the quotient to land that
/// close.
pub proof fn lemma_normalized_has_unit_length(v: Vector)
    requires
        v.spec_len() >= SCALE as int / 50,
        v.spec_len() <= 1000 * (SCALE as int),
    ensures
        almost_eq_s(v.spec_normalized().spec_len(), SCALE as int, EPSILON as int),
{
    let s = SCALE as int;
    let x = v.x as int;
    let y = v.y as int;
    let z = v.z as int;
    assert(x * x >= 0 && y * y >= 0 && z * z >= 0) by (nonlinear_arith);
    let xx = x * x + y * y + z * z;
    let xn = xx as nat;
    lemma_isqrt_bounds(xn);
    let l = isqrt(xn) as int;
    assert(v.spec_len() == sat(l));
    assert(v.spec_len() == l && s / 50 <= l <= 1000 * s);
    assert(l * l <= xx);
    assert(xx <= l * l + 2 * l) by (nonlinear_arith)
        requires
            xx < (l + 1) * (l + 1),
    ;
    lemma_component_le_root(x, y * y + z * z, l);
    lemma_component_le_root(y, x * x + z * z, l);
    lemma_component_le_root(z, x * x + y * y, l);
    lemma_norm_component(x, l);
    lemma_norm_component(y, l);
    lemma_norm_component(z, l);
    let nx = div_s(x, l);
    let ny = div_s(y, l);
    let nz = div_s(z, l);
    let nv = v.spec_normalized();
    assert(nv.x as int == nx && nv.y as int == ny && nv.z as int == nz);
    let yy = nx * nx + ny * ny + nz * nz;
    assert(nx * nx >= 0 && ny * ny >= 0 && nz * nz >= 0) by (nonlinear_arith);
    // Upper bound: the normalized square sum is at most (1 + 2/l) in value.
    lemma_sq_upper(nx, x, l, s);
    lemma_sq_upper(ny, y, l, s);
    lemma_sq_upper(nz, z, l, s);
    assert(yy * (l * l) <= xx * (s * s)) by (nonlinear_arith)
        requires
            yy == nx * nx + ny * ny + nz * nz,
            xx == x * x + y * y + z * z,
            nx * nx * (l * l) <= x * x * (s * s),
            ny * ny * (l * l) <= y * y * (s * s),
            nz * nz * (l * l) <= z * z * (s * s),
    ;
    assert(xx * (s * s) <= (l * l) * (s * s) + 2 * l * (s * s)) by (nonlinear_arith)
        requires
            xx <= l * l + 2 * l,
            s >= 1,
    ;
    assert(2 * l * (s * s) <= 100 * s * (l * l)) by (nonlinear_arith)
        requires
            s == 1000000000,
            l >= 20000000,
    ;
    assert(yy * (l * l) <= (s * s + 100 * s) * (l * l)) by (nonlinear_arith)
        requires
            yy * (l * l) <= (l * l) * (s * s) + 2 * l * (s * s),
            2 * l * (s * s) <= 100 * s * (l * l),
    ;
    assert(yy <= s * s + 100 * s) by (nonlinear_arith)
        requires
            yy * (l * l) <= (s * s + 100 * s) * (l * l),
            l >= 1,
    ;
    assert(yy < (s + 51) * (s + 51)) by (nonlinear_arith)
        requires
            yy <= s * s + 100 * s,
            s == 1000000000,
    ;
    crate::fixed::lemma_isqrt_lt((s + 51) as nat, yy as nat);
    // Lower bound: the normalized square sum is at least (1 - 6/l) in value.
    lemma_sq_lower(nx, x, l, s);
    lemma_sq_lower(ny, y, l, s);
    lemma_sq_lower(nz, z, l, s);
    assert(yy * (l * l) >= xx * (s * s) - 6 * l * (l * s)) by (nonlinear_arith)
        requires
            yy == nx * nx + ny * ny + nz * nz,
            xx == x * x + y * y + z * z,
            nx * nx * (l * l) >= x * x * (s * s) - 2 * l * (l * s),
            ny * ny * (l * l) >= y * y * (s * s) - 2 * l * (l * s),
            nz * nz * (l * l) >= z * z * (s * s) - 2 * l * (l * s),
    ;
    assert(yy * (l * l) >= (s * s - 6 * s) * (l * l)) by (nonlinear_arith)
        requires
            yy * (l * l) >= xx * (s * s) - 6 * l * (l * s),
            xx >= l * l,
            s >= 1,
            l >= 1,
    ;
    assert(yy >= s * s - 6 * s) by (nonlinear_arith)
        requires
            yy * (l * l) >= (s * s - 6 * s) * (l * l),
            l >= 1,
    ;
    assert((s - 4) * (s - 4) <= yy) by (nonlinear_arith)
        requires
            yy >= s * s - 6 * s,
            s == 1000000000,
    ;
    crate::fixed::lemma_isqrt_ge((s - 4) as nat, yy as nat);
    assert(nv.spec_len() == sat(isqrt(yy as nat) as int));
    assert(s - 4 <= isqrt(yy as nat) < s + 51);
}

/// Normalizing keeps direction: for any vector that is not degenerately
/// short (length at least one raw unit) nor longer than ten, the cross
/// product of the normalized vector with the original is the zero vector
/// up to the default tolerance.  For much longer vectors the cross
/// product's own truncation scale outgrows the fixed tolerance.
pub proof fn lemma_normalized_is_parallel(v: Vector)
    requires
        1 <= v.spec_len(),
        v.spec_len() <= 10 * (SCALE as int),
    ensures
        v.spec_normalized().spec_cross(v).spec_almost_eq(
            Vector { x: 0, y: 0, z: 0 },
            EPSILON as int,
        ),
{
    let s = SCALE as int;
    let x = v.x as int;
    let y = v.y as int;
    let z = v.z as int;
    assert(x * x >= 0 && y * y >= 0 && z * z >= 0) by (nonlinear_arith);
    let xx = x * x + y * y + z * z;
    let xn = xx as nat;
    lemma_isqrt_bounds(xn);
    let l = isqrt(xn) as int;
    assert(v.spec_len() == sat(l));
    assert(v.spec_len() == l && 1 <= l <= 10 * s);
    assert(xx <= l * l + 2 * l) by (nonlinear_arith)
        requires
            xx < (l + 1) * (l + 1),
    ;
    lemma_component_le_root(x, y * y + z * z, l);
    lemma_component_le_root(y, x * x + z * z, l);
    lemma_component_le_root(z, x * x + y * y, l);
    lemma_norm_component(x, l);
    lemma_norm_component(y, l);
    lemma_norm_component(z, l);
    let nx = div_s(x, l);
    let ny = div_s(y, l);
    let nz = div_s(z, l);
    let nv = v.spec_normalized();
    assert(nv.x as int == nx && nv.y as int == ny && nv.z as int == nz);
    lemma_cross_term_small(ny, nz, y, z, l);
    lemma_cross_term_small(nz, nx, z, x, l);
    lemma_cross_term_small(nx, ny, x, y, l);
}

/// One cross-product component of a normalized vector with its original is
/// at most a few raw units: the exact component is zero, and each factor
/// carries at most one remainder of the normalizing division.
proof fn lemma_cross_term_small(na: int, nb: int, xa: int, xb: int, l: int)
    requires
        1 <= l,
        l <= 10 * (SCALE as int),
        spec_abs(xa) <= l,
        spec_abs(xb) <= l,
        spec_abs(xa * (SCALE as int) - l * na) < l,
        spec_abs(xb * (SCALE as int) - l * nb) < l,
    ensures
        spec_abs(sat(trunc_div(na * xb - nb * xa, SCALE as int))) < EPSILON as int,
{
    let s = SCALE as int;
    let d = na * xb - nb * xa;
    let ra = xa * s - l * na;
    let rb = xb * s - l * nb;
    assert(l * d == rb * xa - ra * xb) by (nonlinear_arith)
        requires
            d == na * xb - nb * xa,
            ra == xa * s - l * na,
            rb == xb * s - l * nb,
    ;
    let ara = spec_abs(ra);
    let arb = spec_abs(rb);
    let axa = spec_abs(xa);
    let axb = spec_abs(xb);
    lemma_abs_mul(l, d);
    assert(l * spec_abs(d) <= 2 * (l * l)) by (nonlinear_arith)
        requires
            spec_abs(l * d) == l * spec_abs(d),
            l * d == rb * xa - ra * xb,
            ara <= l,
            arb <= l,
            axa <= l,
            axb <= l,
            ara >= 0,
            arb >= 0,
            axa >= 0,
            axb >= 0,
            ara == ra || ara == -ra,
            arb == rb || arb == -rb,
            axa == xa || axa == -xa,
            axb == xb || axb == -xb,
            l >= 1,
    ;
    assert(spec_abs(d) <= 2 * l) by (nonlinear_arith)
        requires
            l * spec_abs(d) <= 2 * (l * l),
            l >= 1,
            spec_abs(d) >= 0,
    ;
    lemma_trunc_div_rem(d, s);
    let t = trunc_div(d, s);
    assert(spec_abs(t) * s <= 2 * l);
    assert(spec_abs(t) <= 20) by (nonlinear_arith)
        requires
            spec_abs(t) * s <= 2 * l,
            l <= 10 * s,
            s == 1000000000,
            spec_abs(t) >= 0,
    ;
}

/// Scaling almost distributes over vector addition: the two ways of
/// computing `k * (a + b)` agree within the default tolerance, wherever no
/// intermediate value saturates.
pub proof fn lemma_vector_scale_distributes(a: Vector, b: Vector, k: int)
    requires
        in_range(a.x + b.x),
        in_range(a.y + b.y),
        in_range(a.z + b.z),
        spec_abs((a.x + b.x) * k) <= MAX_RAW as int,
        spec_abs((a.y + b.y) * k) <= MAX_RAW as int,
        spec_abs((a.z + b.z) * k) <= MAX_RAW as int,
        spec_abs(a.x * k) <= MAX_RAW as int,
        spec_abs(a.y * k) <= MAX_RAW as int,
        spec_abs(a.z * k) <= MAX_RAW as int,
        spec_abs(b.x * k) <= MAX_RAW as int,
        spec_abs(b.y * k) <= MAX_RAW as int,
        spec_abs(b.z * k) <= MAX_RAW as int,
    ensures
        a.spec_add(b).spec_scale(k).spec_almost_eq(
            a.spec_scale(k).spec_add(b.spec_scale(k)),
            EPSILON as int,
        ),
{
    lemma_scale_add_distributes(a.x as int, b.x as int, k);
    lemma_scale_add_distributes(a.y as int, b.y as int, k);
    lemma_scale_add_distributes(a.z as int, b.z as int, k);
}

} // verus!
