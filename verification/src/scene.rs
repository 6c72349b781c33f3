//! Geometry of the scene: vectors, unit directions, rays and spheres,
//! the ray-sphere intersection test, the closest-hit search and the
//! bounce-limited recursive tracer.
//!
//! Every scalar is a fixed-point number (see [`crate::fixed`]); each
//! operation's result is pinned exactly by a spec function, so the
//! contracts below describe the computed geometry bit for bit.

use vstd::prelude::*;

use crate::fixed::{
    add_s, almost_eq_s, div_s, mul_s, mul_wide, neg_s, sat, sm_div_scale, sqrt_s, sub_s,
    trunc_div, fx_add, fx_div, fx_mul, fx_neg, fx_sqrt, fx_sub, almost_equal_with_epsilon,
    clamp_signed, isqrt, isqrt_u128, EPSILON, MAX_RAW, SCALE,
};
use crate::traits::AlmostEqual;

verus! {

/// A point or displacement in space; fixed-point coordinates.
#[derive(Copy, Clone, Debug)]
pub struct Vector {
    pub x: i64,
    pub y: i64,
    pub z: i64,
}

impl Vector {
    /// Component-wise saturating sum.
    pub open spec fn spec_add(self, other: Vector) -> Vector {
        Vector {
            x: add_s(self.x as int, other.x as int) as i64,
            y: add_s(self.y as int, other.y as int) as i64,
            z: add_s(self.z as int, other.z as int) as i64,
        }
    }

    /// Component-wise saturating difference.
    pub open spec fn spec_sub(self, other: Vector) -> Vector {
        Vector {
            x: sub_s(self.x as int, other.x as int) as i64,
            y: sub_s(self.y as int, other.y as int) as i64,
            z: sub_s(self.z as int, other.z as int) as i64,
        }
    }

    /// Component-wise fixed-point product with the scalar `k`.
    pub open spec fn spec_scale(self, k: int) -> Vector {
        Vector {
            x: mul_s(self.x as int, k) as i64,
            y: mul_s(self.y as int, k) as i64,
            z: mul_s(self.z as int, k) as i64,
        }
    }

    /// Component-wise fixed-point quotient by the scalar `k`.
    pub open spec fn spec_divide(self, k: int) -> Vector
        recommends
            k != 0,
    {
        Vector {
            x: div_s(self.x as int, k) as i64,
            y: div_s(self.y as int, k) as i64,
            z: div_s(self.z as int, k) as i64,
        }
    }

    /// Component-wise negation.
    pub open spec fn spec_negate(self) -> Vector {
        Vector {
            x: neg_s(self.x as int) as i64,
            y: neg_s(self.y as int) as i64,
            z: neg_s(self.z as int) as i64,
        }
    }

    /// Dot product: the full-precision sum of the coordinate products,
    /// rescaled by a single truncated division.
    pub open spec fn spec_dot(self, other: Vector) -> int {
        sat(
            trunc_div(
                (self.x as int) * (other.x as int) + (self.y as int) * (other.y as int) + (
                self.z as int) * (other.z as int),
                SCALE as int,
            ),
        )
    }

    /// Cross product; each component is one full-precision difference of
    /// products, rescaled by a single truncated division.
    pub open spec fn spec_cross(self, other: Vector) -> Vector {
        Vector {
            x: sat(
                trunc_div(
                    (self.y as int) * (other.z as int) - (self.z as int) * (other.y as int),
                    SCALE as int,
                ),
            ) as i64,
            y: sat(
                trunc_div(
                    (self.z as int) * (other.x as int) - (self.x as int) * (other.z as int),
                    SCALE as int,
                ),
            ) as i64,
            z: sat(
                trunc_div(
                    (self.x as int) * (other.y as int) - (self.y as int) * (other.x as int),
                    SCALE as int,
                ),
            ) as i64,
        }
    }

    /// Euclidean length: the floor of the square root of the full-precision
    /// sum of squared raw coordinates.
    pub open spec fn spec_len(self) -> int {
        sat(
            isqrt(
                ((self.x as int) * (self.x as int) + (self.y as int) * (self.y as int) + (
                self.z as int) * (self.z as int)) as nat,
            ) as int,
        )
    }

    /// The vector divided by its own length.
    pub open spec fn spec_normalized(self) -> Vector
        recommends
            self.spec_len() > 0,
    {
        self.spec_divide(self.spec_len())
    }

    /// Component-wise comparison up to `eps` raw units.
    pub open spec fn spec_almost_eq(self, other: Vector, eps: int) -> bool {
        almost_eq_s(self.x as int, other.x as int, eps) && almost_eq_s(
            self.y as int,
            other.y as int,
            eps,
        ) && almost_eq_s(self.z as int, other.z as int, eps)
    }

    /// True when each coordinate of `self` is within `epsilon` of `other`'s.
    pub fn almost_equal_with_epsilon(&self, other: &Vector, epsilon: i64) -> (r: bool)
        ensures
            r == self.spec_almost_eq(*other, epsilon as int),
    {
        almost_equal_with_epsilon(self.x, other.x, epsilon)
            && almost_equal_with_epsilon(self.y, other.y, epsilon)
            && almost_equal_with_epsilon(self.z, other.z, epsilon)
    }

    /// The origin.
    pub fn zero() -> (r: Vector)
        ensures
            r == (Vector { x: 0, y: 0, z: 0 }),
    {
        Vector { x: 0, y: 0, z: 0 }
    }

    /// Unit direction along the positive x axis.
    pub fn unitx() -> (r: UnitVector)
        ensures
            r.0 == (Vector { x: SCALE as i64, y: 0, z: 0 }),
    {
        UnitVector(Vector { x: SCALE, y: 0, z: 0 })
    }

    /// Unit direction along the positive y axis.
    pub fn unity() -> (r: UnitVector)
        ensures
            r.0 == (Vector { x: 0, y: SCALE as i64, z: 0 }),
    {
        UnitVector(Vector { x: 0, y: SCALE, z: 0 })
    }

    /// Unit direction along the positive z axis.
    pub fn unitz() -> (r: UnitVector)
        ensures
            r.0 == (Vector { x: 0, y: 0, z: SCALE as i64 }),
    {
        UnitVector(Vector { x: 0, y: 0, z: SCALE })
    }

    /// Sum of two vectors.
    pub fn add(&self, other: &Vector) -> (r: Vector)
        ensures
            r == self.spec_add(*other),
    {
        Vector {
            x: fx_add(self.x, other.x),
            y: fx_add(self.y, other.y),
            z: fx_add(self.z, other.z),
        }
    }

    /// Difference of two vectors.
    pub fn subtract(&self, other: &Vector) -> (r: Vector)
        ensures
            r == self.spec_sub(*other),
    {
        Vector {
            x: fx_sub(self.x, other.x),
            y: fx_sub(self.y, other.y),
            z: fx_sub(self.z, other.z),
        }
    }

    /// The vector scaled by `k`.
    pub fn scale(&self, k: i64) -> (r: Vector)
        ensures
            r == self.spec_scale(k as int),
    {
        Vector { x: fx_mul(self.x, k), y: fx_mul(self.y, k), z: fx_mul(self.z, k) }
    }

    /// The vector divided by the non-zero scalar `k`.
    pub fn divide(&self, k: i64) -> (r: Vector)
        requires
            k != 0,
        ensures
            r == self.spec_divide(k as int),
    {
        Vector { x: fx_div(self.x, k), y: fx_div(self.y, k), z: fx_div(self.z, k) }
    }

    /// The opposite vector.
    pub fn negate(&self) -> (r: Vector)
        ensures
            r == self.spec_negate(),
    {
        Vector { x: fx_neg(self.x), y: fx_neg(self.y), z: fx_neg(self.z) }
    }

    /// Dot product of two vectors.
    pub fn dot(&self, other: &Vector) -> (r: i64)
        ensures
            r as int == self.spec_dot(*other),
    {
        let t1: i128 = mul_wide(self.x, other.x);
        let t2: i128 = mul_wide(self.y, other.y);
        let t3: i128 = mul_wide(self.z, other.z);
        let mut pos: u128 = 0;
        let mut neg: u128 = 0;
        if t1 >= 0 {
            pos = pos + t1 as u128;
        } else {
            neg = neg + (-t1) as u128;
        }
        if t2 >= 0 {
            pos = pos + t2 as u128;
        } else {
            neg = neg + (-t2) as u128;
        }
        if t3 >= 0 {
            pos = pos + t3 as u128;
        } else {
            neg = neg + (-t3) as u128;
        }
        assert(pos as int - neg as int == t1 + t2 + t3);
        sm_div_scale(pos, neg)
    }

    /// Cross product of two vectors.
    pub fn cross(&self, other: &Vector) -> (r: Vector)
        ensures
            r == self.spec_cross(*other),
    {
        Vector {
            x: cross_component(self.y, other.z, self.z, other.y),
            y: cross_component(self.z, other.x, self.x, other.z),
            z: cross_component(self.x, other.y, self.y, other.x),
        }
    }

    /// Euclidean length of the vector.
    pub fn len(&self) -> (r: i64)
        ensures
            r as int == self.spec_len(),
    {
        let t1: i128 = mul_wide(self.x, self.x);
        let t2: i128 = mul_wide(self.y, self.y);
        let t3: i128 = mul_wide(self.z, self.z);
        proof {
            crate::fixed::lemma_abs_mul(self.x as int, self.x as int);
            crate::fixed::lemma_abs_mul(self.y as int, self.y as int);
            crate::fixed::lemma_abs_mul(self.z as int, self.z as int);
        }
        let m: u128 = t1 as u128 + t2 as u128 + t3 as u128;
        let s: u128 = isqrt_u128(m);
        clamp_signed(s, false)
    }

    /// The unit-length vector pointing the same way; the length must be
    /// positive (a zero vector has no direction).
    pub fn normalized(&self) -> (r: UnitVector)
        requires
            self.spec_len() > 0,
        ensures
            r.0 == self.spec_normalized(),
    {
        let l: i64 = self.len();
        UnitVector(self.divide(l))
    }

    /// True when the length is one, up to the default tolerance.
    pub fn is_normalized(&self) -> (r: bool)
        ensures
            r == almost_eq_s(self.spec_len(), SCALE as int, EPSILON as int),
    {
        let l: i64 = self.len();
        almost_equal_with_epsilon(l, SCALE, EPSILON)
    }
}

/// One component of the cross product: `(a * b - c * d) / SCALE`.
fn cross_component(a: i64, b: i64, c: i64, d: i64) -> (r: i64)
    ensures
        r as int == sat(trunc_div((a as int) * (b as int) - (c as int) * (d as int), SCALE as int)),
{
    let t1: i128 = mul_wide(a, b);
    let t2: i128 = mul_wide(c, d);
    let mut pos: u128 = 0;
    let mut neg: u128 = 0;
    if t1 >= 0 {
        pos = pos + t1 as u128;
    } else {
        neg = neg + (-t1) as u128;
    }
    if t2 >= 0 {
        neg = neg + t2 as u128;
    } else {
        pos = pos + (-t2) as u128;
    }
    assert(pos as int - neg as int == t1 - t2);
    sm_div_scale(pos, neg)
}

impl AlmostEqual for Vector {
    open spec fn almost_eq_spec(&self, other: &Self) -> bool {
        self.spec_almost_eq(*other, EPSILON as int)
    }

    fn almost_equal(&self, other: &Self) -> (r: bool) {
        self.almost_equal_with_epsilon(other, EPSILON)
    }
}

/// A direction: a vector kept at unit length by construction discipline —
/// the library only builds one through [`Vector::normalized`] or the axis
/// constants, and exposes no arithmetic that would change its length.
#[derive(Copy, Clone, Debug)]
pub struct UnitVector(pub Vector);

impl UnitVector {
    /// Mirror reflection about the plane orthogonal to `normal`:
    /// `R = I - 2 * (I . N) * N`.
    pub open spec fn spec_reflected(self, normal: UnitVector) -> UnitVector {
        let d = self.0.spec_dot(normal.0);
        UnitVector(self.0.spec_sub(normal.0.spec_scale(2 * (SCALE as int)).spec_scale(d)))
    }

    /// The opposite direction.
    pub open spec fn spec_negate(self) -> UnitVector {
        UnitVector(self.0.spec_negate())
    }

    /// Reflect this direction off a surface with outward normal `normal`.
    pub fn reflected(&self, normal: &UnitVector) -> (r: UnitVector)
        ensures
            r == self.spec_reflected(*normal),
    {
        let d: i64 = self.0.dot(&normal.0);
        let two_n: Vector = normal.0.scale(2 * SCALE);
        let t: Vector = two_n.scale(d);
        UnitVector(self.0.subtract(&t))
    }

    /// The opposite direction.
    pub fn negate(&self) -> (r: UnitVector)
        ensures
            r == self.spec_negate(),
    {
        UnitVector(self.0.negate())
    }
}

impl AlmostEqual for UnitVector {
    open spec fn almost_eq_spec(&self, other: &Self) -> bool {
        self.0.spec_almost_eq(other.0, EPSILON as int)
    }

    fn almost_equal(&self, other: &Self) -> (r: bool) {
        self.0.almost_equal_with_epsilon(&other.0, EPSILON)
    }
}

/// A half-line: an origin and a unit direction.
#[derive(Copy, Clone, Debug)]
pub struct Ray {
    pub pos: Vector,
    pub dir: UnitVector,
}

impl Ray {
    /// The ray moved `distance` along its own direction.
    pub open spec fn spec_forwarded(self, distance: int) -> Ray {
        Ray { pos: self.pos.spec_add(self.dir.0.spec_scale(distance)), dir: self.dir }
    }

    /// The bounce ray: it starts at `position` and points the way `self`
    /// reflects off a surface with outward normal `normal`.
    pub open spec fn spec_reflected(self, position: Vector, normal: UnitVector) -> Ray {
        Ray { pos: position, dir: self.dir.spec_reflected(normal) }
    }

    /// Advance the origin by `distance` along the direction.
    fn forwarded(&self, distance: i64) -> (r: Ray)
        ensures
            r == self.spec_forwarded(distance as int),
    {
        Ray { pos: self.pos.add(&self.dir.0.scale(distance)), dir: self.dir }
    }

    /// The bounce ray off a surface point with the given outward normal.
    pub fn reflected(&self, position: Vector, normal: &UnitVector) -> (r: Ray)
        ensures
            r == self.spec_reflected(position, *normal),
    {
        Ray { pos: position, dir: self.dir.reflected(normal) }
    }
}

impl AlmostEqual for Ray {
    open spec fn almost_eq_spec(&self, other: &Self) -> bool {
        self.pos.spec_almost_eq(other.pos, EPSILON as int) && self.dir.0.spec_almost_eq(
            other.dir.0,
            EPSILON as int,
        )
    }

    fn almost_equal(&self, other: &Self) -> (r: bool) {
        self.pos.almost_equal_with_epsilon(&other.pos, EPSILON) && self.dir.0
            .almost_equal_with_epsilon(&other.dir.0, EPSILON)
    }
}

/// A sphere: center, radius and surface color.
#[derive(Copy, Clone, Debug)]
pub struct Sphere {
    pub center: Vector,
    pub radius: i64,
    pub color: crate::material::Color,
}

/// Where a ray touches one sphere: the surface point and the outward normal
/// there.
#[derive(Copy, Clone, Debug)]
pub struct Hit {
    pub position: Vector,
    pub normal: UnitVector,
}

impl Sphere {
    /// The analytic ray-sphere test.  `None` when the ray origin is inside
    /// or on the sphere (unsupported by policy), when the sphere lies behind
    /// the origin, or when the perpendicular distance from the center to the
    /// ray line exceeds the radius; otherwise the nearer crossing point.
    ///
    /// Truncation can leave the two Pythagorean differences a few units
    /// negative where the exact values would be zero; they are floored at
    /// zero before the root.  A hit point whose offset from the center
    /// truncates to length zero (possible only for a degenerate radius)
    /// yields `None`, since it has no normal.
    pub open spec fn spec_intersect(self, ray: Ray) -> Option<Hit> {
        let ptc = self.center.spec_sub(ray.pos);
        let l = ptc.spec_len();
        if l <= self.radius {
            Option::None
        } else {
            let tc = ptc.spec_dot(ray.dir.0);
            if tc < 0 {
                Option::None
            } else {
                let h2 = sub_s(mul_s(l, l), mul_s(tc, tc));
                let d = sqrt_s(h2);
                if d > self.radius {
                    Option::None
                } else {
                    let t2 = sub_s(
                        mul_s(self.radius as int, self.radius as int),
                        mul_s(d, d),
                    );
                    let tdelta = sqrt_s(t2);
                    let t = sub_s(tc, tdelta);
                    let hp = ray.spec_forwarded(t).pos;
                    let dn = hp.spec_sub(self.center);
                    if dn.spec_len() == 0 {
                        Option::None
                    } else {
                        Option::Some(Hit { position: hp, normal: UnitVector(dn.spec_normalized()) })
                    }
                }
            }
        }
    }

    /// Test this sphere against a ray.
    pub fn intersect_ray(&self, ray: &Ray) -> (r: Option<Hit>)
        ensures
            r == self.spec_intersect(*ray),
    {
        let pos_to_center: Vector = self.center.subtract(&ray.pos);
        let l: i64 = pos_to_center.len();
        // No support for rays starting inside or on the sphere.
        if l <= self.radius {
            return Option::None;
        }
        // How far along the ray the point closest to the center lies.
        let tcenter: i64 = pos_to_center.dot(&ray.dir.0);
        // The sphere is behind the ray.
        if tcenter < 0 {
            return Option::None;
        }
        // Perpendicular distance from the center to the ray line, by
        // Pythagoras; truncation may leave the difference slightly
        // negative, which stands for zero.
        let h2: i64 = fx_sub(fx_mul(l, l), fx_mul(tcenter, tcenter));
        let d: i64 = if h2 < 0 {
            0
        } else {
            fx_sqrt(h2)
        };
        // The ray line passes farther from the center than the radius.
        if d > self.radius {
            return Option::None;
        }
        // Half the chord the ray cuts through the sphere, by Pythagoras
        // again; the nearer crossing lies that much before the closest
        // point.
        let t2: i64 = fx_sub(fx_mul(self.radius, self.radius), fx_mul(d, d));
        let tdelta: i64 = if t2 < 0 {
            0
        } else {
            fx_sqrt(t2)
        };
        let t: i64 = fx_sub(tcenter, tdelta);
        let hit: Vector = ray.forwarded(t).pos;
        let dn: Vector = hit.subtract(&self.center);
        let dl: i64 = dn.len();
        if dl == 0 {
            return Option::None;
        }
        Option::Some(Hit { position: hit, normal: dn.normalized() })
    }
}

impl AlmostEqual for Sphere {
    open spec fn almost_eq_spec(&self, other: &Self) -> bool {
        self.center.spec_almost_eq(other.center, EPSILON as int) && almost_eq_s(
            self.radius as int,
            other.radius as int,
            EPSILON as int,
        )
    }

    fn almost_equal(&self, other: &Self) -> (r: bool) {
        self.center.almost_equal_with_epsilon(&other.center, EPSILON)
            && almost_equal_with_epsilon(self.radius, other.radius, EPSILON)
    }
}

impl AlmostEqual for Hit {
    open spec fn almost_eq_spec(&self, other: &Self) -> bool {
        self.position.spec_almost_eq(other.position, EPSILON as int) && self.normal.0
            .spec_almost_eq(other.normal.0, EPSILON as int)
    }

    fn almost_equal(&self, other: &Self) -> (r: bool) {
        self.position.almost_equal_with_epsilon(&other.position, EPSILON) && self.normal.0
            .almost_equal_with_epsilon(&other.normal.0, EPSILON)
    }
}

/// The closest hit a ray finds in a scene: the surface point, the outward
/// normal there, and the index of the sphere hit in the scene's list (valid
/// as long as that list is).
#[derive(Copy, Clone, Debug)]
pub struct Intersection {
    pub position: Vector,
    pub normal: UnitVector,
    pub sphere: usize,
}

impl AlmostEqual for Intersection {
    open spec fn almost_eq_spec(&self, other: &Self) -> bool {
        self.position.spec_almost_eq(other.position, EPSILON as int) && self.normal.0
            .spec_almost_eq(other.normal.0, EPSILON as int) && self.sphere == other.sphere
    }

    fn almost_equal(&self, other: &Self) -> (r: bool) {
        self.position.almost_equal_with_epsilon(&other.position, EPSILON) && self.normal.0
            .almost_equal_with_epsilon(&other.normal.0, EPSILON) && self.sphere == other.sphere
    }
}

/// Distance from the ray origin to `position`.
pub open spec fn spec_hit_distance(ray: Ray, position: Vector) -> int {
    position.spec_sub(ray.pos).spec_len()
}

/// Distance of the best hit found so far; the sentinel `MAX_RAW` when there
/// is none, so that any nearer real hit replaces it under strict `<`.
pub open spec fn spec_best_distance(ray: Ray, best: Option<Intersection>) -> int {
    match best {
        Option::None => MAX_RAW as int,
        Option::Some(i) => spec_hit_distance(ray, i.position),
    }
}

/// The closest hit among the first `n` spheres, scanning in order; a later
/// hit replaces an earlier one only when strictly nearer, so the first
/// sphere scanned wins ties.
pub open spec fn spec_closest_upto(spheres: Seq<Sphere>, ray: Ray, n: int) -> Option<Intersection>
    recommends
        0 <= n <= spheres.len(),
    decreases n,
{
    if n <= 0 {
        Option::None
    } else {
        let prev = spec_closest_upto(spheres, ray, n - 1);
        match spheres[n - 1].spec_intersect(ray) {
            Option::None => prev,
            Option::Some(h) => {
                if spec_hit_distance(ray, h.position) < spec_best_distance(ray, prev) {
                    Option::Some(
                        Intersection {
                            position: h.position,
                            normal: h.normal,
                            sphere: (n - 1) as usize,
                        },
                    )
                } else {
                    prev
                }
            },
        }
    }
}

/// The closest hit among all spheres of the scene.
pub open spec fn spec_closest(spheres: Seq<Sphere>, ray: Ray) -> Option<Intersection> {
    spec_closest_upto(spheres, ray, spheres.len() as int)
}

/// Whatever `spec_closest_upto` returns indexes a sphere it has scanned.
proof fn lemma_closest_upto_index(spheres: Seq<Sphere>, ray: Ray, n: int)
    requires
        0 <= n <= spheres.len(),
    ensures
        spec_closest_upto(spheres, ray, n) matches Option::Some(i) ==> i.sphere < n,
    decreases n,
{
    if n > 0 {
        lemma_closest_upto_index(spheres, ray, n - 1);
    }
}

/// Scan every sphere and keep the hit nearest to the ray origin; `None`
/// when the ray hits nothing.  The result's `sphere` field indexes the
/// sphere hit.
pub fn closest_intersection(spheres: &[Sphere], ray: &Ray) -> (r: Option<Intersection>)
    ensures
        r == spec_closest(spheres@, *ray),
        r matches Option::Some(i) ==> i.sphere < spheres@.len(),
{
    let mut closest_hit: Option<Intersection> = Option::None;
    let mut closest_hit_distance: i64 = MAX_RAW;
    let n: usize = spheres.len();
    let mut k: usize = 0;
    while k < n
        invariant
            n == spheres@.len(),
            k <= n,
            closest_hit == spec_closest_upto(spheres@, *ray, k as int),
            closest_hit_distance as int == spec_best_distance(*ray, closest_hit),
            closest_hit matches Option::Some(i) ==> i.sphere < k,
        decreases n - k,
    {
        match spheres[k].intersect_ray(ray) {
            Option::None => {},
            Option::Some(intersection) => {
                let distance: i64 = intersection.position.subtract(&ray.pos).len();
                if distance < closest_hit_distance {
                    closest_hit_distance = distance;
                    closest_hit = Option::Some(
                        Intersection {
                            position: intersection.position,
                            normal: intersection.normal,
                            sphere: k,
                        },
                    );
                }
            },
        }
        k = k + 1;
    }
    closest_hit
}

/// An angle in radians, fixed point.
#[derive(Copy, Clone, Debug)]
pub struct Radians(pub i64);

/// Map a coordinate from `[0, 1]` to `[-1, 1]`.
pub open spec fn posunit_s(v: int) -> int {
    sub_s(add_s(v, v), SCALE as int)
}

/// Convert a value in `[0, 1]` to a value in `[-1, 1]`.
pub fn posunit_to_unit(value: i64) -> (r: i64)
    ensures
        r as int == posunit_s(value as int),
{
    fx_sub(fx_add(value, value), SCALE)
}

/// The virtual camera: a position, two directions that must be unit length
/// and mutually perpendicular (the caller's responsibility, not checked at
/// runtime), the width-to-height ratio of the image, and the horizontal
/// field of view.
pub struct Camera {
    pub position: Vector,
    pub forward: UnitVector,
    pub up: UnitVector,
    pub aspect_ratio: i64,
    pub fovx: Radians,
}

impl Camera {
    /// The point on the virtual screen — one unit ahead of the camera,
    /// centered on the forward axis — that the screen coordinates name.
    /// The screen is `2 * tan(fovx / 2)` wide and that over the aspect
    /// ratio tall.
    pub open spec fn spec_screen_point(self, x: int, y: int) -> Vector {
        let right = self.forward.0.spec_cross(self.up.0);
        let xunit = posunit_s(x);
        let yunit = neg_s(posunit_s(y));
        let t = crate::fixed::tan_s(crate::fixed::divi_s(self.fovx.0 as int, 2));
        let screen_width = add_s(t, t);
        let screen_height = div_s(screen_width, self.aspect_ratio as int);
        let rx = right.spec_scale(xunit).spec_scale(screen_width).spec_divide(2 * (SCALE as int));
        let uy = self.up.0.spec_scale(yunit).spec_scale(screen_height).spec_divide(
            2 * (SCALE as int),
        );
        self.position.spec_add(self.forward.0).spec_add(rx).spec_add(uy)
    }

    /// The ray from the camera through the screen point.  A malformed
    /// camera can leave the screen point on the camera position itself;
    /// that direction has no length, and the ray falls back to `forward`.
    pub open spec fn spec_screen_ray(self, x: int, y: int) -> Ray {
        let d = self.spec_screen_point(x, y).spec_sub(self.position);
        if d.spec_len() == 0 {
            Ray { pos: self.position, dir: self.forward }
        } else {
            Ray { pos: self.position, dir: UnitVector(d.spec_normalized()) }
        }
    }

    /// The world-space ray for normalized screen coordinates `x`, `y` in
    /// `[0, 1]` — `(0, 0)` the top-left corner, `(1, 1)` the bottom-right.
    pub fn screen_ray(&self, x: i64, y: i64) -> (r: Ray)
        requires
            0 <= x <= SCALE,
            0 <= y <= SCALE,
            self.aspect_ratio > 0,
        ensures
            r == self.spec_screen_ray(x as int, y as int),
    {
        let right: Vector = self.forward.0.cross(&self.up.0);
        let xunit: i64 = posunit_to_unit(x);
        let yunit: i64 = fx_neg(posunit_to_unit(y));
        let t: i64 = crate::fixed::fx_tan(crate::fixed::fx_divi(self.fovx.0, 2));
        let screen_width: i64 = fx_add(t, t);
        let screen_height: i64 = fx_div(screen_width, self.aspect_ratio);
        let rx: Vector = right.scale(xunit).scale(screen_width).divide(2 * SCALE);
        let uy: Vector = self.up.0.scale(yunit).scale(screen_height).divide(2 * SCALE);
        let point_at_screen: Vector = self.position.add(&self.forward.0).add(&rx).add(&uy);
        let d: Vector = point_at_screen.subtract(&self.position);
        let l: i64 = d.len();
        if l == 0 {
            Ray { pos: self.position, dir: self.forward }
        } else {
            Ray { pos: self.position, dir: d.normalized() }
        }
    }
}

/// The color a ray gathers, with at most `bounces` reflections.
///
/// A miss is black.  A hit contributes the sphere's own color, plus — while
/// bounces remain — whatever the reflected ray gathers, all attenuated by
/// the brightness term, the dot product of the surface normal with the
/// reversed ray direction.  That term is only a valid attenuation factor
/// inside the unit range; outside it (a grazing or back-facing surface) the
/// result is `None`, the case in which the lighting model's precondition
/// fails.
pub open spec fn spec_trace(spheres: Seq<Sphere>, ray: Ray, bounces: nat) -> Option<
    crate::material::Color,
>
    decreases bounces,
{
    match spec_closest(spheres, ray) {
        Option::None => Option::Some(
            crate::material::Color { r: 0, g: 0, b: 0 },
        ),
        Option::Some(hit) => {
            let brightness = hit.normal.0.spec_dot(ray.dir.0.spec_negate());
            let base = spheres[hit.sphere as int].color;
            let combined = if bounces > 0 {
                match spec_trace(
                    spheres,
                    ray.spec_reflected(hit.position, hit.normal),
                    (bounces - 1) as nat,
                ) {
                    Option::None => Option::None,
                    Option::Some(c) => Option::Some(base.spec_add(c)),
                }
            } else {
                Option::Some(base)
            };
            match combined {
                Option::None => Option::None,
                Option::Some(c) => {
                    if 0 <= brightness <= SCALE {
                        Option::Some(c.spec_scale(brightness))
                    } else {
                        Option::None
                    }
                },
            }
        },
    }
}

/// Trace a ray through the scene with at most `bounces` reflections.
/// `None` exactly when some bounce's brightness term falls outside the unit
/// range, where the color attenuation is undefined.
pub fn trace_ray(spheres: &[Sphere], ray: &Ray, bounces: usize) -> (r: Option<
    crate::material::Color,
>)
    ensures
        r == spec_trace(spheres@, *ray, bounces as nat),
    decreases bounces,
{
    match closest_intersection(spheres, ray) {
        Option::None => Option::Some(crate::material::Color::new_black()),
        Option::Some(intersection) => {
            let neg_dir: Vector = ray.dir.0.negate();
            let brightness: i64 = intersection.normal.0.dot(&neg_dir);
            let mut color: crate::material::Color = spheres[intersection.sphere].color;
            if bounces > 0 {
                let bounce_ray: Ray = ray.reflected(intersection.position, &intersection.normal);
                match trace_ray(spheres, &bounce_ray, bounces - 1) {
                    Option::None => {
                        return Option::None;
                    },
                    Option::Some(c) => {
                        color = color.add(&c);
                    },
                }
            }
            if 0 <= brightness && brightness <= SCALE {
                Option::Some(color.scale(brightness))
            } else {
                Option::None
            }
        },
    }
}

} // verus!
