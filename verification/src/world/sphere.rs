//! The sphere primitive and its quadratic intersection test.

use vstd::prelude::*;
use vstd::arithmetic::div_mod::{
    lemma_fundamental_div_mod,
    lemma_div_pos_is_pos,
    lemma_div_is_ordered,
};
use crate::fx::{
    Fx, SCALE, fx, fx_add, fx_sub, fx_mul, fx_div, fx_neg, fx_of_int, fx_sqrt,
    lemma_fx_mul_product, lemma_fx_div_product, lemma_fx_sqrt_exact,
};
use crate::material::Texture;
use crate::point::{Point, pt3, spec_sub, spec_add, spec_dot, spec_divide, spec_norm};
use crate::ray::{Ray, spec_at};
use crate::world::{Hitable, Record, Surface};
use crate::world::aabb::Aabb;

verus! {

/// A sphere. A negative radius is allowed: it flips the outward normal,
/// which models a hollow shell.
pub struct Sphere {
    pub center: Point,
    pub radius: Fx,
}

/// The sphere with the given center and radius.
pub open spec fn spec_sphere(center: Point, radius: Fx) -> Sphere {
    Sphere { center, radius }
}

/// The outward normal of the sphere at a surface point: the offset from
/// the center, divided by the signed radius.
pub open spec fn spec_outward_normal(s: Sphere, p: Point) -> Point {
    spec_divide(spec_sub(p, s.center), s.radius@)
}

/// The intersection parameter the quadratic test yields: no real root
/// when the discriminant is negative; otherwise the smaller root first,
/// then the larger, whichever first lies within `[t_min, t_max]`.
pub open spec fn spec_sphere_hit(s: Sphere, r: Ray, t_min: int, t_max: int) -> Option<Fx> {
    let oc = spec_sub(r.orig, s.center);
    let a = spec_dot(r.dir, r.dir);
    let half_b = spec_dot(r.dir, oc);
    let c = fx_sub(spec_dot(oc, oc), fx_mul(s.radius@, s.radius@));
    let delta = fx_sub(fx_mul(half_b, half_b), fx_mul(a, c));
    if delta < 0 {
        None
    } else {
        let sqrt_delta = fx_sqrt(delta);
        let t1 = fx_div(fx_sub(fx_neg(half_b), sqrt_delta), a);
        let t2 = fx_div(fx_add(fx_neg(half_b), sqrt_delta), a);
        if t_min <= t1 && t1 <= t_max {
            Some(fx(t1))
        } else if t_min <= t2 && t2 <= t_max {
            Some(fx(t2))
        } else {
            None
        }
    }
}

/// The full record of a hit on the sphere at parameter `t`: the reached
/// point, whether the outward normal already points against the ray,
/// and the stored normal, flipped when it does not.
pub open spec fn spec_get_records(s: Sphere, r: Ray, t: Fx) -> Record {
    let p = spec_at(r, t@);
    let outward = spec_outward_normal(s, p);
    let front_face = spec_dot(r.dir, outward) < 0;
    Record {
        t,
        p,
        normal: if front_face {
            outward
        } else {
            crate::point::spec_scale(outward, fx_of_int(-1))
        },
        front_face,
    }
}

/// The corners of the box enclosing the sphere.
pub open spec fn spec_sphere_bb(s: Sphere) -> (Point, Point) {
    let rvec = Point { x: s.radius, y: s.radius, z: s.radius };
    (spec_sub(s.center, rvec), spec_add(s.center, rvec))
}

/// Cast along the negative Z axis from the origin, straight through the
/// center of a sphere at depth `c` with radius `r`, both on the
/// whole-number grid of step 1/256: the quadratic test accepts the
/// smaller root, which is exactly the distance to the center minus the
/// radius.
pub proof fn lemma_hit_through_center(c: int, r: int)
    requires
        0 < r < c <= 0x40000000,
        c % 256 == 0,
        r % 256 == 0,
        crate::ray::T_MIN_RAW < c - r,
    ensures
        ({
            let s = spec_sphere(pt3(0, 0, -c), fx(r));
            let ray = (Ray { orig: pt3(0, 0, 0), dir: pt3(0, 0, -(SCALE as int)), depth: 0 });
            spec_sphere_hit(s, ray, crate::ray::T_MIN_RAW as int, i64::MAX as int) == Some(
                fx(c - r),
            ) && spec_norm(spec_sub(ray.orig, s.center)) == c
        }),
{
    let k = c / 256;
    let m = r / 256;
    lemma_fundamental_div_mod(c, 256);
    lemma_fundamental_div_mod(r, 256);
    lemma_div_pos_is_pos(c, 256);
    lemma_div_pos_is_pos(r, 256);
    lemma_div_is_ordered(c, 0x40000000, 256);
    lemma_div_is_ordered(r, 0x40000000, 256);
    assert(c == 256 * k && r == 256 * m);
    assert(0 <= k <= 0x400000 && 0 <= m <= 0x400000);
    assert(c * c == (k * k) * (SCALE as int) && r * r == (m * m) * (SCALE as int) && (-c) * (-c)
        == (k * k) * (SCALE as int) && 0 <= k * k <= 0x100000000000 && 0 <= m * m
        <= 0x100000000000 && r * r == (m * m) * 65536) by (nonlinear_arith)
        requires
            c == 256 * k,
            r == 256 * m,
            0 <= k <= 0x400000,
            0 <= m <= 0x400000,
            SCALE == 65536,
    ;
    let s = spec_sphere(pt3(0, 0, -c), fx(r));
    let ray = (Ray { orig: pt3(0, 0, 0), dir: pt3(0, 0, -(SCALE as int)), depth: 0 });
    let oc = spec_sub(ray.orig, s.center);
    assert(oc == pt3(0, 0, c));
    lemma_fx_mul_product(0, 0, 0);
    assert((-(SCALE as int)) * (-(SCALE as int)) == (SCALE as int) * (SCALE as int))
        by (nonlinear_arith);
    lemma_fx_mul_product(-(SCALE as int), -(SCALE as int), SCALE as int);
    let a = spec_dot(ray.dir, ray.dir);
    assert(a == SCALE as int);
    assert((-(SCALE as int)) * c == (-c) * (SCALE as int)) by (nonlinear_arith);
    lemma_fx_mul_product(-(SCALE as int), c, -c);
    let half_b = spec_dot(ray.dir, oc);
    assert(half_b == -c);
    lemma_fx_mul_product(c, c, k * k);
    lemma_fx_mul_product(r, r, m * m);
    assert(spec_dot(oc, oc) == k * k);
    let c_term = fx_sub(spec_dot(oc, oc), fx_mul(r, r));
    assert(c_term == k * k - m * m);
    lemma_fx_mul_product(-c, -c, k * k);
    assert((SCALE as int) * (k * k - m * m) == (k * k - m * m) * (SCALE as int))
        by (nonlinear_arith);
    lemma_fx_mul_product(SCALE as int, k * k - m * m, k * k - m * m);
    let delta = fx_sub(fx_mul(half_b, half_b), fx_mul(a, c_term));
    assert(delta == m * m);
    assert(r * r == (m * m) * (SCALE as int));
    lemma_fx_sqrt_exact(m * m, r);
    assert(fx_sqrt(delta) == r);
    assert((c - r) * (SCALE as int) == (c - r) * (SCALE as int));
    lemma_fx_div_product(c - r, SCALE as int, c - r);
    assert(fx_div(fx_sub(fx_neg(half_b), fx_sqrt(delta)), a) == c - r);
    lemma_fx_sqrt_exact(k * k, c);
    assert(spec_norm(oc) == c);
}

/// Cast along the negative Z axis from the origin past a sphere whose
/// center sits at perpendicular offset `b` greater than its radius, all
/// on the whole-number grid of step 1/256: the discriminant is negative
/// and the quadratic test reports no hit.
pub proof fn lemma_miss_perpendicular_offset(b: int, c: int, r: int)
    requires
        0 <= r < b <= 0x40000000,
        0 <= c <= 0x40000000,
        b % 256 == 0,
        c % 256 == 0,
        r % 256 == 0,
    ensures
        ({
            let s = spec_sphere(pt3(b, 0, -c), fx(r));
            let ray = (Ray { orig: pt3(0, 0, 0), dir: pt3(0, 0, -(SCALE as int)), depth: 0 });
            spec_sphere_hit(s, ray, crate::ray::T_MIN_RAW as int, i64::MAX as int) is None
        }),
{
    let j = b / 256;
    let k = c / 256;
    let m = r / 256;
    lemma_fundamental_div_mod(b, 256);
    lemma_fundamental_div_mod(c, 256);
    lemma_fundamental_div_mod(r, 256);
    lemma_div_pos_is_pos(b, 256);
    lemma_div_pos_is_pos(c, 256);
    lemma_div_pos_is_pos(r, 256);
    lemma_div_is_ordered(b, 0x40000000, 256);
    lemma_div_is_ordered(c, 0x40000000, 256);
    lemma_div_is_ordered(r, 0x40000000, 256);
    assert(b == 256 * j && c == 256 * k && r == 256 * m);
    assert(0 <= j <= 0x400000 && 0 <= k <= 0x400000 && 0 <= m <= 0x400000);
    assert(r < b ==> m < j) by (nonlinear_arith)
        requires
            b == 256 * j,
            r == 256 * m,
    ;
    assert(b * b == (j * j) * (SCALE as int) && c * c == (k * k) * (SCALE as int) && r * r == (m
        * m) * (SCALE as int) && (-b) * (-b) == (j * j) * (SCALE as int) && (-c) * (-c) == (k
        * k) * (SCALE as int) && 0 <= j * j
        <= 0x100000000000 && 0 <= k * k <= 0x100000000000 && 0 <= m * m <= 0x100000000000 && (m
        < j ==> m * m < j * j)) by (nonlinear_arith)
        requires
            b == 256 * j,
            c == 256 * k,
            r == 256 * m,
            0 <= j <= 0x400000,
            0 <= k <= 0x400000,
            0 <= m <= 0x400000,
            SCALE == 65536,
    ;
    let s = spec_sphere(pt3(b, 0, -c), fx(r));
    let ray = (Ray { orig: pt3(0, 0, 0), dir: pt3(0, 0, -(SCALE as int)), depth: 0 });
    let oc = spec_sub(ray.orig, s.center);
    assert(oc == pt3(-b, 0, c));
    lemma_fx_mul_product(0, 0, 0);
    lemma_fx_mul_product(0, -b, 0);
    assert((-(SCALE as int)) * (-(SCALE as int)) == (SCALE as int) * (SCALE as int))
        by (nonlinear_arith);
    lemma_fx_mul_product(-(SCALE as int), -(SCALE as int), SCALE as int);
    let a = spec_dot(ray.dir, ray.dir);
    assert(a == SCALE as int);
    assert((-(SCALE as int)) * c == (-c) * (SCALE as int)) by (nonlinear_arith);
    lemma_fx_mul_product(-(SCALE as int), c, -c);
    let half_b = spec_dot(ray.dir, oc);
    assert(half_b == -c);
    lemma_fx_mul_product(-b, -b, j * j);
    lemma_fx_mul_product(c, c, k * k);
    lemma_fx_mul_product(r, r, m * m);
    assert(spec_dot(oc, oc) == j * j + k * k);
    let c_term = fx_sub(spec_dot(oc, oc), fx_mul(r, r));
    assert(c_term == j * j + k * k - m * m);
    lemma_fx_mul_product(-c, -c, k * k);
    assert((SCALE as int) * (j * j + k * k - m * m) == (j * j + k * k - m * m) * (SCALE as int))
        by (nonlinear_arith);
    lemma_fx_mul_product(SCALE as int, j * j + k * k - m * m, j * j + k * k - m * m);
    let delta = fx_sub(fx_mul(half_b, half_b), fx_mul(a, c_term));
    assert(delta == m * m - j * j);
    assert(delta < 0);
}

impl Sphere {
    /// A sphere from its center and (signed) radius.
    pub fn new(center: Point, radius: Fx) -> (s: Sphere)
        ensures
            s == spec_sphere(center, radius),
    {
        Sphere { center, radius }
    }

    /// A sphere wrapped in its own bounding box, as a one-object
    /// sub-scene.
    pub fn new_with_aabb(center: Point, radius: Fx, texture: Texture) -> (bb: Aabb)
        ensures
            bb.min == spec_sphere_bb(spec_sphere(center, radius)).0,
            bb.max == spec_sphere_bb(spec_sphere(center, radius)).1,
            bb.subworld.objects@ =~= seq![
                (Surface::Sphere(spec_sphere(center, radius)), texture),
            ],
    {
        Aabb::new_one(Surface::Sphere(Sphere::new(center, radius)), texture)
    }

    /// The signed radius.
    pub fn get_radius(&self) -> (r: Fx)
        ensures
            r == self.radius,
    {
        self.radius
    }

    /// The center.
    pub fn get_center(&self) -> (c: Point)
        ensures
            c == self.center,
    {
        self.center
    }
}

impl Hitable for Sphere {
    /// Solve the quadratic `|O + tD - C|^2 = r^2` and return the first
    /// root within `[t_min, t_max]`, smaller root first.
    fn hit(&self, r: &Ray, t_min: Fx, t_max: Fx) -> (res: Option<Fx>)
        ensures
            res == spec_sphere_hit(*self, *r, t_min@, t_max@),
    {
        let oc = r.orig.sub(self.center);
        let a: Fx = r.dir.dot(r.dir);
        let half_b: Fx = r.dir.dot(oc);
        let c: Fx = oc.dot(oc).sub(self.radius.mul(self.radius));
        let delta: Fx = half_b.mul(half_b).sub(a.mul(c));
        if delta.raw < 0 {
            return None;
        }
        let sqrt_delta = delta.sqrt();
        let t1 = half_b.neg().sub(sqrt_delta).div(a);
        let t2 = half_b.neg().add(sqrt_delta).div(a);
        if t_min.le(t1) && t1.le(t_max) {
            Some(t1)
        } else if t_min.le(t2) && t2.le(t_max) {
            Some(t2)
        } else {
            None
        }
    }

    /// The record for a hit at parameter `t`: the reached point, and
    /// the outward normal oriented against the ray.
    fn get_records(&self, r: &Ray, t: Fx) -> (rec: Record)
        ensures
            rec.t == t,
            rec == spec_get_records(*self, *r, t),
            ({
                let outward = spec_outward_normal(*self, spec_at(*r, t@));
                outward.x@ > i64::MIN && outward.y@ > i64::MIN && outward.z@ > i64::MIN
            }) ==> spec_dot(r.dir, rec.normal) <= 0,
    {
        let p = r.at(t);
        let outward_normal = p.sub(self.center).divide(self.radius);
        Record::new(r, t, p, outward_normal)
    }

    /// The corners of the box enclosing the sphere.
    fn get_bb(&self) -> (bb: (Point, Point))
        ensures
            bb == spec_sphere_bb(*self),
    {
        let radius_vec = Point { x: self.radius, y: self.radius, z: self.radius };
        (self.center.sub(radius_vec), self.center.add(radius_vec))
    }
}

} // verus!
