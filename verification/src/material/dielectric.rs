//! The dielectric material: refraction with total internal reflection
//! and the Schlick reflectance approximation.

use vstd::prelude::*;
use crate::color::{Color, spec_white};
use crate::fx::{
    Fx, SCALE, fx_add, fx_sub, fx_mul, fx_div, fx_neg, fx_sqrt, fx_of_int,
    lemma_fx_div_le_one, lemma_fx_square_range, lemma_fx_mul_bounds,
};
use crate::material::Material;
use crate::material::metal::spec_reflect;
use crate::point::{Point, spec_add, spec_scale, spec_dot, spec_norm_squared, spec_unit};
use crate::ray::Ray;
use crate::rng::random_unit;
use crate::world::Record;

verus! {

/// A clear material with a refractive index; it absorbs nothing, so its
/// attenuation is always opaque white.
#[derive(Clone, Copy)]
pub struct Dielectric {
    pub eta: Fx,
    pub albedo: Color,
}

/// The base reflectance at head-on incidence:
/// `((1 - eta) / (1 + eta))^2`.
pub open spec fn spec_r0(ref_idx: int) -> int {
    let q = fx_div(fx_sub(fx_of_int(1), ref_idx), fx_add(fx_of_int(1), ref_idx));
    fx_mul(q, q)
}

/// The Schlick reflectance: `r0 + (1 - r0) (1 - cos)^5`, the fifth
/// power taken by squaring twice and multiplying once more.
pub open spec fn spec_reflectance(cos: int, ref_idx: int) -> int {
    let r0 = spec_r0(ref_idx);
    let p = fx_sub(fx_of_int(1), cos);
    let p2 = fx_mul(p, p);
    let p4 = fx_mul(p2, p2);
    let p5 = fx_mul(p4, p);
    fx_add(r0, fx_mul(fx_sub(fx_of_int(1), r0), p5))
}

/// The refracted direction for a unit incident direction, the surface
/// normal, the ratio of refractive indices, and the incidence cosine.
pub open spec fn spec_refract(inc: Point, n: Point, eta_q: int, cos: int) -> Point {
    let perp = spec_scale(spec_add(inc, spec_scale(n, cos)), eta_q);
    let parallel = spec_scale(
        n,
        fx_neg(fx_sqrt(fx_sub(fx_of_int(1), spec_norm_squared(perp)))),
    );
    spec_add(parallel, perp)
}

/// The ratio of refractive indices across the hit boundary: entering
/// the material divides one by the index, leaving uses the index.
pub open spec fn spec_eta_quotient(d: Dielectric, front_face: bool) -> int {
    if front_face {
        fx_div(fx_of_int(1), d.eta@)
    } else {
        d.eta@
    }
}

/// The incidence cosine: the negated scalar product of the unit
/// incident direction with the normal, capped at one.
pub open spec fn spec_cos_theta(dir: Point, n: Point) -> int {
    let v = fx_neg(spec_dot(spec_unit(dir), n));
    if v <= SCALE {
        v
    } else {
        SCALE as int
    }
}

impl Dielectric {
    /// A dielectric with the given refractive index; its attenuation is
    /// opaque white.
    pub fn new(eta: Fx) -> (d: Dielectric)
        ensures
            d.eta == eta,
            d.albedo == spec_white(),
    {
        Dielectric { eta, albedo: Color::white() }
    }

    /// The mirror-reflected outgoing ray, one bounce deeper.
    pub fn reflect(&self, r_in: Ray, hit: Record) -> (r: Ray)
        requires
            r_in.depth < u32::MAX,
        ensures
            r.orig == hit.p,
            r.dir == spec_reflect(r_in.dir, hit.normal),
            r.depth == r_in.depth + 1,
    {
        let dir = r_in.dir.sub(hit.normal.scale(hit.normal.dot(r_in.dir)).scale(Fx::from_int(2)));
        Ray::new(hit.p, dir, r_in.get_depth() + 1)
    }

    /// The refracted direction.
    pub fn refract(&self, inc_unit: Point, normal: Point, eta_quotient: Fx, cos_theta: Fx) -> (p:
        Point)
        ensures
            p == spec_refract(inc_unit, normal, eta_quotient@, cos_theta@),
    {
        let dir_out_perp = inc_unit.add(normal.scale(cos_theta)).scale(eta_quotient);
        let dir_out_parallel = normal.scale(
            Fx::from_int(1).sub(dir_out_perp.norm_squared()).sqrt().neg(),
        );
        dir_out_parallel.add(dir_out_perp)
    }

    /// The Schlick reflectance for the given incidence cosine and
    /// refractive index.
    pub fn reflectance(&self, cosine: Fx, ref_idx: Fx) -> (r: Fx)
        ensures
            r@ == spec_reflectance(cosine@, ref_idx@),
    {
        let r0 = Fx::from_int(1).sub(ref_idx).div(Fx::from_int(1).add(ref_idx));
        let r0 = r0.mul(r0);
        let p = Fx::from_int(1).sub(cosine);
        let p2 = p.mul(p);
        let p4 = p2.mul(p2);
        let p5 = p4.mul(p);
        r0.add(Fx::from_int(1).sub(r0).mul(p5))
    }
}

/// The Schlick reflectance equals the base reflectance at head-on
/// incidence, and stays between the base reflectance and one for any
/// incidence cosine in `[0, 1]` and nonnegative refractive index.
pub proof fn lemma_reflectance_bounds(cos: int, idx: int)
    requires
        0 <= cos <= SCALE,
        0 <= idx <= i64::MAX,
    ensures
        spec_reflectance(SCALE as int, idx) == spec_r0(idx),
        spec_r0(idx) <= spec_reflectance(cos, idx) <= SCALE,
{
    let num = fx_sub(fx_of_int(1), idx);
    let den = fx_add(fx_of_int(1), idx);
    assert(0 < den <= i64::MAX);
    assert(-den <= num <= den);
    let q = fx_div(num, den);
    lemma_fx_div_le_one(num, den);
    lemma_fx_square_range(q);
    let r0 = spec_r0(idx);
    let p = fx_sub(fx_of_int(1), cos);
    assert(0 <= p <= SCALE);
    lemma_fx_mul_bounds(p, p);
    let p2 = fx_mul(p, p);
    lemma_fx_mul_bounds(p2, p2);
    let p4 = fx_mul(p2, p2);
    lemma_fx_mul_bounds(p4, p);
    let p5 = fx_mul(p4, p);
    lemma_fx_mul_bounds(fx_sub(fx_of_int(1), r0), p5);
    let ph = fx_sub(fx_of_int(1), SCALE as int);
    assert(ph == 0);
    assert(fx_mul(0, 0) == 0);
    assert((fx_sub(fx_of_int(1), r0)) * 0 == 0);
    assert(fx_mul(fx_sub(fx_of_int(1), r0), 0) == 0);
    assert(spec_reflectance(SCALE as int, idx) == fx_add(r0, 0));
}

/// Whether a hit is beyond the critical angle: total internal
/// reflection, a deterministic function of the incoming ray and the
/// boundary.
pub open spec fn spec_tir(d: Dielectric, r_in: Ray, hit: Record) -> bool {
    let eq = spec_eta_quotient(d, hit.front_face);
    let ct = spec_cos_theta(r_in.dir, hit.normal);
    let st = fx_sqrt(fx_sub(fx_of_int(1), fx_mul(ct, ct)));
    fx_mul(st, eq) > fx_of_int(1)
}

/// Every outcome of a dielectric scatter: the outgoing ray leaves the
/// hit point one bounce deeper; for some uniform draw it reflects
/// exactly when the hit is beyond the critical angle or the draw falls
/// below the Schlick reflectance, and refracts otherwise; the
/// attenuation is always the material's opaque white.
pub open spec fn spec_dielectric_scatter(
    d: Dielectric,
    r_in: Ray,
    hit: Record,
    out: Ray,
    att: Color,
) -> bool {
    let eq = spec_eta_quotient(d, hit.front_face);
    let ct = spec_cos_theta(r_in.dir, hit.normal);
    &&& out.orig == hit.p
    &&& out.depth == r_in.depth + 1
    &&& att == d.albedo
    &&& exists|u: Fx|
        #![trigger u@]
        0 <= u@ < SCALE && out.dir == if spec_tir(d, r_in, hit) || u@ < spec_reflectance(ct, eq) {
            spec_reflect(r_in.dir, hit.normal)
        } else {
            spec_refract(spec_unit(r_in.dir), hit.normal, eq, ct)
        }
}

impl Material for Dielectric {
    open spec fn wf(&self) -> bool {
        crate::color::spec_nonneg(self.albedo)
    }

    /// Reflect deterministically on total internal reflection, reflect
    /// with the Schlick probability otherwise, refract else; either way
    /// the outgoing ray is one bounce deeper at the hit point, and
    /// nothing is absorbed.
    fn scatter(&self, r_in: Ray, hit: Record) -> (res: (Ray, Color))
        ensures
            res.1 == self.albedo,
            spec_tir(*self, r_in, hit) ==> res.0.dir == spec_reflect(r_in.dir, hit.normal),
            spec_dielectric_scatter(*self, r_in, hit, res.0, res.1),
    {
        let inc_unit = r_in.dir.unit();
        let eta_quotient = if hit.front_face {
            Fx::from_int(1).div(self.eta)
        } else {
            self.eta
        };
        let cos_theta = inc_unit.dot(hit.normal).neg().min(Fx::from_int(1));
        let sin_theta = Fx::from_int(1).sub(cos_theta.mul(cos_theta)).sqrt();
        if Fx::from_int(1).lt(sin_theta.mul(eta_quotient)) {
            // beyond the critical angle: no draw is taken
            let res = (self.reflect(r_in, hit), self.albedo);
            proof {
                let u = (Fx { raw: 0 });
                assert(0 <= u@ < SCALE && res.0.dir == if spec_tir(*self, r_in, hit) || u@
                    < spec_reflectance(cos_theta@, eta_quotient@) {
                    spec_reflect(r_in.dir, hit.normal)
                } else {
                    spec_refract(spec_unit(r_in.dir), hit.normal, eta_quotient@, cos_theta@)
                });
            }
            res
        } else {
            let refl = self.reflectance(cos_theta, eta_quotient);
            let u = random_unit();
            let res = if u.lt(refl) {
                (self.reflect(r_in, hit), self.albedo)
            } else {
                (
                    Ray::new(
                        hit.p,
                        self.refract(inc_unit, hit.normal, eta_quotient, cos_theta),
                        r_in.get_depth() + 1,
                    ),
                    self.albedo,
                )
            };
            proof {
                assert(0 <= u@ < SCALE && res.0.dir == if spec_tir(*self, r_in, hit) || u@
                    < spec_reflectance(cos_theta@, eta_quotient@) {
                    spec_reflect(r_in.dir, hit.normal)
                } else {
                    spec_refract(spec_unit(r_in.dir), hit.normal, eta_quotient@, cos_theta@)
                });
            }
            res
        }
    }
}

} // verus!
