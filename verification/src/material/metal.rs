//! The metallic material: mirror reflection, optionally fuzzed.

use vstd::prelude::*;
use crate::color::{Color, spec_nonneg, spec_black};
use crate::fx::{Fx, SCALE, fx_of_int};
use crate::material::Material;
use crate::point::{Point, spec_sub, spec_add, spec_scale, spec_dot, spec_norm_squared};
use crate::ray::Ray;
use crate::world::Record;

verus! {

/// A metal: reflects like a mirror, perturbed by a fuzz factor in
/// `[0, 1]`, attenuating by its albedo.
#[derive(Clone, Copy)]
pub struct Metal {
    pub albedo: Color,
    pub fuzzyness: Fx,
}

/// The mirror reflection of `d` about the normal `n`:
/// `d - 2 (n . d) n` on the fixed-point grid.
pub open spec fn spec_reflect(d: Point, n: Point) -> Point {
    spec_sub(d, spec_scale(spec_scale(n, spec_dot(n, d)), fx_of_int(2)))
}

impl Metal {
    /// A metal with the given albedo and fuzz.
    pub fn new(albedo: Color, fuzzyness: Fx) -> (m: Metal)
        ensures
            m.albedo == albedo,
            m.fuzzyness == fuzzyness,
    {
        Metal { albedo, fuzzyness }
    }
}

/// Every outcome of a metal scatter: the outgoing ray leaves the hit
/// point one bounce deeper; without fuzz it is the exact mirror
/// reflection attenuated by the albedo; with fuzz the reflection is
/// perturbed by some in-sphere sample, and the attenuation is the
/// albedo when the result leaves the surface, black when it points
/// into it.
pub open spec fn spec_metal_scatter(
    m: Metal,
    r_in: Ray,
    hit: Record,
    out: Ray,
    att: Color,
) -> bool {
    &&& out.orig == hit.p
    &&& out.depth == r_in.depth + 1
    &&& m.fuzzyness@ <= 0 ==> out.dir == spec_reflect(r_in.dir, hit.normal) && att == m.albedo
    &&& m.fuzzyness@ > 0 ==> {
        &&& exists|p: Point|
            #![trigger spec_norm_squared(p)]
            spec_norm_squared(p) < m.fuzzyness@ && out.dir == spec_add(
                spec_reflect(r_in.dir, hit.normal),
                p,
            )
        &&& (spec_dot(out.dir, hit.normal) > 0 ==> att == m.albedo)
        &&& (spec_dot(out.dir, hit.normal) <= 0 ==> att == spec_black())
    }
}

impl Material for Metal {
    open spec fn wf(&self) -> bool {
        spec_nonneg(self.albedo) && 0 <= self.fuzzyness@ <= SCALE
    }

    /// Reflect about the normal. Without fuzz the reflection is exact
    /// and attenuated by the albedo. With fuzz the direction is
    /// perturbed; a perturbed direction pointing into the surface is
    /// absorbed: the ray still comes back, but the attenuation is black.
    fn scatter(&self, r_in: Ray, hit: Record) -> (res: (Ray, Color))
        ensures
            self.fuzzyness@ <= 0 ==> res.0.dir == spec_reflect(r_in.dir, hit.normal) && res.1
                == self.albedo,
            self.fuzzyness@ > 0 ==> exists|p: Point|
                spec_norm_squared(p) < self.fuzzyness@ && res.0.dir == spec_add(
                    spec_reflect(r_in.dir, hit.normal),
                    p,
                ),
            self.fuzzyness@ > 0 && spec_dot(res.0.dir, hit.normal) > 0 ==> res.1 == self.albedo,
            self.fuzzyness@ > 0 && spec_dot(res.0.dir, hit.normal) <= 0 ==> res.1 == spec_black(),
            spec_metal_scatter(*self, r_in, hit, res.0, res.1),
    {
        let dir = r_in.dir.sub(hit.normal.scale(hit.normal.dot(r_in.dir)).scale(Fx::from_int(2)));
        if self.fuzzyness.raw <= 0 {
            return (Ray::new(hit.p, dir, r_in.get_depth() + 1), self.albedo);
        }
        let radius = self.fuzzyness.min(Fx { raw: 4611686018427387903 });
        let perturbation = Point::random_in_sphere(radius);
        let ray = Ray::new(hit.p, dir.add(perturbation), r_in.get_depth() + 1);
        proof {
            assert(spec_norm_squared(perturbation) < self.fuzzyness@ && ray.dir == spec_add(
                spec_reflect(r_in.dir, hit.normal),
                perturbation,
            ));
        }
        let res = if Fx::zero().lt(ray.dir.dot(hit.normal)) {
            (ray, self.albedo)
        } else {
            (ray, Color::black())
        };
        res
    }
}

} // verus!
