//! The Lambertian (diffuse) material.

use vstd::prelude::*;
use crate::color::{Color, spec_nonneg};
use crate::fx::{Fx, SCALE};
use crate::material::Material;
use crate::point::{Point, pt3, spec_add, spec_unit, spec_norm_squared};
use crate::ray::Ray;
use crate::world::Record;

verus! {

/// A diffuse surface: light scatters around the normal, attenuated by
/// the albedo.
#[derive(Clone, Copy)]
pub struct Diffuse {
    pub color: Color,
}

/// Every outcome of a diffuse scatter: the outgoing ray leaves the hit
/// point one bounce deeper, toward the normal plus some random unit
/// direction — falling back to the bare normal exactly when that sum
/// vanishes — and the attenuation is the albedo.
pub open spec fn spec_diffuse_scatter(
    d: Diffuse,
    r_in: Ray,
    hit: Record,
    out: Ray,
    att: Color,
) -> bool {
    &&& out.orig == hit.p
    &&& out.depth == r_in.depth + 1
    &&& att == d.color
    &&& exists|v: Point|
        #![trigger spec_unit(v)]
        {
            let sum = spec_add(hit.normal, spec_unit(v));
            &&& spec_norm_squared(v) < SCALE
            &&& out.dir == if sum == pt3(0, 0, 0) {
                hit.normal
            } else {
                sum
            }
        }
}

impl Diffuse {
    /// A diffuse material with the given albedo.
    pub fn new(color: Color) -> (d: Diffuse)
        ensures
            d.color == color,
    {
        Diffuse { color }
    }
}

impl Material for Diffuse {
    open spec fn wf(&self) -> bool {
        spec_nonneg(self.color)
    }

    /// Scatter toward the normal plus a random unit direction; a
    /// degenerate (zero) sum falls back to the normal itself. The
    /// attenuation is always the albedo.
    fn scatter(&self, r_in: Ray, hit: Record) -> (res: (Ray, Color))
        ensures
            res.1 == self.color,
            spec_diffuse_scatter(*self, r_in, hit, res.0, res.1),
    {
        let sampled = Point::random_unit_in_sphere(Fx::from_int(1));
        let mut target = hit.normal.add(sampled);
        if target.near_zero() {
            target = hit.normal;
        }
        let res = (Ray::new(hit.p, target, r_in.get_depth() + 1), self.color);
        proof {
            let gv = choose|v: Point| sampled == spec_unit(v) && spec_norm_squared(v) < SCALE;
            let sum = spec_add(hit.normal, spec_unit(gv));
            assert(spec_norm_squared(gv) < SCALE && target == (if sum == pt3(0, 0, 0) {
                hit.normal
            } else {
                sum
            }));
        }
        res
    }
}

} // verus!
