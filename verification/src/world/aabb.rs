//! The axis-aligned bounding box: a pruning wrapper around a one-object
//! sub-scene, tested with the three-axis slab method.

use vstd::prelude::*;
use crate::fx::{Fx, fx_sub, fx_mul, fx_div, fx_of_int};
use crate::material::{Texture, texture_wf};
use crate::point::Point;
use crate::ray::{Ray, T_MIN_RAW};
use crate::world::{World, Surface, Hitable, nearest_plain, spec_nearest_plain};
use crate::world::sphere::Sphere;

verus! {

/// A bounding box: the two corners and the sub-scene it prunes for.
/// It wraps exactly one primitive and is never nested in another box.
pub struct Aabb {
    pub min: Point,
    pub max: Point,
    pub subworld: World,
}

/// Whether a box is well formed: its sub-scene holds only spheres, each
/// with a material in range.
pub open spec fn aabb_wf(a: Aabb) -> bool {
    forall|i: int|
        0 <= i < a.subworld.objects@.len() ==> (#[trigger] a.subworld.objects@[i]).0 is Sphere
            && texture_wf(a.subworld.objects@[i].1)
}

/// One axis of the slab test: intersect the running parameter interval
/// with the axis interval, swapping the bounds when the direction
/// reciprocal is negative.
pub open spec fn spec_slab(
    min_c: int,
    max_c: int,
    orig_c: int,
    dir_c: int,
    t_min: int,
    t_max: int,
) -> (int, int) {
    let inv_d = fx_div(fx_of_int(1), dir_c);
    let t0 = fx_mul(fx_sub(min_c, orig_c), inv_d);
    let t1 = fx_mul(fx_sub(max_c, orig_c), inv_d);
    let lo = if inv_d < 0 {
        t1
    } else {
        t0
    };
    let hi = if inv_d < 0 {
        t0
    } else {
        t1
    };
    let new_min = if lo >= t_min {
        lo
    } else {
        t_min
    };
    let new_max = if hi <= t_max {
        hi
    } else {
        t_max
    };
    (new_min, new_max)
}

/// What the box answers: none as soon as a slab empties the interval;
/// otherwise whatever the sub-scene's own nearest-hit search over the
/// standard visibility interval answers.
pub open spec fn spec_aabb_hit(a: Aabb, r: Ray, t_min: int, t_max: int) -> Option<
    (Fx, Sphere, Texture),
> {
    let ix = spec_slab(a.min.x@, a.max.x@, r.orig.x@, r.dir.x@, t_min, t_max);
    if ix.1 < ix.0 {
        None
    } else {
        let iy = spec_slab(a.min.y@, a.max.y@, r.orig.y@, r.dir.y@, ix.0, ix.1);
        if iy.1 < iy.0 {
            None
        } else {
            let iz = spec_slab(a.min.z@, a.max.z@, r.orig.z@, r.dir.z@, iy.0, iy.1);
            if iz.1 < iz.0 {
                None
            } else {
                spec_nearest_plain(
                    a.subworld.objects@,
                    r,
                    T_MIN_RAW as int,
                    i64::MAX as int,
                    a.subworld.objects@.len() as int,
                )
            }
        }
    }
}

impl Aabb {
    /// Wrap one primitive (a sphere) and its material in a box sized to
    /// the primitive's own bounds.
    pub fn new_one(surface: Surface, texture: Texture) -> (bb: Aabb)
        requires
            surface is Sphere,
        ensures
            surface matches Surface::Sphere(s) ==> {
                &&& bb.min == crate::world::sphere::spec_sphere_bb(s).0
                &&& bb.max == crate::world::sphere::spec_sphere_bb(s).1
            },
            bb.subworld.objects@.len() == 1,
            bb.subworld.objects@[0] == (surface, texture),
            bb.subworld.default_texture == crate::world::spec_default_texture(),
    {
        let (min, max) = match &surface {
            Surface::Sphere(sphere) => sphere.get_bb(),
            Surface::AABB(_) => {
                proof {
                    assert(false);
                }
                (Point { x: Fx::zero(), y: Fx::zero(), z: Fx::zero() },
                 Point { x: Fx::zero(), y: Fx::zero(), z: Fx::zero() })
            },
        };
        let mut objects: Vec<(Surface, Texture)> = Vec::new();
        objects.push((surface, texture));
        Aabb { min, max, subworld: World::new_from_vec(objects) }
    }

    /// Run the slab test; when the interval survives all three axes,
    /// delegate to the sub-scene's nearest-hit search. An interval
    /// emptied on the first axis answers none without ever testing the
    /// nested primitive.
    pub fn hit<'a>(&'a self, r: &Ray, t_min: Fx, t_max: Fx) -> (res: Option<
        (Fx, &'a Sphere, Texture),
    >)
        ensures
            (match res {
                None => spec_aabb_hit(*self, *r, t_min@, t_max@) is None,
                Some(h) => spec_aabb_hit(*self, *r, t_min@, t_max@) == Some((h.0, *h.1, h.2)),
            }),
            ({
                let ix = spec_slab(self.min.x@, self.max.x@, r.orig.x@, r.dir.x@, t_min@, t_max@);
                ix.1 < ix.0
            }) ==> res is None,
    {
        let inv_d = Fx::from_int(1).div(r.dir.x);
        let a0 = self.min.x.sub(r.orig.x).mul(inv_d);
        let a1 = self.max.x.sub(r.orig.x).mul(inv_d);
        let (t0, t1) = if inv_d.raw < 0 {
            (a1, a0)
        } else {
            (a0, a1)
        };
        let t_min = t0.max(t_min);
        let t_max = t1.min(t_max);
        if t_max.lt(t_min) {
            return None;
        }
        let inv_d = Fx::from_int(1).div(r.dir.y);
        let a0 = self.min.y.sub(r.orig.y).mul(inv_d);
        let a1 = self.max.y.sub(r.orig.y).mul(inv_d);
        let (t0, t1) = if inv_d.raw < 0 {
            (a1, a0)
        } else {
            (a0, a1)
        };
        let t_min = t0.max(t_min);
        let t_max = t1.min(t_max);
        if t_max.lt(t_min) {
            return None;
        }
        let inv_d = Fx::from_int(1).div(r.dir.z);
        let a0 = self.min.z.sub(r.orig.z).mul(inv_d);
        let a1 = self.max.z.sub(r.orig.z).mul(inv_d);
        let (t0, t1) = if inv_d.raw < 0 {
            (a1, a0)
        } else {
            (a0, a1)
        };
        let t_min = t0.max(t_min);
        let t_max = t1.min(t_max);
        if t_max.lt(t_min) {
            return None;
        }
        nearest_plain(&self.subworld.objects, r, Fx { raw: T_MIN_RAW }, Fx { raw: i64::MAX })
    }
}

} // verus!
