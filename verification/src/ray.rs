//! Rays: an origin, a direction and a bounce counter, with the nearest-hit
//! search over a scene and the recursive radiance evaluator.

use vstd::prelude::*;
use crate::color::{Color, spec_black, spec_nonneg};
use crate::fx::{Fx, SCALE, lemma_fx_mul_bounds};
use crate::material::{Texture, Material, spec_scatter};
use crate::point::{Point, spec_add, spec_scale};
use crate::world::{
    World, Surface, Hitable, spec_nearest_full, spec_world_wf, lemma_nearest_full_wf,
};
use crate::world::sphere::{Sphere, spec_get_records};

verus! {

/// Any accepted intersection parameter must lie above this raw value,
/// the shadow-acne epsilon on the fixed-point grid (about 0.001).
pub const T_MIN_RAW: i64 = 65;

/// A ray. `depth` counts completed bounces; each scatter produces a
/// fresh ray one bounce deeper.
#[derive(Clone, Copy, PartialEq, Eq, Structural, Debug)]
pub struct Ray {
    pub orig: Point,
    pub dir: Point,
    pub depth: u32,
}

/// The point reached after travelling `t` along the ray.
pub open spec fn spec_at(r: Ray, t: int) -> Point {
    spec_add(r.orig, spec_scale(r.dir, t))
}

/// The sky tint of the background gradient: (0.5, 0.7, 1.0) on the
/// fixed-point grid.
pub open spec fn spec_sky() -> Color {
    Color { r: crate::fx::fx(32768), g: crate::fx::fx(45875), b: crate::fx::fx(65536) }
}

/// The background a missed ray sees: white blended toward the sky tint
/// by the height of the unit direction, the blend factor clamped to
/// `[0, 1]` against degenerate directions.
pub open spec fn spec_background(dir: Point) -> Color {
    let u = crate::point::spec_unit(dir);
    let a0 = crate::fx::fx_mul(crate::fx::fx_add(u.y@, crate::fx::fx_of_int(1)), 32768);
    let a = if a0 < 0 {
        0
    } else if a0 > SCALE {
        SCALE as int
    } else {
        a0
    };
    crate::color::spec_add(
        crate::color::spec_scale(crate::color::spec_white(), crate::fx::fx_sub(
            crate::fx::fx_of_int(1),
            a,
        )),
        crate::color::spec_scale(spec_sky(), a),
    )
}

/// Every outcome of evaluating a ray's radiance against a scene: black
/// past the bounce cutoff; the background when nothing is hit;
/// otherwise the radiance of some scatter-consistent outgoing ray,
/// attenuated channelwise by the material's color.
pub open spec fn spec_color_outcome(w: World, ray: Ray, c: Color) -> bool
    decreases 51 - ray.depth,
{
    if ray.depth > 50 {
        c == spec_black()
    } else {
        match spec_nearest_full(
            w.objects@,
            ray,
            T_MIN_RAW as int,
            i64::MAX as int,
            w.objects@.len() as int,
        ) {
            None => c == spec_background(ray.dir),
            Some(h) => exists|out: Ray, att: Color, rc: Color|
                #![trigger spec_scatter(h.2, ray, spec_get_records(h.1, ray, h.0), out, att),
                    crate::color::spec_mul(rc, att)]
                {
                    &&& spec_scatter(h.2, ray, spec_get_records(h.1, ray, h.0), out, att)
                    &&& out.depth == ray.depth + 1
                    &&& spec_color_outcome(w, out, rc)
                    &&& c == crate::color::spec_mul(rc, att)
                },
        }
    }
}

impl Ray {
    /// Assemble a ray from its parts.
    pub fn new(orig: Point, dir: Point, depth: u32) -> (r: Ray)
        ensures
            r.orig == orig,
            r.dir == dir,
            r.depth == depth,
    {
        Ray { orig, dir, depth }
    }

    /// The number of completed bounces.
    pub fn get_depth(&self) -> (d: u32)
        ensures
            d == self.depth,
    {
        self.depth
    }

    /// The direction.
    pub fn dir(&self) -> (d: &Point)
        ensures
            *d == self.dir,
    {
        &self.dir
    }

    /// The origin.
    pub fn orig(&self) -> (o: &Point)
        ensures
            *o == self.orig,
    {
        &self.orig
    }

    /// The point reached after travelling `t` along the ray.
    pub fn at(&self, t: Fx) -> (p: Point)
        ensures
            p == spec_at(*self, t@),
    {
        self.orig.add(self.dir.scale(t))
    }

    /// Scan every surface of the scene and return the nearest accepted
    /// hit over the standard visibility interval: the sphere hit, its
    /// sphere, and its material. Ties keep the first surface scanned.
    #[verifier::loop_isolation(false)]
    pub fn object_hitted<'a, 'b>(&'a self, world: &'b World) -> (res: Option<
        (Fx, &'b Sphere, Texture),
    >)
        ensures
            (match res {
                None => spec_nearest_full(
                    world.objects@,
                    *self,
                    T_MIN_RAW as int,
                    i64::MAX as int,
                    world.objects@.len() as int,
                ) is None,
                Some(h) => spec_nearest_full(
                    world.objects@,
                    *self,
                    T_MIN_RAW as int,
                    i64::MAX as int,
                    world.objects@.len() as int,
                ) == Some((h.0, *h.1, h.2)),
            }),
    {
        let mut best: Option<(Fx, &'b Sphere, Texture)> = None;
        let t_min = Fx { raw: T_MIN_RAW };
        let t_max = Fx { raw: i64::MAX };
        let mut i: usize = 0;
        while i < world.objects.len()
            invariant
                i <= world.objects@.len(),
                (match best {
                    None => spec_nearest_full(
                        world.objects@,
                        *self,
                        T_MIN_RAW as int,
                        i64::MAX as int,
                        i as int,
                    ) is None,
                    Some(h) => spec_nearest_full(
                        world.objects@,
                        *self,
                        T_MIN_RAW as int,
                        i64::MAX as int,
                        i as int,
                    ) == Some((h.0, *h.1, h.2)),
                }),
            decreases world.objects@.len() - i,
        {
            let entry = &world.objects[i];
            match &entry.0 {
                Surface::Sphere(sphere) => {
                    match sphere.hit(self, t_min, t_max) {
                        Some(t) => {
                            best = match best {
                                None => Some((t, sphere, entry.1)),
                                Some(b) => if b.0.raw > t.raw {
                                    Some((t, sphere, entry.1))
                                } else {
                                    Some(b)
                                },
                            };
                        },
                        None => {},
                    }
                },
                Surface::AABB(aabb) => {
                    match aabb.hit(self, t_min, t_max) {
                        Some(h) => {
                            best = match best {
                                None => Some(h),
                                Some(b) => if b.0.raw > h.0.raw {
                                    Some(h)
                                } else {
                                    Some(b)
                                },
                            };
                        },
                        None => {},
                    }
                },
            }
            i = i + 1;
        }
        best
    }

    /// Evaluate the radiance a ray gathers: black past the bounce
    /// cutoff; the vertical-gradient background on a miss; otherwise the
    /// scattered ray's radiance attenuated by the hit material. The
    /// result is always one of the ray's radiance outcomes, and over a
    /// well-formed scene it is never negative.
    pub fn color(self, world: &World) -> (c: Color)
        ensures
            self.depth > 50 ==> c == spec_black(),
            self.depth <= 50 && spec_nearest_full(
                world.objects@,
                self,
                T_MIN_RAW as int,
                i64::MAX as int,
                world.objects@.len() as int,
            ) is None ==> c == spec_background(self.dir),
            spec_color_outcome(*world, self, c),
            spec_world_wf(*world) ==> spec_nonneg(c),
        decreases 51 - self.depth,
    {
        if self.depth > 50 {
            let c = Color::black();
            proof {
                assert(spec_color_outcome(*world, self, c));
            }
            return c;
        }
        match self.object_hitted(world) {
            None => {
                let unit_dir = self.dir.unit();
                let half = Fx { raw: 32768 };
                let a0 = unit_dir.y.add(Fx::from_int(1)).mul(half);
                // a degenerate direction can push the blend factor out of
                // [0, 1]; clamp it so the background stays a radiance
                let a = if a0.raw < 0 {
                    Fx::zero()
                } else if a0.raw > SCALE {
                    Fx { raw: SCALE }
                } else {
                    a0
                };
                let one_minus_a = Fx::from_int(1).sub(a);
                let white = Color::white();
                // the sky tint (0.5, 0.7, 1.0) on the fixed-point grid
                let sky = Color { r: Fx { raw: 32768 }, g: Fx { raw: 45875 }, b: Fx { raw: SCALE } };
                let c = white.scale(one_minus_a).add(sky.scale(a));
                proof {
                    lemma_fx_mul_bounds(white.r@, one_minus_a@);
                    lemma_fx_mul_bounds(sky.r@, a@);
                    lemma_fx_mul_bounds(sky.g@, a@);
                    lemma_fx_mul_bounds(sky.b@, a@);
                    assert(c == spec_background(self.dir));
                    assert(spec_color_outcome(*world, self, c));
                }
                c
            },
            Some((t, sphere, texture)) => {
                proof {
                    if spec_world_wf(*world) {
                        lemma_nearest_full_wf(
                            world.objects@,
                            self,
                            T_MIN_RAW as int,
                            i64::MAX as int,
                            world.objects@.len() as int,
                        );
                    }
                }
                let best_record = sphere.get_records(&self, t);
                let (ray, color) = match texture {
                    Texture::Diffuse(diffuse) => diffuse.scatter(self, best_record),
                    Texture::Metal(metal) => metal.scatter(self, best_record),
                    Texture::Dielectric(dielectric) => dielectric.scatter(self, best_record),
                };
                let rec = ray.color(world);
                let c = rec.mul(color);
                proof {
                    assert(spec_scatter(
                        texture,
                        self,
                        spec_get_records(*sphere, self, t),
                        ray,
                        color,
                    ) && spec_color_outcome(*world, ray, rec));
                    assert(c == crate::color::spec_mul(rec, color));
                    assert(spec_color_outcome(*world, self, c));
                    if spec_world_wf(*world) {
                        lemma_fx_mul_bounds(rec.r@, color.r@);
                        lemma_fx_mul_bounds(rec.g@, color.g@);
                        lemma_fx_mul_bounds(rec.b@, color.b@);
                    }
                }
                c
            },
        }
    }
}

} // verus!
