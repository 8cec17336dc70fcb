//! The scene: hit records, the closed set of surfaces, and the ordered
//! collection of surface/material pairs that rays are traced against.

use vstd::prelude::*;
use crate::color::spec_white;
use crate::fx::{
    Fx, fx_add, fx_neg, fx_of_int,
    lemma_fx_mul_neg_one, lemma_fx_mul_flip, lemma_sat_add_neg,
};
use crate::material::{Texture, texture_wf, diffuse::Diffuse};
use crate::point::{Point, spec_sub, spec_scale, spec_dot, spec_norm};
use crate::ray::Ray;
use crate::world::sphere::{Sphere, spec_sphere, spec_sphere_hit};
use crate::world::aabb::{Aabb, spec_aabb_hit, aabb_wf};

pub mod aabb;
pub mod sphere;

verus! {

/// One intersection: the ray parameter, the hit point, the unit normal
/// oriented against the incoming ray, and whether the un-flipped outward
/// normal already pointed against it.
pub struct Record {
    pub t: Fx,
    pub p: Point,
    pub normal: Point,
    pub front_face: bool,
}

impl Record {
    /// Build the record for a hit, flipping the outward normal when it
    /// points with the ray so that the stored normal points against it.
    /// Whenever no component of the outward normal sits at the very
    /// bottom of the fixed-point range, the stored normal satisfies
    /// `dot(ray direction, normal) <= 0`.
    pub fn new(ray: &Ray, t: Fx, p: Point, outward_normal: Point) -> (rec: Record)
        ensures
            rec.t == t,
            rec.p == p,
            rec.front_face == (spec_dot(ray.dir, outward_normal) < 0),
            rec.front_face ==> rec.normal == outward_normal,
            !rec.front_face ==> rec.normal == spec_scale(outward_normal, fx_of_int(-1)),
            outward_normal.x@ > i64::MIN && outward_normal.y@ > i64::MIN
                && outward_normal.z@ > i64::MIN ==> spec_dot(ray.dir, rec.normal) <= 0,
    {
        let front_face = ray.dir.dot(outward_normal).lt(Fx::zero());
        let normal = if front_face {
            outward_normal
        } else {
            outward_normal.scale(Fx::from_int(-1))
        };
        proof {
            if !front_face && outward_normal.x@ > i64::MIN && outward_normal.y@ > i64::MIN
                && outward_normal.z@ > i64::MIN {
                lemma_flipped_dot_nonpositive(ray.dir, outward_normal);
            }
        }
        Record { t, p, normal, front_face }
    }

    /// Turn the record into a new ray leaving the hit point along the
    /// stored normal.
    pub fn to_ray(self, depth: u32) -> (r: Ray)
        ensures
            r.orig == self.p,
            r.dir == self.normal,
            r.depth == depth,
    {
        Ray::new(self.p, self.normal, depth)
    }
}

/// When the incoming direction does not point against the outward
/// normal, it points against (or along the surface of) the flipped one.
proof fn lemma_flipped_dot_nonpositive(d: Point, n: Point)
    requires
        spec_dot(d, n) >= 0,
        i64::MIN < n.x@ <= i64::MAX,
        i64::MIN < n.y@ <= i64::MAX,
        i64::MIN < n.z@ <= i64::MAX,
    ensures
        spec_dot(d, spec_scale(n, fx_of_int(-1))) <= 0,
{
    lemma_fx_mul_neg_one(n.x@);
    lemma_fx_mul_neg_one(n.y@);
    lemma_fx_mul_neg_one(n.z@);
    let p1 = crate::fx::fx_mul(d.x@, n.x@);
    let p2 = crate::fx::fx_mul(d.y@, n.y@);
    let p3 = crate::fx::fx_mul(d.z@, n.z@);
    lemma_fx_mul_flip(d.x@, n.x@);
    lemma_fx_mul_flip(d.y@, n.y@);
    lemma_fx_mul_flip(d.z@, n.z@);
    let q1 = crate::fx::fx_mul(d.x@, fx_neg(n.x@));
    let q2 = crate::fx::fx_mul(d.y@, fx_neg(n.y@));
    let q3 = crate::fx::fx_mul(d.z@, fx_neg(n.z@));
    lemma_sat_add_neg(q1, q2, p1, p2);
    lemma_sat_add_neg(fx_add(q1, q2), q3, fx_add(p1, p2), p3);
}

/// What a surface must answer about intersections; the sphere is the
/// one primitive implementing it.
pub trait Hitable {
    /// The parameter of the nearest accepted intersection, if any.
    fn hit(&self, r: &Ray, t_min: Fx, t_max: Fx) -> (res: Option<Fx>);

    /// The full record for an intersection at parameter `t`.
    fn get_records(&self, r: &Ray, t: Fx) -> (rec: Record)
        ensures
            rec.t == t,
    ;

    /// The corners of the axis-aligned box enclosing the surface.
    fn get_bb(&self) -> (bb: (Point, Point));
}

/// A geometric primitive of the scene: a sphere, or a bounding box
/// wrapping a one-object sub-scene.
pub enum Surface {
    Sphere(Sphere),
    AABB(Aabb),
}

/// A scene: surface/material pairs in insertion order, plus a default
/// material kept only for bookkeeping.
pub struct World {
    pub default_texture: Texture,
    pub objects: Vec<(Surface, Texture)>,
}

/// The bookkeeping material a fresh scene starts with: a white diffuse.
pub open spec fn spec_default_texture() -> Texture {
    Texture::Diffuse(Diffuse { color: spec_white() })
}

/// Whether a candidate sphere overlaps an existing surface: the
/// distance between centers falls below the sum of the radii.
pub open spec fn spec_collides(s: Surface, center: Point, radius: Fx) -> bool {
    match s {
        Surface::Sphere(sp) => spec_norm(spec_sub(center, sp.center)) < fx_add(
            radius@,
            sp.radius@,
        ),
        Surface::AABB(_) => false,
    }
}

/// Whether every material of the scene is in range and every bounding
/// box wraps only spheres.
pub open spec fn spec_world_wf(w: World) -> bool {
    forall|i: int|
        0 <= i < w.objects@.len() ==> #[trigger] spec_entry_wf(w.objects@[i])
}

/// Well-formedness of a single surface/material pair.
pub open spec fn spec_entry_wf(e: (Surface, Texture)) -> bool {
    texture_wf(e.1) && match e.0 {
        Surface::Sphere(_) => true,
        Surface::AABB(a) => aabb_wf(a),
    }
}

impl World {
    /// An empty scene.
    pub fn new() -> (w: World)
        ensures
            w.objects@.len() == 0,
            w.default_texture == spec_default_texture(),
    {
        World {
            objects: Vec::new(),
            default_texture: Texture::Diffuse(Diffuse::new(crate::color::Color::white())),
        }
    }

    /// A scene over the given surface/material pairs.
    pub fn new_from_vec(objects: Vec<(Surface, Texture)>) -> (w: World)
        ensures
            w.objects == objects,
            w.default_texture == spec_default_texture(),
    {
        World {
            objects,
            default_texture: Texture::Diffuse(Diffuse::new(crate::color::Color::white())),
        }
    }

    /// Append a sphere with its material; a well-formed scene stays
    /// well formed when the material is in range.
    pub fn add_sphere(&mut self, center: Point, radius: Fx, texture: Texture)
        ensures
            final(self).objects@ == old(self).objects@.push(
                (Surface::Sphere(spec_sphere(center, radius)), texture),
            ),
            final(self).default_texture == old(self).default_texture,
            spec_world_wf(*old(self)) && texture_wf(texture) ==> spec_world_wf(*final(self)),
    {
        self.objects.push((Surface::Sphere(Sphere::new(center, radius)), texture));
        proof {
            if spec_world_wf(*old(self)) && texture_wf(texture) {
                assert forall|i: int|
                    0 <= i < self.objects@.len() implies #[trigger] spec_entry_wf(
                    self.objects@[i],
                ) by {
                    if i < self.objects@.len() - 1 {
                        assert(self.objects@[i] == old(self).objects@[i]);
                        assert(spec_entry_wf(old(self).objects@[i]));
                    }
                }
            }
        }
    }

    /// Append a sphere only if it overlaps no sphere already present:
    /// on overlap the scene is left unchanged and `false` comes back,
    /// otherwise exactly one entry is appended.
    pub fn add_sphere_without_collision(&mut self, center: Point, radius: Fx, texture: Texture)
        -> (res: bool)
        ensures
            res == !(exists|i: int|
                0 <= i < old(self).objects@.len() && #[trigger] spec_collides(
                    old(self).objects@[i].0,
                    center,
                    radius,
                )),
            !res ==> *final(self) == *old(self),
            res ==> final(self).objects@ == old(self).objects@.push(
                (Surface::Sphere(spec_sphere(center, radius)), texture),
            ) && final(self).default_texture == old(self).default_texture,
            spec_world_wf(*old(self)) && texture_wf(texture) ==> spec_world_wf(*final(self)),
    {
        let n = self.objects.len();
        let mut i: usize = 0;
        while i < n
            invariant
                i <= n,
                n == self.objects@.len(),
                *self == *old(self),
                forall|k: int|
                    0 <= k < i ==> !#[trigger] spec_collides(
                        self.objects@[k].0,
                        center,
                        radius,
                    ),
            decreases n - i,
        {
            let entry = &self.objects[i];
            match &entry.0 {
                Surface::Sphere(sphere) => {
                    if center.sub(sphere.get_center()).norm().lt(radius.add(sphere.get_radius())) {
                        proof {
                            assert(spec_collides(old(self).objects@[i as int].0, center, radius));
                        }
                        return false;
                    }
                },
                Surface::AABB(_) => {},
            }
            i = i + 1;
        }
        self.add_sphere(center, radius, texture);
        true
    }
}

/// Nearest-hit selection: a later candidate replaces the best so far
/// only when its parameter is strictly smaller, so ties keep the first.
pub open spec fn better(
    best: Option<(Fx, Sphere, Texture)>,
    cand: Option<(Fx, Sphere, Texture)>,
) -> Option<(Fx, Sphere, Texture)> {
    match cand {
        None => best,
        Some(c) => match best {
            None => cand,
            Some(b) => if b.0@ > c.0@ {
                cand
            } else {
                best
            },
        },
    }
}

/// What one entry contributes to a sub-scene scan: a sphere's quadratic
/// test; a nested box contributes nothing (no box is ever nested).
pub open spec fn plain_candidate(
    entry: (Surface, Texture),
    r: Ray,
    t_min: int,
    t_max: int,
) -> Option<(Fx, Sphere, Texture)> {
    match entry.0 {
        Surface::Sphere(s) => match spec_sphere_hit(s, r, t_min, t_max) {
            Some(t) => Some((t, s, entry.1)),
            None => None,
        },
        Surface::AABB(_) => None,
    }
}

/// The nearest hit over the first `n` entries, spheres only.
pub open spec fn spec_nearest_plain(
    objects: Seq<(Surface, Texture)>,
    r: Ray,
    t_min: int,
    t_max: int,
    n: int,
) -> Option<(Fx, Sphere, Texture)>
    decreases n,
{
    if n <= 0 {
        None
    } else {
        better(
            spec_nearest_plain(objects, r, t_min, t_max, n - 1),
            plain_candidate(objects[n - 1], r, t_min, t_max),
        )
    }
}

/// What one entry contributes to the top-level scan: a sphere's test,
/// or a box's pruned sub-scene search.
pub open spec fn full_candidate(
    entry: (Surface, Texture),
    r: Ray,
    t_min: int,
    t_max: int,
) -> Option<(Fx, Sphere, Texture)> {
    match entry.0 {
        Surface::Sphere(s) => match spec_sphere_hit(s, r, t_min, t_max) {
            Some(t) => Some((t, s, entry.1)),
            None => None,
        },
        Surface::AABB(a) => spec_aabb_hit(a, r, t_min, t_max),
    }
}

/// The nearest hit over the first `n` entries of a scene.
pub open spec fn spec_nearest_full(
    objects: Seq<(Surface, Texture)>,
    r: Ray,
    t_min: int,
    t_max: int,
    n: int,
) -> Option<(Fx, Sphere, Texture)>
    decreases n,
{
    if n <= 0 {
        None
    } else {
        better(
            spec_nearest_full(objects, r, t_min, t_max, n - 1),
            full_candidate(objects[n - 1], r, t_min, t_max),
        )
    }
}

/// Scan a list of entries for the nearest sphere hit, ignoring nested
/// boxes; the sub-scene of a bounding box is searched this way.
#[verifier::loop_isolation(false)]
pub(crate) fn nearest_plain<'a>(
    objects: &'a Vec<(Surface, Texture)>,
    r: &Ray,
    t_min: Fx,
    t_max: Fx,
) -> (res: Option<(Fx, &'a Sphere, Texture)>)
    ensures
        (match res {
            None => spec_nearest_plain(
                objects@,
                *r,
                t_min@,
                t_max@,
                objects@.len() as int,
            ) is None,
            Some(h) => spec_nearest_plain(objects@, *r, t_min@, t_max@, objects@.len() as int)
                == Some((h.0, *h.1, h.2)),
        }),
{
    let mut best: Option<(Fx, &'a Sphere, Texture)> = None;
    let mut i: usize = 0;
    while i < objects.len()
        invariant
            i <= objects@.len(),
            (match best {
                None => spec_nearest_plain(objects@, *r, t_min@, t_max@, i as int) is None,
                Some(h) => spec_nearest_plain(objects@, *r, t_min@, t_max@, i as int) == Some(
                    (h.0, *h.1, h.2),
                ),
            }),
        decreases objects@.len() - i,
    {
        let entry = &objects[i];
        match &entry.0 {
            Surface::Sphere(sphere) => {
                match sphere.hit(r, t_min, t_max) {
                    Some(t) => {
                        best = match best {
                            None => Some((t, sphere, entry.1)),
                            Some(b) => if b.0.raw > t.raw {
                                Some((t, sphere, entry.1))
                            } else {
                                Some(b)
                            },
                        };
                    },
                    None => {},
                }
            },
            Surface::AABB(_) => {},
        }
        i = i + 1;
    }
    best
}

/// The scene scan is a true nearest-hit search: when it answers, the
/// answer is one of the entries' candidates and no entry offers a
/// strictly smaller parameter; when it stays silent, no entry offered
/// any candidate.
pub proof fn lemma_nearest_full_minimal(
    objects: Seq<(Surface, Texture)>,
    r: Ray,
    t_min: int,
    t_max: int,
    n: int,
)
    requires
        0 <= n <= objects.len(),
    ensures
        spec_nearest_full(objects, r, t_min, t_max, n) matches Some(h) ==> {
            &&& exists|i: int|
                0 <= i < n && #[trigger] full_candidate(objects[i], r, t_min, t_max) == Some(h)
            &&& forall|i: int|
                0 <= i < n ==> match #[trigger] full_candidate(objects[i], r, t_min, t_max) {
                    Some(c) => h.0@ <= c.0@,
                    None => true,
                }
        },
        spec_nearest_full(objects, r, t_min, t_max, n) is None ==> forall|i: int|
            0 <= i < n ==> #[trigger] full_candidate(objects[i], r, t_min, t_max) is None,
    decreases n,
{
    if n > 0 {
        lemma_nearest_full_minimal(objects, r, t_min, t_max, n - 1);
    }
}

/// A sphere-only scan that answers does so with a material drawn from
/// the list, so a list of in-range materials answers in range.
pub proof fn lemma_nearest_plain_wf(
    objects: Seq<(Surface, Texture)>,
    r: Ray,
    t_min: int,
    t_max: int,
    n: int,
)
    requires
        0 <= n <= objects.len(),
        forall|i: int| 0 <= i < objects.len() ==> texture_wf(#[trigger] objects[i].1),
        spec_nearest_plain(objects, r, t_min, t_max, n) is Some,
    ensures
        texture_wf(spec_nearest_plain(objects, r, t_min, t_max, n).unwrap().2),
    decreases n,
{
    if n > 0 {
        if spec_nearest_plain(objects, r, t_min, t_max, n - 1) is Some {
            lemma_nearest_plain_wf(objects, r, t_min, t_max, n - 1);
        }
    }
}

/// The top-level scan of a well-formed scene answers, when it answers,
/// with a material in range.
pub proof fn lemma_nearest_full_wf(
    objects: Seq<(Surface, Texture)>,
    r: Ray,
    t_min: int,
    t_max: int,
    n: int,
)
    requires
        0 <= n <= objects.len(),
        forall|i: int| 0 <= i < objects.len() ==> #[trigger] spec_entry_wf(objects[i]),
        spec_nearest_full(objects, r, t_min, t_max, n) is Some,
    ensures
        texture_wf(spec_nearest_full(objects, r, t_min, t_max, n).unwrap().2),
    decreases n,
{
    if n > 0 {
        if spec_nearest_full(objects, r, t_min, t_max, n - 1) is Some {
            lemma_nearest_full_wf(objects, r, t_min, t_max, n - 1);
        }
        let cand = full_candidate(objects[n - 1], r, t_min, t_max);
        if cand is Some {
            match objects[n - 1].0 {
                Surface::Sphere(_) => {
                    assert(spec_entry_wf(objects[n - 1]));
                },
                Surface::AABB(a) => {
                    assert(spec_entry_wf(objects[n - 1]));
                    lemma_aabb_hit_wf(a, r, t_min, t_max);
                },
            }
        }
    }
}

/// A well-formed box answers, when it answers, with a material in range
/// drawn from its sub-scene.
pub proof fn lemma_aabb_hit_wf(a: Aabb, r: Ray, t_min: int, t_max: int)
    requires
        aabb_wf(a),
        spec_aabb_hit(a, r, t_min, t_max) is Some,
    ensures
        texture_wf(spec_aabb_hit(a, r, t_min, t_max).unwrap().2),
{
    lemma_nearest_plain_wf(
        a.subworld.objects@,
        r,
        crate::ray::T_MIN_RAW as int,
        i64::MAX as int,
        a.subworld.objects@.len() as int,
    );
}

} // verus!
