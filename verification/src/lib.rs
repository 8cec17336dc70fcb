//! A CPU path tracer over software fixed-point arithmetic: vector algebra,
//! sphere and bounding-box intersection, material scattering, recursive
//! radiance evaluation and deterministic sample aggregation, all with
//! machine-checked contracts.

use vstd::prelude::*;

pub mod color;
pub mod fx;
pub mod material;
pub mod point;
pub mod ray;
pub mod rng;
pub mod world;

use crate::color::{Color, spec_black, spec_nonneg};
use crate::fx::{Fx, fx, fx_neg, fx_div, spec_fx_round_u32};
use crate::point::{Point, spec_sub, spec_add, spec_scale, spec_divide, spec_dot, spec_unit,
    spec_cross};
use crate::ray::Ray;
use crate::rng::random_unit;
use crate::world::{World, spec_world_wf};

verus! {

/// The pinhole/thin-lens camera: an orthonormal basis, the viewport
/// extents and pixel deltas, the top-left pixel anchor and the lens
/// radius, all fixed at construction.
pub struct Camera {
    pub center: Point,
    pub dir: Point,
    pub lens_radius: Fx,
    pub focus_dist: Fx,
    pub w: Point,
    pub u: Point,
    pub v: Point,
    pub viewport_width: Fx,
    pub viewport_height: Fx,
    pub pixel_delta_u: Point,
    pub pixel_delta_v: Point,
    pub pixel00_loc: Point,
    pub image_height: u32,
    pub image_width: u32,
}

/// The camera every construction input determines: the image height
/// from the aspect ratio, the viewport from the field of view and focus
/// distance, the basis from the look direction and the vertical hint,
/// and the anchor of pixel (0, 0).
pub open spec fn spec_camera(
    origin: Point,
    lookat: Point,
    image_width: u32,
    aspect_ratio: Fx,
    tan_half_vfov: Fx,
    aperture: Fx,
    focus_dist: Fx,
) -> Camera {
    let image_height = spec_fx_round_u32(fx_div(image_width as int * 65536, aspect_ratio@)) as u32;
    let h = fx(crate::fx::fx_mul(tan_half_vfov@, focus_dist@));
    let viewport_height = fx(crate::fx::fx_mul(crate::fx::fx_of_int(2), h@));
    let viewport_width = fx(
        crate::fx::fx_mul(
            viewport_height@,
            fx_div(image_width as int * 65536, image_height as int * 65536),
        ),
    );
    let look_dir = spec_unit(spec_sub(lookat, origin));
    let up = Point { x: fx(0), y: fx(65536), z: fx(0) };
    let vup = spec_unit(spec_add(up, spec_scale(look_dir, fx_neg(spec_dot(up, look_dir)))));
    let uup = spec_cross(vup, look_dir);
    let viewport_u = spec_scale(uup, viewport_width@);
    let viewport_v = spec_scale(vup, fx_neg(viewport_height@));
    let pixel_delta_u = spec_divide(viewport_u, image_width as int * 65536);
    let pixel_delta_v = spec_divide(viewport_v, image_height as int * 65536);
    let pixel_up_left = spec_sub(
        spec_sub(
            spec_add(origin, spec_scale(look_dir, focus_dist@)),
            spec_divide(viewport_u, crate::fx::fx_of_int(2)),
        ),
        spec_divide(viewport_v, crate::fx::fx_of_int(2)),
    );
    let pixel00_loc = spec_add(
        spec_add(pixel_up_left, spec_scale(pixel_delta_u, 32768)),
        spec_scale(pixel_delta_v, 32768),
    );
    Camera {
        center: origin,
        dir: look_dir,
        lens_radius: fx(fx_div(aperture@, crate::fx::fx_of_int(2))),
        focus_dist,
        w: look_dir,
        v: vup,
        u: uup,
        viewport_width,
        viewport_height,
        pixel_delta_u,
        pixel_delta_v,
        pixel00_loc,
        image_height,
        image_width,
    }
}

/// The ray cast for pixel `(i, j)` under a given lens sample
/// `(rdx, rdy)` and antialias jitter pair `(alpha, beta)`: the origin
/// shifts over the lens disk, and the target jitters about the pixel
/// center.
pub open spec fn spec_pixel_ray(
    c: Camera,
    i: u32,
    j: u32,
    rdx: int,
    rdy: int,
    alpha: int,
    beta: int,
) -> Ray {
    let offset = spec_add(spec_scale(c.u, rdx), spec_scale(c.v, rdy));
    let orig = spec_add(c.center, offset);
    let dir = spec_sub(
        spec_add(
            spec_add(
                spec_add(
                    spec_add(c.pixel00_loc, spec_scale(c.pixel_delta_u, i as int * 65536)),
                    spec_scale(c.pixel_delta_u, alpha),
                ),
                spec_scale(c.pixel_delta_v, j as int * 65536),
            ),
            spec_scale(c.pixel_delta_v, beta),
        ),
        orig,
    );
    Ray { orig, dir, depth: 0 }
}

impl Camera {
    /// Derive the full camera from its construction inputs. The
    /// vertical field of view is given as the tangent of its half-angle
    /// on the fixed-point grid.
    pub fn new(
        origin: Point,
        lookat: Point,
        image_width: u32,
        aspect_ratio: Fx,
        tan_half_vfov: Fx,
        aperture: Fx,
        focus_dist: Fx,
    ) -> (c: Camera)
        ensures
            c == spec_camera(
                origin,
                lookat,
                image_width,
                aspect_ratio,
                tan_half_vfov,
                aperture,
                focus_dist,
            ),
    {
        let image_height: u32 = Fx::from_u32(image_width).div(aspect_ratio).round_u32();
        let h = tan_half_vfov.mul(focus_dist);
        let viewport_height = Fx::from_int(2).mul(h);
        let viewport_width = viewport_height.mul(
            Fx::from_u32(image_width).div(Fx::from_u32(image_height)),
        );
        let center = origin;
        let look_dir = lookat.sub(center).unit();
        let up = Point { x: Fx::zero(), y: Fx::from_int(1), z: Fx::zero() };
        let vup = up.add(look_dir.scale(up.dot(look_dir).neg())).unit();
        let uup = vup.cross(look_dir);
        let viewport_u = uup.scale(viewport_width);
        let viewport_v = vup.scale(viewport_height.neg());
        let pixel_delta_u = viewport_u.divide(Fx::from_u32(image_width));
        let pixel_delta_v = viewport_v.divide(Fx::from_u32(image_height));
        let pixel_up_left = center.add(look_dir.scale(focus_dist)).sub(
            viewport_u.divide(Fx::from_int(2)),
        ).sub(viewport_v.divide(Fx::from_int(2)));
        let half = Fx { raw: 32768 };
        let pixel00_loc = pixel_up_left.add(pixel_delta_u.scale(half)).add(
            pixel_delta_v.scale(half),
        );
        Camera {
            center,
            dir: look_dir,
            lens_radius: aperture.div(Fx::from_int(2)),
            focus_dist,
            w: look_dir,
            v: vup,
            u: uup,
            viewport_width,
            viewport_height,
            pixel_delta_u,
            pixel_delta_v,
            pixel00_loc,
            image_height,
            image_width,
        }
    }

    /// One stochastic camera ray for pixel `(i, j)`: an antialias jitter
    /// on the pixel center and a lens-disk sample on the origin for
    /// defocus blur. The ray starts at zero bounces, and is the pixel's
    /// ray for some jitter pair in `[-1/2, 1/2)` and some lens sample
    /// within the lens radius.
    pub fn pixel_ray(&self, i: u32, j: u32) -> (r: Ray)
        ensures
            r.depth == 0,
            exists|rdx: int, rdy: int, alpha: int, beta: int|
                {
                    &&& -32768 <= alpha < 32768
                    &&& -32768 <= beta < 32768
                    &&& self.lens_radius@ >= 0 ==> -self.lens_radius@ <= rdx <= self.lens_radius@
                        && -self.lens_radius@ <= rdy <= self.lens_radius@
                    &&& r == spec_pixel_ray(*self, i, j, rdx, rdy, alpha, beta)
                },
    {
        let half = Fx { raw: 32768 };
        let alpha = random_unit().sub(half);
        let beta = random_unit().sub(half);
        let rd = Point::random_in_circle(self.lens_radius);
        let offset = self.u.scale(rd.x).add(self.v.scale(rd.y));
        let ray_origin = self.center.add(offset);
        let dir = self.pixel00_loc.add(self.pixel_delta_u.scale(Fx::from_u32(i))).add(
            self.pixel_delta_u.scale(alpha),
        ).add(self.pixel_delta_v.scale(Fx::from_u32(j))).add(
            self.pixel_delta_v.scale(beta),
        ).sub(ray_origin);
        let res = Ray::new(ray_origin, dir, 0);
        proof {
            assert(res == spec_pixel_ray(*self, i, j, rd.x@, rd.y@, alpha@, beta@));
        }
        res
    }
}

/// Add each color of a received partial row into the matching slot of
/// the accumulator; slots past the received row are untouched.
pub fn add_color_vec(dst: &mut Vec<Color>, src: Vec<Color>)
    requires
        src@.len() <= old(dst)@.len(),
    ensures
        final(dst)@.len() == old(dst)@.len(),
        forall|k: int|
            0 <= k < src@.len() ==> final(dst)@[k] == crate::color::spec_add(
                old(dst)@[k],
                src@[k],
            ),
        forall|k: int| src@.len() <= k < old(dst)@.len() ==> final(dst)@[k] == old(dst)@[k],
{
    let mut i: usize = 0;
    while i < src.len()
        invariant
            i <= src@.len(),
            src@.len() <= dst@.len(),
            dst@.len() == old(dst)@.len(),
            forall|k: int|
                0 <= k < i ==> dst@[k] == crate::color::spec_add(old(dst)@[k], src@[k]),
            forall|k: int| i <= k < dst@.len() ==> dst@[k] == old(dst)@[k],
        decreases src@.len() - i,
    {
        let c = dst[i].add(src[i]);
        dst[i] = c;
        i = i + 1;
    }
}

/// Whether a color is a radiance sample pixel `(i, j)` can yield: the
/// outcome of evaluating the pixel's camera ray, for some antialias
/// jitter pair in `[-1/2, 1/2)` and some lens sample within the lens
/// radius.
pub open spec fn spec_pixel_sample(cam: Camera, w: World, i: u32, j: u32, c: Color) -> bool {
    exists|rdx: int, rdy: int, alpha: int, beta: int|
        #![trigger spec_pixel_ray(cam, i, j, rdx, rdy, alpha, beta)]
        {
            &&& -32768 <= alpha < 32768
            &&& -32768 <= beta < 32768
            &&& cam.lens_radius@ >= 0 ==> -cam.lens_radius@ <= rdx <= cam.lens_radius@
                && -cam.lens_radius@ <= rdy <= cam.lens_radius@
            &&& crate::ray::spec_color_outcome(
                w,
                spec_pixel_ray(cam, i, j, rdx, rdy, alpha, beta),
                c,
            )
        }
}

/// Whether every color of a sequence is a possible radiance sample of
/// pixel `(i, j)`.
pub open spec fn all_samples_of(cs: Seq<Color>, cam: Camera, w: World, i: u32, j: u32) -> bool {
    forall|m: int| 0 <= m < cs.len() ==> spec_pixel_sample(cam, w, i, j, #[trigger] cs[m])
}

/// Whether every entry of a row is the running sum of some sequence of
/// `samples` radiance values, each one a possible sample of that
/// pixel, the whole sequence nonnegative when the scene is well formed.
pub open spec fn spec_row_of_sums(
    row: Seq<Color>,
    cam: Camera,
    w: World,
    j: u32,
    samples: int,
) -> bool {
    forall|k: int| #![trigger row[k]]
        0 <= k < row.len() ==> exists|cs: Seq<Color>|
            #![trigger spec_sum_colors(cs)]
            {
                &&& cs.len() == samples
                &&& row[k] == spec_sum_colors(cs)
                &&& all_samples_of(cs, cam, w, k as u32, j)
                &&& (spec_world_wf(w) ==> all_nonneg(cs))
            }
}

/// One worker's contribution to one image row: for every pixel of the
/// row, the summed (not yet averaged) radiance over its share of
/// samples — the running sum of one sequence of that pixel's possible
/// radiance samples, as the aggregation law models it. Over a
/// well-formed scene every partial sum is nonnegative.
#[verifier::loop_isolation(false)]
pub fn render_row(camera: &Camera, world: &World, j: u32, samples: u32) -> (row: Vec<Color>)
    ensures
        row@.len() == camera.image_width,
        spec_row_of_sums(row@, *camera, *world, j, samples as int),
        spec_world_wf(*world) ==> forall|k: int|
            0 <= k < row@.len() ==> spec_nonneg(#[trigger] row@[k]),
{
    let mut colors: Vec<Color> = Vec::new();
    let mut i: u32 = 0;
    while i < camera.image_width
        invariant
            i <= camera.image_width,
            colors@.len() == i,
            spec_row_of_sums(colors@, *camera, *world, j, samples as int),
            spec_world_wf(*world) ==> forall|k: int|
                0 <= k < colors@.len() ==> spec_nonneg(#[trigger] colors@[k]),
        decreases camera.image_width - i,
    {
        let mut color = Color::black();
        let ghost mut sample_log: Seq<Color> = Seq::empty();
        let mut s: u32 = 0;
        while s < samples
            invariant
                s <= samples,
                sample_log.len() == s,
                color == spec_sum_colors(sample_log),
                all_samples_of(sample_log, *camera, *world, i, j),
                spec_world_wf(*world) ==> all_nonneg(sample_log),
                spec_world_wf(*world) ==> spec_nonneg(color),
            decreases samples - s,
        {
            let ray = camera.pixel_ray(i, j);
            let sample = ray.color(world);
            proof {
                let (rdx, rdy, alpha, beta) = choose|rdx: int, rdy: int, alpha: int, beta: int|
                    {
                        &&& -32768 <= alpha < 32768
                        &&& -32768 <= beta < 32768
                        &&& camera.lens_radius@ >= 0 ==> -camera.lens_radius@ <= rdx
                            <= camera.lens_radius@ && -camera.lens_radius@ <= rdy
                            <= camera.lens_radius@
                        &&& ray == spec_pixel_ray(*camera, i, j, rdx, rdy, alpha, beta)
                    };
                assert(crate::ray::spec_color_outcome(
                    *world,
                    spec_pixel_ray(*camera, i, j, rdx, rdy, alpha, beta),
                    sample,
                ));
                assert(spec_pixel_sample(*camera, *world, i, j, sample));
                assert((sample_log.push(sample)).drop_last() =~= sample_log);
                assert((sample_log.push(sample)).last() == sample);
                assert forall|m: int|
                    0 <= m < sample_log.push(sample).len() implies spec_pixel_sample(
                    *camera,
                    *world,
                    i,
                    j,
                    #[trigger] sample_log.push(sample)[m],
                ) by {
                    if m < sample_log.len() {
                        assert(sample_log.push(sample)[m] == sample_log[m]);
                    } else {
                        assert(sample_log.push(sample)[m] == sample);
                    }
                }
            }
            color = color.add(sample);
            proof {
                sample_log = sample_log.push(sample);
            }
            s = s + 1;
        }
        let ghost prev = colors@;
        colors.push(color);
        proof {
            assert forall|k: int| #![trigger colors@[k]]
                0 <= k < colors@.len() implies exists|cs: Seq<Color>|
                #![trigger spec_sum_colors(cs)]
                {
                    &&& cs.len() == samples
                    &&& colors@[k] == spec_sum_colors(cs)
                    &&& all_samples_of(cs, *camera, *world, k as u32, j)
                    &&& (spec_world_wf(*world) ==> all_nonneg(cs))
                } by {
                if k < colors@.len() - 1 {
                    assert(colors@[k] == prev[k]);
                } else {
                    assert(k as u32 == i);
                    assert(sample_log.len() == samples && colors@[k] == spec_sum_colors(
                        sample_log,
                    ) && all_samples_of(sample_log, *camera, *world, k as u32, j) && (
                    spec_world_wf(*world) ==> all_nonneg(sample_log)));
                }
            }
        }
        i = i + 1;
    }
    colors
}

/// The exact, unsaturated channelwise totals of a sequence of colors.
pub open spec fn exact_sum(s: Seq<Color>) -> (int, int, int)
    decreases s.len(),
{
    if s.len() == 0 {
        (0, 0, 0)
    } else {
        let rest = exact_sum(s.drop_last());
        (rest.0 + s.last().r@, rest.1 + s.last().g@, rest.2 + s.last().b@)
    }
}

/// The saturating running sum of a sequence of colors, in order: how
/// the renderer accumulates radiance.
pub open spec fn spec_sum_colors(s: Seq<Color>) -> Color
    decreases s.len(),
{
    if s.len() == 0 {
        spec_black()
    } else {
        crate::color::spec_add(spec_sum_colors(s.drop_last()), s.last())
    }
}

/// Whether every color of a sequence is nonnegative.
pub open spec fn all_nonneg(s: Seq<Color>) -> bool {
    forall|k: int| 0 <= k < s.len() ==> spec_nonneg(#[trigger] s[k])
}

/// The samples of a render in single-threaded order: the per-worker
/// slices concatenated in worker order.
pub open spec fn concat_parts(parts: Seq<Seq<Color>>) -> Seq<Color>
    decreases parts.len(),
{
    if parts.len() == 0 {
        Seq::empty()
    } else {
        concat_parts(parts.drop_last()) + parts.last()
    }
}

/// Each worker's partial sum, in worker order.
pub open spec fn partial_sums(parts: Seq<Seq<Color>>) -> Seq<Color> {
    parts.map_values(|p: Seq<Color>| spec_sum_colors(p))
}

/// Exact totals of nonnegative colors are nonnegative.
proof fn lemma_exact_nonneg(s: Seq<Color>)
    requires
        all_nonneg(s),
    ensures
        exact_sum(s).0 >= 0,
        exact_sum(s).1 >= 0,
        exact_sum(s).2 >= 0,
    decreases s.len(),
{
    if s.len() > 0 {
        assert(spec_nonneg(s[s.len() - 1]));
        assert(all_nonneg(s.drop_last()));
        lemma_exact_nonneg(s.drop_last());
    }
}

/// When every color is nonnegative and the exact totals fit, the
/// saturating sum is the exact sum.
proof fn lemma_sum_exact(s: Seq<Color>)
    requires
        all_nonneg(s),
        exact_sum(s).0 <= i64::MAX,
        exact_sum(s).1 <= i64::MAX,
        exact_sum(s).2 <= i64::MAX,
    ensures
        spec_sum_colors(s).r@ == exact_sum(s).0,
        spec_sum_colors(s).g@ == exact_sum(s).1,
        spec_sum_colors(s).b@ == exact_sum(s).2,
    decreases s.len(),
{
    if s.len() > 0 {
        assert(spec_nonneg(s[s.len() - 1]));
        assert(all_nonneg(s.drop_last()));
        lemma_exact_nonneg(s.drop_last());
        lemma_sum_exact(s.drop_last());
    }
}

/// Exact totals add over concatenation.
proof fn lemma_exact_sum_concat(a: Seq<Color>, b: Seq<Color>)
    ensures
        exact_sum(a + b).0 == exact_sum(a).0 + exact_sum(b).0,
        exact_sum(a + b).1 == exact_sum(a).1 + exact_sum(b).1,
        exact_sum(a + b).2 == exact_sum(a).2 + exact_sum(b).2,
    decreases b.len(),
{
    if b.len() == 0 {
        assert(a + b =~= a);
    } else {
        lemma_exact_sum_concat(a, b.drop_last());
        assert((a + b).drop_last() =~= a + b.drop_last());
        assert((a + b).last() == b.last());
    }
}

/// Concatenating slices of nonnegative colors yields nonnegative colors.
proof fn lemma_all_nonneg_concat(parts: Seq<Seq<Color>>)
    requires
        forall|i: int| 0 <= i < parts.len() ==> all_nonneg(#[trigger] parts[i]),
    ensures
        all_nonneg(concat_parts(parts)),
    decreases parts.len(),
{
    if parts.len() > 0 {
        let pre = parts.drop_last();
        let last = parts.last();
        assert(forall|i: int| 0 <= i < pre.len() ==> all_nonneg(#[trigger] pre[i]));
        lemma_all_nonneg_concat(pre);
        let whole = concat_parts(pre) + last;
        assert(all_nonneg(last));
        assert forall|k: int| 0 <= k < whole.len() implies spec_nonneg(#[trigger] whole[k]) by {
            if k < concat_parts(pre).len() {
                assert(whole[k] == concat_parts(pre)[k]);
            } else {
                assert(whole[k] == last[k - concat_parts(pre).len()]);
            }
        }
    }
}

/// The per-worker partial sums are nonnegative and total exactly what a
/// single pass over all samples totals.
proof fn lemma_parts_sum(parts: Seq<Seq<Color>>)
    requires
        forall|i: int| 0 <= i < parts.len() ==> all_nonneg(#[trigger] parts[i]),
        exact_sum(concat_parts(parts)).0 <= i64::MAX,
        exact_sum(concat_parts(parts)).1 <= i64::MAX,
        exact_sum(concat_parts(parts)).2 <= i64::MAX,
    ensures
        all_nonneg(partial_sums(parts)),
        exact_sum(partial_sums(parts)) == exact_sum(concat_parts(parts)),
    decreases parts.len(),
{
    if parts.len() == 0 {
        assert(partial_sums(parts) =~= Seq::<Color>::empty());
        assert(concat_parts(parts) =~= Seq::<Color>::empty());
    } else {
        let pre = parts.drop_last();
        let last = parts.last();
        assert(forall|i: int| 0 <= i < pre.len() ==> all_nonneg(#[trigger] pre[i]));
        assert(all_nonneg(last));
        lemma_all_nonneg_concat(pre);
        lemma_exact_nonneg(concat_parts(pre));
        lemma_exact_nonneg(last);
        lemma_exact_sum_concat(concat_parts(pre), last);
        lemma_parts_sum(pre);
        lemma_sum_exact(last);
        let m = partial_sums(parts);
        assert(m.drop_last() =~= partial_sums(pre));
        assert(m.last() == spec_sum_colors(last));
        assert(exact_sum(m).0 == exact_sum(partial_sums(pre)).0 + spec_sum_colors(last).r@);
        assert forall|k: int| 0 <= k < m.len() implies spec_nonneg(#[trigger] m[k]) by {
            if k < m.len() - 1 {
                assert(m[k] == partial_sums(pre)[k]);
            } else {
                assert(m[k] == spec_sum_colors(last));
            }
        }
    }
}

/// Summing the workers' independent partial sums yields exactly the sum
/// of a single-threaded pass over the same samples in the same order,
/// provided every sample is nonnegative radiance and the grand totals
/// stay on the fixed-point grid. Dividing both by the same total sample
/// count therefore yields the same pixel.
pub proof fn lemma_aggregation_equivalence(parts: Seq<Seq<Color>>)
    requires
        forall|i: int| 0 <= i < parts.len() ==> all_nonneg(#[trigger] parts[i]),
        exact_sum(concat_parts(parts)).0 <= i64::MAX,
        exact_sum(concat_parts(parts)).1 <= i64::MAX,
        exact_sum(concat_parts(parts)).2 <= i64::MAX,
    ensures
        spec_sum_colors(partial_sums(parts)) == spec_sum_colors(concat_parts(parts)),
{
    lemma_parts_sum(parts);
    lemma_all_nonneg_concat(parts);
    lemma_sum_exact(concat_parts(parts));
    lemma_sum_exact(partial_sums(parts));
    let a = spec_sum_colors(partial_sums(parts));
    let b = spec_sum_colors(concat_parts(parts));
    assert(a.r@ == b.r@ && a.g@ == b.g@ && a.b@ == b.b@);
    assert(a.r == b.r && a.g == b.g && a.b == b.b);
}

} // verus!
