//! Intersection, scattering, pruning and scene behavior.

use ray_tracing_we::color::Color;
use ray_tracing_we::fx::{Fx, SCALE};
use ray_tracing_we::material::{Texture, Material};
use ray_tracing_we::material::dielectric::Dielectric;
use ray_tracing_we::material::diffuse::Diffuse;
use ray_tracing_we::material::metal::Metal;
use ray_tracing_we::point::Point;
use ray_tracing_we::ray::{Ray, T_MIN_RAW};
use ray_tracing_we::world::{World, Record, Hitable};
use ray_tracing_we::world::sphere::Sphere;
use ray_tracing_we::Camera;

fn pt(x: i64, y: i64, z: i64) -> Point {
    Point { x: Fx::from_int(x), y: Fx::from_int(y), z: Fx::from_int(z) }
}

fn raw(v: i64) -> Fx {
    Fx { raw: v }
}

fn t_interval() -> (Fx, Fx) {
    (raw(T_MIN_RAW), raw(i64::MAX))
}

fn gray() -> Texture {
    Texture::Diffuse(Diffuse::new(Color { r: raw(32768), g: raw(32768), b: raw(32768) }))
}

#[test]
fn sphere_hit_through_center_is_distance_minus_radius() {
    let s = Sphere::new(pt(0, 0, -4), Fx::from_int(1));
    let ray = Ray::new(pt(0, 0, 0), pt(0, 0, -1), 0);
    let (t_min, t_max) = t_interval();
    assert_eq!(s.hit(&ray, t_min, t_max), Some(Fx::from_int(3)));
}

#[test]
fn sphere_miss_on_perpendicular_offset() {
    let s = Sphere::new(pt(2, 0, -4), Fx::from_int(1));
    let ray = Ray::new(pt(0, 0, 0), pt(0, 0, -1), 0);
    let (t_min, t_max) = t_interval();
    assert_eq!(s.hit(&ray, t_min, t_max), None);
}

#[test]
fn sphere_hit_from_inside_takes_larger_root() {
    let s = Sphere::new(pt(0, 0, 0), Fx::from_int(2));
    let ray = Ray::new(pt(0, 0, 0), pt(0, 0, -1), 0);
    let (t_min, t_max) = t_interval();
    assert_eq!(s.hit(&ray, t_min, t_max), Some(Fx::from_int(2)));
}

#[test]
fn record_flips_normal_against_the_ray() {
    let ray = Ray::new(pt(0, 0, 0), pt(0, 0, -1), 0);
    let rec = Record::new(&ray, Fx::from_int(3), pt(0, 0, -3), pt(0, 0, -1));
    assert!(!rec.front_face);
    assert_eq!(rec.normal, pt(0, 0, 1));
    assert!(ray.dir.dot(rec.normal).raw <= 0);

    let rec2 = Record::new(&ray, Fx::from_int(3), pt(0, 0, -3), pt(0, 0, 1));
    assert!(rec2.front_face);
    assert_eq!(rec2.normal, pt(0, 0, 1));
    assert!(ray.dir.dot(rec2.normal).raw <= 0);
}

#[test]
fn negative_radius_flips_the_outward_normal() {
    let ray = Ray::new(pt(0, 0, 0), pt(0, 0, -1), 0);
    let (t_min, t_max) = t_interval();

    let solid = Sphere::new(pt(0, 0, -4), Fx::from_int(1));
    assert_eq!(solid.hit(&ray, t_min, t_max), Some(Fx::from_int(3)));
    let rec = solid.get_records(&ray, Fx::from_int(3));
    assert!(rec.front_face);

    // the same shell with a negative radius faces inward: the same hit
    // point reports a back face, which is what models a glass bubble
    let hollow = Sphere::new(pt(0, 0, -4), Fx::from_int(-1));
    assert_eq!(hollow.hit(&ray, t_min, t_max), Some(Fx::from_int(3)));
    let rec2 = hollow.get_records(&ray, Fx::from_int(3));
    assert!(!rec2.front_face);
    assert_eq!(rec2.normal, pt(0, 0, 1));
}

#[test]
fn record_to_ray_leaves_hit_point() {
    let ray = Ray::new(pt(0, 0, 0), pt(0, 0, -1), 4);
    let rec = Record::new(&ray, Fx::from_int(3), pt(0, 0, -3), pt(0, 0, 1));
    let out = rec.to_ray(5);
    assert_eq!(out.orig, pt(0, 0, -3));
    assert_eq!(out.depth, 5);
}

#[test]
fn recursion_cutoff_returns_black() {
    let mut world = World::new();
    world.add_sphere(pt(0, 0, -4), Fx::from_int(1), gray());
    let ray = Ray::new(pt(0, 0, 0), pt(0, 0, -1), 51);
    assert_eq!(ray.color(&world), Color::black());
}

#[test]
fn background_gradient_straight_up_is_sky() {
    let world = World::new();
    let ray = Ray::new(pt(0, 0, 0), pt(0, 1, 0), 0);
    let c = ray.color(&world);
    assert_eq!(c, Color { r: raw(32768), g: raw(45875), b: raw(65536) });
}

#[test]
fn reflectance_head_on_is_base_reflectance() {
    let d = Dielectric::new(raw(98304));
    let r0 = d.reflectance(Fx::from_int(1), raw(98304));
    assert_eq!(r0.raw, 2621);
}

#[test]
fn reflectance_grazing_reaches_one() {
    let d = Dielectric::new(raw(98304));
    let r = d.reflectance(Fx::from_int(0), raw(98304));
    assert_eq!(r.raw, SCALE);
}

#[test]
fn reflectance_stays_between_base_and_one() {
    let d = Dielectric::new(raw(98304));
    let mid = d.reflectance(raw(32768), raw(98304));
    assert!(2621 <= mid.raw && mid.raw <= SCALE);
}

#[test]
fn metal_absorbs_fuzzed_ray_into_surface() {
    let m = Metal::new(Color { r: raw(62259), g: raw(6553), b: raw(3276) }, raw(32768));
    let incoming = Ray::new(pt(0, 0, 1), pt(0, 0, 1), 0);
    let rec = Record { t: Fx::from_int(1), p: pt(0, 0, 0), normal: pt(0, 0, 1), front_face: false };
    let (out, attenuation) = m.scatter(incoming, rec);
    assert!(out.dir.dot(pt(0, 0, 1)).raw <= 0);
    assert_eq!(attenuation, Color::black());
    assert_eq!(out.depth, 1);
    assert_eq!(out.orig, pt(0, 0, 0));
}

#[test]
fn metal_without_fuzz_reflects_exactly() {
    let albedo = Color { r: raw(62259), g: raw(6553), b: raw(3276) };
    let m = Metal::new(albedo, raw(0));
    let incoming = Ray::new(pt(0, 0, 1), pt(0, 0, -1), 2);
    let rec = Record { t: Fx::from_int(1), p: pt(0, 0, 0), normal: pt(0, 0, 1), front_face: true };
    let (out, attenuation) = m.scatter(incoming, rec);
    assert_eq!(out.dir, pt(0, 0, 1));
    assert_eq!(attenuation, albedo);
    assert_eq!(out.depth, 3);
}

#[test]
fn diffuse_scatter_keeps_albedo_and_advances_depth() {
    let albedo = Color { r: raw(19660), g: raw(3276), b: raw(26214) };
    let d = Diffuse::new(albedo);
    let incoming = Ray::new(pt(0, 0, 1), pt(0, 0, -1), 7);
    let rec = Record { t: Fx::from_int(1), p: pt(0, 0, 0), normal: pt(0, 0, 1), front_face: true };
    let (out, attenuation) = d.scatter(incoming, rec);
    assert_eq!(attenuation, albedo);
    assert_eq!(out.depth, 8);
    assert_eq!(out.orig, pt(0, 0, 0));
}

#[test]
fn dielectric_reflects_deterministically_beyond_critical_angle() {
    // leaving glass at 45 degrees: sin(45) * 1.5 > 1, total internal
    // reflection, so the outcome is the exact mirror image every time
    let d = Dielectric::new(raw(98304));
    let incoming = Ray::new(pt(0, 0, 1), pt(1, 0, -1), 0);
    let rec = Record { t: Fx::from_int(1), p: pt(0, 0, 0), normal: pt(0, 0, 1), front_face: false };
    let (out, attenuation) = d.scatter(incoming, rec);
    assert_eq!(out.dir, pt(1, 0, 1));
    assert_eq!(attenuation, Color::white());
    assert_eq!(out.depth, 1);
    assert_eq!(out.orig, pt(0, 0, 0));
}

#[test]
fn dielectric_head_on_reflects_or_refracts_along_the_axis() {
    let d = Dielectric::new(raw(98304));
    let incoming = Ray::new(pt(0, 0, 1), pt(0, 0, -1), 0);
    let rec = Record { t: Fx::from_int(1), p: pt(0, 0, 0), normal: pt(0, 0, 1), front_face: true };
    let (out, attenuation) = d.scatter(incoming, rec);
    assert_eq!(attenuation, Color::white());
    assert_eq!(out.depth, 1);
    assert_eq!(out.orig, pt(0, 0, 0));
    assert_eq!(out.dir.x.raw, 0);
    assert_eq!(out.dir.y.raw, 0);
    assert!(out.dir.z.raw == SCALE || out.dir.z.raw == -SCALE);
}

#[test]
fn bounding_box_prunes_on_empty_x_interval() {
    let aabb = Sphere::new_with_aabb(pt(-5, 0, 0), Fx::from_int(1), gray());
    let ray = Ray::new(pt(5, 0, 0), pt(1, 0, 0), 0);
    let (t_min, t_max) = t_interval();
    assert!(aabb.hit(&ray, t_min, t_max).is_none());
}

#[test]
fn bounding_box_delegates_to_nested_sphere() {
    let aabb = Sphere::new_with_aabb(pt(-5, 0, 0), Fx::from_int(1), gray());
    let ray = Ray::new(pt(0, 0, 0), pt(-1, 0, 0), 0);
    let (t_min, t_max) = t_interval();
    let hit = aabb.hit(&ray, t_min, t_max);
    assert!(hit.is_some());
    let (t, sphere, _texture) = hit.unwrap();
    assert_eq!(t, Fx::from_int(4));
    assert_eq!(sphere.get_center(), pt(-5, 0, 0));
}

#[test]
fn nearest_hit_keeps_the_smaller_parameter() {
    let mut world = World::new();
    world.add_sphere(pt(0, 0, -8), Fx::from_int(1), gray());
    world.add_sphere(pt(0, 0, -4), Fx::from_int(1), gray());
    let ray = Ray::new(pt(0, 0, 0), pt(0, 0, -1), 0);
    let hit = ray.object_hitted(&world);
    assert!(hit.is_some());
    let (t, sphere, _texture) = hit.unwrap();
    assert_eq!(t, Fx::from_int(3));
    assert_eq!(sphere.get_center(), pt(0, 0, -4));
}

#[test]
fn empty_world_hits_nothing() {
    let world = World::new();
    let ray = Ray::new(pt(0, 0, 0), pt(0, 0, -1), 0);
    assert!(ray.object_hitted(&world).is_none());
}

#[test]
fn world_from_vec_keeps_the_entries() {
    let entries = vec![
        (
            ray_tracing_we::world::Surface::Sphere(Sphere::new(pt(0, 0, -4), Fx::from_int(1))),
            gray(),
        ),
    ];
    let world = World::new_from_vec(entries);
    assert_eq!(world.objects.len(), 1);
    let ray = Ray::new(pt(0, 0, 0), pt(0, 0, -1), 0);
    let hit = ray.object_hitted(&world);
    assert!(hit.is_some());
    assert_eq!(hit.unwrap().0, Fx::from_int(3));
}

#[test]
fn collision_checked_insertion_rejects_overlap() {
    let mut world = World::new();
    world.add_sphere(pt(0, 0, 0), Fx::from_int(1), gray());
    assert_eq!(world.objects.len(), 1);
    let rejected = world.add_sphere_without_collision(pt(1, 0, 0), raw(32768), gray());
    assert!(!rejected);
    assert_eq!(world.objects.len(), 1);
}

#[test]
fn collision_checked_insertion_appends_when_clear() {
    let mut world = World::new();
    world.add_sphere(pt(0, 0, 0), Fx::from_int(1), gray());
    let accepted = world.add_sphere_without_collision(pt(3, 0, 0), raw(32768), gray());
    assert!(accepted);
    assert_eq!(world.objects.len(), 2);
}

#[test]
fn camera_derivation_exact() {
    let cam = Camera::new(
        pt(0, 0, 0),
        pt(0, 0, -1),
        200,
        Fx::from_int(2),
        Fx::from_int(1),
        raw(0),
        Fx::from_int(1),
    );
    assert_eq!(cam.image_width, 200);
    assert_eq!(cam.image_height, 100);
    assert_eq!(cam.lens_radius.raw, 0);
    assert_eq!(cam.dir, pt(0, 0, -1));
    assert_eq!(cam.viewport_height, Fx::from_int(2));
    assert_eq!(cam.viewport_width, Fx::from_int(4));
    assert_eq!(cam.u, pt(-1, 0, 0));
    assert_eq!(cam.v, pt(0, 1, 0));
    assert_eq!(cam.pixel_delta_u.x.raw, -1310);
}

#[test]
fn camera_rounds_the_image_height() {
    let cam = Camera::new(
        pt(0, 0, 0),
        pt(0, 0, -1),
        9,
        Fx::from_int(2),
        Fx::from_int(1),
        raw(0),
        Fx::from_int(1),
    );
    // 9 / 2 = 4.5 rounds to 5, where truncation would give 4
    assert_eq!(cam.image_height, 5);
}

#[test]
fn pixel_ray_starts_at_zero_bounces() {
    let cam = Camera::new(
        pt(0, 0, 0),
        pt(0, 0, -1),
        16,
        Fx::from_int(2),
        Fx::from_int(1),
        raw(13107),
        Fx::from_int(5),
    );
    let r = cam.pixel_ray(3, 2);
    assert_eq!(r.depth, 0);
}

#[test]
fn render_row_has_one_sum_per_pixel() {
    let cam = Camera::new(
        pt(0, 0, 0),
        pt(0, 0, -1),
        4,
        Fx::from_int(2),
        Fx::from_int(1),
        raw(0),
        Fx::from_int(1),
    );
    let mut world = World::new();
    world.add_sphere(pt(0, 0, -4), Fx::from_int(1), gray());
    let row = ray_tracing_we::render_row(&cam, &world, 0, 2);
    assert_eq!(row.len(), 4);
    for c in row {
        assert!(c.r.raw >= 0 && c.g.raw >= 0 && c.b.raw >= 0);
    }
}
