//! The closed set of scattering behaviors: diffuse, metal and dielectric.

use vstd::prelude::*;
use crate::color::{Color, spec_nonneg};
use crate::ray::Ray;
use crate::world::Record;

pub mod dielectric;
pub mod diffuse;
pub mod metal;

verus! {

/// A scattering behavior: given the incoming ray and the hit record,
/// produce the outgoing ray and an attenuation. It never fails.
pub trait Material {
    /// Whether the material's parameters lie in their documented ranges.
    spec fn wf(&self) -> bool;

    /// Scatter the incoming ray at the hit: the outgoing ray starts at
    /// the hit point, one bounce deeper; the attenuation of a material
    /// in range is never negative.
    fn scatter(&self, r_in: Ray, hit: Record) -> (res: (Ray, Color))
        requires
            r_in.depth < u32::MAX,
        ensures
            res.0.depth == r_in.depth + 1,
            res.0.orig == hit.p,
            self.wf() ==> spec_nonneg(res.1),
    ;
}

/// A material as stored in a scene: one of the closed set.
#[derive(Clone, Copy)]
pub enum Texture {
    Diffuse(diffuse::Diffuse),
    Metal(metal::Metal),
    Dielectric(dielectric::Dielectric),
}

/// Whether a stored material's parameters lie in their documented ranges.
pub open spec fn texture_wf(t: Texture) -> bool {
    match t {
        Texture::Diffuse(d) => d.wf(),
        Texture::Metal(m) => m.wf(),
        Texture::Dielectric(d) => d.wf(),
    }
}

/// Every outcome of scattering the incoming ray at a hit on the given
/// material: the dispatch over the closed set of behaviors.
pub open spec fn spec_scatter(tex: Texture, r_in: Ray, hit: Record, out: Ray, att: Color) -> bool {
    match tex {
        Texture::Diffuse(d) => diffuse::spec_diffuse_scatter(d, r_in, hit, out, att),
        Texture::Metal(m) => metal::spec_metal_scatter(m, r_in, hit, out, att),
        Texture::Dielectric(d) => dielectric::spec_dielectric_scatter(d, r_in, hit, out, att),
    }
}

} // verus!
