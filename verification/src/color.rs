//! Radiance and attenuation values: three unclamped fixed-point channels,
//! averaged, gamma-corrected and quantized only at the final write.

use vstd::prelude::*;
use crate::fx::{Fx, SCALE, fx, fx_add, fx_mul, fx_div, fx_sqrt, tdiv, lemma_tdiv_bounds};
use crate::rng::random_unit;

verus! {

/// A color: red, green and blue radiance channels.
#[derive(Clone, Copy, PartialEq, Eq, Structural, Debug)]
pub struct Color {
    pub r: Fx,
    pub g: Fx,
    pub b: Fx,
}

/// Channelwise sum.
pub open spec fn spec_add(a: Color, b: Color) -> Color {
    Color { r: fx(fx_add(a.r@, b.r@)), g: fx(fx_add(a.g@, b.g@)), b: fx(fx_add(a.b@, b.b@)) }
}

/// Channelwise product, as used for attenuation.
pub open spec fn spec_mul(a: Color, b: Color) -> Color {
    Color { r: fx(fx_mul(a.r@, b.r@)), g: fx(fx_mul(a.g@, b.g@)), b: fx(fx_mul(a.b@, b.b@)) }
}

/// Product with a scalar.
pub open spec fn spec_scale(a: Color, s: int) -> Color {
    Color { r: fx(fx_mul(a.r@, s)), g: fx(fx_mul(a.g@, s)), b: fx(fx_mul(a.b@, s)) }
}

/// Pure black: the color of an absorbed or cut-off ray.
pub open spec fn spec_black() -> Color {
    Color { r: fx(0), g: fx(0), b: fx(0) }
}

/// Opaque white: full radiance on every channel.
pub open spec fn spec_white() -> Color {
    Color { r: fx(SCALE as int), g: fx(SCALE as int), b: fx(SCALE as int) }
}

/// Whether every channel is nonnegative, as every radiance value is.
pub open spec fn spec_nonneg(c: Color) -> bool {
    0 <= c.r@ && 0 <= c.g@ && 0 <= c.b@
}

/// Clamp a quantized channel into the eight-bit display range.
pub open spec fn sat_u8_range(v: int) -> int {
    if v < 0 {
        0
    } else if v > 65535 {
        65535
    } else {
        v
    }
}

/// The displayed value of one accumulated channel: divide by the sample
/// count, take the square root for gamma, scale to 255 and truncate.
pub open spec fn spec_channel(c: int, n: int) -> int {
    let scale = fx_div(SCALE as int, n * (SCALE as int));
    let lin = fx_mul(scale, c);
    let g = fx_sqrt(lin);
    sat_u8_range(tdiv(g * 255, SCALE as int))
}

impl Color {
    /// Channelwise sum.
    pub fn add(self, rhs: Color) -> (r: Color)
        ensures
            r == spec_add(self, rhs),
    {
        Color { r: self.r.add(rhs.r), g: self.g.add(rhs.g), b: self.b.add(rhs.b) }
    }

    /// Channelwise product.
    pub fn mul(self, rhs: Color) -> (r: Color)
        ensures
            r == spec_mul(self, rhs),
    {
        Color { r: self.r.mul(rhs.r), g: self.g.mul(rhs.g), b: self.b.mul(rhs.b) }
    }

    /// Product with a scalar.
    pub fn scale(self, s: Fx) -> (r: Color)
        ensures
            r == spec_scale(self, s@),
    {
        Color { r: self.r.mul(s), g: self.g.mul(s), b: self.b.mul(s) }
    }

    /// Pure black.
    pub fn black() -> (r: Color)
        ensures
            r == spec_black(),
    {
        Color { r: Fx::zero(), g: Fx::zero(), b: Fx::zero() }
    }

    /// Opaque white.
    pub fn white() -> (c: Color)
        ensures
            c == spec_white(),
    {
        Color { r: Fx { raw: SCALE }, g: Fx { raw: SCALE }, b: Fx { raw: SCALE } }
    }

    /// Average the accumulated radiance over the sample count, apply
    /// square-root gamma correction, and quantize each channel for the
    /// display range. The caller streams the triple out.
    pub fn write(self, sample_number: u32) -> (out: (u16, u16, u16))
        ensures
            out.0 as int == spec_channel(self.r@, sample_number as int),
            out.1 as int == spec_channel(self.g@, sample_number as int),
            out.2 as int == spec_channel(self.b@, sample_number as int),
    {
        let scale: Fx = Fx::from_int(1).div(Fx::from_u32(sample_number));
        (
            write_channel(self.r, scale, Ghost(sample_number as int)),
            write_channel(self.g, scale, Ghost(sample_number as int)),
            write_channel(self.b, scale, Ghost(sample_number as int)),
        )
    }

    /// A color whose channels are independent uniform draws over `[0, 1)`.
    pub fn random() -> (c: Color)
        ensures
            0 <= c.r@ < SCALE,
            0 <= c.g@ < SCALE,
            0 <= c.b@ < SCALE,
    {
        Color { r: random_unit(), g: random_unit(), b: random_unit() }
    }
}

/// Gamma-correct and quantize one channel, given the precomputed
/// per-sample scale.
fn write_channel(c: Fx, scale: Fx, n: Ghost<int>) -> (out: u16)
    requires
        scale@ == fx_div(SCALE as int, n@ * (SCALE as int)),
    ensures
        out as int == spec_channel(c@, n@),
{
    let lin: Fx = scale.mul(c);
    let g: Fx = lin.sqrt();
    let wide: u128 = (g.raw as u128) * 255;
    let q: u128 = wide / 65536;
    proof {
        lemma_tdiv_bounds((g.raw as int) * 255, SCALE as int);
    }
    if q > 65535 {
        65535u16
    } else {
        q as u16
    }
}

} // verus!
