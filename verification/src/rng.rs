//! The renderer's one source of randomness.
//!
//! Everything stochastic (antialias jitter, lens sampling, material
//! scattering, rejection sampling) draws through `random_unit`, which turns
//! one 16-bit draw into a fixed-point value on the grid of `[0, 1)`.

use vstd::prelude::*;
use crate::fx::{Fx, SCALE};

verus! {

/// Relies on rand::random::<T>: a fresh draw from the thread-local
/// generator. Nothing is assumed of the value beyond its type.
pub assume_specification<T>[ rand::random::<T> ]() -> (r: T)
    where
        rand::distributions::Standard: rand::distributions::Distribution<T>,
;

/// One uniform fixed-point draw in `[0, 1)`: each of the `SCALE` grid
/// points is equally likely, since every 16-bit value is.
pub fn random_unit() -> (r: Fx)
    ensures
        0 <= r@ < SCALE,
{
    let raw: u16 = rand::random::<u16>();
    Fx { raw: raw as i64 }
}

} // verus!
