//! Three-component vectors over fixed point, used both as positions and
//! as directions, with the sampling primitives the renderer draws from.

use vstd::prelude::*;
use crate::fx::{
    Fx, SCALE, fx, fx_add, fx_sub, fx_mul, fx_div, fx_neg, fx_sqrt,
    lemma_fx_mul_bounds, lemma_fx_mul_abs_le,
};
use crate::rng::random_unit;

verus! {

/// A point or direction in space; each component is a fixed-point scalar.
#[derive(Clone, Copy, PartialEq, Eq, Structural, Debug)]
pub struct Point {
    pub x: Fx,
    pub y: Fx,
    pub z: Fx,
}

/// The point with the given raw coordinates.
pub open spec fn pt3(x: int, y: int, z: int) -> Point {
    Point { x: fx(x), y: fx(y), z: fx(z) }
}

/// Componentwise sum.
pub open spec fn spec_add(a: Point, b: Point) -> Point {
    Point { x: fx(fx_add(a.x@, b.x@)), y: fx(fx_add(a.y@, b.y@)), z: fx(fx_add(a.z@, b.z@)) }
}

/// Componentwise difference.
pub open spec fn spec_sub(a: Point, b: Point) -> Point {
    Point { x: fx(fx_sub(a.x@, b.x@)), y: fx(fx_sub(a.y@, b.y@)), z: fx(fx_sub(a.z@, b.z@)) }
}

/// Componentwise product.
pub open spec fn spec_mul(a: Point, b: Point) -> Point {
    Point { x: fx(fx_mul(a.x@, b.x@)), y: fx(fx_mul(a.y@, b.y@)), z: fx(fx_mul(a.z@, b.z@)) }
}

/// Product with a scalar.
pub open spec fn spec_scale(a: Point, s: int) -> Point {
    Point { x: fx(fx_mul(a.x@, s)), y: fx(fx_mul(a.y@, s)), z: fx(fx_mul(a.z@, s)) }
}

/// Quotient by a scalar.
pub open spec fn spec_divide(a: Point, s: int) -> Point {
    Point { x: fx(fx_div(a.x@, s)), y: fx(fx_div(a.y@, s)), z: fx(fx_div(a.z@, s)) }
}

/// Componentwise negation.
pub open spec fn spec_negate(a: Point) -> Point {
    Point { x: fx(fx_neg(a.x@)), y: fx(fx_neg(a.y@)), z: fx(fx_neg(a.z@)) }
}

/// Scalar product, summed left to right.
pub open spec fn spec_dot(a: Point, b: Point) -> int {
    fx_add(fx_add(fx_mul(a.x@, b.x@), fx_mul(a.y@, b.y@)), fx_mul(a.z@, b.z@))
}

/// Cross product.
pub open spec fn spec_cross(a: Point, b: Point) -> Point {
    Point {
        x: fx(fx_sub(fx_mul(a.y@, b.z@), fx_mul(a.z@, b.y@))),
        y: fx(fx_sub(fx_mul(a.z@, b.x@), fx_mul(a.x@, b.z@))),
        z: fx(fx_sub(fx_mul(a.x@, b.y@), fx_mul(a.y@, b.x@))),
    }
}

/// Squared Euclidean norm.
pub open spec fn spec_norm_squared(a: Point) -> int {
    spec_dot(a, a)
}

/// Euclidean norm on the fixed-point grid.
pub open spec fn spec_norm(a: Point) -> int {
    fx_sqrt(spec_norm_squared(a))
}

/// The vector rescaled to (approximately) unit length.
pub open spec fn spec_unit(a: Point) -> Point {
    spec_divide(a, spec_norm(a))
}

impl Point {
    /// Componentwise sum.
    pub fn add(self, rhs: Point) -> (r: Point)
        ensures
            r == spec_add(self, rhs),
    {
        Point { x: self.x.add(rhs.x), y: self.y.add(rhs.y), z: self.z.add(rhs.z) }
    }

    /// Componentwise difference.
    pub fn sub(self, rhs: Point) -> (r: Point)
        ensures
            r == spec_sub(self, rhs),
    {
        Point { x: self.x.sub(rhs.x), y: self.y.sub(rhs.y), z: self.z.sub(rhs.z) }
    }

    /// Componentwise product.
    pub fn mul(self, rhs: Point) -> (r: Point)
        ensures
            r == spec_mul(self, rhs),
    {
        Point { x: self.x.mul(rhs.x), y: self.y.mul(rhs.y), z: self.z.mul(rhs.z) }
    }

    /// Product with a scalar.
    pub fn scale(self, s: Fx) -> (r: Point)
        ensures
            r == spec_scale(self, s@),
    {
        Point { x: self.x.mul(s), y: self.y.mul(s), z: self.z.mul(s) }
    }

    /// Quotient by a scalar.
    pub fn divide(self, s: Fx) -> (r: Point)
        ensures
            r == spec_divide(self, s@),
    {
        Point { x: self.x.div(s), y: self.y.div(s), z: self.z.div(s) }
    }

    /// Componentwise negation.
    pub fn negate(self) -> (r: Point)
        ensures
            r == spec_negate(self),
    {
        Point { x: self.x.neg(), y: self.y.neg(), z: self.z.neg() }
    }

    /// Scalar product.
    pub fn dot(self, rhs: Point) -> (r: Fx)
        ensures
            r@ == spec_dot(self, rhs),
    {
        self.x.mul(rhs.x).add(self.y.mul(rhs.y)).add(self.z.mul(rhs.z))
    }

    /// Cross product.
    pub fn cross(self, rhs: Point) -> (r: Point)
        ensures
            r == spec_cross(self, rhs),
    {
        Point {
            x: self.y.mul(rhs.z).sub(self.z.mul(rhs.y)),
            y: self.z.mul(rhs.x).sub(self.x.mul(rhs.z)),
            z: self.x.mul(rhs.y).sub(self.y.mul(rhs.x)),
        }
    }

    /// A point whose components are independent uniform draws over
    /// `[min, max)` on the fixed-point grid: each is a `[0, 1)` draw
    /// stretched over the range and shifted to its start.
    pub fn random(min: Fx, max: Fx) -> (r: Point)
        ensures
            min@ <= max@ && max@ - min@ <= i64::MAX ==> {
                &&& min@ <= r.x@ <= max@
                &&& min@ <= r.y@ <= max@
                &&& min@ <= r.z@ <= max@
            },
            exists|u: int| #![trigger fx_mul(u, fx_sub(max@, min@))]
                0 <= u < SCALE && r.x@ == fx_add(fx_mul(u, fx_sub(max@, min@)), min@),
            exists|u: int| #![trigger fx_mul(u, fx_sub(max@, min@))]
                0 <= u < SCALE && r.y@ == fx_add(fx_mul(u, fx_sub(max@, min@)), min@),
            exists|u: int| #![trigger fx_mul(u, fx_sub(max@, min@))]
                0 <= u < SCALE && r.z@ == fx_add(fx_mul(u, fx_sub(max@, min@)), min@),
    {
        let d: Fx = max.sub(min);
        let ux = random_unit();
        let uy = random_unit();
        let uz = random_unit();
        let x: Fx = ux.mul(d).add(min);
        let y: Fx = uy.mul(d).add(min);
        let z: Fx = uz.mul(d).add(min);
        proof {
            assert(fx_mul(ux@, fx_sub(max@, min@)) == fx_mul(ux@, d@));
            assert(fx_mul(uy@, fx_sub(max@, min@)) == fx_mul(uy@, d@));
            assert(fx_mul(uz@, fx_sub(max@, min@)) == fx_mul(uz@, d@));
            if min@ <= max@ && max@ - min@ <= i64::MAX {
                lemma_fx_mul_bounds_all(d@);
            }
        }
        Point { x, y, z }
    }

    /// Rejection-sample a point inside the sphere of the given radius
    /// around the origin. Acceptance deliberately compares the squared
    /// norm against the radius itself, not its square: a scale quirk
    /// this renderer's look depends on.
    pub fn random_in_sphere(radius: Fx) -> (r: Point)
        requires
            0 < radius@ <= i64::MAX / 2,
        ensures
            spec_norm_squared(r) < radius@,
            -radius@ <= r.x@ <= radius@,
            -radius@ <= r.y@ <= radius@,
            -radius@ <= r.z@ <= radius@,
    {
        // the rejection loop terminates almost surely; the counter only
        // bounds it formally, and its exhaustion falls back to the
        // center, which every caller accepts
        let mut fuel: u64 = 0;
        while fuel < 0xFFFFFFFFFFFFFFFF
            invariant
                0 < radius@ <= i64::MAX / 2,
            decreases 0xFFFFFFFFFFFFFFFFu64 - fuel,
        {
            let p = Point::random(radius.neg(), radius);
            if p.norm_squared().lt(radius) {
                return p;
            }
            fuel = fuel + 1;
        }
        let origin = Point { x: Fx::zero(), y: Fx::zero(), z: Fx::zero() };
        proof {
            lemma_norm_squared_zero();
        }
        origin
    }

    /// A lens sample: a point uniform over the disk of the given radius
    /// in the XY plane, by rejection over the unit disk and scaling.
    pub fn random_in_circle(radius: Fx) -> (r: Point)
        ensures
            r.z@ == 0,
            radius@ >= 0 ==> -radius@ <= r.x@ <= radius@ && -radius@ <= r.y@ <= radius@,
    {
        let one = Fx::from_int(1);
        let two = Fx::from_int(2);
        // as with the sphere sampler, the counter only bounds the
        // rejection loop formally
        let mut fuel: u64 = 0;
        while fuel < 0xFFFFFFFFFFFFFFFF
            invariant
                one@ == SCALE,
                two@ == 2 * SCALE,
            decreases 0xFFFFFFFFFFFFFFFFu64 - fuel,
        {
            let u = random_unit();
            let v = random_unit();
            proof {
                lemma_fx_mul_bounds(u@, two@);
                lemma_fx_mul_bounds(v@, two@);
            }
            let x = u.mul(two).sub(one);
            let y = v.mul(two).sub(one);
            if x.mul(x).add(y.mul(y)).lt(one) {
                proof {
                    if radius@ >= 0 {
                        lemma_fx_mul_abs_le(x@, radius@);
                        lemma_fx_mul_abs_le(y@, radius@);
                    }
                }
                return Point { x: x.mul(radius), y: y.mul(radius), z: Fx::zero() };
            }
            fuel = fuel + 1;
        }
        Point { x: Fx::zero(), y: Fx::zero(), z: Fx::zero() }
    }

    /// A unit vector in a direction uniform over the sphere: some
    /// in-sphere sample, rescaled to unit length.
    pub fn random_unit_in_sphere(radius: Fx) -> (r: Point)
        requires
            0 < radius@ <= i64::MAX / 2,
        ensures
            exists|v: Point| r == spec_unit(v) && spec_norm_squared(v) < radius@,
    {
        let v = Point::random_in_sphere(radius);
        let r = v.unit();
        proof {
            assert(r == spec_unit(v) && spec_norm_squared(v) < radius@);
        }
        r
    }

    /// The vector rescaled to (approximately) unit length.
    pub fn unit(&self) -> (r: Point)
        ensures
            r == spec_unit(*self),
    {
        self.divide(self.norm())
    }

    /// Squared Euclidean norm.
    pub fn norm_squared(&self) -> (r: Fx)
        ensures
            r@ == spec_norm_squared(*self),
    {
        self.dot(*self)
    }

    /// Euclidean norm.
    pub fn norm(&self) -> (r: Fx)
        ensures
            r@ == spec_norm(*self),
    {
        self.dot(*self).sqrt()
    }

    /// Whether every component vanishes. Any magnitude below the
    /// fixed-point grid unit collapses to exact zero, so this tests
    /// for the zero vector.
    pub fn near_zero(&self) -> (r: bool)
        ensures
            r == (self.x@ == 0 && self.y@ == 0 && self.z@ == 0),
    {
        (self.x.raw == 0) && (self.y.raw == 0) && (self.z.raw == 0)
    }
}

/// The zero vector has squared norm zero.
pub proof fn lemma_norm_squared_zero()
    ensures
        spec_norm_squared(Point { x: fx(0), y: fx(0), z: fx(0) }) == 0,
{
    lemma_fx_mul_bounds(0, 0);
}

/// Bounds for all three uniform component draws at once.
proof fn lemma_fx_mul_bounds_all(d: int)
    requires
        0 <= d,
    ensures
        forall|u: int| 0 <= u <= SCALE ==> 0 <= #[trigger] fx_mul(u, d) <= d,
{
    assert forall|u: int| 0 <= u <= SCALE implies 0 <= #[trigger] fx_mul(u, d) <= d by {
        lemma_fx_mul_bounds(u, d);
    }
}

} // verus!
