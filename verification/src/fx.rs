//! Signed 64-bit fixed-point scalars: the number type of the whole renderer.
//!
//! A value is stored as `raw` and denotes the real number `raw / SCALE`.
//! Every operation is total: results outside the representable range
//! saturate to the nearest bound, and division by zero saturates toward
//! the sign of the numerator. Each operation's contract states its exact
//! integer result.

use vstd::prelude::*;
use vstd::arithmetic::div_mod::{
    lemma_div_nonincreasing,
    lemma_div_pos_is_pos,
    lemma_div_is_ordered,
    lemma_div_multiples_vanish,
};
use vstd::arithmetic::mul::{
    lemma_mul_inequality,
    lemma_mul_nonnegative,
    lemma_mul_is_commutative,
    lemma_mul_unary_negation,
    lemma_mul_cancels_negatives,
    lemma_mul_strictly_positive,
};

verus! {

/// Number of raw units per unit value: the fixed-point scale.
pub const SCALE: i64 = 65536;

/// A real number in signed fixed point: `raw` denotes `raw / SCALE`.
#[derive(Clone, Copy, PartialEq, Eq, Structural, Debug)]
pub struct Fx {
    pub raw: i64,
}

impl View for Fx {
    type V = int;

    open spec fn view(&self) -> int {
        self.raw as int
    }
}

/// Saturation to the signed 64-bit range.
pub open spec fn sat64(v: int) -> int {
    if v > i64::MAX {
        i64::MAX as int
    } else if v < i64::MIN {
        i64::MIN as int
    } else {
        v
    }
}

/// Division truncating toward zero, as the machine division does.
/// (`/` on `int` rounds toward negative infinity instead.)
pub open spec fn tdiv(n: int, d: int) -> int
    recommends
        d != 0,
{
    if n == 0 {
        0
    } else if n > 0 && d > 0 {
        n / d
    } else if n < 0 && d < 0 {
        (n * -1) / (d * -1)
    } else if n < 0 {
        ((n * -1) / d) * -1
    } else {
        (n / (d * -1)) * -1
    }
}

/// Raw result of fixed-point addition.
pub open spec fn fx_add(a: int, b: int) -> int {
    sat64(a + b)
}

/// Raw result of fixed-point subtraction.
pub open spec fn fx_sub(a: int, b: int) -> int {
    sat64(a - b)
}

/// Raw result of fixed-point negation.
pub open spec fn fx_neg(a: int) -> int {
    sat64(-a)
}

/// Raw result of fixed-point multiplication: the exact product scaled
/// back down, truncated toward zero.
pub open spec fn fx_mul(a: int, b: int) -> int {
    sat64(tdiv(a * b, SCALE as int))
}

/// Raw result of fixed-point division. A zero divisor saturates toward
/// the sign of the numerator, in place of the infinities of a float.
pub open spec fn fx_div(a: int, b: int) -> int {
    if b == 0 {
        if a > 0 {
            i64::MAX as int
        } else if a < 0 {
            i64::MIN as int
        } else {
            0
        }
    } else {
        sat64(tdiv(a * SCALE, b))
    }
}

/// Raw value of an integer lifted into fixed point.
pub open spec fn fx_of_int(v: int) -> int {
    sat64(v * SCALE)
}

/// A nonnegative fixed-point value rounded to the nearest 32-bit count
/// (halves away from zero), saturating at both ends.
pub open spec fn spec_fx_round_u32(v: int) -> int {
    if v <= 0 {
        0
    } else {
        let ip = tdiv(v + 32768, SCALE as int);
        if ip > u32::MAX {
            u32::MAX as int
        } else {
            ip
        }
    }
}

/// The integer square root, defined by counting up: the largest `r`
/// with `r * r <= x`.
pub open spec fn isqrt(x: nat) -> nat
    decreases x,
{
    if x == 0 {
        0
    } else {
        let r = isqrt((x - 1) as nat);
        if (r + 1) * (r + 1) <= x {
            r + 1
        } else {
            r
        }
    }
}

/// Raw result of the fixed-point square root; a negative argument
/// (no real root) yields zero.
pub open spec fn fx_sqrt(a: int) -> int {
    if a <= 0 {
        0
    } else {
        isqrt((a * SCALE) as nat) as int
    }
}

/// The integer square root is sound: it is the floor of the real root.
pub proof fn lemma_isqrt_bounds(x: nat)
    ensures
        isqrt(x) * isqrt(x) <= x,
        x < (isqrt(x) + 1) * (isqrt(x) + 1),
    decreases x,
{
    if x > 0 {
        lemma_isqrt_bounds((x - 1) as nat);
        let r = isqrt((x - 1) as nat);
        if (r + 1) * (r + 1) <= x {
            assert(isqrt(x) == r + 1);
            assert(x < (r + 2) * (r + 2)) by (nonlinear_arith)
                requires
                    r >= 0,
                    x - 1 < (r + 1) * (r + 1),
                    x >= (r + 1) * (r + 1),
            ;
            assert(isqrt(x) * isqrt(x) <= x);
            assert(x < (isqrt(x) + 1) * (isqrt(x) + 1));
        } else {
            assert(isqrt(x) == r);
            assert(r * r <= x - 1 <= x);
            assert(x < (r + 1) * (r + 1));
            assert(isqrt(x) * isqrt(x) <= x);
            assert(x < (isqrt(x) + 1) * (isqrt(x) + 1));
        }
    } else {
        assert(isqrt(0nat) == 0);
        assert(0nat * 0nat == 0) by (nonlinear_arith);
        assert(1nat * 1nat == 1) by (nonlinear_arith);
    }
}

/// Any integer bracketed the same way as `isqrt(x)` is `isqrt(x)`.
pub proof fn lemma_isqrt_unique(x: nat, r: nat)
    requires
        r * r <= x,
        x < (r + 1) * (r + 1),
    ensures
        r == isqrt(x),
{
    let s = isqrt(x);
    lemma_isqrt_bounds(x);
    if r < s {
        lemma_mul_inequality((r + 1) as int, s as int, (r + 1) as int);
        lemma_mul_inequality((r + 1) as int, s as int, s as int);
        assert(false);
    }
    if s < r {
        lemma_mul_inequality((s + 1) as int, r as int, (s + 1) as int);
        lemma_mul_inequality((s + 1) as int, r as int, r as int);
        assert(false);
    }
}

/// Truncating division never grows the magnitude of the numerator
/// when the divisor is at least one in magnitude.
pub proof fn lemma_tdiv_bounds(n: int, d: int)
    requires
        d != 0,
    ensures
        n >= 0 ==> -n <= tdiv(n, d) <= n,
        n < 0 ==> n <= tdiv(n, d) <= -n,
        n >= 0 && d > 0 ==> 0 <= tdiv(n, d),
        n <= 0 && d > 0 ==> tdiv(n, d) <= 0,
{
    let nn: int = if n >= 0 { n } else { -n };
    let dd: int = if d >= 0 { d } else { -d };
    lemma_div_pos_is_pos(nn, dd);
    lemma_div_nonincreasing(nn, dd);
    assert(0 <= nn / dd <= nn);
    if n == 0 {
        assert(tdiv(n, d) == 0);
    } else if n > 0 && d > 0 {
        assert(tdiv(n, d) == nn / dd);
    } else if n < 0 && d < 0 {
        assert(n * -1 == nn && d * -1 == dd);
        assert(tdiv(n, d) == nn / dd);
    } else if n < 0 {
        assert(n * -1 == nn && d == dd);
        assert(tdiv(n, d) == (nn / dd) * -1);
    } else {
        assert(n == nn && d * -1 == dd);
        assert(tdiv(n, d) == (nn / dd) * -1);
    }
}

/// The fixed-point value with the given raw integer.
pub open spec fn fx(v: int) -> Fx
    recommends
        i64::MIN <= v <= i64::MAX,
{
    Fx { raw: v as i64 }
}

/// A product of nonnegative values is nonnegative, and a factor that is
/// at most one (on the fixed-point grid) cannot grow the other factor.
pub proof fn lemma_fx_mul_bounds(a: int, b: int)
    requires
        0 <= a,
        0 <= b,
    ensures
        0 <= fx_mul(a, b),
        a <= SCALE ==> fx_mul(a, b) <= b,
        b <= SCALE ==> fx_mul(a, b) <= a,
{
    lemma_mul_nonnegative(a, b);
    lemma_tdiv_bounds(a * b, SCALE as int);
    if a <= SCALE {
        lemma_mul_inequality(a, SCALE as int, b);
        lemma_tdiv_ordered(a * b, (SCALE as int) * b, SCALE as int);
        lemma_div_multiples_vanish(b, SCALE as int);
        lemma_mul_nonnegative(SCALE as int, b);
    }
    if b <= SCALE {
        lemma_mul_inequality(b, SCALE as int, a);
        lemma_mul_is_commutative(a, b);
        lemma_tdiv_ordered(a * b, (SCALE as int) * a, SCALE as int);
        lemma_div_multiples_vanish(a, SCALE as int);
        lemma_mul_nonnegative(SCALE as int, a);
    }
}

/// Dividing by a larger-in-magnitude positive divisor yields a quotient
/// of at most one (on the fixed-point grid).
pub proof fn lemma_fx_div_le_one(a: int, b: int)
    requires
        0 < b <= i64::MAX,
        -b <= a <= b,
    ensures
        -(SCALE as int) <= fx_div(a, b) <= SCALE,
{
    let aa: int = if a >= 0 { a } else { -a };
    lemma_mul_inequality(aa, b, SCALE as int);
    lemma_mul_is_commutative(aa, SCALE as int);
    lemma_mul_is_commutative(b, SCALE as int);
    lemma_mul_nonnegative(aa, SCALE as int);
    lemma_tdiv_ordered(aa * (SCALE as int), b * (SCALE as int), b);
    lemma_mul_is_commutative(b, SCALE as int);
    lemma_div_multiples_vanish(SCALE as int, b);
    lemma_tdiv_neg(aa * (SCALE as int), b);
    lemma_mul_unary_negation(a, SCALE as int);
    lemma_tdiv_bounds(a * (SCALE as int), b);
}

/// The fixed-point square of a value of magnitude at most one lies in
/// `[0, 1]` on the grid.
pub proof fn lemma_fx_square_range(q: int)
    requires
        -(SCALE as int) <= q <= SCALE,
    ensures
        0 <= fx_mul(q, q) <= SCALE,
{
    if q >= 0 {
        lemma_fx_mul_bounds(q, q);
    } else {
        lemma_mul_cancels_negatives(q, q);
        lemma_fx_mul_bounds(-q, -q);
    }
}

/// Multiplying by a positive value and dividing by it again changes
/// nothing, also under truncation.
pub proof fn lemma_tdiv_mul_cancel(q: int, b: int)
    requires
        b > 0,
    ensures
        tdiv(q * b, b) == q,
{
    if q >= 0 {
        lemma_mul_nonnegative(q, b);
        lemma_mul_is_commutative(q, b);
        lemma_div_multiples_vanish(q, b);
    } else {
        lemma_mul_unary_negation(q, b);
        lemma_mul_strictly_positive(-q, b);
        lemma_mul_is_commutative(-q, b);
        lemma_div_multiples_vanish(-q, b);
    }
}

/// Fixed-point multiplication is exact when the true product is a
/// multiple of the scale within range.
pub proof fn lemma_fx_mul_product(x: int, y: int, q: int)
    requires
        x * y == q * (SCALE as int),
        -(i64::MAX as int) <= q <= i64::MAX,
    ensures
        fx_mul(x, y) == q,
{
    lemma_tdiv_mul_cancel(q, SCALE as int);
}

/// Fixed-point division is exact when the quotient divides out within
/// range.
pub proof fn lemma_fx_div_product(a: int, b: int, q: int)
    requires
        b > 0,
        a * (SCALE as int) == q * b,
        -(i64::MAX as int) <= q <= i64::MAX,
    ensures
        fx_div(a, b) == q,
{
    lemma_tdiv_mul_cancel(q, b);
}

/// The fixed-point square root is exact on perfect squares of the grid.
pub proof fn lemma_fx_sqrt_exact(v: int, root: int)
    requires
        root >= 0,
        root * root == v * (SCALE as int),
        v >= 0,
    ensures
        fx_sqrt(v) == root,
{
    if v == 0 {
        if root > 0 {
            lemma_mul_strictly_positive(root, root);
        }
    } else {
        lemma_mul_strictly_positive(v, SCALE as int);
        assert((v * (SCALE as int)) < (root + 1) * (root + 1)) by (nonlinear_arith)
            requires
                root >= 0,
                root * root == v * (SCALE as int),
        ;
        lemma_isqrt_unique((v * (SCALE as int)) as nat, root as nat);
    }
}

/// A factor of magnitude at most one cannot grow the other
/// (nonnegative) factor's magnitude.
pub proof fn lemma_fx_mul_abs_le(x: int, s: int)
    requires
        -(SCALE as int) <= x <= SCALE,
        0 <= s <= i64::MAX,
    ensures
        -s <= fx_mul(x, s) <= s,
{
    if x >= 0 {
        lemma_fx_mul_bounds(x, s);
    } else {
        lemma_mul_unary_negation(x, s);
        lemma_tdiv_neg((-x) * s, SCALE as int);
        lemma_mul_nonnegative(-x, s);
        lemma_mul_inequality(-x, SCALE as int, s);
        lemma_tdiv_ordered((-x) * s, (SCALE as int) * s, SCALE as int);
        lemma_div_multiples_vanish(s, SCALE as int);
        lemma_tdiv_bounds((-x) * s, SCALE as int);
    }
}

/// Negating before saturation never ends above negating after.
pub proof fn lemma_sat_neg(q: int)
    ensures
        sat64(-q) <= sat64(-sat64(q)),
{
}

/// Truncating division is odd in its numerator.
pub proof fn lemma_tdiv_neg(n: int, d: int)
    requires
        d != 0,
    ensures
        tdiv(-n, d) == -tdiv(n, d),
{
}

/// Multiplying by minus one in fixed point is exactly saturating negation.
pub proof fn lemma_fx_mul_neg_one(m: int)
    requires
        i64::MIN <= m <= i64::MAX,
    ensures
        fx_mul(m, fx_of_int(-1)) == fx_neg(m),
{
    lemma_mul_unary_negation(m, SCALE as int);
    lemma_tdiv_neg(m * (SCALE as int), SCALE as int);
    if m >= 0 {
        lemma_mul_nonnegative(m, SCALE as int);
        lemma_mul_is_commutative(m, SCALE as int);
        lemma_div_multiples_vanish(m, SCALE as int);
    } else {
        lemma_mul_nonnegative(-m, SCALE as int);
        lemma_mul_is_commutative(-m, SCALE as int);
        lemma_div_multiples_vanish(-m, SCALE as int);
    }
}

/// Negating one factor (saturating) flips the sign of a fixed-point
/// product, up to saturation, provided that factor sits above the very
/// bottom of the range.
pub proof fn lemma_fx_mul_flip(d: int, n: int)
    requires
        i64::MIN <= d <= i64::MAX,
        i64::MIN < n <= i64::MAX,
    ensures
        fx_mul(d, fx_neg(n)) <= sat64(-fx_mul(d, n)),
{
    lemma_mul_unary_negation(n, d);
    lemma_mul_is_commutative(d, n);
    lemma_mul_is_commutative(d, -n);
    assert(d * (-n) == -(d * n));
    lemma_tdiv_neg(d * n, SCALE as int);
    lemma_sat_neg(tdiv(d * n, SCALE as int));
}

/// Adding below two saturated negations stays below the saturated
/// negation of the saturating sum.
pub proof fn lemma_sat_add_neg(a: int, b: int, x: int, y: int)
    requires
        a <= sat64(-x),
        b <= sat64(-y),
        i64::MIN <= x <= i64::MAX,
        i64::MIN <= y <= i64::MAX,
    ensures
        fx_add(a, b) <= sat64(-fx_add(x, y)),
{
    lemma_sat_neg(x + y);
}

/// Truncating division by a positive divisor respects order on
/// nonnegative numerators.
pub proof fn lemma_tdiv_ordered(a: int, b: int, d: int)
    requires
        0 <= a <= b,
        d > 0,
    ensures
        tdiv(a, d) <= tdiv(b, d),
{
    lemma_div_is_ordered(a, b, d);
    lemma_div_pos_is_pos(a, d);
}

impl Fx {
    /// The zero value.
    pub fn zero() -> (r: Fx)
        ensures
            r@ == 0,
    {
        Fx { raw: 0 }
    }

    /// Lift a machine integer into fixed point, saturating.
    pub fn from_int(v: i64) -> (r: Fx)
        ensures
            r@ == fx_of_int(v as int),
    {
        Fx { raw: clamp_to_i64(scale_wide(v)) }
    }

    /// Lift an unsigned 32-bit count into fixed point; it always fits.
    pub fn from_u32(v: u32) -> (r: Fx)
        ensures
            r@ == v * SCALE,
            r@ >= 0,
    {
        Fx { raw: (v as i64) * SCALE }
    }

    /// Saturating addition.
    pub fn add(self, rhs: Fx) -> (r: Fx)
        ensures
            r@ == fx_add(self@, rhs@),
    {
        let w: i128 = self.raw as i128 + rhs.raw as i128;
        Fx { raw: clamp_to_i64(w) }
    }

    /// Saturating subtraction.
    pub fn sub(self, rhs: Fx) -> (r: Fx)
        ensures
            r@ == fx_sub(self@, rhs@),
    {
        let w: i128 = self.raw as i128 - rhs.raw as i128;
        Fx { raw: clamp_to_i64(w) }
    }

    /// Saturating negation.
    pub fn neg(self) -> (r: Fx)
        ensures
            r@ == fx_neg(self@),
    {
        let w: i128 = -(self.raw as i128);
        Fx { raw: clamp_to_i64(w) }
    }

    /// Saturating multiplication, truncating toward zero.
    pub fn mul(self, rhs: Fx) -> (r: Fx)
        ensures
            r@ == fx_mul(self@, rhs@),
    {
        proof {
            assert(-0x40000000000000000000000000000000 <= (self.raw as int) * (rhs.raw as int)
                <= 0x40000000000000000000000000000000) by (nonlinear_arith)
                requires
                    i64::MIN <= self.raw <= i64::MAX,
                    i64::MIN <= rhs.raw <= i64::MAX,
            ;
        }
        let w: i128 = (self.raw as i128) * (rhs.raw as i128);
        proof {
            lemma_tdiv_bounds(w as int, SCALE as int);
        }
        let q: i128 = w.checked_div(SCALE as i128).unwrap();
        Fx { raw: clamp_to_i64(q) }
    }

    /// Saturating division, truncating toward zero; a zero divisor
    /// saturates toward the sign of the numerator.
    pub fn div(self, rhs: Fx) -> (r: Fx)
        ensures
            r@ == fx_div(self@, rhs@),
    {
        if rhs.raw == 0 {
            let raw: i64 = if self.raw > 0 {
                i64::MAX
            } else if self.raw < 0 {
                i64::MIN
            } else {
                0
            };
            return Fx { raw };
        }
        let num: i128 = scale_wide(self.raw);
        proof {
            lemma_tdiv_bounds(num as int, rhs.raw as int);
        }
        let q: i128 = num.checked_div(rhs.raw as i128).unwrap();
        Fx { raw: clamp_to_i64(q) }
    }

    /// Fixed-point square root: the floor of the real root on the
    /// fixed-point grid. A negative argument yields zero.
    pub fn sqrt(self) -> (r: Fx)
        ensures
            r@ == fx_sqrt(self@),
    {
        if self.raw <= 0 {
            return Fx { raw: 0 };
        }
        let x: u128 = (self.raw as u128) * (SCALE as u128);
        let root: u64 = isqrt_u128(x);
        proof {
            lemma_isqrt_unique(x as nat, root as nat);
        }
        Fx { raw: root as i64 }
    }

    /// A nonnegative value rounded to the nearest `u32`, saturating at
    /// both ends; a negative value yields zero.
    pub fn round_u32(self) -> (r: u32)
        ensures
            r as int == spec_fx_round_u32(self@),
    {
        if self.raw <= 0 {
            return 0;
        }
        let ip: u64 = ((self.raw as u64) + 32768) / 65536;
        if ip > 0xFFFFFFFF {
            u32::MAX
        } else {
            ip as u32
        }
    }

    /// Strict order on values.
    pub fn lt(self, rhs: Fx) -> (r: bool)
        ensures
            r == (self@ < rhs@),
    {
        self.raw < rhs.raw
    }

    /// Non-strict order on values.
    pub fn le(self, rhs: Fx) -> (r: bool)
        ensures
            r == (self@ <= rhs@),
    {
        self.raw <= rhs.raw
    }

    /// The larger of two values.
    pub fn max(self, rhs: Fx) -> (r: Fx)
        ensures
            r@ == if self@ >= rhs@ { self@ } else { rhs@ },
    {
        if self.raw >= rhs.raw {
            self
        } else {
            rhs
        }
    }

    /// The smaller of two values.
    pub fn min(self, rhs: Fx) -> (r: Fx)
        ensures
            r@ == if self@ <= rhs@ { self@ } else { rhs@ },
    {
        if self.raw <= rhs.raw {
            self
        } else {
            rhs
        }
    }
}

/// Widen a raw value and multiply by the scale; the product always
/// fits the wide intermediate type.
fn scale_wide(v: i64) -> (w: i128)
    ensures
        w as int == (v as int) * (SCALE as int),
{
    proof {
        assert(-0x80000000000000000000 <= (v as int) * (SCALE as int)
            <= 0x80000000000000000000) by (nonlinear_arith)
            requires
                i64::MIN <= v <= i64::MAX,
                SCALE == 65536,
        ;
    }
    (v as i128) * (SCALE as i128)
}

/// Clamp a wide intermediate back into the storable range.
fn clamp_to_i64(w: i128) -> (r: i64)
    ensures
        r as int == sat64(w as int),
{
    if w > i64::MAX as i128 {
        i64::MAX
    } else if w < i64::MIN as i128 {
        i64::MIN
    } else {
        w as i64
    }
}

/// Binary search for the integer square root of a wide operand.
fn isqrt_u128(x: u128) -> (r: u64)
    requires
        x < 0x1000000000000000000000000,
    ensures
        (r as int) * (r as int) <= x,
        x < (r as int + 1) * (r as int + 1),
        r < 0x1000000000000,
{
    let mut lo: u128 = 0;
    let mut hi: u128 = 0x1000000000000;
    proof {
        assert(0x1000000000000int * 0x1000000000000int == 0x1000000000000000000000000int)
            by (nonlinear_arith);
    }
    while lo + 1 < hi
        invariant
            lo < hi,
            hi <= 0x1000000000000,
            (lo as int) * (lo as int) <= x,
            x < (hi as int) * (hi as int),
        decreases hi - lo,
    {
        let mid: u128 = lo + (hi - lo) / 2;
        proof {
            assert((mid as int) * (mid as int) <= 0x1000000000000000000000000int)
                by (nonlinear_arith)
                requires
                    0 <= mid <= 0x1000000000000,
            ;
        }
        let sq: u128 = mid * mid;
        if sq <= x {
            lo = mid;
        } else {
            hi = mid;
        }
    }
    lo as u64
}

} // verus!
