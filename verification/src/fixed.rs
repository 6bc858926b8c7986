//! Signed fixed-point scalars with 32 fractional bits and saturating arithmetic.
//!
//! A scalar stores `value * 2^32` in an `i64`. Every operation is total: a result
//! that leaves the representable range is clamped to the nearest bound, and
//! products and quotients round toward zero.

use vstd::prelude::*;

verus! {

/// The raw value that stands for the real number one.
pub const SCALE: i64 = 0x1_0000_0000;

/// The largest raw magnitude a result may have.
pub const RAW_MAX: i64 = 0x7fff_ffff_ffff_ffff;

/// Clamps an exact value into the symmetric range `[-RAW_MAX, RAW_MAX]`.
pub open spec fn saturate(x: int) -> int {
    if x > RAW_MAX {
        RAW_MAX as int
    } else if x < -RAW_MAX {
        -RAW_MAX
    } else {
        x
    }
}

/// The magnitude of an integer.
pub open spec fn magnitude(x: int) -> int {
    if x < 0 {
        -x
    } else {
        x
    }
}

/// The quotient of `n` by a nonzero `d`, rounded toward zero.
pub open spec fn trunc_div(n: int, d: int) -> int {
    if (n >= 0) == (d > 0) {
        magnitude(n) / magnitude(d)
    } else {
        -(magnitude(n) / magnitude(d))
    }
}

/// Saturating sum of two raw values.
pub open spec fn fx_add(a: int, b: int) -> int {
    saturate(a + b)
}

/// Saturating difference of two raw values.
pub open spec fn fx_sub(a: int, b: int) -> int {
    saturate(a - b)
}

/// Saturating negation of a raw value.
pub open spec fn fx_neg(a: int) -> int {
    saturate(-a)
}

/// Saturating fixed-point product: the exact product, rescaled toward zero.
pub open spec fn fx_mul(a: int, b: int) -> int {
    saturate(trunc_div(a * b, SCALE as int))
}

/// Saturating fixed-point quotient by a nonzero divisor, rounded toward zero.
pub open spec fn fx_div(a: int, b: int) -> int {
    saturate(trunc_div(a * SCALE, b))
}

/// A product of bounded magnitudes is bounded by the product of the bounds.
pub proof fn lemma_product_bound(x: int, y: int, bx: int, by: int)
    requires
        magnitude(x) <= bx,
        magnitude(y) <= by,
    ensures
        magnitude(x * y) <= bx * by,
        magnitude(x * y) == magnitude(x) * magnitude(y),
{
    let mx = magnitude(x);
    let my = magnitude(y);
    assert(mx * my <= bx * by) by (nonlinear_arith)
        requires
            0 <= mx <= bx,
            0 <= my <= by,
    ;
    assert(magnitude(x * y) == mx * my) by (nonlinear_arith)
        requires
            mx == magnitude(x),
            my == magnitude(y),
    ;
}

/// A product with zero rescales to zero.
pub proof fn lemma_mul_zero(a: int)
    ensures
        fx_mul(a, 0) == 0,
        fx_mul(0, a) == 0,
{
    assert(a * 0 == 0) by (nonlinear_arith);
    assert(0 * a == 0) by (nonlinear_arith);
}

/// Rescaling an exact multiple of the scale gives the multiplier back.
pub proof fn lemma_rescale_exact(v: int)
    ensures
        trunc_div(v * SCALE, SCALE as int) == v,
{
    let s = SCALE as int;
    let m = magnitude(v);
    assert(magnitude(v * s) == m * s) by (nonlinear_arith)
        requires
            m == magnitude(v),
            s > 0,
    ;
    assert((m * s) / s == m) by (nonlinear_arith)
        requires
            s > 0,
            m >= 0,
    ;
    assert((v * s >= 0) == (v >= 0)) by (nonlinear_arith)
        requires
            s > 0,
    ;
}

/// Multiplying by a whole number `n` gives the saturated `n`-fold value.
pub proof fn lemma_mul_whole(n: int, a: int)
    ensures
        fx_mul(n * SCALE, a) == saturate(n * a),
        fx_mul(a, n * SCALE) == saturate(n * a),
{
    let s = SCALE as int;
    assert((n * s) * a == (n * a) * s && a * (n * s) == (n * a) * s) by (nonlinear_arith);
    lemma_rescale_exact(n * a);
}

/// Multiplying by one leaves every value within the symmetric range unchanged.
pub proof fn lemma_mul_one(a: int)
    requires
        -RAW_MAX <= a <= RAW_MAX,
    ensures
        fx_mul(a, SCALE as int) == a,
        fx_mul(SCALE as int, a) == a,
{
    lemma_mul_whole(1, a);
    assert(1 * a == a && 1 * (SCALE as int) == SCALE);
}

/// The product of a value of at least one with a positive raw value of at
/// least two does not vanish.
pub proof fn lemma_mul_stays_positive(a: int, b: int)
    requires
        a >= SCALE,
        b >= 2,
    ensures
        fx_mul(a, b) >= 2,
{
    let s = SCALE as int;
    let p = a * b;
    assert(p >= 2 * s) by (nonlinear_arith)
        requires
            p == a * b,
            a >= s,
            b >= 2,
            s > 0,
    ;
    assert(p / s >= 2) by (nonlinear_arith)
        requires
            p >= 2 * s,
            s > 0,
    ;
}

/// Rounding toward zero treats a numerator and its negation alike.
pub proof fn lemma_trunc_div_is_odd(n: int, d: int)
    requires
        d != 0,
    ensures
        trunc_div(-n, d) == -trunc_div(n, d),
{
    if n == 0 {
        let m = magnitude(d);
        assert(0int / m == 0) by (nonlinear_arith)
            requires
                m > 0,
        ;
    }
}

/// Every operation commutes with negation: flipping the signs of the operands
/// flips the sign of a sum, a difference, a product with one flipped factor and a
/// quotient with a flipped dividend, and leaves a product of two flipped factors
/// unchanged.
pub proof fn lemma_negation_commutes(a: int, b: int)
    ensures
        fx_add(-a, -b) == -fx_add(a, b),
        fx_sub(-a, -b) == -fx_sub(a, b),
        fx_neg(-a) == -fx_neg(a),
        fx_mul(-a, b) == -fx_mul(a, b),
        fx_mul(a, -b) == -fx_mul(a, b),
        fx_mul(-a, -b) == fx_mul(a, b),
        b != 0 ==> fx_div(-a, b) == -fx_div(a, b),
{
    let s = SCALE as int;
    assert((-a) * b == -(a * b) && a * (-b) == -(a * b) && (-a) * (-b) == a * b)
        by (nonlinear_arith);
    lemma_trunc_div_is_odd(a * b, s);
    if b != 0 {
        assert((-a) * s == -(a * s)) by (nonlinear_arith);
        lemma_trunc_div_is_odd(a * s, b);
    }
}

fn narrow(x: i128) -> (r: i64)
    ensures
        r == saturate(x as int),
{
    if x > RAW_MAX as i128 {
        RAW_MAX
    } else if x < -(RAW_MAX as i128) {
        -RAW_MAX
    } else {
        x as i64
    }
}

fn wide_trunc_div(n: i128, d: i128) -> (r: i128)
    requires
        d != 0,
        -0x7fff_ffff_ffff_ffff_ffff_ffff_ffff_ffff <= n,
        -0x7fff_ffff_ffff_ffff_ffff_ffff_ffff_ffff <= d,
    ensures
        r == trunc_div(n as int, d as int),
{
    let num: i128 = if n < 0 { -n } else { n };
    let den: i128 = if d < 0 { -d } else { d };
    let q: i128 = num / den;
    if (n >= 0) == (d > 0) {
        q
    } else {
        -q
    }
}

/// A fixed-point scalar: `raw` holds the value multiplied by `SCALE`.
#[derive(Clone, Copy, Debug, PartialEq, Eq, Structural)]
pub struct Fixed {
    pub raw: i64,
}

impl View for Fixed {
    type V = int;

    open spec fn view(&self) -> int {
        self.raw as int
    }
}

impl Fixed {
    /// The scalar with the given raw representation.
    pub fn from_raw(raw: i64) -> (r: Fixed)
        ensures
            r@ == raw,
    {
        Fixed { raw }
    }

    /// The scalar that stands for a whole number.
    pub fn from_int(n: i32) -> (r: Fixed)
        ensures
            r@ == n * SCALE,
    {
        Fixed { raw: (n as i64) * SCALE }
    }

    /// The raw representation.
    pub fn raw(self) -> (r: i64)
        ensures
            r == self@,
    {
        self.raw
    }

    /// Whether the scalar is strictly greater than zero.
    pub fn is_positive(self) -> (r: bool)
        ensures
            r == (self@ > 0),
    {
        self.raw > 0
    }

    /// Whether the scalar is exactly zero.
    pub fn is_zero(self) -> (r: bool)
        ensures
            r == (self@ == 0),
    {
        self.raw == 0
    }

    /// Saturating sum.
    pub fn plus(self, rhs: Fixed) -> (r: Fixed)
        ensures
            r@ == fx_add(self@, rhs@),
            -RAW_MAX <= r@ <= RAW_MAX,
    {
        Fixed { raw: narrow(self.raw as i128 + rhs.raw as i128) }
    }

    /// Saturating difference.
    pub fn minus(self, rhs: Fixed) -> (r: Fixed)
        ensures
            r@ == fx_sub(self@, rhs@),
            -RAW_MAX <= r@ <= RAW_MAX,
    {
        Fixed { raw: narrow(self.raw as i128 - rhs.raw as i128) }
    }

    /// Saturating negation.
    pub fn negated(self) -> (r: Fixed)
        ensures
            r@ == fx_neg(self@),
            -RAW_MAX <= r@ <= RAW_MAX,
    {
        Fixed { raw: narrow(-(self.raw as i128)) }
    }

    /// Saturating product, rounded toward zero.
    pub fn times(self, rhs: Fixed) -> (r: Fixed)
        ensures
            r@ == fx_mul(self@, rhs@),
            -RAW_MAX <= r@ <= RAW_MAX,
    {
        let a: i128 = self.raw as i128;
        let b: i128 = rhs.raw as i128;
        proof {
            lemma_product_bound(a as int, b as int, 0x8000_0000_0000_0000, 0x8000_0000_0000_0000);
        }
        let p: i128 = a * b;
        Fixed { raw: narrow(wide_trunc_div(p, SCALE as i128)) }
    }

    /// Saturating quotient by a nonzero divisor, rounded toward zero.
    pub fn over(self, rhs: Fixed) -> (r: Fixed)
        requires
            rhs@ != 0,
        ensures
            r@ == fx_div(self@, rhs@),
            -RAW_MAX <= r@ <= RAW_MAX,
    {
        let a: i128 = self.raw as i128;
        proof {
            lemma_product_bound(a as int, SCALE as int, 0x8000_0000_0000_0000, 0x1_0000_0000);
        }
        let p: i128 = a * (SCALE as i128);
        Fixed { raw: narrow(wide_trunc_div(p, rhs.raw as i128)) }
    }
}

} // verus!
