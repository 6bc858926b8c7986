//! Sine and cosine of fixed-point angles, in radians.
//!
//! An angle is first reduced to one turn, then folded into the first quarter
//! turn, where the sine is the odd power series up to the fifteenth power,
//! evaluated in nested form so that every intermediate value lies in `[0, 1]`.

use vstd::prelude::*;
use crate::fixed::{lemma_product_bound, Fixed, SCALE};

verus! {

/// The raw value of a quarter turn (pi / 2).
pub const HALF_PI_RAW: i64 = 6_746_518_852;

/// The raw value of a full turn, four quarter turns.
pub const TURN_RAW: i64 = 26_986_075_408;

/// The number of nested factors in the sine series.
pub const SERIES_TERMS: i64 = 7;

/// The nested tail of the sine series from factor `k` on, for the squared angle
/// `x2`: `1 - x2 / (2k (2k + 1)) * tail(k + 1)`, and one past the last factor.
pub open spec fn sine_series(x2: int, k: int) -> int
    decreases SERIES_TERMS + 1 - k,
{
    if 1 <= k <= SERIES_TERMS {
        SCALE - ((x2 / (2 * k * (2 * k + 1))) * sine_series(x2, k + 1)) / (SCALE as int)
    } else {
        SCALE as int
    }
}

/// The sine of an angle within the first quarter turn, never above one.
pub open spec fn quarter_sine(x: int) -> int {
    let v = (x * sine_series((x * x) / (SCALE as int), 1)) / (SCALE as int);
    if v > SCALE {
        SCALE as int
    } else {
        v
    }
}

/// The sine of any angle.
pub open spec fn fx_sin(x: int) -> int {
    let r = x % (TURN_RAW as int);
    let quadrant = r / (HALF_PI_RAW as int);
    let offset = r % (HALF_PI_RAW as int);
    if quadrant == 0 {
        quarter_sine(offset)
    } else if quadrant == 1 {
        quarter_sine(HALF_PI_RAW - offset)
    } else if quadrant == 2 {
        -quarter_sine(offset)
    } else {
        -quarter_sine(HALF_PI_RAW - offset)
    }
}

/// The cosine of any angle: the sine a quarter turn further on.
pub open spec fn fx_cos(x: int) -> int {
    fx_sin(x + HALF_PI_RAW)
}

/// For a squared angle of at most six, every tail of the series lies in `[0, 1]`.
pub proof fn lemma_series_bounded(x2: int, k: int)
    requires
        0 <= x2 <= 6 * SCALE,
    ensures
        0 <= sine_series(x2, k) <= SCALE,
    decreases SERIES_TERMS + 1 - k,
{
    if 1 <= k <= SERIES_TERMS {
        lemma_series_bounded(x2, k + 1);
        let t = sine_series(x2, k + 1);
        let q = x2 / (2 * k * (2 * k + 1));
        lemma_factor_bounded(x2, k);
        lemma_unit_product(q, t);
    }
}

/// The factor `x2 / (2k (2k + 1))` lies in `[0, 1]` for a squared angle of at most six.
proof fn lemma_factor_bounded(x2: int, k: int)
    requires
        0 <= x2 <= 6 * SCALE,
        1 <= k <= SERIES_TERMS,
    ensures
        6 <= 2 * k * (2 * k + 1) <= 210,
        0 <= x2 / (2 * k * (2 * k + 1)) <= SCALE,
{
    let c = 2 * k * (2 * k + 1);
    assert(6 <= c <= 210) by (nonlinear_arith)
        requires
            c == 2 * k * (2 * k + 1),
            1 <= k <= 7,
    ;
    let q = x2 / c;
    let s = SCALE as int;
    assert(0 <= q <= s) by (nonlinear_arith)
        requires
            q == x2 / c,
            6 <= c,
            0 <= x2 <= 6 * s,
    ;
}

/// The rescaled product of two values in `[0, 1]` lies in `[0, 1]`.
proof fn lemma_unit_product(a: int, b: int)
    requires
        0 <= a <= SCALE,
        0 <= b <= SCALE,
    ensures
        0 <= a * b <= 0x1_0000_0000_0000_0000,
        0 <= (a * b) / (SCALE as int) <= SCALE,
{
    lemma_product_bound(a, b, SCALE as int, SCALE as int);
    assert(a * b >= 0) by (nonlinear_arith)
        requires
            a >= 0,
            b >= 0,
    ;
}

/// The sine within the first quarter turn lies in `[0, 1]`.
pub proof fn lemma_quarter_sine_bounded(x: int)
    requires
        0 <= x <= HALF_PI_RAW,
    ensures
        0 <= quarter_sine(x) <= SCALE,
{
    lemma_square_bounded(x);
    let x2 = (x * x) / (SCALE as int);
    lemma_series_bounded(x2, 1);
    let t = sine_series(x2, 1);
    assert(x * t >= 0) by (nonlinear_arith)
        requires
            x >= 0,
            t >= 0,
    ;
}

/// The square of an angle within the first quarter turn is below six.
proof fn lemma_square_bounded(x: int)
    requires
        0 <= x <= HALF_PI_RAW,
    ensures
        0 <= x * x <= 45_515_516_620_391_397_904,
        0 <= (x * x) / (SCALE as int) <= 6 * SCALE,
{
    lemma_product_bound(x, x, HALF_PI_RAW as int, HALF_PI_RAW as int);
    assert(x * x >= 0) by (nonlinear_arith);
}

/// The sine of every angle lies in `[-1, 1]`.
pub proof fn lemma_sine_bounded(x: int)
    ensures
        -SCALE <= fx_sin(x) <= SCALE,
{
    let r = x % (TURN_RAW as int);
    let offset = r % (HALF_PI_RAW as int);
    lemma_quarter_sine_bounded(offset);
    lemma_quarter_sine_bounded(HALF_PI_RAW - offset);
}

/// The cosine of every angle lies in `[-1, 1]`.
pub proof fn lemma_cosine_bounded(x: int)
    ensures
        -SCALE <= fx_cos(x) <= SCALE,
{
    lemma_sine_bounded(x + HALF_PI_RAW);
}

/// The sine of the zero angle is zero.
pub proof fn lemma_sine_of_zero()
    ensures
        quarter_sine(0) == 0,
        fx_sin(0) == 0,
{
    let t = sine_series(0, 1);
    assert(0 * t == 0) by (nonlinear_arith);
    assert((0int * 0int) / (SCALE as int) == 0) by (nonlinear_arith);
}

/// The sine of a quarter turn is exactly one, and so is the cosine of zero;
/// the cosine of a quarter turn is exactly zero.
pub proof fn lemma_quarter_turn_values()
    ensures
        fx_sin(HALF_PI_RAW as int) == SCALE,
        fx_cos(0) == SCALE,
        fx_cos(HALF_PI_RAW as int) == 0,
{
    let x2: int = 10_597_407_030;
    let s: int = SCALE as int;
    assert(sine_series(x2, 8) == s);
    assert(2 * 7int * (2 * 7int + 1) == 210);
    assert(x2 / 210int == 50_463_843);
    assert(50_463_843int * 4_294_967_296int == 216_740_555_315_478_528);
    assert(216_740_555_315_478_528int / s == 50_463_843);
    assert(sine_series(x2, 7) == 4_244_503_453);
    assert(2 * 6int * (2 * 6int + 1) == 156);
    assert(x2 / 156int == 67_932_096);
    assert(67_932_096int * 4_244_503_453int == 288_338_016_041_527_488);
    assert(288_338_016_041_527_488int / s == 67_133_925);
    assert(sine_series(x2, 6) == 4_227_833_371);
    assert(2 * 5int * (2 * 5int + 1) == 110);
    assert(x2 / 110int == 96_340_063);
    assert(96_340_063int * 4_227_833_371int == 407_309_733_315_642_373);
    assert(407_309_733_315_642_373int / s == 94_834_187);
    assert(sine_series(x2, 5) == 4_200_133_109);
    assert(2 * 4int * (2 * 4int + 1) == 72);
    assert(x2 / 72int == 147_186_208);
    assert(147_186_208int * 4_200_133_109int == 618_201_665_408_960_672);
    assert(618_201_665_408_960_672int / s == 143_936_291);
    assert(sine_series(x2, 4) == 4_151_031_005);
    assert(2 * 3int * (2 * 3int + 1) == 42);
    assert(x2 / 42int == 252_319_215);
    assert(252_319_215int * 4_151_031_005int == 1_047_384_884_622_261_075);
    assert(1_047_384_884_622_261_075int / s == 243_863_296);
    assert(sine_series(x2, 3) == 4_051_104_000);
    assert(2 * 2int * (2 * 2int + 1) == 20);
    assert(x2 / 20int == 529_870_351);
    assert(529_870_351int * 4_051_104_000int == 2_146_559_898_417_504_000);
    assert(2_146_559_898_417_504_000int / s == 499_784_922);
    assert(sine_series(x2, 2) == 3_795_182_374);
    assert(2 * 1int * (2 * 1int + 1) == 6);
    assert(x2 / 6int == 1_766_234_505);
    assert(1_766_234_505int * 3_795_182_374int == 6_703_182_061_726_614_870);
    assert(6_703_182_061_726_614_870int / s == 1_560_706_193);
    assert(sine_series(x2, 1) == 2_734_261_103);
    assert(6_746_518_852int * 6_746_518_852int == 45_515_516_620_391_397_904);
    assert(45_515_516_620_391_397_904int / s == x2);
    assert(6_746_518_852int * 2_734_261_103int == 18_446_744_077_679_813_756);
    assert(18_446_744_077_679_813_756int / s == s);
    assert(quarter_sine(HALF_PI_RAW as int) == SCALE);
    lemma_sine_of_zero();
}

/// A half turn further on the sine changes sign.
pub proof fn lemma_sine_half_turn(x: int)
    ensures
        fx_sin(x + 2 * HALF_PI_RAW) == -fx_sin(x),
{
    assert(HALF_PI_RAW == 6_746_518_852 && TURN_RAW == 26_986_075_408);
    let r = x % 26_986_075_408;
    let moved = (x + 13_493_037_704) % 26_986_075_408;
    if r < 13_493_037_704 {
        assert(moved == r + 13_493_037_704);
        assert(moved / 6_746_518_852 == r / 6_746_518_852 + 2);
        assert(moved % 6_746_518_852 == r % 6_746_518_852);
    } else {
        assert(moved == r - 13_493_037_704);
        assert(moved / 6_746_518_852 == r / 6_746_518_852 - 2);
        assert(moved % 6_746_518_852 == r % 6_746_518_852);
    }
}

/// A half turn further on the sine and the cosine change sign, and a full turn
/// further on they are back where they were.
pub proof fn lemma_turns(x: int)
    ensures
        fx_sin(x + 2 * HALF_PI_RAW) == -fx_sin(x),
        fx_cos(x + 2 * HALF_PI_RAW) == -fx_cos(x),
        fx_sin(x + TURN_RAW) == fx_sin(x),
        fx_cos(x + TURN_RAW) == fx_cos(x),
{
    lemma_sine_half_turn(x);
    lemma_sine_half_turn(x + HALF_PI_RAW);
    assert(x + 2 * HALF_PI_RAW + HALF_PI_RAW == x + HALF_PI_RAW + 2 * HALF_PI_RAW);
    lemma_sine_half_turn(x + 2 * HALF_PI_RAW);
    assert(x + 2 * HALF_PI_RAW + 2 * HALF_PI_RAW == x + TURN_RAW);
    lemma_sine_half_turn(x + HALF_PI_RAW + 2 * HALF_PI_RAW);
    assert(x + HALF_PI_RAW + 2 * HALF_PI_RAW + 2 * HALF_PI_RAW == x + TURN_RAW + HALF_PI_RAW);
}

/// The sine is odd: turning the other way flips its sign.
pub proof fn lemma_sine_is_odd(x: int)
    ensures
        fx_sin(-x) == -fx_sin(x),
{
    let r = x % (TURN_RAW as int);
    let offset = r % (HALF_PI_RAW as int);
    if offset == 0 {
        lemma_quarter_turn_values();
        lemma_sine_of_zero();
    }
}

/// The cosine is even: turning the other way leaves it unchanged.
pub proof fn lemma_cosine_is_even(x: int)
    ensures
        fx_cos(-x) == fx_cos(x),
{
    let r = (x + HALF_PI_RAW) % (TURN_RAW as int);
    let offset = r % (HALF_PI_RAW as int);
    if offset == 0 {
        lemma_quarter_turn_values();
        lemma_sine_of_zero();
    }
}

fn quarter_sine_of(x: i64) -> (r: i64)
    requires
        0 <= x <= HALF_PI_RAW,
    ensures
        r == quarter_sine(x as int),
        0 <= r <= SCALE,
{
    proof {
        lemma_square_bounded(x as int);
    }
    let x2: i64 = (((x as i128) * (x as i128)) / (SCALE as i128)) as i64;
    let mut t: i64 = SCALE;
    let mut k: i64 = SERIES_TERMS;
    while k >= 1
        invariant
            0 <= k <= SERIES_TERMS,
            0 <= x2 <= 6 * SCALE,
            0 <= t <= SCALE,
            t == sine_series(x2 as int, k + 1),
        decreases k,
    {
        proof {
            lemma_factor_bounded(x2 as int, k as int);
        }
        let c: i64 = 2 * k * (2 * k + 1);
        let q: i64 = x2 / c;
        proof {
            lemma_unit_product(q as int, t as int);
        }
        let p: i128 = ((q as i128) * (t as i128)) / (SCALE as i128);
        t = SCALE - (p as i64);
        k = k - 1;
    }
    proof {
        lemma_product_bound(x as int, t as int, HALF_PI_RAW as int, SCALE as int);
        assert(x * t >= 0) by (nonlinear_arith)
            requires
                x >= 0,
                t >= 0,
        ;
    }
    let v: i128 = ((x as i128) * (t as i128)) / (SCALE as i128);
    if v > SCALE as i128 {
        SCALE
    } else {
        v as i64
    }
}

fn sine_of_reduced(r: i64) -> (s: i64)
    requires
        0 <= r < TURN_RAW,
    ensures
        s == fx_sin(r as int),
        -SCALE <= s <= SCALE,
{
    let quadrant: i64 = r / HALF_PI_RAW;
    let offset: i64 = r % HALF_PI_RAW;
    if quadrant == 0 {
        quarter_sine_of(offset)
    } else if quadrant == 1 {
        quarter_sine_of(HALF_PI_RAW - offset)
    } else if quadrant == 2 {
        -quarter_sine_of(offset)
    } else {
        -quarter_sine_of(HALF_PI_RAW - offset)
    }
}

fn reduce_to_turn(x: i128) -> (r: i64)
    requires
        -0x1_0000_0000_0000_0000 <= x <= 0x1_0000_0000_0000_0000,
    ensures
        0 <= r < TURN_RAW,
        r == (x as int) % (TURN_RAW as int),
{
    let turn: i128 = TURN_RAW as i128;
    if x >= 0 {
        (x % turn) as i64
    } else {
        let m: i128 = (-x) % turn;
        if m == 0 {
            0
        } else {
            (turn - m) as i64
        }
    }
}

impl Fixed {
    /// The sine of this angle, in `[-1, 1]`.
    pub fn sin(self) -> (r: Fixed)
        ensures
            r@ == fx_sin(self@),
            -SCALE <= r@ <= SCALE,
    {
        let reduced: i64 = reduce_to_turn(self.raw as i128);
        Fixed { raw: sine_of_reduced(reduced) }
    }

    /// The cosine of this angle, in `[-1, 1]`.
    pub fn cos(self) -> (r: Fixed)
        ensures
            r@ == fx_cos(self@),
            -SCALE <= r@ <= SCALE,
    {
        let reduced: i64 = reduce_to_turn(self.raw as i128 + HALF_PI_RAW as i128);
        Fixed { raw: sine_of_reduced(reduced) }
    }
}

} // verus!
