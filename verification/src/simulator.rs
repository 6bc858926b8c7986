//! The double pendulum: two massed rods, the first pivoting at the origin and the
//! second at the tip of the first, advanced one unit time step at a time.
//!
//! Angles are measured in radians from the downward vertical. A step integrates
//! the angular velocities first and moves the angles by the updated velocities.

use vstd::prelude::*;
use crate::fixed::{
    fx_add, fx_div, fx_mul, fx_neg, fx_sub, lemma_mul_one, lemma_mul_stays_positive,
    lemma_mul_whole, lemma_mul_zero, lemma_negation_commutes, magnitude, Fixed, RAW_MAX, SCALE,
};
use crate::fixed::lemma_product_bound;
use crate::trig::{
    fx_cos, fx_sin, lemma_cosine_bounded, lemma_cosine_is_even, lemma_quarter_turn_values,
    lemma_sine_bounded, lemma_sine_is_odd, lemma_sine_of_zero, HALF_PI_RAW,
};

verus! {

/// Why a pendulum could not be built or advanced.
#[derive(Clone, Copy, Debug, PartialEq, Eq, Structural)]
pub enum PendulumError {
    /// A length or a mass was zero or negative.
    InvalidParameter,
    /// The denominator of an angular acceleration vanished.
    NumericDegeneracy,
}

/// One rigid rod with its mass at the tip.
#[derive(Clone, Copy, Debug, PartialEq, Eq, Structural)]
pub struct Rod {
    pub length: Fixed,
    pub mass: Fixed,
    pub angle: Fixed,
    pub angular_velocity: Fixed,
}

/// The two rods of a pendulum: `base` hangs from the pivot, `end` from the tip of `base`.
#[derive(Clone, Copy, Debug, PartialEq, Eq, Structural)]
pub struct PendulumState {
    pub base: Rod,
    pub end: Rod,
}

/// A point of the plane, `x` to the right and `y` upward.
#[derive(Clone, Copy, Debug, PartialEq, Eq, Structural)]
pub struct Point {
    pub x: Fixed,
    pub y: Fixed,
}

/// A rod as four raw values.
pub struct RodModel {
    pub length: int,
    pub mass: int,
    pub angle: int,
    pub angular_velocity: int,
}

/// A pendulum as the raw values of its two rods.
pub struct PendulumModel {
    pub base: RodModel,
    pub end: RodModel,
}

/// A point as two raw values.
pub struct PointModel {
    pub x: int,
    pub y: int,
}

impl View for Rod {
    type V = RodModel;

    open spec fn view(&self) -> RodModel {
        RodModel {
            length: self.length@,
            mass: self.mass@,
            angle: self.angle@,
            angular_velocity: self.angular_velocity@,
        }
    }
}

impl View for PendulumState {
    type V = PendulumModel;

    open spec fn view(&self) -> PendulumModel {
        PendulumModel { base: self.base@, end: self.end@ }
    }
}

impl View for Point {
    type V = PointModel;

    open spec fn view(&self) -> PointModel {
        PointModel { x: self.x@, y: self.y@ }
    }
}

/// The raw value of the number two.
pub open spec fn two() -> int {
    2 * SCALE
}

impl RodModel {
    /// A rod has a positive length and a positive mass.
    pub open spec fn well_formed(self) -> bool {
        self.length > 0 && self.mass > 0
    }

    /// The rod's tip relative to its pivot: `(L sin a, -L cos a)`.
    pub open spec fn tip_offset(self) -> PointModel {
        PointModel {
            x: fx_mul(self.length, fx_sin(self.angle)),
            y: fx_neg(fx_mul(self.length, fx_cos(self.angle))),
        }
    }
}

impl PendulumModel {
    /// Both rods are well formed.
    pub open spec fn well_formed(self) -> bool {
        self.base.well_formed() && self.end.well_formed()
    }

    /// A well-formed pendulum whose rods are each at least one unit long and whose
    /// weighted mass `2 m1 + m2` is representable. Such a pendulum can always step.
    pub open spec fn sturdy(self) -> bool {
        &&& self.well_formed()
        &&& self.base.length >= SCALE
        &&& self.end.length >= SCALE
        &&& 2 * self.base.mass + self.end.mass <= RAW_MAX
    }

    /// Both rods hang straight down and stand still.
    pub open spec fn at_rest(self) -> bool {
        &&& self.base.angle == 0
        &&& self.end.angle == 0
        &&& self.base.angular_velocity == 0
        &&& self.end.angular_velocity == 0
    }

    /// The pendulum seen in a mirror: every angle and velocity with its sign flipped.
    pub open spec fn mirrored(self) -> PendulumModel {
        PendulumModel {
            base: RodModel {
                length: self.base.length,
                mass: self.base.mass,
                angle: -self.base.angle,
                angular_velocity: -self.base.angular_velocity,
            },
            end: RodModel {
                length: self.end.length,
                mass: self.end.mass,
                angle: -self.end.angle,
                angular_velocity: -self.end.angular_velocity,
            },
        }
    }

    /// The angle between the rods, `a1 - a2`.
    pub open spec fn gap(self) -> int {
        fx_sub(self.base.angle, self.end.angle)
    }

    /// `2 m1 + m2`.
    pub open spec fn weighted_mass(self) -> int {
        fx_add(fx_mul(two(), self.base.mass), self.end.mass)
    }

    /// `m1 + m2`.
    pub open spec fn total_mass(self) -> int {
        fx_add(self.base.mass, self.end.mass)
    }

    /// The factor both denominators share: `2 m1 + m2 - m2 cos(2 a1 - 2 a2)`.
    pub open spec fn coupling(self) -> int {
        fx_sub(
            self.weighted_mass(),
            fx_mul(
                self.end.mass,
                fx_cos(fx_sub(fx_mul(two(), self.base.angle), fx_mul(two(), self.end.angle))),
            ),
        )
    }

    /// `w1^2 L1`.
    pub open spec fn base_swing(self) -> int {
        fx_mul(fx_mul(self.base.angular_velocity, self.base.angular_velocity), self.base.length)
    }

    /// `w2^2 L2`.
    pub open spec fn end_swing(self) -> int {
        fx_mul(fx_mul(self.end.angular_velocity, self.end.angular_velocity), self.end.length)
    }

    /// The numerator of the base rod's angular acceleration under gravity `g`:
    /// `-g (2 m1 + m2) sin a1 - m2 g sin(a1 - 2 a2)
    ///  - 2 sin(a1 - a2) m2 (w2^2 L2 + w1^2 L1 cos(a1 - a2))`.
    pub open spec fn base_numerator(self, g: int) -> int {
        let pull = fx_mul(fx_mul(g, self.weighted_mass()), fx_sin(self.base.angle));
        let sway = fx_mul(
            fx_mul(self.end.mass, g),
            fx_sin(fx_sub(self.base.angle, fx_mul(two(), self.end.angle))),
        );
        let whirl = fx_mul(
            fx_mul(fx_mul(two(), fx_sin(self.gap())), self.end.mass),
            fx_add(self.end_swing(), fx_mul(self.base_swing(), fx_cos(self.gap()))),
        );
        fx_sub(fx_sub(fx_neg(pull), sway), whirl)
    }

    /// The denominator of the base rod's angular acceleration: `L1` times the coupling.
    pub open spec fn base_denominator(self) -> int {
        fx_mul(self.base.length, self.coupling())
    }

    /// The numerator of the end rod's angular acceleration under gravity `g`:
    /// `2 sin(a1 - a2) (w1^2 L1 (m1 + m2) + g (m1 + m2) cos a1
    ///  + w2^2 L2 m2 cos(a1 - a2))`.
    pub open spec fn end_numerator(self, g: int) -> int {
        let drive = fx_mul(self.base_swing(), self.total_mass());
        let weight = fx_mul(fx_mul(g, self.total_mass()), fx_cos(self.base.angle));
        let drag = fx_mul(fx_mul(self.end_swing(), self.end.mass), fx_cos(self.gap()));
        fx_mul(fx_mul(two(), fx_sin(self.gap())), fx_add(fx_add(drive, weight), drag))
    }

    /// The denominator of the end rod's angular acceleration: `L2` times the coupling.
    pub open spec fn end_denominator(self) -> int {
        fx_mul(self.end.length, self.coupling())
    }

    /// No step can be taken: one of the two denominators is zero.
    pub open spec fn degenerate(self) -> bool {
        self.base_denominator() == 0 || self.end_denominator() == 0
    }

    /// The pendulum one step later, where it is not degenerate: each velocity grows
    /// by its acceleration, then each angle moves by the new velocity.
    pub open spec fn advanced(self, g: int) -> PendulumModel {
        let base_velocity = fx_add(
            self.base.angular_velocity,
            fx_div(self.base_numerator(g), self.base_denominator()),
        );
        let end_velocity = fx_add(
            self.end.angular_velocity,
            fx_div(self.end_numerator(g), self.end_denominator()),
        );
        PendulumModel {
            base: RodModel {
                length: self.base.length,
                mass: self.base.mass,
                angle: fx_add(self.base.angle, base_velocity),
                angular_velocity: base_velocity,
            },
            end: RodModel {
                length: self.end.length,
                mass: self.end.mass,
                angle: fx_add(self.end.angle, end_velocity),
                angular_velocity: end_velocity,
            },
        }
    }

    /// What one step under gravity `g` yields.
    pub open spec fn step_outcome(self, g: int) -> Result<PendulumModel, PendulumError> {
        if self.degenerate() {
            Err(PendulumError::NumericDegeneracy)
        } else {
            Ok(self.advanced(g))
        }
    }

    /// The tip of the base rod.
    pub open spec fn base_tip(self) -> PointModel {
        self.base.tip_offset()
    }

    /// The tip of the end rod: the base tip moved by the end rod's own offset.
    pub open spec fn end_tip(self) -> PointModel {
        PointModel {
            x: fx_add(self.base_tip().x, self.end.tip_offset().x),
            y: fx_add(self.base_tip().y, self.end.tip_offset().y),
        }
    }
}

/// The pendulum that `initialize` builds from accepted parameters.
pub open spec fn initial_model(
    base_length: int,
    base_mass: int,
    end_length: int,
    end_mass: int,
    initial_angle: int,
) -> PendulumModel {
    PendulumModel {
        base: RodModel {
            length: base_length,
            mass: base_mass,
            angle: initial_angle,
            angular_velocity: 0,
        },
        end: RodModel {
            length: end_length,
            mass: end_mass,
            angle: initial_angle,
            angular_velocity: 0,
        },
    }
}

/// Builds a pendulum with both rods at `initial_angle` and standing still.
/// Fails exactly when a length or a mass is zero or negative.
pub fn initialize(
    base_length: Fixed,
    base_mass: Fixed,
    end_length: Fixed,
    end_mass: Fixed,
    initial_angle: Fixed,
) -> (r: Result<PendulumState, PendulumError>)
    ensures
        match r {
            Ok(state) => {
                &&& base_length@ > 0 && base_mass@ > 0 && end_length@ > 0 && end_mass@ > 0
                &&& state@ == initial_model(
                    base_length@,
                    base_mass@,
                    end_length@,
                    end_mass@,
                    initial_angle@,
                )
                &&& state@.well_formed()
            },
            Err(e) => {
                &&& e == PendulumError::InvalidParameter
                &&& (base_length@ <= 0 || base_mass@ <= 0 || end_length@ <= 0 || end_mass@ <= 0)
            },
        },
{
    if !base_length.is_positive() || !base_mass.is_positive() || !end_length.is_positive()
        || !end_mass.is_positive() {
        return Err(PendulumError::InvalidParameter);
    }
    let still = Fixed::from_raw(0);
    Ok(
        PendulumState {
            base: Rod {
                length: base_length,
                mass: base_mass,
                angle: initial_angle,
                angular_velocity: still,
            },
            end: Rod {
                length: end_length,
                mass: end_mass,
                angle: initial_angle,
                angular_velocity: still,
            },
        },
    )
}

/// What a step returned, with the pendulum taken by its raw values.
pub open spec fn outcome_view(
    r: Result<PendulumState, PendulumError>,
) -> Result<PendulumModel, PendulumError> {
    match r {
        Ok(next) => Ok(next@),
        Err(e) => Err(e),
    }
}

/// Advances the pendulum by one step under the given gravity.
/// Fails exactly when a denominator of the accelerations is zero, which never
/// happens to a sturdy pendulum; a sturdy pendulum stays sturdy.
pub fn step(state: &PendulumState, gravity: Fixed) -> (r: Result<PendulumState, PendulumError>)
    ensures
        outcome_view(r) == state@.step_outcome(gravity@),
        r is Ok && state@.well_formed() ==> r->Ok_0@.well_formed(),
        state@.sturdy() ==> r is Ok && r->Ok_0@.sturdy(),
{
    proof {
        if state@.sturdy() {
            lemma_sturdy_is_not_degenerate(state@);
        }
    }
    let base = state.base;
    let end = state.end;
    let two = Fixed::from_int(2);

    let gap = base.angle.minus(end.angle);
    let sin_gap = gap.sin();
    let cos_gap = gap.cos();
    let weighted_mass = two.times(base.mass).plus(end.mass);
    let total_mass = base.mass.plus(end.mass);
    let coupling = weighted_mass.minus(
        end.mass.times(two.times(base.angle).minus(two.times(end.angle)).cos()),
    );
    let base_denominator = base.length.times(coupling);
    let end_denominator = end.length.times(coupling);
    if base_denominator.is_zero() || end_denominator.is_zero() {
        return Err(PendulumError::NumericDegeneracy);
    }
    let base_swing = base.angular_velocity.times(base.angular_velocity).times(base.length);
    let end_swing = end.angular_velocity.times(end.angular_velocity).times(end.length);

    let pull = gravity.times(weighted_mass).times(base.angle.sin());
    let sway = end.mass.times(gravity).times(base.angle.minus(two.times(end.angle)).sin());
    let whirl = two.times(sin_gap).times(end.mass).times(
        end_swing.plus(base_swing.times(cos_gap)),
    );
    let base_numerator = pull.negated().minus(sway).minus(whirl);

    let drive = base_swing.times(total_mass);
    let weight = gravity.times(total_mass).times(base.angle.cos());
    let drag = end_swing.times(end.mass).times(cos_gap);
    let end_numerator = two.times(sin_gap).times(drive.plus(weight).plus(drag));

    let base_velocity = base.angular_velocity.plus(base_numerator.over(base_denominator));
    let end_velocity = end.angular_velocity.plus(end_numerator.over(end_denominator));
    Ok(
        PendulumState {
            base: Rod {
                length: base.length,
                mass: base.mass,
                angle: base.angle.plus(base_velocity),
                angular_velocity: base_velocity,
            },
            end: Rod {
                length: end.length,
                mass: end.mass,
                angle: end.angle.plus(end_velocity),
                angular_velocity: end_velocity,
            },
        },
    )
}

/// The pivot, the tip of the base rod and the tip of the end rod, in that order.
pub fn positions(state: &PendulumState) -> (r: (Point, Point, Point))
    ensures
        r.0@ == (PointModel { x: 0, y: 0 }),
        r.1@ == state@.base_tip(),
        r.2@ == state@.end_tip(),
{
    let pivot = Point { x: Fixed::from_raw(0), y: Fixed::from_raw(0) };
    let base_tip = Point {
        x: state.base.length.times(state.base.angle.sin()),
        y: state.base.length.times(state.base.angle.cos()).negated(),
    };
    let end_tip = Point {
        x: base_tip.x.plus(state.end.length.times(state.end.angle.sin())),
        y: base_tip.y.plus(state.end.length.times(state.end.angle.cos()).negated()),
    };
    (pivot, base_tip, end_tip)
}

/// A pendulum at rest stays at rest: unless it is degenerate, a step under any
/// gravity returns it unchanged.
pub proof fn lemma_rest_is_fixed_point(m: PendulumModel, g: int)
    requires
        m.at_rest(),
        !m.degenerate(),
    ensures
        m.step_outcome(g) == Ok::<PendulumModel, PendulumError>(m),
{
    lemma_sine_of_zero();
    lemma_mul_zero(two());
    lemma_mul_zero(fx_mul(g, m.weighted_mass()));
    lemma_mul_zero(fx_mul(m.end.mass, g));
    lemma_mul_zero(m.end.mass);
    lemma_mul_zero(m.base.length);
    lemma_mul_zero(m.end.length);
    assert(m.gap() == 0);
    assert(m.base_swing() == 0);
    assert(m.end_swing() == 0);
    lemma_mul_zero(fx_add(m.end_swing(), fx_mul(m.base_swing(), fx_cos(m.gap()))));
    assert(m.base_numerator(g) == 0);
    let drive = fx_mul(m.base_swing(), m.total_mass());
    let weight = fx_mul(fx_mul(g, m.total_mass()), fx_cos(m.base.angle));
    let drag = fx_mul(fx_mul(m.end_swing(), m.end.mass), fx_cos(m.gap()));
    lemma_mul_zero(fx_add(fx_add(drive, weight), drag));
    assert(m.end_numerator(g) == 0);
    lemma_zero_quotient(m.base_denominator());
    lemma_zero_quotient(m.end_denominator());
    assert(m.advanced(g) == m);
}

/// A sturdy pendulum is never degenerate, whatever its angles: a cosine is at
/// most one, so the coupling is at least `2 m1` and both denominators are positive.
pub proof fn lemma_sturdy_is_not_degenerate(m: PendulumModel)
    requires
        m.sturdy(),
    ensures
        m.coupling() >= 2 * m.base.mass,
        m.base_denominator() > 0,
        m.end_denominator() > 0,
        !m.degenerate(),
{
    let turn = fx_sub(fx_mul(two(), m.base.angle), fx_mul(two(), m.end.angle));
    lemma_cosine_bounded(turn);
    lemma_mul_whole(2, m.base.mass);
    assert(m.weighted_mass() == 2 * m.base.mass + m.end.mass);
    lemma_product_bound(m.end.mass, fx_cos(turn), m.end.mass, SCALE as int);
    assert(fx_mul(m.end.mass, fx_cos(turn)) <= m.end.mass);
    lemma_mul_stays_positive(m.base.length, m.coupling());
    lemma_mul_stays_positive(m.end.length, m.coupling());
}

/// A pendulum with both rods horizontal reaches straight to the right: the base
/// tip lies at `(L1, 0)` and the end tip at `(L1 + L2, 0)`.
pub proof fn lemma_horizontal_positions(m: PendulumModel)
    requires
        m.base.angle == HALF_PI_RAW,
        m.end.angle == HALF_PI_RAW,
        -RAW_MAX <= m.base.length <= RAW_MAX,
        -RAW_MAX <= m.end.length <= RAW_MAX,
    ensures
        m.base_tip() == (PointModel { x: m.base.length, y: 0 }),
        m.end_tip() == (PointModel { x: fx_add(m.base.length, m.end.length), y: 0 }),
{
    lemma_quarter_turn_values();
    lemma_mul_one(m.base.length);
    lemma_mul_one(m.end.length);
    lemma_mul_zero(m.base.length);
    lemma_mul_zero(m.end.length);
}

/// A pendulum hanging straight down reaches straight below the pivot: the base
/// tip lies at `(0, -L1)` and the end tip at `(0, -L1 - L2)`.
pub proof fn lemma_hanging_positions(m: PendulumModel)
    requires
        m.base.angle == 0,
        m.end.angle == 0,
        -RAW_MAX <= m.base.length <= RAW_MAX,
        -RAW_MAX <= m.end.length <= RAW_MAX,
    ensures
        m.base_tip() == (PointModel { x: 0, y: -m.base.length }),
        m.end_tip() == (PointModel { x: 0, y: fx_sub(-m.base.length, m.end.length) }),
{
    lemma_quarter_turn_values();
    lemma_sine_of_zero();
    lemma_mul_one(m.base.length);
    lemma_mul_one(m.end.length);
    lemma_mul_zero(m.base.length);
    lemma_mul_zero(m.end.length);
}

/// A rod's tip stays within reach: neither coordinate of its offset from the
/// pivot exceeds the rod's length.
pub proof fn lemma_tip_within_reach(rod: RodModel)
    requires
        0 <= rod.length <= RAW_MAX,
    ensures
        magnitude(rod.tip_offset().x) <= rod.length,
        magnitude(rod.tip_offset().y) <= rod.length,
{
    lemma_sine_bounded(rod.angle);
    lemma_cosine_bounded(rod.angle);
    lemma_product_bound(rod.length, fx_sin(rod.angle), rod.length, SCALE as int);
    lemma_product_bound(rod.length, fx_cos(rod.angle), rod.length, SCALE as int);
}

/// A sturdy pendulum at rest stays at rest under any gravity.
pub proof fn lemma_sturdy_rest_is_fixed_point(m: PendulumModel, g: int)
    requires
        m.sturdy(),
        m.at_rest(),
    ensures
        m.step_outcome(g) == Ok::<PendulumModel, PendulumError>(m),
{
    lemma_sturdy_is_not_degenerate(m);
    lemma_rest_is_fixed_point(m, g);
}

/// Zero divided by anything but zero is zero.
proof fn lemma_zero_quotient(d: int)
    requires
        d != 0,
    ensures
        fx_div(0, d) == 0,
{
    assert(0 * (SCALE as int) == 0);
    assert(0int / magnitude(d) == 0) by (nonlinear_arith)
        requires
            magnitude(d) > 0,
    ;
}

/// A step is a function of the pendulum and the gravity alone: whatever two
/// steps from the same pendulum under the same gravity return agrees in every bit.
pub proof fn lemma_step_is_deterministic(
    state: PendulumState,
    gravity: Fixed,
    first: Result<PendulumState, PendulumError>,
    second: Result<PendulumState, PendulumError>,
)
    requires
        outcome_view(first) == state@.step_outcome(gravity@),
        outcome_view(second) == state@.step_outcome(gravity@),
    ensures
        first == second,
{
    if first is Ok {
        let a = first->Ok_0;
        let b = second->Ok_0;
        assert(a@.base == b@.base);
        assert(a@.end == b@.end);
    }
}

/// A step keeps the lengths and masses, and moves each angle by the velocity
/// that the same step produced, not by the one it started from.
pub proof fn lemma_step_uses_updated_velocities(m: PendulumModel, g: int)
    requires
        !m.degenerate(),
    ensures
        m.step_outcome(g) is Ok,
        ({
            let next = m.step_outcome(g)->Ok_0;
            &&& next.base.length == m.base.length
            &&& next.base.mass == m.base.mass
            &&& next.end.length == m.end.length
            &&& next.end.mass == m.end.mass
            &&& next.base.angle == fx_add(m.base.angle, next.base.angular_velocity)
            &&& next.end.angle == fx_add(m.end.angle, next.end.angular_velocity)
        }),
{
}

/// The motion has no preferred side: the mirrored pendulum is degenerate exactly
/// when the pendulum is, and otherwise steps to the mirror image of the
/// pendulum's own next state.
pub proof fn lemma_step_commutes_with_mirror(m: PendulumModel, g: int)
    ensures
        m.mirrored().degenerate() == m.degenerate(),
        m.mirrored().step_outcome(g) == (match m.step_outcome(g) {
            Ok(next) => Ok::<PendulumModel, PendulumError>(next.mirrored()),
            Err(e) => Err(e),
        }),
{
    let r = m.mirrored();
    let a1 = m.base.angle;
    let a2 = m.end.angle;
    let w1 = m.base.angular_velocity;
    let w2 = m.end.angular_velocity;

    lemma_negation_commutes(a1, a2);
    lemma_sine_is_odd(m.gap());
    lemma_cosine_is_even(m.gap());
    assert(r.gap() == -m.gap());

    lemma_negation_commutes(two(), a1);
    lemma_negation_commutes(two(), a2);
    let twice = fx_sub(fx_mul(two(), a1), fx_mul(two(), a2));
    lemma_negation_commutes(fx_mul(two(), a1), fx_mul(two(), a2));
    lemma_cosine_is_even(twice);
    assert(r.coupling() == m.coupling());
    assert(r.base_denominator() == m.base_denominator());
    assert(r.end_denominator() == m.end_denominator());

    lemma_negation_commutes(w1, w1);
    lemma_negation_commutes(w2, w2);
    assert(r.base_swing() == m.base_swing());
    assert(r.end_swing() == m.end_swing());

    lemma_sine_is_odd(a1);
    lemma_cosine_is_even(a1);
    let pull = fx_mul(fx_mul(g, m.weighted_mass()), fx_sin(a1));
    lemma_negation_commutes(fx_mul(g, m.weighted_mass()), fx_sin(a1));
    let lag = fx_sub(a1, fx_mul(two(), a2));
    lemma_negation_commutes(a1, fx_mul(two(), a2));
    lemma_sine_is_odd(lag);
    let sway = fx_mul(fx_mul(m.end.mass, g), fx_sin(lag));
    lemma_negation_commutes(fx_mul(m.end.mass, g), fx_sin(lag));
    let spin = fx_mul(two(), fx_sin(m.gap()));
    lemma_negation_commutes(two(), fx_sin(m.gap()));
    lemma_negation_commutes(spin, m.end.mass);
    let reach = fx_add(m.end_swing(), fx_mul(m.base_swing(), fx_cos(m.gap())));
    let whirl = fx_mul(fx_mul(spin, m.end.mass), reach);
    lemma_negation_commutes(fx_mul(spin, m.end.mass), reach);
    lemma_negation_commutes(pull, 0);
    lemma_negation_commutes(fx_neg(pull), sway);
    lemma_negation_commutes(fx_sub(fx_neg(pull), sway), whirl);
    assert(r.base_numerator(g) == -m.base_numerator(g));

    let drive = fx_mul(m.base_swing(), m.total_mass());
    let weight = fx_mul(fx_mul(g, m.total_mass()), fx_cos(a1));
    let drag = fx_mul(fx_mul(m.end_swing(), m.end.mass), fx_cos(m.gap()));
    lemma_negation_commutes(spin, fx_add(fx_add(drive, weight), drag));
    assert(r.end_numerator(g) == -m.end_numerator(g));

    lemma_negation_commutes(m.base_numerator(g), m.base_denominator());
    lemma_negation_commutes(m.end_numerator(g), m.end_denominator());
    let base_pace = fx_div(m.base_numerator(g), m.base_denominator());
    let end_pace = fx_div(m.end_numerator(g), m.end_denominator());
    lemma_negation_commutes(w1, base_pace);
    lemma_negation_commutes(w2, end_pace);
    lemma_negation_commutes(a1, fx_add(w1, base_pace));
    lemma_negation_commutes(a2, fx_add(w2, end_pace));
}

} // verus!
