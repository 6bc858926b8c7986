use double_pendulum::fixed::{Fixed, SCALE};
use double_pendulum::simulator::{
    initialize, positions, step, PendulumError, PendulumState, Point, Rod,
};
use double_pendulum::trig::HALF_PI_RAW;

fn fx(value: f64) -> Fixed {
    Fixed::from_raw((value * SCALE as f64).round() as i64)
}

fn to_f64(value: Fixed) -> f64 {
    value.raw() as f64 / SCALE as f64
}

fn horizontal() -> PendulumState {
    initialize(
        Fixed::from_int(200),
        Fixed::from_int(20),
        Fixed::from_int(200),
        Fixed::from_int(20),
        Fixed::from_raw(HALF_PI_RAW),
    )
    .unwrap()
}

fn rod(length: Fixed, mass: Fixed, angle: Fixed, angular_velocity: Fixed) -> Rod {
    Rod { length, mass, angle, angular_velocity }
}

fn reference_step(s: [f64; 8], g: f64) -> [f64; 4] {
    let [l1, m1, a1, w1, l2, m2, a2, w2] = s;
    let num1 = -g * (2.0 * m1 + m2) * a1.sin()
        - m2 * g * (a1 - 2.0 * a2).sin()
        - 2.0 * (a1 - a2).sin() * m2 * (w2 * w2 * l2 + w1 * w1 * l1 * (a1 - a2).cos());
    let den1 = l1 * (2.0 * m1 + m2 - m2 * (2.0 * a1 - 2.0 * a2).cos());
    let num2 = 2.0
        * (a1 - a2).sin()
        * (w1 * w1 * l1 * (m1 + m2) + g * (m1 + m2) * a1.cos() + w2 * w2 * l2 * m2 * (a1 - a2).cos());
    let den2 = l2 * (2.0 * m1 + m2 - m2 * (2.0 * a1 - 2.0 * a2).cos());
    let v1 = w1 + num1 / den1;
    let v2 = w2 + num2 / den2;
    [a1 + v1, v1, a2 + v2, v2]
}

fn energy(state: &PendulumState, g: f64) -> f64 {
    let l1 = to_f64(state.base.length);
    let m1 = to_f64(state.base.mass);
    let a1 = to_f64(state.base.angle);
    let w1 = to_f64(state.base.angular_velocity);
    let l2 = to_f64(state.end.length);
    let m2 = to_f64(state.end.mass);
    let a2 = to_f64(state.end.angle);
    let w2 = to_f64(state.end.angular_velocity);
    let y1 = -l1 * a1.cos();
    let y2 = y1 - l2 * a2.cos();
    let v1_sq = (l1 * w1) * (l1 * w1);
    let v2_sq = v1_sq + (l2 * w2) * (l2 * w2) + 2.0 * l1 * l2 * w1 * w2 * (a1 - a2).cos();
    0.5 * m1 * v1_sq + 0.5 * m2 * v2_sq + m1 * g * y1 + m2 * g * y2
}

#[test]
fn initialize_builds_both_rods() {
    let state = horizontal();
    let expected = rod(
        Fixed::from_int(200),
        Fixed::from_int(20),
        Fixed::from_raw(HALF_PI_RAW),
        Fixed::from_raw(0),
    );
    assert_eq!(state.base, expected);
    assert_eq!(state.end, expected);
}

#[test]
fn initialize_keeps_each_parameter_in_its_place() {
    let state = initialize(
        Fixed::from_int(3),
        Fixed::from_int(5),
        Fixed::from_int(7),
        Fixed::from_int(11),
        fx(-0.25),
    )
    .unwrap();
    assert_eq!(state.base, rod(Fixed::from_int(3), Fixed::from_int(5), fx(-0.25), Fixed::from_raw(0)));
    assert_eq!(state.end, rod(Fixed::from_int(7), Fixed::from_int(11), fx(-0.25), Fixed::from_raw(0)));
}

#[test]
fn initialize_rejects_a_zero_base_length() {
    let r = initialize(
        Fixed::from_int(0),
        Fixed::from_int(20),
        Fixed::from_int(200),
        Fixed::from_int(20),
        Fixed::from_raw(HALF_PI_RAW),
    );
    assert_eq!(r, Err(PendulumError::InvalidParameter));
}

#[test]
fn initialize_rejects_a_negative_end_mass() {
    let r = initialize(
        Fixed::from_int(200),
        Fixed::from_int(20),
        Fixed::from_int(200),
        Fixed::from_int(-1),
        Fixed::from_raw(HALF_PI_RAW),
    );
    assert_eq!(r, Err(PendulumError::InvalidParameter));
}

#[test]
fn initialize_rejects_each_bad_parameter() {
    let good = Fixed::from_int(1);
    let angle = Fixed::from_raw(0);
    for bad in [Fixed::from_raw(0), Fixed::from_raw(-1), Fixed::from_raw(i64::MIN)] {
        assert_eq!(initialize(bad, good, good, good, angle), Err(PendulumError::InvalidParameter));
        assert_eq!(initialize(good, bad, good, good, angle), Err(PendulumError::InvalidParameter));
        assert_eq!(initialize(good, good, bad, good, angle), Err(PendulumError::InvalidParameter));
        assert_eq!(initialize(good, good, good, bad, angle), Err(PendulumError::InvalidParameter));
    }
    assert!(initialize(Fixed::from_raw(1), Fixed::from_raw(1), Fixed::from_raw(1), Fixed::from_raw(1), angle).is_ok());
}

#[test]
fn positions_of_a_horizontal_pendulum() {
    let (pivot, base_tip, end_tip) = positions(&horizontal());
    assert_eq!(pivot, Point { x: Fixed::from_int(0), y: Fixed::from_int(0) });
    assert_eq!(base_tip, Point { x: Fixed::from_int(200), y: Fixed::from_int(0) });
    assert_eq!(end_tip, Point { x: Fixed::from_int(400), y: Fixed::from_int(0) });
}

#[test]
fn positions_of_a_hanging_pendulum() {
    let state = initialize(
        Fixed::from_int(200),
        Fixed::from_int(20),
        Fixed::from_int(150),
        Fixed::from_int(20),
        Fixed::from_raw(0),
    )
    .unwrap();
    let (pivot, base_tip, end_tip) = positions(&state);
    assert_eq!(pivot, Point { x: Fixed::from_int(0), y: Fixed::from_int(0) });
    assert_eq!(base_tip, Point { x: Fixed::from_int(0), y: Fixed::from_int(-200) });
    assert_eq!(end_tip, Point { x: Fixed::from_int(0), y: Fixed::from_int(-350) });
}

#[test]
fn positions_of_a_bent_pendulum() {
    let state = PendulumState {
        base: rod(Fixed::from_int(200), Fixed::from_int(20), fx(1.0), Fixed::from_raw(0)),
        end: rod(Fixed::from_int(150), Fixed::from_int(10), fx(-0.5), Fixed::from_raw(0)),
    };
    let (_, base_tip, end_tip) = positions(&state);
    assert_eq!(base_tip.x.raw(), 722_818_072_200);
    assert_eq!(base_tip.y.raw(), -464_116_146_600);
    assert_eq!(end_tip.x.raw(), 413_950_520_850);
    assert_eq!(end_tip.y.raw(), -1_029_494_407_050);
    assert!((to_f64(base_tip.x) - 200.0 * 1.0f64.sin()).abs() < 1e-6);
    assert!((to_f64(base_tip.y) + 200.0 * 1.0f64.cos()).abs() < 1e-6);
    assert!((to_f64(end_tip.x) - (200.0 * 1.0f64.sin() + 150.0 * (-0.5f64).sin())).abs() < 1e-6);
    assert!((to_f64(end_tip.y) + (200.0 * 1.0f64.cos() + 150.0 * (-0.5f64).cos())).abs() < 1e-6);
}

#[test]
fn first_step_from_horizontal() {
    let next = step(&horizontal(), Fixed::from_int(1)).unwrap();
    assert_eq!(next.base.angular_velocity.raw(), -21_474_836);
    assert_eq!(next.end.angular_velocity.raw(), 0);
    assert_eq!(next.base.angle.raw(), 6_725_044_016);
    assert_eq!(next.end.angle.raw(), 6_746_518_852);
    assert_eq!(next.base.length, Fixed::from_int(200));
    assert_eq!(next.base.mass, Fixed::from_int(20));
    assert_eq!(next.end.length, Fixed::from_int(200));
    assert_eq!(next.end.mass, Fixed::from_int(20));

    let half_pi = std::f64::consts::FRAC_PI_2;
    let expected = reference_step([200.0, 20.0, half_pi, 0.0, 200.0, 20.0, half_pi, 0.0], 1.0);
    assert!((expected[1] + 0.005).abs() < 1e-12);
    assert!((to_f64(next.base.angle) - expected[0]).abs() < 5e-7);
    assert!((to_f64(next.base.angular_velocity) - expected[1]).abs() < 5e-7);
    assert!((to_f64(next.end.angle) - expected[2]).abs() < 5e-7);
    assert!((to_f64(next.end.angular_velocity) - expected[3]).abs() < 5e-7);
}

#[test]
fn second_step_from_horizontal() {
    let g = Fixed::from_int(1);
    let next = step(&step(&horizontal(), g).unwrap(), g).unwrap();
    assert_eq!(next.base.angle.raw(), 6_682_095_686);
    assert_eq!(next.base.angular_velocity.raw(), -42_948_330);
    assert_eq!(next.end.angle.raw(), 6_746_516_705);
    assert_eq!(next.end.angular_velocity.raw(), -2_147);
    assert!((to_f64(next.base.angular_velocity) + 0.009999687511067352).abs() < 5e-7);
    assert!((to_f64(next.end.angular_velocity) + 4.999843755030091e-07).abs() < 5e-7);
}

#[test]
fn step_of_a_moving_pendulum() {
    let state = PendulumState {
        base: rod(Fixed::from_int(200), Fixed::from_int(20), fx(1.0), fx(0.01)),
        end: rod(Fixed::from_int(150), Fixed::from_int(10), fx(-0.5), fx(-0.02)),
    };
    let next = step(&state, fx(0.5)).unwrap();
    assert_eq!(next.base.angle.raw(), 4_328_305_810);
    assert_eq!(next.base.angular_velocity.raw(), 33_338_514);
    assert_eq!(next.end.angle.raw(), -2_225_041_556);
    assert_eq!(next.end.angular_velocity.raw(), -77_557_908);
    let expected = reference_step([200.0, 20.0, 1.0, 0.01, 150.0, 10.0, -0.5, -0.02], 0.5);
    assert!((to_f64(next.base.angle) - expected[0]).abs() < 5e-7);
    assert!((to_f64(next.base.angular_velocity) - expected[1]).abs() < 5e-7);
    assert!((to_f64(next.end.angle) - expected[2]).abs() < 5e-7);
    assert!((to_f64(next.end.angular_velocity) - expected[3]).abs() < 5e-7);
}

#[test]
fn angles_move_by_the_updated_velocity() {
    let state = PendulumState {
        base: rod(Fixed::from_int(200), Fixed::from_int(20), fx(1.0), fx(0.01)),
        end: rod(Fixed::from_int(150), Fixed::from_int(10), fx(-0.5), fx(-0.02)),
    };
    let next = step(&state, fx(0.5)).unwrap();
    assert_eq!(next.base.angle, state.base.angle.plus(next.base.angular_velocity));
    assert_eq!(next.end.angle, state.end.angle.plus(next.end.angular_velocity));
    assert_ne!(next.base.angle, state.base.angle.plus(state.base.angular_velocity));
}

#[test]
fn step_is_deterministic() {
    let state = PendulumState {
        base: rod(Fixed::from_int(200), Fixed::from_int(20), fx(2.5), fx(0.03)),
        end: rod(Fixed::from_int(120), Fixed::from_int(35), fx(-1.25), fx(0.07)),
    };
    let g = fx(0.75);
    let first = step(&state, g);
    let second = step(&state.clone(), g);
    assert!(first.is_ok());
    assert_eq!(first, second);
    let mut a = state;
    let mut b = state;
    for _ in 0..500 {
        a = step(&a, g).unwrap();
        b = step(&b, g).unwrap();
        assert_eq!(a, b);
    }
}

#[test]
fn hanging_at_rest_is_a_fixed_point() {
    for g in [Fixed::from_int(1), Fixed::from_int(5), fx(-0.3), Fixed::from_raw(0)] {
        let state = initialize(
            Fixed::from_int(200),
            Fixed::from_int(20),
            Fixed::from_int(200),
            Fixed::from_int(20),
            Fixed::from_raw(0),
        )
        .unwrap();
        assert_eq!(step(&state, g), Ok(state));
    }
}

#[test]
fn vanishing_denominator_is_reported() {
    let tiny = Fixed::from_raw(1);
    let state = initialize(tiny, tiny, tiny, tiny, Fixed::from_raw(0)).unwrap();
    assert_eq!(step(&state, Fixed::from_int(1)), Err(PendulumError::NumericDegeneracy));
}

#[test]
fn energy_stays_within_the_potential_span() {
    let g = Fixed::from_int(1);
    let mut state = horizontal();
    let span = (20.0 + 20.0) * 1.0 * 200.0 + 20.0 * 1.0 * 200.0;
    assert!(energy(&state, 1.0).abs() < 1e-3);
    for _ in 0..5000 {
        state = step(&state, g).unwrap();
        assert!(energy(&state, 1.0).abs() <= span);
        assert!(to_f64(state.base.angular_velocity).abs() < 1.0);
        assert!(to_f64(state.end.angular_velocity).abs() < 1.0);
    }
}

#[test]
fn long_run_matches_the_recorded_state() {
    let g = Fixed::from_int(1);
    let mut state = horizontal();
    for _ in 0..20000 {
        state = step(&state, g).unwrap();
    }
    assert_eq!(state.base.angle.raw(), -21_536_686_654);
    assert_eq!(state.base.angular_velocity.raw(), 422_414_952);
    assert_eq!(state.end.angle.raw(), -49_753_177_680);
    assert_eq!(state.end.angular_velocity.raw(), -317_834_574);
}

#[test]
fn mirrored_pendulum_steps_to_the_mirror_image() {
    let state = PendulumState {
        base: rod(Fixed::from_int(200), Fixed::from_int(20), fx(2.5), fx(0.03)),
        end: rod(Fixed::from_int(120), Fixed::from_int(35), fx(-1.25), fx(0.07)),
    };
    let mirror = PendulumState {
        base: rod(Fixed::from_int(200), Fixed::from_int(20), fx(-2.5), fx(-0.03)),
        end: rod(Fixed::from_int(120), Fixed::from_int(35), fx(1.25), fx(-0.07)),
    };
    let g = fx(0.75);
    let mut a = state;
    let mut b = mirror;
    for _ in 0..200 {
        a = step(&a, g).unwrap();
        b = step(&b, g).unwrap();
        assert_eq!(b.base.angle, a.base.angle.negated());
        assert_eq!(b.end.angle, a.end.angle.negated());
        assert_eq!(b.base.angular_velocity, a.base.angular_velocity.negated());
        assert_eq!(b.end.angular_velocity, a.end.angular_velocity.negated());
    }
}

#[test]
fn step_keeps_lengths_and_masses() {
    let mut state = PendulumState {
        base: rod(Fixed::from_int(3), Fixed::from_int(5), fx(0.4), fx(0.0)),
        end: rod(Fixed::from_int(7), Fixed::from_int(11), fx(-0.9), fx(0.0)),
    };
    for _ in 0..100 {
        state = step(&state, fx(0.01)).unwrap();
        assert_eq!(state.base.length, Fixed::from_int(3));
        assert_eq!(state.base.mass, Fixed::from_int(5));
        assert_eq!(state.end.length, Fixed::from_int(7));
        assert_eq!(state.end.mass, Fixed::from_int(11));
    }
}

#[test]
fn hanging_at_rest_with_unit_rods_is_a_fixed_point() {
    let state = initialize(
        Fixed::from_int(1),
        Fixed::from_raw(1),
        Fixed::from_int(1),
        Fixed::from_raw(1),
        Fixed::from_raw(0),
    )
    .unwrap();
    assert_eq!(step(&state, Fixed::from_int(9)), Ok(state));
}

#[test]
fn tips_stay_within_reach() {
    let mut raw: i64 = -30 * SCALE;
    while raw <= 30 * SCALE {
        let state = PendulumState {
            base: rod(Fixed::from_int(200), Fixed::from_int(20), Fixed::from_raw(raw), Fixed::from_raw(0)),
            end: rod(Fixed::from_int(150), Fixed::from_int(10), Fixed::from_raw(-raw / 3), Fixed::from_raw(0)),
        };
        let (_, base_tip, end_tip) = positions(&state);
        assert!(base_tip.x.raw().abs() <= 200 * SCALE);
        assert!(base_tip.y.raw().abs() <= 200 * SCALE);
        assert!((end_tip.x.raw() - base_tip.x.raw()).abs() <= 150 * SCALE);
        assert!((end_tip.y.raw() - base_tip.y.raw()).abs() <= 150 * SCALE);
        raw += 123_456_789;
    }
}

#[test]
fn a_pendulum_with_long_rods_never_fails_to_step() {
    let mut state = PendulumState {
        base: rod(Fixed::from_int(1), Fixed::from_raw(1), fx(3.0), fx(0.5)),
        end: rod(Fixed::from_int(1), Fixed::from_raw(i64::MAX - 2), fx(-3.0), fx(-0.5)),
    };
    for _ in 0..2000 {
        state = step(&state, Fixed::from_int(3)).unwrap();
    }
}
