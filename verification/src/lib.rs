//! A double pendulum simulator over saturating fixed-point arithmetic.
//!
//! Two massed rods hang in a chain from a fixed pivot. The simulator advances
//! their angles and angular velocities one unit time step at a time with the
//! closed-form equations of motion, velocities first and angles second, and
//! reports where the rod tips are.
//!
//! Every quantity is a [`fixed::Fixed`] scalar: a signed 64-bit integer that
//! holds the value times `2^32`. Arithmetic saturates and rounds toward zero,
//! sines and cosines come from a power series, and so a step is an exact
//! function of its inputs on every machine.
//!
//! - [`fixed`]: the scalar type, its operations and their algebra;
//! - [`trig`]: sine and cosine of fixed-point angles;
//! - [`simulator`]: the pendulum, `initialize`, `step` and `positions`.

pub mod fixed;
pub mod simulator;
pub mod trig;
