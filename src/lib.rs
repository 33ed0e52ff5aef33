//! A single-axis PID feedback controller in saturating fixed-point arithmetic.
//!
//! Every real-valued quantity (gains, setpoint, measured value, bounds, time
//! steps, output) is an `i64` counting billionths of a unit: `SCALE` stands
//! for `1.0`. Intermediate results that leave the range of `i64` saturate.
pub mod arith;
pub mod controller;

pub use arith::SCALE;
pub use controller::{StepRecord, PID};
