//! Which physical drive layout this two-motor car uses - selected once, at
//! build time, since it reflects how the motors are wired into the chassis.
//!
//! Both layouts reuse the same differential and slip-trim machinery; only
//! the feedforward mapping from the raw signed steer command differs.
use vstd::prelude::*;

use crate::axle_balance::{AxleBalanceConfig, bias_spec, front_rear_bias};
use crate::units::{SCALE, SCALE_I64, clamp_int};

verus! {

#[derive(Debug, Clone, Copy, PartialEq, Eq, Structural)]
pub enum DriveLayout {
    /// 2WD: motor A = left wheel, motor B = right wheel.
    TwoWheelLeftRight,
    /// 4WD: motor A = front axle, motor B = rear axle.
    FourWheelFrontRear,
}

impl DriveLayout {
    /// The bias command `DiffController::update` expects, from the raw
    /// signed steer command (millionths). Left/right passes the steer
    /// command through clamped to `[-1, 1]` and ignores `axle_bias_gain`;
    /// front/rear uses `front_rear_bias`.
    pub fn bias(&self, steer_cmd: i64, axle_bias_gain: i64) -> (r: i64)
        ensures
            r == match self {
                DriveLayout::TwoWheelLeftRight => clamp_int(steer_cmd as int, -SCALE, SCALE as int),
                DriveLayout::FourWheelFrontRear => bias_spec(steer_cmd as int, axle_bias_gain as int),
            },
    {
        match self {
            DriveLayout::TwoWheelLeftRight => crate::units::clamp_i64(steer_cmd, -SCALE_I64, SCALE_I64),
            DriveLayout::FourWheelFrontRear => front_rear_bias(
                steer_cmd,
                AxleBalanceConfig { bias_gain: axle_bias_gain },
            ),
        }
    }
}

} // verus!
