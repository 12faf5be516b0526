//! Front/rear axle-balance feedforward.
//!
//! In a two-motor, solid-axle front/rear layout (motor A = front axle,
//! motor B = rear axle), the front axle sweeps a longer arc than the rear in
//! any turn, left or right. So this feedforward depends on steer magnitude
//! only, with a fixed sign that always favors the front axle - unlike the
//! left/right case, it never flips with the steer command's sign.
//!
//! The output feeds `DiffController::update`'s steer-shaped input. Values
//! are millionths (see `crate::units`).
use vstd::prelude::*;

use crate::units::{SCALE, clamp_int, div_trunc};

verus! {

#[derive(Debug, Clone, Copy, PartialEq, Eq, Structural)]
pub struct AxleBalanceConfig {
    /// Front-axle bias per unit of steer magnitude (millionths per unit).
    /// 0 disables the feedforward.
    pub bias_gain: i64,
}

/// `-gain * |steer|`, clamped to `[-1, 1]` (millionths, rounding toward
/// zero).
pub open spec fn bias_spec(steer_cmd: int, gain: int) -> int {
    let magnitude = if steer_cmd < 0 { -steer_cmd } else { steer_cmd };
    clamp_int(div_trunc(-gain * magnitude, SCALE as int), -SCALE, SCALE as int)
}

/// Maps a signed steer command (sign = turn direction, magnitude = how
/// sharp) to the front/rear bias `DiffController::update` expects: negative
/// because `DiffController` raises motor "a" (front) duty as its
/// steer-shaped input goes negative.
pub fn front_rear_bias(steer_cmd: i64, config: AxleBalanceConfig) -> (r: i64)
    ensures
        r == bias_spec(steer_cmd as int, config.bias_gain as int),
{
    let magnitude: i128 = if steer_cmd < 0 { -(steer_cmd as i128) } else { steer_cmd as i128 };
    proof {
        assert(-(i64::MAX as int) * 0x8000_0000_0000_0000 <= -(config.bias_gain as int) * magnitude
            <= 0x8000_0000_0000_0000 * 0x8000_0000_0000_0000) by (nonlinear_arith)
            requires
                0 <= magnitude <= 0x8000_0000_0000_0000,
                i64::MIN <= config.bias_gain <= i64::MAX,
        ;
    }
    let product: i128 = -(config.bias_gain as i128) * magnitude;
    let scaled: i128 = if product >= 0 {
        product / (SCALE as i128)
    } else {
        -((-product) / (SCALE as i128))
    };
    if scaled < -(SCALE as i128) {
        -(SCALE as i64)
    } else if scaled > SCALE as i128 {
        SCALE as i64
    } else {
        scaled as i64
    }
}

/// Left and right turns of the same sharpness bias identically; with a
/// non-negative gain the bias never favors the rear, and a sharper turn
/// biases at least as hard.
pub proof fn lemma_bias_shape(steer: int, other: int, gain: int)
    requires
        gain >= 0,
    ensures
        bias_spec(steer, gain) == bias_spec(-steer, gain),
        bias_spec(steer, gain) <= 0,
        (if steer < 0 { -steer } else { steer }) <= (if other < 0 { -other } else { other })
            ==> bias_spec(other, gain) <= bias_spec(steer, gain),
{
    let m1 = if steer < 0 { -steer } else { steer };
    let m2 = if other < 0 { -other } else { other };
    assert(gain * m1 >= 0) by (nonlinear_arith)
        requires
            gain >= 0,
            m1 >= 0,
    ;
    if m1 <= m2 {
        assert(gain * m1 <= gain * m2) by (nonlinear_arith)
            requires
                gain >= 0,
                0 <= m1 <= m2,
        ;
        assert((gain * m1) / (SCALE as int) <= (gain * m2) / (SCALE as int)) by (nonlinear_arith)
            requires
                gain * m1 <= gain * m2,
        ;
    }
    assert(-gain * m1 == -(gain * m1)) by (nonlinear_arith);
    assert(-gain * m2 == -(gain * m2)) by (nonlinear_arith);
}

} // verus!
