use aart_core::axle_balance::{front_rear_bias, AxleBalanceConfig};
use aart_core::drive_layout::DriveLayout;

fn cfg() -> AxleBalanceConfig {
    AxleBalanceConfig { bias_gain: 1_000_000 }
}

#[test]
fn zero_steer_gives_zero_bias() {
    assert_eq!(front_rear_bias(0, cfg()), 0);
}

#[test]
fn left_and_right_turns_bias_the_same_direction() {
    let left = front_rear_bias(-400_000, cfg());
    let right = front_rear_bias(400_000, cfg());
    assert_eq!(left, right, "left/right turns must bias identically");
    assert!(left < 0, "bias must favor the front axle (negative, per DiffController's convention)");
}

#[test]
fn bias_scales_with_steer_magnitude() {
    let gentle = front_rear_bias(200_000, cfg());
    let sharp = front_rear_bias(600_000, cfg());
    assert!(sharp < gentle, "a sharper turn should bias the front axle harder");
}

#[test]
fn zero_gain_disables_the_feedforward() {
    let out = front_rear_bias(800_000, AxleBalanceConfig { bias_gain: 0 });
    assert_eq!(out, 0);
}

#[test]
fn bias_clamps_at_the_bound() {
    let out = front_rear_bias(1_000_000, AxleBalanceConfig { bias_gain: 3_000_000 });
    assert_eq!(out, -1_000_000);
}

#[test]
fn bias_is_gain_times_magnitude() {
    assert_eq!(front_rear_bias(-400_000, AxleBalanceConfig { bias_gain: 700_000 }), -280_000);
}

#[test]
fn extreme_inputs_do_not_overflow() {
    assert_eq!(front_rear_bias(i64::MIN, AxleBalanceConfig { bias_gain: i64::MAX }), -1_000_000);
    assert_eq!(front_rear_bias(i64::MAX, AxleBalanceConfig { bias_gain: i64::MIN }), 1_000_000);
}

#[test]
fn two_wheel_left_right_passes_steer_cmd_through_unmodified() {
    let layout = DriveLayout::TwoWheelLeftRight;
    assert_eq!(layout.bias(300_000, 500_000), 300_000);
    assert_eq!(layout.bias(-600_000, 500_000), -600_000);
}

#[test]
fn two_wheel_left_right_clamps_at_the_bounds() {
    let layout = DriveLayout::TwoWheelLeftRight;
    assert_eq!(layout.bias(2_000_000, 500_000), 1_000_000);
    assert_eq!(layout.bias(-2_000_000, 500_000), -1_000_000);
}

#[test]
fn two_wheel_left_right_ignores_the_axle_bias_gain() {
    let layout = DriveLayout::TwoWheelLeftRight;
    assert_eq!(layout.bias(400_000, 0), layout.bias(400_000, 99_000_000));
}

#[test]
fn four_wheel_front_rear_delegates_to_front_rear_bias() {
    let layout = DriveLayout::FourWheelFrontRear;
    let gain = 700_000;
    assert_eq!(
        layout.bias(400_000, gain),
        front_rear_bias(400_000, AxleBalanceConfig { bias_gain: gain })
    );
    assert_eq!(layout.bias(400_000, gain), layout.bias(-400_000, gain));
}
