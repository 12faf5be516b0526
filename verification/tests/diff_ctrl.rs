use aart_core::diff_ctrl::{BemfSlipEstimator, DiffController, DiffControllerConfig, SlipEstimator};

fn test_config() -> DiffControllerConfig {
    DiffControllerConfig {
        slip_threshold: 50_000,
        slip_gain: 2_000_000,
    }
}

#[test]
fn bemf_slip_estimator_reads_zero_when_ratio_matches_steer_cmd() {
    let mut e = BemfSlipEstimator::new();
    assert_eq!(e.estimate(Some(800), Some(1200), 200_000), 0);
}

#[test]
fn bemf_slip_estimator_reads_nonzero_on_mismatch() {
    let mut e = BemfSlipEstimator::new();
    // (1400 - 1000) / 2400 = 0.1666..., in millionths rounded toward zero.
    assert_eq!(e.estimate(Some(1000), Some(1400), 0), 166_666);
}

#[test]
fn bemf_slip_estimator_returns_zero_without_both_readings() {
    let mut e = BemfSlipEstimator::new();
    assert_eq!(e.estimate(None, Some(1000), 0), 0);
    assert_eq!(e.estimate(Some(1000), None, 0), 0);
    assert_eq!(e.estimate(None, None, 0), 0);
}

#[test]
fn bemf_slip_estimator_does_not_divide_by_zero_when_stationary() {
    let mut e = BemfSlipEstimator::new();
    assert_eq!(e.estimate(Some(0), Some(0), 0), 0);
}

#[test]
fn straight_no_steer_gives_equal_duty_and_no_slip() {
    let mut c = DiffController::new(test_config(), BemfSlipEstimator::new());
    let out = c.update(500_000, 0, Some(1000), Some(1000));
    assert_eq!(out.target_duty_a, 500_000);
    assert_eq!(out.target_duty_b, 500_000);
    assert_eq!(out.slip_estimate, 0);
}

#[test]
fn steer_biases_duty_as_documented() {
    let mut c = DiffController::new(test_config(), BemfSlipEstimator::new());
    let out = c.update(500_000, 300_000, None, None);
    assert_eq!(out.target_duty_a, 350_000);
    assert_eq!(out.target_duty_b, 650_000);
}

#[test]
fn duty_split_clamps_at_the_upper_bound() {
    let mut c = DiffController::new(test_config(), BemfSlipEstimator::new());
    let out = c.update(900_000, 500_000, None, None);
    assert_eq!(out.target_duty_a, 450_000);
    assert_eq!(out.target_duty_b, 1_000_000);
}

#[test]
fn no_cut_when_erpm_matches_the_commanded_ratio() {
    let mut c = DiffController::new(test_config(), BemfSlipEstimator::new());
    let out = c.update(600_000, 200_000, Some(800), Some(1200));
    assert_eq!(out.target_duty_a, 480_000);
    assert_eq!(out.target_duty_b, 720_000);
}

#[test]
fn injected_slip_cuts_the_faster_side() {
    let mut c = DiffController::new(test_config(), BemfSlipEstimator::new());
    let out = c.update(600_000, 0, Some(1000), Some(1400));
    assert!(out.slip_estimate > test_config().slip_threshold);
    assert!(out.target_duty_b < 600_000, "slipping side should be cut");
    assert_eq!(out.target_duty_a, 600_000, "other side must be untouched");
}

#[test]
fn injected_slip_cuts_the_other_side_when_reversed() {
    let mut c = DiffController::new(test_config(), BemfSlipEstimator::new());
    let out = c.update(600_000, 0, Some(1400), Some(1000));
    assert!(out.slip_estimate < -test_config().slip_threshold);
    assert!(out.target_duty_a < 600_000, "slipping side should be cut");
    assert_eq!(out.target_duty_b, 600_000, "other side must be untouched");
}

#[test]
fn missing_erpm_reading_skips_the_slip_cut() {
    let mut c = DiffController::new(test_config(), BemfSlipEstimator::new());
    let out = c.update(600_000, 0, None, None);
    assert_eq!(out.slip_estimate, 0);
    assert_eq!(out.target_duty_a, 600_000);
    assert_eq!(out.target_duty_b, 600_000);
}

#[test]
fn the_cut_is_proportional_to_the_excess_slip() {
    let mut c = DiffController::new(test_config(), BemfSlipEstimator::new());
    // slip 166_666, excess 116_666, times gain 2: a cut of 233_332.
    let out = c.update(600_000, 0, Some(1000), Some(1400));
    assert_eq!(out.slip_estimate, 166_666);
    assert_eq!(out.target_duty_b, 600_000 - 233_332);
}

#[test]
fn a_cut_never_goes_below_zero() {
    let config = DiffControllerConfig { slip_threshold: 0, slip_gain: 100_000_000 };
    let mut c = DiffController::new(config, BemfSlipEstimator::new());
    let out = c.update(600_000, 0, Some(1000), Some(1400));
    assert_eq!(out.target_duty_b, 0);
    assert_eq!(out.target_duty_a, 600_000);
}

#[test]
fn base_duty_and_steer_are_clamped_before_mixing() {
    let mut c = DiffController::new(test_config(), BemfSlipEstimator::new());
    let out = c.update(2_000_000, -3_000_000, None, None);
    assert_eq!(out.target_duty_a, 1_000_000);
    assert_eq!(out.target_duty_b, 0);
}

#[test]
fn a_negative_gain_raises_the_slipping_side_instead() {
    let config = DiffControllerConfig { slip_threshold: 50_000, slip_gain: -1_000_000 };
    let mut c = DiffController::new(config, BemfSlipEstimator::new());
    // excess 116_666 times gain -1: the rear duty goes up by 116_666.
    let out = c.update(600_000, 0, Some(1000), Some(1400));
    assert_eq!(out.target_duty_b, 716_666);
    assert_eq!(out.target_duty_a, 600_000);
}

#[test]
fn a_negative_threshold_cuts_even_without_slip() {
    let config = DiffControllerConfig { slip_threshold: -100_000, slip_gain: 1_000_000 };
    let mut c = DiffController::new(config, BemfSlipEstimator::new());
    let out = c.update(600_000, 0, None, None);
    assert_eq!(out.target_duty_a, 600_000);
    assert_eq!(out.target_duty_b, 500_000);
}

#[test]
fn extreme_configurations_do_not_overflow() {
    let config = DiffControllerConfig { slip_threshold: i64::MIN, slip_gain: i64::MIN };
    let mut c = DiffController::new(config, BemfSlipEstimator::new());
    let out = c.update(600_000, 0, None, None);
    assert_eq!(out.target_duty_a, 600_000);
    assert_eq!(out.target_duty_b, u32::MAX);
}
