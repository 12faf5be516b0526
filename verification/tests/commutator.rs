use aart_core::commutator::{
    expected_rising_edge, floating_phase, period_ticks_for_erpm, step_pattern, Commutator,
    CommutatorConfig, Phase, PhaseState, PwmFrequencySchedule, RunPhase, ZeroCrossDetector,
};

fn test_config() -> CommutatorConfig {
    CommutatorConfig {
        tick_hz: 1_000,
        sync_start_erpm: 100,
        sync_target_erpm: 400,
        sync_start_duty: 100_000,
        sync_max_duty: 1_000_000,
        sync_ramp_erpm_per_step: 100,
        stall_multiplier: 3,
    }
}

#[test]
fn step_pattern_table_has_exactly_one_floating_phase_per_step() {
    for step in 1..=6u8 {
        let p = step_pattern(step);
        let floats = [p.a, p.b, p.c]
            .iter()
            .filter(|s| **s == PhaseState::Float)
            .count();
        assert_eq!(floats, 1, "step {step} should float exactly one phase");
    }
}

#[test]
fn startup_ramps_commanded_erpm_and_duty_towards_the_sync_target() {
    let mut c = Commutator::new(test_config());
    assert_eq!(c.current_erpm(), 100);

    let out = c.poll(0);
    assert_eq!(out.phase, RunPhase::Startup);
    assert_eq!(out.duty, 100_000);

    let mut tick = 0u64;
    for _ in 0..2000 {
        tick += 1;
        c.poll(tick);
        if c.current_erpm() > 100 {
            break;
        }
    }
    assert!(c.current_erpm() > 100, "commanded erpm should have climbed");
    assert!(c.current_erpm() <= 400, "must not overshoot the sync target");
}

#[test]
fn startup_never_hands_off_without_a_trusted_zero_cross() {
    let mut c = Commutator::new(test_config());
    let mut out = c.poll(1);
    for tick in 2..=100_000u64 {
        out = c.poll(tick);
    }
    assert_eq!(out.phase, RunPhase::Startup);
    assert_eq!(c.electrical_rpm(), None);
    assert_eq!(c.current_erpm(), 400);
}

fn spun_up() -> (Commutator, u64) {
    let mut c = Commutator::new(test_config());
    let period = 1_000u64;
    let mut next_fake_zc = period;
    let mut tick = 0u64;
    loop {
        tick += 1;
        let out = c.poll(tick);
        if tick >= next_fake_zc {
            c.on_zero_cross(tick);
            next_fake_zc += period;
        }
        if out.phase == RunPhase::Running {
            return (c, tick);
        }
        assert!(tick < 1_000_000, "spun_up() didn't converge - test bug");
    }
}

#[test]
fn steady_period_commutates_at_half_period_after_each_zero_cross() {
    let (mut c, start) = spun_up();
    c.set_target_duty(500_000);

    let period = 1000u64;
    let mut zc = start + 200;
    c.on_zero_cross(zc);

    for _ in 0..5 {
        zc += period;
        c.on_zero_cross(zc);
        let commutation_tick = zc + period / 2;
        let step_before = c.poll(commutation_tick - 1).step;
        let out_at = c.poll(commutation_tick);
        assert_eq!(out_at.step, if step_before == 6 { 1 } else { step_before + 1 });
        assert_eq!(out_at.duty, 500_000);
        assert_eq!(out_at.phase, RunPhase::Running);
    }
}

#[test]
fn electrical_rpm_matches_the_measured_period() {
    let (mut c, start) = spun_up();
    let mut zc = start + 200;
    c.on_zero_cross(zc);
    zc += 1000;
    c.on_zero_cross(zc);
    assert_eq!(c.electrical_rpm(), Some(10));
    assert_eq!(c.current_erpm(), 10);
}

#[test]
fn accelerating_period_reschedules_commutation_to_the_new_shorter_period() {
    let (mut c, start) = spun_up();
    let mut zc = start + 200;
    let mut period = 1000u64;
    c.on_zero_cross(zc);
    for _ in 0..4 {
        period = period * 9 / 10;
        zc += period;
        c.on_zero_cross(zc);
        let expected_commutation = zc + period / 2;
        let step_before = c.poll(expected_commutation - 1).step;
        let out = c.poll(expected_commutation);
        assert_eq!(out.step, if step_before == 6 { 1 } else { step_before + 1 });
    }
}

#[test]
fn one_dropped_zero_cross_does_not_corrupt_the_period_estimate() {
    let (mut c, start) = spun_up();
    let period = 1000u64;
    let mut zc = start + 200;

    c.on_zero_cross(zc);
    for _ in 0..3 {
        zc += period;
        c.on_zero_cross(zc);
    }

    let missed_zc = zc + period;
    let recovered_zc = missed_zc + period;
    c.on_zero_cross(recovered_zc);

    let step_before_gap = c.poll(missed_zc + period / 2 - 1).step;
    let out_during_gap = c.poll(missed_zc + period / 2);
    assert_eq!(
        out_during_gap.step,
        if step_before_gap == 6 { 1 } else { step_before_gap + 1 }
    );

    let next_expected = recovered_zc + period / 2;
    let step_before = c.poll(next_expected - 1).step;
    let out = c.poll(next_expected);
    assert_eq!(out.step, if step_before == 6 { 1 } else { step_before + 1 });
}

#[test]
fn extended_silence_declares_a_stall_and_zeroes_duty() {
    let (mut c, start) = spun_up();
    c.set_target_duty(700_000);

    let period = 1000u64;
    let mut zc = start + 200;
    c.on_zero_cross(zc);
    for _ in 0..2 {
        zc += period;
        c.on_zero_cross(zc);
    }

    let out = c.poll(zc + period * 4);
    assert_eq!(out.phase, RunPhase::Stalled);
    assert_eq!(out.duty, 0);
    assert_eq!(c.current_erpm(), 0);

    let out = c.poll(zc + period * 10);
    assert_eq!(out.phase, RunPhase::Stalled);
}

#[test]
fn zero_cross_is_ignored_once_stalled() {
    let (mut c, start) = spun_up();
    let period = 1000u64;
    let mut zc = start + 200;
    c.on_zero_cross(zc);
    zc += period;
    c.on_zero_cross(zc);

    c.poll(zc + period * 10);
    assert_eq!(c.phase(), RunPhase::Stalled);

    c.on_zero_cross(zc + period * 10 + 1);
    let out = c.poll(zc + period * 10 + 2);
    assert_eq!(out.phase, RunPhase::Stalled);
}

#[test]
fn expected_rising_edge_alternates_per_step() {
    let expected = [false, true, false, true, false, true];
    for step in 1..=6u8 {
        assert_eq!(
            expected_rising_edge(step),
            expected[(step - 1) as usize],
            "step {step}"
        );
    }
}

#[test]
fn floating_phase_matches_step_table() {
    assert_eq!(floating_phase(1), Phase::C);
    assert_eq!(floating_phase(2), Phase::B);
    assert_eq!(floating_phase(3), Phase::A);
    assert_eq!(floating_phase(4), Phase::C);
    assert_eq!(floating_phase(5), Phase::B);
    assert_eq!(floating_phase(6), Phase::A);
}

#[test]
fn zero_cross_detector_ignores_first_sample_on_a_new_step() {
    let mut d = ZeroCrossDetector::new();
    assert!(!d.check(2, 1000, 2048));
}

#[test]
fn zero_cross_detector_fires_on_the_expected_direction() {
    let mut d = ZeroCrossDetector::new();
    assert!(!d.check(2, 1000, 2048));
    assert!(!d.check(2, 1500, 2048));
    assert!(d.check(2, 2500, 2048));
}

#[test]
fn zero_cross_detector_rejects_the_wrong_direction() {
    let mut d = ZeroCrossDetector::new();
    assert!(!d.check(1, 1000, 2048));
    assert!(!d.check(1, 1500, 2048));
    assert!(!d.check(1, 2500, 2048));
}

#[test]
fn zero_cross_detector_fires_on_a_falling_edge_when_expected() {
    let mut d = ZeroCrossDetector::new();
    assert!(!d.check(1, 2500, 2048));
    assert!(!d.check(1, 3000, 2048));
    assert!(d.check(1, 1000, 2048));
}

#[test]
fn zero_cross_detector_resets_reference_on_step_change() {
    let mut d = ZeroCrossDetector::new();
    assert!(!d.check(1, 2500, 2048));
    assert!(!d.check(2, 1000, 2048));
}

#[test]
fn two_commutators_do_not_share_state() {
    let (mut a, start_a) = spun_up();
    let (mut b, start_b) = spun_up();

    a.set_target_duty(250_000);
    b.set_target_duty(750_000);

    let period = 1000u64;
    let mut zc_a = start_a + 200;
    let mut zc_b = start_b + 300;

    for _ in 0..3 {
        zc_a += period;
        a.on_zero_cross(zc_a);
        zc_b += period;
        b.on_zero_cross(zc_b);
    }

    let out_a = a.poll(zc_a + period * 20);
    assert_eq!(out_a.phase, RunPhase::Stalled);
    assert_eq!(out_a.duty, 0);

    zc_b += period;
    b.on_zero_cross(zc_b);
    let out_b = b.poll(zc_b + period / 2);
    assert_eq!(out_b.phase, RunPhase::Running);
    assert_eq!(out_b.duty, 750_000);
}

#[test]
fn two_zero_cross_detectors_do_not_share_state() {
    let mut a = ZeroCrossDetector::new();
    let mut b = ZeroCrossDetector::new();
    assert!(!a.check(1, 2500, 2048));
    assert!(!b.check(2, 1000, 2048));
    assert!(b.check(2, 2500, 2048));
    assert!(a.check(1, 1000, 2048));
}

#[test]
fn pwm_frequency_schedule_interpolates_linearly() {
    let schedule = PwmFrequencySchedule {
        min_erpm: 1_000,
        max_erpm: 5_000,
        min_khz: 48,
        max_khz: 96,
    };
    assert_eq!(schedule.frequency_khz(1_000), 48);
    assert_eq!(schedule.frequency_khz(5_000), 96);
    assert_eq!(schedule.frequency_khz(3_000), 72);
}

#[test]
fn pwm_frequency_schedule_clamps_outside_its_range() {
    let schedule = PwmFrequencySchedule {
        min_erpm: 1_000,
        max_erpm: 5_000,
        min_khz: 48,
        max_khz: 96,
    };
    assert_eq!(schedule.frequency_khz(0), 48);
    assert_eq!(schedule.frequency_khz(50_000), 96);
}

#[test]
fn pwm_frequency_schedule_rounds_half_up() {
    // 10.25 rounds down, 10.5 and 10.75 round up.
    let schedule = PwmFrequencySchedule {
        min_erpm: 0,
        max_erpm: 4,
        min_khz: 10,
        max_khz: 11,
    };
    assert_eq!(schedule.frequency_khz(1), 10);
    assert_eq!(schedule.frequency_khz(2), 11);
    assert_eq!(schedule.frequency_khz(3), 11);
}

#[test]
fn pwm_frequency_schedule_can_fall_with_speed() {
    let schedule = PwmFrequencySchedule {
        min_erpm: 0,
        max_erpm: 100,
        min_khz: 96,
        max_khz: 48,
    };
    assert_eq!(schedule.frequency_khz(0), 96);
    assert_eq!(schedule.frequency_khz(50), 72);
    assert_eq!(schedule.frequency_khz(100), 48);
}

#[test]
fn pwm_frequency_schedule_with_an_empty_range_uses_the_top_frequency() {
    let schedule = PwmFrequencySchedule {
        min_erpm: 5_000,
        max_erpm: 5_000,
        min_khz: 48,
        max_khz: 96,
    };
    assert_eq!(schedule.frequency_khz(0), 96);
    assert_eq!(schedule.frequency_khz(5_000), 96);
}

#[test]
fn period_ticks_for_erpm_inverts_the_rpm_formula() {
    assert_eq!(period_ticks_for_erpm(10, 1_000), 1_000);
    assert_eq!(period_ticks_for_erpm(60_000, 170_000_000), 28_333);
    assert_eq!(period_ticks_for_erpm(0, 1_000), u64::MAX);
}

#[test]
fn set_target_duty_clamps_to_zero_and_full() {
    let (mut c, start) = spun_up();
    c.set_target_duty(-5);
    assert_eq!(c.poll(start + 1).duty, 0);
    c.set_target_duty(3_000_000);
    assert_eq!(c.poll(start + 2).duty, 1_000_000);
}

#[test]
fn default_zero_cross_detector_has_no_reference() {
    let mut d = ZeroCrossDetector::default();
    assert!(!d.check(2, 3000, 2048));
}

#[test]
fn a_first_sample_never_fires_whatever_the_step() {
    let mut d = ZeroCrossDetector::new();
    assert!(!d.check(7, 3000, 2048));
    assert!(!d.check(0, 1000, 2048));
}
