use aart_core::fault::{FaultConfig, FaultStatus, FaultSupervisor};

fn test_config() -> FaultConfig {
    FaultConfig {
        current_limit: 3000,
        comms_timeout_ticks: 1000,
    }
}

#[test]
fn overcurrent_trips_at_or_above_the_limit() {
    let s = FaultSupervisor::new(test_config());
    assert!(!s.is_overcurrent(2999));
    assert!(s.is_overcurrent(3000));
    assert!(s.is_overcurrent(3001));
}

#[test]
fn evaluate_reports_per_motor_overcurrent_independently() {
    let s = FaultSupervisor::new(test_config());
    let status = s.evaluate(0, 3500, 100, false, false);
    assert!(status.overcurrent_a);
    assert!(!status.overcurrent_b);
    assert!(!status.all_healthy());
}

#[test]
fn evaluate_reports_stall_flags_passed_in_directly() {
    let s = FaultSupervisor::new(test_config());
    let status = s.evaluate(0, 0, 0, true, false);
    assert!(status.stalled_a);
    assert!(!status.stalled_b);
    assert!(!status.all_healthy());
}

#[test]
fn comms_never_established_is_not_comms_lost() {
    let s = FaultSupervisor::new(test_config());
    let status = s.evaluate(1_000_000, 0, 0, false, false);
    assert!(!status.comms_lost);
    assert!(status.all_healthy());
}

#[test]
fn comms_lost_after_timeout_since_the_last_valid_command() {
    let mut s = FaultSupervisor::new(test_config());
    s.note_valid_command(100);

    let status = s.evaluate(100 + 1000, 0, 0, false, false);
    assert!(!status.comms_lost, "exactly at the timeout, not yet lost");

    let status = s.evaluate(100 + 1001, 0, 0, false, false);
    assert!(status.comms_lost);
    assert!(!status.all_healthy());
}

#[test]
fn a_fresh_command_clears_comms_lost() {
    let mut s = FaultSupervisor::new(test_config());
    s.note_valid_command(100);
    assert!(s.evaluate(5000, 0, 0, false, false).comms_lost);

    s.note_valid_command(5000);
    assert!(!s.evaluate(5100, 0, 0, false, false).comms_lost);
}

#[test]
fn all_healthy_is_false_if_any_single_flag_is_set() {
    let healthy = FaultStatus::default();
    assert!(healthy.all_healthy());

    let cases = [
        FaultStatus {
            overcurrent_a: true,
            ..Default::default()
        },
        FaultStatus {
            overcurrent_b: true,
            ..Default::default()
        },
        FaultStatus {
            stalled_a: true,
            ..Default::default()
        },
        FaultStatus {
            stalled_b: true,
            ..Default::default()
        },
        FaultStatus {
            comms_lost: true,
            ..Default::default()
        },
    ];
    for case in cases {
        assert!(!case.all_healthy(), "{case:?}");
    }
}

#[test]
fn a_clock_that_reads_before_the_last_command_is_not_comms_lost() {
    let mut s = FaultSupervisor::new(test_config());
    s.note_valid_command(5000);
    assert!(!s.comms_lost(10));
}

#[test]
fn comms_lost_matches_evaluate() {
    let mut s = FaultSupervisor::new(test_config());
    s.note_valid_command(0);
    assert!(s.comms_lost(1001));
    assert!(!s.comms_lost(1000));
}
