use aart_core::brake::{current_present, DragBrakeConfig, DragBrakeSupervisor};

fn cfg(debounce_ticks: u16) -> DragBrakeConfig {
    DragBrakeConfig { debounce_ticks }
}

#[test]
fn never_engages_while_ineligible_no_matter_how_long_current_is_absent() {
    let mut s = DragBrakeSupervisor::new(cfg(1));
    for _ in 0..10_000 {
        assert!(!s.update(false, false));
    }
}

#[test]
fn engages_after_debounce_ticks_of_no_current_while_eligible() {
    let mut s = DragBrakeSupervisor::new(cfg(3));
    assert!(!s.update(true, false));
    assert!(!s.update(true, false));
    assert!(s.update(true, false));
    assert!(s.is_engaged());
}

#[test]
fn a_single_current_present_tick_resets_the_debounce_counter() {
    let mut s = DragBrakeSupervisor::new(cfg(3));
    assert!(!s.update(true, false));
    assert!(!s.update(true, false));
    assert!(!s.update(true, true));
    assert!(!s.update(true, false));
    assert!(!s.update(true, false));
    assert!(!s.is_engaged(), "counter should have reset, not carried over");
}

#[test]
fn current_returning_immediately_releases_the_brake() {
    let mut s = DragBrakeSupervisor::new(cfg(1));
    assert!(s.update(true, false));
    assert!(s.is_engaged());
    assert!(!s.update(true, true));
    assert!(!s.is_engaged());
}

#[test]
fn stays_engaged_while_still_eligible_and_current_is_still_absent() {
    let mut s = DragBrakeSupervisor::new(cfg(1));
    assert!(s.update(true, false));
    assert!(s.update(true, false));
    assert!(s.update(true, false));
    assert!(s.is_engaged());
}

#[test]
fn debounce_of_one_reacts_on_the_first_absent_tick() {
    let mut s = DragBrakeSupervisor::new(cfg(1));
    assert!(s.update(true, false));
}

#[test]
fn current_present_is_false_exactly_at_the_zero_offset() {
    assert!(!current_present(2048, 2048, 50));
}

#[test]
fn current_present_detects_positive_driving_current() {
    assert!(current_present(2048 + 500, 2048, 50));
}

#[test]
fn current_present_detects_negative_braking_current() {
    assert!(current_present(2048 - 500, 2048, 50));
}

#[test]
fn current_present_is_false_within_the_deadband_on_either_side() {
    assert!(!current_present(2048 + 20, 2048, 50));
    assert!(!current_present(2048 - 20, 2048, 50));
}

#[test]
fn current_present_treats_the_deadband_boundary_as_present() {
    assert!(current_present(2048 + 50, 2048, 50));
    assert!(current_present(2048 - 50, 2048, 50));
}

#[test]
fn current_present_does_not_overflow_at_the_sample_range_extremes() {
    assert!(current_present(0, 4095, 1));
    assert!(current_present(u16::MAX, 0, 1));
}

#[test]
fn debounce_of_zero_behaves_like_one() {
    let mut s = DragBrakeSupervisor::new(cfg(0));
    assert!(!s.is_engaged());
    assert!(s.update(true, false));
}

#[test]
fn an_ineligible_tick_restarts_the_count_without_engaging() {
    let mut s = DragBrakeSupervisor::new(cfg(2));
    assert!(!s.update(true, false));
    assert!(!s.update(false, false));
    assert!(!s.update(true, false));
    assert!(s.update(true, false));
    // Already engaged: an ineligible tick leaves it engaged.
    assert!(s.update(false, false));
    assert!(s.is_engaged());
}

#[test]
fn a_new_supervisor_starts_released() {
    let s = DragBrakeSupervisor::new(cfg(5));
    assert!(!s.is_engaged());
}
