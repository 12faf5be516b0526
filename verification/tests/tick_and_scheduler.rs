use std::cell::Cell;

use aart_core::scheduler::{is_due, Scheduler, Task};
use aart_core::tick::TickExtender;

#[test]
fn extends_monotonically_within_one_wrap_cycle() {
    let mut e = TickExtender::new();
    assert_eq!(e.extend(0), 0);
    assert_eq!(e.extend(100), 100);
    assert_eq!(e.extend(u32::MAX), u32::MAX as u64);
}

#[test]
fn detects_a_wraparound_and_keeps_increasing() {
    let mut e = TickExtender::new();
    assert_eq!(e.extend(u32::MAX - 1), u32::MAX as u64 - 1);
    let wrapped = e.extend(5);
    assert_eq!(wrapped, (1u64 << 32) | 5);
    assert!(wrapped > u32::MAX as u64 - 1, "must keep increasing across a wrap");
}

#[test]
fn handles_several_consecutive_wraps() {
    let mut e = TickExtender::new();
    let mut previous = e.extend(0);
    for wrap in 1..=3u64 {
        let before_wrap = e.extend(u32::MAX - 1);
        assert!(before_wrap > previous);
        let after_wrap = e.extend(0);
        assert!(after_wrap > before_wrap);
        assert_eq!(after_wrap, wrap << 32);
        previous = after_wrap;
    }
}

#[test]
fn repeated_identical_readings_do_not_spuriously_advance_high() {
    let mut e = TickExtender::new();
    assert_eq!(e.extend(42), 42);
    assert_eq!(e.extend(42), 42);
}

#[test]
fn default_tick_extender_starts_at_zero() {
    let mut e = TickExtender::default();
    assert_eq!(e.extend(7), 7);
}

#[test]
fn fires_every_period() {
    let fires = Cell::new(0u32);
    let record = |_tick: u64| fires.set(fires.get() + 1);
    let mut sched = Scheduler::new([Task {
        period_ticks: 4,
        run: record,
    }]);
    for _ in 0..16 {
        sched.tick();
    }
    assert_eq!(fires.get(), 4);
}

#[test]
fn independent_periods_do_not_interfere() {
    let fires_1 = Cell::new(0u32);
    let fires_2 = Cell::new(0u32);
    let record_1 = |_tick: u64| fires_1.set(fires_1.get() + 1);
    let record_2 = |_tick: u64| fires_2.set(fires_2.get() + 1);
    let mut sched = Scheduler::new([
        Task {
            period_ticks: 1,
            run: &record_1 as &dyn Fn(u64),
        },
        Task {
            period_ticks: 5,
            run: &record_2 as &dyn Fn(u64),
        },
    ]);
    for _ in 0..10 {
        sched.tick();
    }
    assert_eq!(fires_1.get(), 10);
    assert_eq!(fires_2.get(), 2);
}

#[test]
fn zero_period_task_never_fires() {
    let fires = Cell::new(0u32);
    let record = |_tick: u64| fires.set(fires.get() + 1);
    let mut sched = Scheduler::new([Task {
        period_ticks: 0,
        run: record,
    }]);
    for _ in 0..100 {
        sched.tick();
    }
    assert_eq!(fires.get(), 0);
}

#[test]
fn task_receives_the_tick_it_fired_on() {
    let fires = Cell::new(0u32);
    let record = |tick: u64| {
        assert_eq!(tick % 3, 0);
        fires.set(fires.get() + 1);
    };
    let mut sched = Scheduler::new([Task {
        period_ticks: 3,
        run: record,
    }]);
    for _ in 0..9 {
        sched.tick();
    }
    assert_eq!(fires.get(), 3);
}

#[test]
fn current_tick_tracks_ticks_advanced() {
    let mut sched: Scheduler<fn(u64), 0> = Scheduler::new([]);
    for _ in 0..7 {
        sched.tick();
    }
    assert_eq!(sched.current_tick(), 7);
}

#[test]
fn is_due_on_multiples_only() {
    assert!(is_due(4, 8));
    assert!(!is_due(4, 9));
    assert!(!is_due(0, 0));
    assert!(is_due(1, 0));
}
