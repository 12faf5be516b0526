//! Six-step trapezoidal BLDC commutation state machine, one instance per
//! motor. Hardware-agnostic: takes tick counts and zero-cross events in,
//! produces a step index plus a duty out.
//!
//! Timing model: a BEMF zero-crossing occurs at the electrical midpoint
//! between two commutations, so the next commutation is scheduled at
//! `zero_cross_tick + period / 2`, where `period` is the time since the
//! previous zero-cross. Once running, every commutation also immediately
//! reschedules the following one from the current period estimate alone
//! (`deadline + period`), which keeps the motor commutating through an
//! occasional missed zero-crossing instead of stalling on the spot.
//!
//! There is no throttle input here: track voltage controls speed. Sync ramps
//! to a fixed configured eRPM, and once Running the duty stays at the
//! configured baseline unless the differential controller lowers it.
//!
//! Duties are fixed-point millionths (see `crate::units`).
use vstd::prelude::*;

use crate::units::SCALE;

verus! {

/// A measured period more than this many eighths of the established one
/// (1.625x) is rejected as an almost-certainly-missed zero-crossing rather
/// than a real slowdown.
pub const PERIOD_JUMP_REJECT_EIGHTHS: u64 = 13;

/// Upper bound on tick values a commutator that has not stalled accepts: ticks are 64-bit
/// extensions of a core-clock cycle counter, and 2^60 cycles at 170 MHz is
/// more than two centuries. Keeping every timestamp below it keeps the
/// period products (8x, 13x) and deadline sums inside 64 bits.
pub const TICK_LIMIT: u64 = 0x1000_0000_0000_0000;

#[derive(Debug, Clone, Copy, PartialEq, Eq, Structural)]
pub enum RunPhase {
    /// Open-loop: forced commutation, ramping the commanded rate (and duty
    /// in lockstep) from `sync_start_erpm` up to `sync_target_erpm`.
    Startup,
    /// Closed-loop: commutating off zero-cross timing.
    Running,
    /// No zero-cross seen within the expected window at the current rate.
    Stalled,
}

#[derive(Debug, Clone, Copy, PartialEq, Eq, Structural)]
pub enum PhaseState {
    High,
    Low,
    Float,
}

#[derive(Debug, Clone, Copy, PartialEq, Eq, Structural)]
pub struct StepPattern {
    pub a: PhaseState,
    pub b: PhaseState,
    pub c: PhaseState,
}

#[derive(Debug, Clone, Copy, PartialEq, Eq, Structural)]
pub enum Phase {
    A,
    B,
    C,
}

/// The six-step commutation table, step 1..=6.
pub open spec fn step_table(step: u8) -> StepPattern {
    if step == 1 {
        StepPattern { a: PhaseState::High, b: PhaseState::Low, c: PhaseState::Float }
    } else if step == 2 {
        StepPattern { a: PhaseState::High, b: PhaseState::Float, c: PhaseState::Low }
    } else if step == 3 {
        StepPattern { a: PhaseState::Float, b: PhaseState::High, c: PhaseState::Low }
    } else if step == 4 {
        StepPattern { a: PhaseState::Low, b: PhaseState::High, c: PhaseState::Float }
    } else if step == 5 {
        StepPattern { a: PhaseState::Low, b: PhaseState::Float, c: PhaseState::High }
    } else {
        StepPattern { a: PhaseState::Float, b: PhaseState::Low, c: PhaseState::High }
    }
}

/// The step that follows `step` in the cycle 1, 2, ..., 6, 1, ...
pub open spec fn next_step(step: u8) -> u8 {
    if step == 6 { 1 } else { (step + 1) as u8 }
}

/// The state a pattern gives to a phase.
pub open spec fn phase_state(p: StepPattern, phase: Phase) -> PhaseState {
    match phase {
        Phase::A => p.a,
        Phase::B => p.b,
        Phase::C => p.c,
    }
}

/// The phase left floating during `step`.
pub open spec fn floating_of(step: u8) -> Phase {
    let p = step_table(step);
    if p.a == PhaseState::Float {
        Phase::A
    } else if p.b == PhaseState::Float {
        Phase::B
    } else {
        Phase::C
    }
}

/// Whether the floating phase crosses neutral rising during `step`: the
/// phase that floats now is driven by the next step, rising when that
/// drive is High.
pub open spec fn rising_edge(step: u8) -> bool {
    phase_state(step_table(next_step(step)), floating_of(step)) == PhaseState::High
}

/// `step` is 1..=6: the six-step table has no other entries, so callers
/// must not pass another value.
pub fn step_pattern(step: u8) -> (p: StepPattern)
    requires
        1 <= step <= 6,
    ensures
        p == step_table(step),
{
    if step == 1 {
        StepPattern { a: PhaseState::High, b: PhaseState::Low, c: PhaseState::Float }
    } else if step == 2 {
        StepPattern { a: PhaseState::High, b: PhaseState::Float, c: PhaseState::Low }
    } else if step == 3 {
        StepPattern { a: PhaseState::Float, b: PhaseState::High, c: PhaseState::Low }
    } else if step == 4 {
        StepPattern { a: PhaseState::Low, b: PhaseState::High, c: PhaseState::Float }
    } else if step == 5 {
        StepPattern { a: PhaseState::Low, b: PhaseState::Float, c: PhaseState::High }
    } else {
        StepPattern { a: PhaseState::Float, b: PhaseState::Low, c: PhaseState::High }
    }
}

/// Every step of the table leaves exactly one phase floating.
pub proof fn lemma_exactly_one_floating_phase(step: u8)
    requires
        1 <= step <= 6,
    ensures
        phase_state(step_table(step), floating_of(step)) == PhaseState::Float,
        forall|q: Phase|
            q != floating_of(step) ==> phase_state(step_table(step), q) != PhaseState::Float,
{
}

/// Which physical phase is floating (and therefore the one to sample for
/// BEMF) during `step`.
pub fn floating_phase(step: u8) -> (r: Phase)
    requires
        1 <= step <= 6,
    ensures
        r == floating_of(step),
        phase_state(step_table(step), r) == PhaseState::Float,
{
    let p = step_pattern(step);
    if p.a == PhaseState::Float {
        Phase::A
    } else if p.b == PhaseState::Float {
        Phase::B
    } else {
        Phase::C
    }
}

/// Whether the floating phase should cross neutral rising (low-to-high)
/// during `step`, derived from the step table itself.
pub fn expected_rising_edge(step: u8) -> (r: bool)
    requires
        1 <= step <= 6,
    ensures
        r == rising_edge(step),
{
    let next = if step == 6 { 1 } else { step + 1 };
    let p = step_pattern(next);
    match floating_phase(step) {
        Phase::A => p.a == PhaseState::High,
        Phase::B => p.b == PhaseState::High,
        Phase::C => p.c == PhaseState::High,
    }
}

/// The expected crossing direction alternates from step to step: falling on
/// odd steps, rising on even ones.
pub proof fn lemma_rising_edge_alternates(step: u8)
    requires
        1 <= step <= 6,
    ensures
        rising_edge(step) == (step % 2 == 0),
        rising_edge(next_step(step)) == !rising_edge(step),
{
}

/// Turns raw ADC samples into zero-cross events by watching the floating
/// phase's reading cross the virtual-neutral reading in the direction
/// six-step commutation expects for the current step.
pub struct ZeroCrossDetector {
    last_step: Option<u8>,
    last_sample_positive: Option<bool>,
}

impl ZeroCrossDetector {
    /// The step the last sample was taken on, if any.
    pub closed spec fn last_step(&self) -> Option<u8> {
        self.last_step
    }

    /// Whether the last sample was at or above neutral, if any.
    pub closed spec fn last_positive(&self) -> Option<bool> {
        self.last_sample_positive
    }

    /// A reference sample exists exactly when a step has been seen.
    pub closed spec fn wf(&self) -> bool {
        self.last_step.is_some() == self.last_sample_positive.is_some()
    }

    pub fn new() -> (r: Self)
        ensures
            r.wf(),
            r.last_step() is None,
            r.last_positive() is None,
    {
        ZeroCrossDetector { last_step: None, last_sample_positive: None }
    }

    /// `floating_sample`/`neutral_sample` are raw ADC counts for the
    /// currently-floating phase and the virtual neutral node, sampled at the
    /// same instant. Returns true exactly on the sample where the reading
    /// crosses neutral in the expected direction for `step`; the first
    /// sample on a new step only establishes a reference. Judging a
    /// crossing's direction needs `step` to be one of the table's.
    pub fn check(&mut self, step: u8, floating_sample: u16, neutral_sample: u16) -> (fired: bool)
        requires
            old(self).wf(),
            old(self).last_step() == Some(step) && old(self).last_positive() != Some(
                floating_sample >= neutral_sample,
            ) ==> 1 <= step <= 6,
        ensures
            final(self).wf(),
            final(self).last_step() == Some(step),
            final(self).last_positive() == Some(floating_sample >= neutral_sample),
            fired == (old(self).last_step() == Some(step)
                && old(self).last_positive() != Some(floating_sample >= neutral_sample)
                && (floating_sample >= neutral_sample) == rising_edge(step)),
    {
        let positive = floating_sample >= neutral_sample;
        let same_step = match self.last_step {
            Some(s) => s == step,
            None => false,
        };
        if !same_step {
            self.last_step = Some(step);
            self.last_sample_positive = Some(positive);
            return false;
        }
        let previous = self.last_sample_positive;
        self.last_sample_positive = Some(positive);
        match previous {
            Some(prev) => {
                if prev != positive {
                    positive == expected_rising_edge(step)
                } else {
                    false
                }
            },
            None => false,
        }
    }
}

impl Default for ZeroCrossDetector {
    /// Same as `new`: no reference sample.
    fn default() -> (r: Self)
        ensures
            r.wf(),
            r.last_step() is None,
            r.last_positive() is None,
    {
        Self::new()
    }
}

#[derive(Debug, Clone, Copy, PartialEq, Eq, Structural)]
pub struct Output {
    pub step: u8,
    /// Duty in millionths.
    pub duty: u32,
    pub phase: RunPhase,
}

#[derive(Debug, Clone, Copy, PartialEq, Eq, Structural)]
pub struct CommutatorConfig {
    /// Ticks per second of the timebase `poll()`/`on_zero_cross()` use.
    pub tick_hz: u32,
    /// Electrical RPM at the very start of the open-loop sync ramp.
    pub sync_start_erpm: u32,
    /// Electrical RPM the sync ramp targets before handing off to
    /// closed-loop BEMF commutation.
    pub sync_target_erpm: u32,
    /// Duty (millionths) applied at `sync_start_erpm`.
    pub sync_start_duty: u32,
    /// Duty (millionths) reached at `sync_target_erpm`, and the baseline
    /// once Running.
    pub sync_max_duty: u32,
    /// Electrical RPM added to the open-loop rate each commutation step.
    pub sync_ramp_erpm_per_step: u32,
    /// Declare a stall if no zero-cross arrives within
    /// `stall_multiplier * period_estimate` ticks of the last one.
    pub stall_multiplier: u32,
}

/// Ticks between consecutive zero-crossings for `erpm`; `u64::MAX` (never)
/// when `erpm == 0`.
pub open spec fn period_ticks_spec(erpm: u32, tick_hz: u32) -> u64 {
    if erpm == 0 {
        u64::MAX
    } else {
        ((tick_hz as int * 10) / erpm as int) as u64
    }
}

/// Ticks between consecutive zero-crossings (1/6 of an electrical
/// revolution) for a given electrical RPM. Inverse of the arithmetic in
/// `Commutator::electrical_rpm`. `erpm == 0` returns `u64::MAX` rather than
/// dividing by zero.
pub fn period_ticks_for_erpm(erpm: u32, tick_hz: u32) -> (r: u64)
    ensures
        r == period_ticks_spec(erpm, tick_hz),
        erpm > 0 ==> r <= tick_hz as int * 10,
{
    if erpm == 0 {
        return u64::MAX;
    }
    (tick_hz as u64 * 10) / erpm as u64
}

/// The open-loop commutation period at `erpm` (treated as at least 1), at
/// least one tick.
pub open spec fn startup_period(erpm: u32, tick_hz: u32) -> u64 {
    let p = period_ticks_spec(if erpm == 0 { 1 } else { erpm }, tick_hz);
    if p == 0 { 1 } else { p }
}

/// One ramp step from `c` toward `target`, moving by `rate` and never past it.
pub open spec fn ramp_toward(c: u32, target: u32, rate: u32) -> u32 {
    if c < target {
        if c + rate < target { (c + rate) as u32 } else { target }
    } else if c > target {
        if c - rate > target { (c - rate) as u32 } else { target }
    } else {
        c
    }
}

/// Linear interpolation from `a` at `num == 0` to `b` at `num == den`,
/// rounded toward `a`.
pub open spec fn interpolate(a: u32, b: u32, num: u32, den: u32) -> u32 {
    if b >= a {
        (a + (b - a) * num / (den as int)) as u32
    } else {
        (a - (a - b) * num / (den as int)) as u32
    }
}

/// Open-loop duty for a commanded rate: `sync_start_duty` at
/// `sync_start_erpm`, rising linearly to `sync_max_duty` at
/// `sync_target_erpm` and flat beyond it.
pub open spec fn startup_duty(config: CommutatorConfig, commanded: u32) -> u32 {
    let span: u32 = if config.sync_target_erpm > config.sync_start_erpm {
        (config.sync_target_erpm - config.sync_start_erpm) as u32
    } else {
        1
    };
    let done: u32 = if commanded > config.sync_start_erpm {
        (commanded - config.sync_start_erpm) as u32
    } else {
        0
    };
    let num: u32 = if done < span { done } else { span };
    interpolate(config.sync_start_duty, config.sync_max_duty, num, span)
}

/// `c` lies between `a` and `b` inclusive, in whichever order they come.
pub open spec fn between(c: u32, a: u32, b: u32) -> bool {
    (a <= c <= b) || (b <= c <= a)
}

/// The plain-value model of a `Commutator`.
#[derive(Clone, Copy, PartialEq, Eq, Structural)]
pub struct CommutatorView {
    pub config: CommutatorConfig,
    pub step: u8,
    pub phase: RunPhase,
    /// Duty (millionths) applied while Running.
    pub target_duty: u32,
    /// Open-loop commanded rate.
    pub commanded_erpm: u32,
    pub last_zero_cross: Option<u64>,
    /// Trusted zero-cross period; present exactly once a real zero-cross
    /// interval has been accepted.
    pub period_estimate: Option<u64>,
    pub next_commutation: Option<u64>,
}

impl CommutatorView {
    /// The state invariant every `Commutator` keeps.
    pub open spec fn wf(self) -> bool {
        &&& 1 <= self.step <= 6
        &&& between(self.commanded_erpm, self.config.sync_start_erpm, self.config.sync_target_erpm)
        &&& (self.last_zero_cross matches Some(t) ==> t <= TICK_LIMIT)
        &&& (self.period_estimate matches Some(p) ==> 0 < p <= TICK_LIMIT)
        &&& (self.next_commutation matches Some(d) ==> d <= 4 * TICK_LIMIT)
    }

    /// Electrical RPM from the trusted period estimate, if any.
    pub open spec fn electrical_rpm(self) -> Option<u32> {
        match self.period_estimate {
            Some(p) => if p == 0 {
                None
            } else {
                Some(((self.config.tick_hz as int * 10) / p as int) as u32)
            },
            None => None,
        }
    }

    /// The period a zero-cross at `tick` establishes, or `None` when it is
    /// the first one seen or looks like a missed beat (more than 13/8 of the
    /// trusted estimate), or no time has passed.
    pub open spec fn accepted_period(self, tick: u64) -> Option<u64> {
        match self.last_zero_cross {
            Some(prev) => {
                let period: u64 = if tick > prev { (tick - prev) as u64 } else { 0 };
                let missed = match self.period_estimate {
                    Some(old) => period * 8 > old * PERIOD_JUMP_REJECT_EIGHTHS,
                    None => false,
                };
                if period > 0 && !missed { Some(period) } else { None }
            },
            None => None,
        }
    }

    /// The state after a zero-cross at `tick`: ignored once stalled;
    /// otherwise recorded, and an accepted interval becomes the trusted
    /// period estimate with the next commutation half a period later.
    pub open spec fn after_zero_cross(self, tick: u64) -> CommutatorView {
        if self.phase == RunPhase::Stalled {
            self
        } else {
            match self.accepted_period(tick) {
                Some(period) => CommutatorView {
                    last_zero_cross: Some(tick),
                    period_estimate: Some(period),
                    next_commutation: Some((tick + period / 2) as u64),
                    ..self
                },
                None => CommutatorView { last_zero_cross: Some(tick), ..self },
            }
        }
    }

    /// Running with no zero-cross for longer than the stall window.
    pub open spec fn stall_expired(self, tick: u64) -> bool {
        match (self.last_zero_cross, self.period_estimate) {
            (Some(last), Some(period)) => {
                let timeout = if period * self.config.stall_multiplier > u64::MAX {
                    u64::MAX as int
                } else {
                    period * self.config.stall_multiplier
                };
                (if tick > last { tick - last } else { 0 }) > timeout
            },
            _ => false,
        }
    }
}

pub struct Commutator {
    config: CommutatorConfig,
    step: u8,
    phase: RunPhase,
    target_duty: u32,
    commanded_erpm: u32,
    last_zero_cross: Option<u64>,
    period_estimate: Option<u64>,
    next_commutation: Option<u64>,
}

impl View for Commutator {
    type V = CommutatorView;

    closed spec fn view(&self) -> CommutatorView {
        CommutatorView {
            config: self.config,
            step: self.step,
            phase: self.phase,
            target_duty: self.target_duty,
            commanded_erpm: self.commanded_erpm,
            last_zero_cross: self.last_zero_cross,
            period_estimate: self.period_estimate,
            next_commutation: self.next_commutation,
        }
    }
}

impl Commutator {
    pub fn new(config: CommutatorConfig) -> (r: Self)
        ensures
            r@.wf(),
            r@ == (CommutatorView {
                config,
                step: 1,
                phase: RunPhase::Startup,
                target_duty: 0,
                commanded_erpm: config.sync_start_erpm,
                last_zero_cross: None,
                period_estimate: None,
                next_commutation: None,
            }),
    {
        Commutator {
            config,
            step: 1,
            phase: RunPhase::Startup,
            target_duty: 0,
            commanded_erpm: config.sync_start_erpm,
            last_zero_cross: None,
            period_estimate: None,
            next_commutation: None,
        }
    }

    pub fn phase(&self) -> (r: RunPhase)
        ensures
            r == self@.phase,
    {
        self.phase
    }

    pub fn step(&self) -> (r: u8)
        ensures
            r == self@.step,
    {
        self.step
    }

    /// Sets the duty the Running phase applies, clamped to `[0, SCALE]`. Has
    /// no visible effect while still in Startup, which computes its own ramp
    /// duty.
    pub fn set_target_duty(&mut self, duty: i64)
        requires
            old(self)@.wf(),
        ensures
            final(self)@.wf(),
            final(self)@ == (CommutatorView {
                target_duty: crate::units::clamp_int(duty as int, 0, SCALE as int) as u32,
                ..old(self)@
            }),
    {
        self.target_duty = if duty < 0 {
            0
        } else if duty > SCALE as i64 {
            SCALE
        } else {
            duty as u32
        };
    }

    /// Electrical RPM derived from the zero-cross period estimate (six
    /// zero-crossings per electrical revolution). `None` before a trusted
    /// period estimate exists.
    pub fn electrical_rpm(&self) -> (r: Option<u32>)
        requires
            self@.wf(),
        ensures
            r == self@.electrical_rpm(),
    {
        match self.period_estimate {
            Some(period) => {
                if period == 0 {
                    None
                } else {
                    Some(#[verifier::truncate] (((self.config.tick_hz as u64 * 10) / period) as u32))
                }
            },
            None => None,
        }
    }

    /// Best current estimate of electrical RPM regardless of phase: the
    /// open-loop commanded rate during Startup, the BEMF-measured rate
    /// during Running, or 0 once Stalled.
    pub fn current_erpm(&self) -> (r: u32)
        requires
            self@.wf(),
        ensures
            r == match self@.phase {
                RunPhase::Startup => self@.commanded_erpm,
                RunPhase::Running => match self@.electrical_rpm() {
                    Some(e) => e,
                    None => 0,
                },
                RunPhase::Stalled => 0,
            },
    {
        match self.phase {
            RunPhase::Startup => self.commanded_erpm,
            RunPhase::Running => match self.electrical_rpm() {
                Some(e) => e,
                None => 0,
            },
            RunPhase::Stalled => 0,
        }
    }

    /// Call when a BEMF zero-crossing is detected on the currently-floating
    /// phase. Ignored once stalled. An accepted interval becomes the trusted
    /// period estimate and schedules the next commutation half a period
    /// after this crossing; a suspected missed beat leaves both alone.
    pub fn on_zero_cross(&mut self, tick: u64)
        requires
            old(self)@.wf(),
            old(self)@.phase != RunPhase::Stalled ==> tick <= TICK_LIMIT,
        ensures
            final(self)@.wf(),
            final(self)@ == old(self)@.after_zero_cross(tick),
    {
        if self.phase == RunPhase::Stalled {
            return;
        }
        if let Some(prev) = self.last_zero_cross {
            let period = if tick > prev { tick - prev } else { 0 };
            let looks_like_a_missed_beat = match self.period_estimate {
                Some(old) => period * 8 > old * PERIOD_JUMP_REJECT_EIGHTHS,
                None => false,
            };
            if period > 0 && !looks_like_a_missed_beat {
                self.period_estimate = Some(period);
                self.next_commutation = Some(tick + period / 2);
            }
        }
        self.last_zero_cross = Some(tick);
    }

    fn advance_step(&mut self)
        requires
            1 <= old(self).step <= 6,
        ensures
            final(self)@ == (CommutatorView { step: next_step(old(self).step), ..old(self)@ }),
    {
        self.step = if self.step == 6 { 1 } else { self.step + 1 };
    }

    /// Call every tick; advances the step when the scheduled commutation
    /// deadline (open-loop during sync, BEMF-derived once Running) has been
    /// reached, and reports the step, duty and phase to apply.
    pub fn poll(&mut self, tick: u64) -> (out: Output)
        requires
            old(self)@.wf(),
            old(self)@.phase != RunPhase::Stalled ==> tick <= TICK_LIMIT,
        ensures
            final(self)@.wf(),
            (final(self)@, out) == Self::poll_result(old(self)@, tick),
            out.step == final(self)@.step,
    {
        match self.phase {
            RunPhase::Startup => self.poll_startup(tick),
            RunPhase::Running => self.poll_running(tick),
            RunPhase::Stalled => Output { step: self.step, duty: 0, phase: RunPhase::Stalled },
        }
    }

    /// What a Running poll does: declare a stall once the stall window has
    /// passed without a zero-cross; otherwise fire the scheduled commutation
    /// when its deadline is reached, reschedule it a period later, and apply
    /// the target duty.
    pub open spec fn running_poll(pre: CommutatorView, tick: u64) -> (CommutatorView, Output) {
        if pre.stall_expired(tick) {
            (
                CommutatorView { phase: RunPhase::Stalled, ..pre },
                Output { step: pre.step, duty: 0, phase: RunPhase::Stalled },
            )
        } else {
            let fire = pre.next_commutation matches Some(d) && tick >= d;
            let step = if fire { next_step(pre.step) } else { pre.step };
            let next = if fire {
                match (pre.next_commutation, pre.period_estimate) {
                    (Some(d), Some(p)) => Some((d + p) as u64),
                    _ => pre.next_commutation,
                }
            } else {
                pre.next_commutation
            };
            (
                CommutatorView { step, next_commutation: next, ..pre },
                Output { step, duty: pre.target_duty, phase: RunPhase::Running },
            )
        }
    }

    /// What a Startup poll does: the deadline is the scheduled one, or one
    /// open-loop period from now if none is scheduled yet. When it is
    /// reached the step advances, the commanded rate ramps one step toward
    /// the target and the next deadline is a period at the new rate; once
    /// the target is reached with a trusted period estimate, control hands
    /// off to Running at the baseline duty, next commutation one measured
    /// period away. Before handoff the duty follows the ramp.
    pub open spec fn startup_poll(pre: CommutatorView, tick: u64) -> (CommutatorView, Output) {
        let deadline: u64 = match pre.next_commutation {
            Some(d) => d,
            None => (tick + startup_period(pre.commanded_erpm, pre.config.tick_hz)) as u64,
        };
        if tick >= deadline {
            let c = ramp_toward(
                pre.commanded_erpm,
                pre.config.sync_target_erpm,
                pre.config.sync_ramp_erpm_per_step,
            );
            let step = next_step(pre.step);
            match (c >= pre.config.sync_target_erpm, pre.period_estimate) {
                (true, Some(p)) => (
                    CommutatorView {
                        step,
                        phase: RunPhase::Running,
                        target_duty: pre.config.sync_max_duty,
                        commanded_erpm: c,
                        next_commutation: Some((tick + p) as u64),
                        ..pre
                    },
                    Output { step, duty: pre.config.sync_max_duty, phase: RunPhase::Running },
                ),
                _ => (
                    CommutatorView {
                        step,
                        commanded_erpm: c,
                        next_commutation: Some((tick + startup_period(c, pre.config.tick_hz)) as u64),
                        ..pre
                    },
                    Output { step, duty: startup_duty(pre.config, c), phase: RunPhase::Startup },
                ),
            }
        } else {
            (
                CommutatorView { next_commutation: Some(deadline), ..pre },
                Output {
                    step: pre.step,
                    duty: startup_duty(pre.config, pre.commanded_erpm),
                    phase: RunPhase::Startup,
                },
            )
        }
    }

    /// The state and output of a poll at `tick`, by phase; a stalled
    /// commutator stays as it is and reports zero duty.
    pub open spec fn poll_result(pre: CommutatorView, tick: u64) -> (CommutatorView, Output) {
        match pre.phase {
            RunPhase::Startup => Self::startup_poll(pre, tick),
            RunPhase::Running => Self::running_poll(pre, tick),
            RunPhase::Stalled => (pre, Output { step: pre.step, duty: 0, phase: RunPhase::Stalled }),
        }
    }

    fn startup_period_exec(erpm: u32, tick_hz: u32) -> (r: u64)
        ensures
            r == startup_period(erpm, tick_hz),
            1 <= r <= 42_949_672_950u64,
    {
        let e = if erpm == 0 { 1 } else { erpm };
        let p = period_ticks_for_erpm(e, tick_hz);
        if p == 0 { 1 } else { p }
    }

    fn startup_duty_exec(config: CommutatorConfig, commanded: u32) -> (r: u32)
        ensures
            r == startup_duty(config, commanded),
    {
        let span: u32 = if config.sync_target_erpm > config.sync_start_erpm {
            config.sync_target_erpm - config.sync_start_erpm
        } else {
            1
        };
        let done: u32 = if commanded > config.sync_start_erpm {
            commanded - config.sync_start_erpm
        } else {
            0
        };
        let num: u32 = if done < span { done } else { span };
        let a = config.sync_start_duty;
        let b = config.sync_max_duty;
        if b >= a {
            proof {
                crate::units::lemma_mul_div_bounded((b - a) as int, num as int, span as int);
            }
            let d = (b - a) as u64 * num as u64 / span as u64;
            a + d as u32
        } else {
            proof {
                crate::units::lemma_mul_div_bounded((a - b) as int, num as int, span as int);
            }
            let d = (a - b) as u64 * num as u64 / span as u64;
            a - d as u32
        }
    }

    fn poll_startup(&mut self, tick: u64) -> (out: Output)
        requires
            old(self)@.wf(),
            old(self)@.phase == RunPhase::Startup,
            tick <= TICK_LIMIT,
        ensures
            final(self)@.wf(),
            (final(self)@, out) == Self::startup_poll(old(self)@, tick),
    {
        let period = Self::startup_period_exec(self.commanded_erpm, self.config.tick_hz);
        let deadline = match self.next_commutation {
            Some(d) => d,
            None => tick + period,
        };
        self.next_commutation = Some(deadline);

        if tick >= deadline {
            self.advance_step();

            let target = self.config.sync_target_erpm;
            let rate = self.config.sync_ramp_erpm_per_step;
            let c = self.commanded_erpm;
            if c < target {
                self.commanded_erpm = if (c as u64) + (rate as u64) < target as u64 {
                    c + rate
                } else {
                    target
                };
            } else if c > target {
                self.commanded_erpm = if c >= rate && c - rate > target {
                    c - rate
                } else {
                    target
                };
            }

            let next_period = Self::startup_period_exec(self.commanded_erpm, self.config.tick_hz);
            self.next_commutation = Some(tick + next_period);

            if self.commanded_erpm >= target {
                if let Some(measured_period) = self.period_estimate {
                    self.phase = RunPhase::Running;
                    self.target_duty = self.config.sync_max_duty;
                    self.next_commutation = Some(tick + measured_period);
                    return Output { step: self.step, duty: self.target_duty, phase: self.phase };
                }
            }
        }

        let duty = Self::startup_duty_exec(self.config, self.commanded_erpm);
        Output { step: self.step, duty, phase: self.phase }
    }

    fn poll_running(&mut self, tick: u64) -> (out: Output)
        requires
            old(self)@.wf(),
            old(self)@.phase == RunPhase::Running,
            tick <= TICK_LIMIT,
        ensures
            final(self)@.wf(),
            (final(self)@, out) == Self::running_poll(old(self)@, tick),
    {
        if let (Some(last_zc), Some(period)) = (self.last_zero_cross, self.period_estimate) {
            let timeout = match period.checked_mul(self.config.stall_multiplier as u64) {
                Some(t) => t,
                None => u64::MAX,
            };
            let silent = if tick > last_zc { tick - last_zc } else { 0 };
            if silent > timeout {
                self.phase = RunPhase::Stalled;
                return Output { step: self.step, duty: 0, phase: RunPhase::Stalled };
            }
        }

        if let Some(deadline) = self.next_commutation {
            if tick >= deadline {
                self.advance_step();
                if let Some(period) = self.period_estimate {
                    self.next_commutation = Some(deadline + period);
                }
            }
        }

        Output { step: self.step, duty: self.target_duty, phase: RunPhase::Running }
    }
}

/// The zero-cross period for an electrical RPM and the electrical RPM
/// measured from a period are inverse divisions of the same `10 * tick_hz`:
/// turning a period into a rate (one that fits the 32-bit reading) and back
/// never gives a shorter period, and gives the same one when the period
/// divides evenly.
pub proof fn lemma_period_and_rpm_are_inverse(period: u64, tick_hz: u32)
    requires
        0 < period <= tick_hz as int * 10,
        tick_hz as int * 10 / period as int <= u32::MAX,
    ensures
        ({
            let erpm = (tick_hz as int * 10 / period as int) as u32;
            &&& erpm > 0
            &&& period_ticks_spec(erpm, tick_hz) >= period
            &&& (tick_hz as int * 10) % (period as int) == 0 ==> period_ticks_spec(erpm, tick_hz) == period
        }),
{
    let h = tick_hz as int * 10;
    let p = period as int;
    let e = h / p;
    assert(1 <= e <= h) by (nonlinear_arith)
        requires
            0 < p <= h,
            e == h / p,
    ;
    assert(h / e >= p) by (nonlinear_arith)
        requires
            0 < p <= h,
            e == h / p,
            e >= 1,
    ;
    assert(h % p == 0 ==> h / e == p) by (nonlinear_arith)
        requires
            0 < p <= h,
            e == h / p,
            e >= 1,
    ;
}

/// A poll moves the commutation by at most one step, and only forward.
pub proof fn lemma_poll_advances_at_most_one_step(pre: CommutatorView, tick: u64)
    requires
        pre.wf(),
    ensures
        ({
            let post = Commutator::poll_result(pre, tick).0;
            post.step == pre.step || post.step == next_step(pre.step)
        }),
{
}

/// Sync never hands off to closed-loop commutation before a real
/// zero-cross interval has been accepted: a Startup commutator without a
/// trusted period estimate is still in Startup after a poll.
pub proof fn lemma_no_handoff_without_trusted_period(pre: CommutatorView, tick: u64)
    requires
        pre.wf(),
        pre.phase == RunPhase::Startup,
        pre.period_estimate is None,
    ensures
        Commutator::poll_result(pre, tick).0.phase == RunPhase::Startup,
        Commutator::poll_result(pre, tick).1.phase == RunPhase::Startup,
{
}

/// The open-loop ramp only moves the commanded rate toward the sync target,
/// never past it, and the handoff happens only at the target.
pub proof fn lemma_sync_ramp_toward_target(pre: CommutatorView, tick: u64)
    requires
        pre.wf(),
        pre.phase == RunPhase::Startup,
    ensures
        ({
            let post = Commutator::poll_result(pre, tick).0;
            &&& between(post.commanded_erpm, pre.commanded_erpm, pre.config.sync_target_erpm)
            &&& post.phase == RunPhase::Running ==> post.commanded_erpm >= pre.config.sync_target_erpm
        }),
{
}

/// A stall is final: polls leave a stalled commutator unchanged and report
/// zero duty, and zero-crossings are ignored.
pub proof fn lemma_stall_is_final(pre: CommutatorView, tick: u64)
    requires
        pre.phase == RunPhase::Stalled,
    ensures
        Commutator::poll_result(pre, tick).0 == pre,
        Commutator::poll_result(pre, tick).1 == (Output { step: pre.step, duty: 0, phase: RunPhase::Stalled }),
        pre.after_zero_cross(tick) == pre,
{
}

/// A zero-crossing that looks like a missed beat (an interval more than
/// 13/8 of the trusted period) leaves the period estimate and the scheduled
/// commutation as they were; only the crossing's time is recorded.
pub proof fn lemma_missed_beat_keeps_estimate(pre: CommutatorView, tick: u64)
    requires
        pre.phase != RunPhase::Stalled,
        pre.last_zero_cross is Some,
        pre.period_estimate is Some,
        tick > pre.last_zero_cross.unwrap(),
        (tick - pre.last_zero_cross.unwrap()) * 8 > pre.period_estimate.unwrap() * PERIOD_JUMP_REJECT_EIGHTHS,
    ensures
        pre.after_zero_cross(tick).period_estimate == pre.period_estimate,
        pre.after_zero_cross(tick).next_commutation == pre.next_commutation,
        pre.after_zero_cross(tick).last_zero_cross == Some(tick),
{
}

/// An accepted zero-crossing becomes the new period estimate and schedules
/// the next commutation half a period after it.
pub proof fn lemma_accepted_crossing_schedules_half_period(pre: CommutatorView, tick: u64)
    requires
        pre.phase != RunPhase::Stalled,
        pre.last_zero_cross is Some,
        tick > pre.last_zero_cross.unwrap(),
        pre.period_estimate matches Some(p) ==> (tick - pre.last_zero_cross.unwrap()) * 8 <= p * PERIOD_JUMP_REJECT_EIGHTHS,
    ensures
        ({
            let period = (tick - pre.last_zero_cross.unwrap()) as u64;
            &&& pre.after_zero_cross(tick).period_estimate == Some(period)
            &&& pre.after_zero_cross(tick).next_commutation == Some((tick + period / 2) as u64)
        }),
{
}

/// While Running and not stalled, the duty reported is the target duty, and
/// the step advances exactly when the scheduled commutation is due.
pub proof fn lemma_running_commutates_on_schedule(pre: CommutatorView, tick: u64)
    requires
        pre.wf(),
        pre.phase == RunPhase::Running,
        !pre.stall_expired(tick),
    ensures
        ({
            let (post, out) = Commutator::poll_result(pre, tick);
            &&& out.duty == pre.target_duty
            &&& out.phase == RunPhase::Running
            &&& (pre.next_commutation matches Some(d) && tick >= d) ==> post.step == next_step(pre.step)
            &&& !(pre.next_commutation matches Some(d) && tick >= d) ==> post.step == pre.step
        }),
{
}

/// During the sync ramp the reported duty moves with the commanded rate:
/// with `done` the commanded rate's distance past `sync_start_erpm` (none
/// below it, at most the whole span up to `sync_target_erpm`), the duty is
/// `sync_start_duty` plus `done / span` of the way to `sync_max_duty`,
/// rounded toward `sync_start_duty`. So it is `sync_start_duty` at the start
/// rate, `sync_max_duty` at the target, and in between it has moved by
/// whole steps of `span / (sync_max_duty - sync_start_duty)` eRPM.
pub proof fn lemma_sync_duty_follows_the_ramp(pre: CommutatorView, tick: u64)
    requires
        pre.wf(),
        pre.phase == RunPhase::Startup,
    ensures
        ({
            let (post, out) = Commutator::poll_result(pre, tick);
            let a = pre.config.sync_start_duty as int;
            let b = pre.config.sync_max_duty as int;
            let s0 = pre.config.sync_start_erpm as int;
            let s1 = pre.config.sync_target_erpm as int;
            let span: int = if s1 > s0 { s1 - s0 } else { 1 };
            let c = post.commanded_erpm as int;
            let done: int = if c <= s0 { 0 } else if c - s0 >= span { span } else { c - s0 };
            let d = out.duty as int;
            out.phase == RunPhase::Startup ==> {
                &&& a <= b ==> (d - a) * span <= (b - a) * done < (d - a) * span + span
                &&& a > b ==> (a - d) * span <= (a - b) * done < (a - d) * span + span
            }
        }),
{
    let (post, out) = Commutator::poll_result(pre, tick);
    let config = pre.config;
    if out.phase == RunPhase::Startup {
        let c = post.commanded_erpm;
        assert(out.duty == startup_duty(config, c));
        let span: u32 = if config.sync_target_erpm > config.sync_start_erpm {
            (config.sync_target_erpm - config.sync_start_erpm) as u32
        } else {
            1
        };
        let done: u32 = if c > config.sync_start_erpm { (c - config.sync_start_erpm) as u32 } else { 0 };
        let num: u32 = if done < span { done } else { span };
        let a = config.sync_start_duty as int;
        let b = config.sync_max_duty as int;
        if b >= a {
            crate::units::lemma_mul_div_bounded(b - a, num as int, span as int);
            let q = (b - a) * num / (span as int);
            assert(out.duty == a + q);
            assert(q * span <= (b - a) * num < q * span + span) by (nonlinear_arith)
                requires
                    span > 0,
                    q == (b - a) * num / (span as int),
            ;
        } else {
            crate::units::lemma_mul_div_bounded(a - b, num as int, span as int);
            let q = (a - b) * num / (span as int);
            assert(out.duty == a - q);
            assert(q * span <= (a - b) * num < q * span + span) by (nonlinear_arith)
                requires
                    span > 0,
                    q == (a - b) * num / (span as int),
            ;
        }
    }
}

/// Once Running, a fired commutation schedules the next one exactly one
/// measured period after the deadline it fired at, so until then later
/// polls hold the step: a missed zero-crossing is ridden through at the
/// measured rate, not faster.
pub proof fn lemma_commutation_repeats_one_period_later(pre: CommutatorView, tick: u64, later: u64)
    requires
        pre.wf(),
        pre.phase == RunPhase::Running,
        !pre.stall_expired(tick),
        pre.next_commutation matches Some(d) && tick >= d,
        pre.period_estimate is Some,
    ensures
        ({
            let d = pre.next_commutation.unwrap();
            let p = pre.period_estimate.unwrap();
            let post = Commutator::poll_result(pre, tick).0;
            &&& post.step == next_step(pre.step)
            &&& post.next_commutation == Some((d + p) as u64)
            &&& (later < d + p && !post.stall_expired(later)) ==> Commutator::poll_result(post, later).0.step
                == post.step
            &&& (later >= d + p && !post.stall_expired(later)) ==> Commutator::poll_result(post, later).0.step
                == next_step(post.step)
        }),
{
}

/// While Running with a trusted period `p` and a last zero-cross at `L`, a
/// poll at `t` declares a stall exactly when more than `p *
/// stall_multiplier` ticks have passed since `L` (a window too long for 64
/// bits never closes); silence within the window keeps it Running.
pub proof fn lemma_stall_window(pre: CommutatorView, tick: u64)
    requires
        pre.wf(),
        pre.phase == RunPhase::Running,
        pre.last_zero_cross is Some,
        pre.period_estimate is Some,
    ensures
        ({
            let last = pre.last_zero_cross.unwrap() as int;
            let window = pre.period_estimate.unwrap() * pre.config.stall_multiplier;
            let out = Commutator::poll_result(pre, tick).1;
            &&& (tick <= last || tick - last <= window) ==> out.phase == RunPhase::Running
            &&& (tick > last && tick - last > window && window <= u64::MAX) ==> out.phase == RunPhase::Stalled
                && out.duty == 0
        }),
{
}

/// PWM switching-frequency scheduling (shared by both motors' hardware
/// glue): linear between `min_khz` at `min_erpm` and `max_khz` at
/// `max_erpm`, clamped flat outside that range. Feed it
/// `Commutator::current_erpm()` so it tracks speed throughout sync too.
#[derive(Debug, Clone, Copy, PartialEq, Eq, Structural)]
pub struct PwmFrequencySchedule {
    pub min_erpm: u32,
    pub max_erpm: u32,
    pub min_khz: u32,
    pub max_khz: u32,
}

impl PwmFrequencySchedule {
    /// The scheduled frequency for `current_erpm`: `max_khz` if the erpm
    /// range is empty; otherwise the linear interpolation at the clamped
    /// erpm, rounded half up.
    pub open spec fn frequency_spec(self, current_erpm: u32) -> int {
        if self.max_erpm <= self.min_erpm {
            self.max_khz as int
        } else {
            let clamped: int = if current_erpm < self.min_erpm {
                self.min_erpm as int
            } else if current_erpm > self.max_erpm {
                self.max_erpm as int
            } else {
                current_erpm as int
            };
            let num = clamped - self.min_erpm;
            let den = self.max_erpm - self.min_erpm;
            // value = min_khz + (max_khz - min_khz) * num / den, plus 1/2, floored
            (2 * (self.min_khz * den + (self.max_khz - self.min_khz) * num) + den) / (2 * den)
        }
    }

    pub fn frequency_khz(&self, current_erpm: u32) -> (r: u32)
        ensures
            r == self.frequency_spec(current_erpm),
            self.max_erpm > self.min_erpm ==> between(r, self.min_khz, self.max_khz),
            self.max_erpm <= self.min_erpm ==> r == self.max_khz,
    {
        if self.max_erpm <= self.min_erpm {
            return self.max_khz;
        }
        let clamped = if current_erpm < self.min_erpm {
            self.min_erpm
        } else if current_erpm > self.max_erpm {
            self.max_erpm
        } else {
            current_erpm
        };
        let num = (clamped - self.min_erpm) as u128;
        let den = (self.max_erpm - self.min_erpm) as u128;
        let lo = self.min_khz as u128;
        let hi = self.max_khz as u128;
        proof {
            lemma_interpolation_bounds(lo as int, hi as int, num as int, den as int);
        }
        let scaled = if hi >= lo {
            lo * den + (hi - lo) * num
        } else {
            lo * den - (lo - hi) * num
        };
        assert(scaled == interp_scaled(lo as int, hi as int, num as int, den as int));
        ((2 * scaled + den) / (2 * den)) as u32
    }
}

/// Scaled numerator of the interpolation `lo + (hi - lo) * num / den`,
/// multiplied through by `den`.
spec fn interp_scaled(lo: int, hi: int, num: int, den: int) -> int {
    lo * den + (hi - lo) * num
}

/// The interpolated value lies between the two end points, so it fits the
/// end points' type, and every intermediate product fits in 64 bits.
proof fn lemma_interpolation_bounds(lo: int, hi: int, num: int, den: int)
    requires
        0 <= lo <= u32::MAX,
        0 <= hi <= u32::MAX,
        0 <= num <= den <= u32::MAX,
        den > 0,
    ensures
        0 <= lo * den <= 0xffff_ffff * 0xffff_ffff,
        hi >= lo ==> 0 <= (hi - lo) * num <= 0xffff_ffff * 0xffff_ffff,
        hi < lo ==> 0 <= (lo - hi) * num <= lo * den,
        hi < lo ==> interp_scaled(lo, hi, num, den) == lo * den - (lo - hi) * num,
        0 <= interp_scaled(lo, hi, num, den) <= 0xffff_ffff * 0xffff_ffff,
        0 <= (2 * interp_scaled(lo, hi, num, den) + den) / (2 * den) <= u32::MAX,
        (if lo < hi { lo } else { hi }) <= (2 * interp_scaled(lo, hi, num, den) + den) / (2 * den)
            <= (if lo < hi { hi } else { lo }),
{
    let s = interp_scaled(lo, hi, num, den);
    let m = if lo < hi { lo } else { hi };
    let x = if lo < hi { hi } else { lo };
    assert(m * den <= s <= x * den) by (nonlinear_arith)
        requires
            s == lo * den + (hi - lo) * num,
            m == (if lo < hi { lo } else { hi }),
            x == (if lo < hi { hi } else { lo }),
            0 <= num <= den,
            0 <= lo,
            0 <= hi,
    ;
    assert(x * den <= 0xffff_ffff * 0xffff_ffff) by (nonlinear_arith)
        requires
            0 <= x <= 0xffff_ffff,
            0 <= den <= 0xffff_ffff,
    ;
    assert(lo * den <= x * den) by (nonlinear_arith)
        requires
            0 <= lo <= x,
            0 <= den,
    ;
    assert(0 <= m * den) by (nonlinear_arith)
        requires
            0 <= m,
            0 <= den,
    ;
    assert(0 <= lo * den) by (nonlinear_arith)
        requires
            0 <= lo,
            0 <= den,
    ;
    assert(m <= (2 * s + den) / (2 * den) <= x) by (nonlinear_arith)
        requires
            m * den <= s <= x * den,
            den > 0,
    ;
    assert(hi >= lo ==> 0 <= (hi - lo) * num <= (hi - lo) * den) by (nonlinear_arith)
        requires
            0 <= num <= den,
    ;
    assert(hi >= lo ==> (hi - lo) * den <= x * den) by (nonlinear_arith)
        requires
            0 <= lo,
            0 <= den,
            x == (if lo < hi { hi } else { lo }),
    ;
    assert(hi < lo ==> 0 <= (lo - hi) * num <= lo * den) by (nonlinear_arith)
        requires
            0 <= num <= den,
            0 <= hi,
    ;
    assert(hi < lo ==> (hi - lo) * num == -((lo - hi) * num)) by (nonlinear_arith);
}

} // verus!
