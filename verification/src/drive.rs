//! The firmware's motor-drive decisions, separated from the peripherals
//! they end up driving: the tuning constants, the per-motor ADC-interrupt
//! commutation step (sample in, bridge and sense actions out), the PWM
//! timer arithmetic behind runtime frequency changes, and the busy-wait
//! cycle count used while the ADCs power up.
//!
//! Nothing here touches hardware. The interrupt handler and the main loop
//! read the peripherals, hand the readings to these functions, and carry
//! out the actions that come back.
use vstd::prelude::*;

use crate::commutator::{
    floating_of, floating_phase, step_pattern, step_table, Commutator, CommutatorConfig,
    CommutatorView, Output, Phase, PhaseState, PwmFrequencySchedule, RunPhase, StepPattern,
    phase_state,
    ZeroCrossDetector, rising_edge, TICK_LIMIT,
};
use crate::tick::{extended, TickExtender};
use crate::units::SCALE;

verus! {

/// Electrical RPM at the very start of the open-loop sync ramp.
pub const SYNC_START_ERPM: u32 = 3_000;

/// Electrical RPM the sync ramp reaches before handing off to BEMF
/// commutation.
pub const SYNC_TARGET_ERPM: u32 = 60_000;

/// Nominal top speed: only scales the PWM switching frequency, it is not
/// enforced anywhere.
pub const TOP_RUNNING_ERPM: u32 = 150_000;

/// Duty (millionths) once Running: 100%, the full track voltage. Only the
/// differential ever pulls it lower, on the side being slowed.
pub const RUNNING_BASE_DUTY: u32 = 1_000_000;

/// Duty (millionths) at the start of the sync ramp.
pub const SYNC_START_DUTY: u32 = 150_000;

/// Open-loop rate added per forced commutation step.
pub const SYNC_RAMP_ERPM_PER_STEP: u32 = 500;

/// Stall window, in multiples of the measured zero-cross period.
pub const STALL_MULTIPLIER: u32 = 8;

/// PWM switching frequency at the bottom of the eRPM range.
pub const PWM_FREQUENCY_MIN_KHZ: u32 = 48;

/// PWM switching frequency at the top of the eRPM range.
pub const PWM_FREQUENCY_MAX_KHZ: u32 = 96;

/// Dead time inserted between each phase's high- and low-side switches.
pub const DEADTIME_NANOS: u32 = 500;

/// Length of the ADC sampling rotation: every slot samples the floating
/// phase for BEMF except `CURRENT_SLOT`, which samples the shunt.
pub const ROTATION_LEN: u8 = 16;

/// The rotation slot that samples motor current instead of BEMF.
pub const CURRENT_SLOT: u8 = 8;

/// The commutator configuration both motors run with, for a tick source
/// counting at `core_hz` (the DWT cycle counter runs at the core clock).
pub fn motor_commutator_config(core_hz: u32) -> (r: CommutatorConfig)
    ensures
        r == (CommutatorConfig {
            tick_hz: core_hz,
            sync_start_erpm: SYNC_START_ERPM,
            sync_target_erpm: SYNC_TARGET_ERPM,
            sync_start_duty: SYNC_START_DUTY,
            sync_max_duty: RUNNING_BASE_DUTY,
            sync_ramp_erpm_per_step: SYNC_RAMP_ERPM_PER_STEP,
            stall_multiplier: STALL_MULTIPLIER,
        }),
{
    CommutatorConfig {
        tick_hz: core_hz,
        sync_start_erpm: SYNC_START_ERPM,
        sync_target_erpm: SYNC_TARGET_ERPM,
        sync_start_duty: SYNC_START_DUTY,
        sync_max_duty: RUNNING_BASE_DUTY,
        sync_ramp_erpm_per_step: SYNC_RAMP_ERPM_PER_STEP,
        stall_multiplier: STALL_MULTIPLIER,
    }
}

/// PWM switching-frequency schedule: 48 kHz at the start of the sync ramp,
/// 96 kHz by the nominal top speed, linear in between.
pub fn pwm_frequency_schedule() -> (r: PwmFrequencySchedule)
    ensures
        r == (PwmFrequencySchedule {
            min_erpm: SYNC_START_ERPM,
            max_erpm: TOP_RUNNING_ERPM,
            min_khz: PWM_FREQUENCY_MIN_KHZ,
            max_khz: PWM_FREQUENCY_MAX_KHZ,
        }),
{
    PwmFrequencySchedule {
        min_erpm: SYNC_START_ERPM,
        max_erpm: TOP_RUNNING_ERPM,
        min_khz: PWM_FREQUENCY_MIN_KHZ,
        max_khz: PWM_FREQUENCY_MAX_KHZ,
    }
}

/// Core-clock cycles for a busy wait of `ns` nanoseconds at `core_hz`:
/// rounded down, at least one, kept to the low 32 bits.
pub open spec fn delay_cycles(core_hz: u32, ns: u32) -> u32 {
    let c = core_hz as int * ns as int / 1_000_000_000;
    (if c < 1 { 1 } else { c }) as u32
}

/// Busy-wait delay measured in core clock cycles, used only while the ADCs
/// power up (a few microseconds); it needs no timer peripheral.
#[derive(Debug, Clone, Copy, PartialEq, Eq, Structural)]
pub struct CycleDelay {
    pub core_hz: u32,
}

impl CycleDelay {
    pub fn new(core_hz: u32) -> (r: Self)
        ensures
            r.core_hz == core_hz,
    {
        CycleDelay { core_hz }
    }

    /// How many cycles a delay of `ns` nanoseconds spins for.
    pub fn cycles(&self, ns: u32) -> (r: u32)
        ensures
            r == delay_cycles(self.core_hz, ns),
    {
        proof {
            assert(self.core_hz as int * ns as int <= u64::MAX) by (nonlinear_arith)
                requires
                    self.core_hz <= u32::MAX,
                    ns <= u32::MAX,
            ;
        }
        let c = self.core_hz as u64 * ns as u64 / 1_000_000_000;
        let c = if c < 1 { 1 } else { c };
        #[verifier::truncate]
        (c as u32)
    }
}

/// Prescaler and period (auto-reload) register values for one PWM
/// switching frequency.
#[derive(Debug, Clone, Copy, PartialEq, Eq, Structural)]
pub struct TimerSetting {
    /// Written to PSC: the counter ticks once every `prescale + 1` clocks.
    pub prescale: u16,
    /// Written to ARR, and the new full-scale duty.
    pub max_duty: u32,
}

/// Counter clocks in one center-aligned PWM period at `hz` (at least 1 Hz):
/// `base / (2 * hz)`, rounded to nearest.
pub open spec fn ideal_period(base_clock_hz: u32, hz: u32) -> int {
    let f: int = if hz < 1 { 1 } else { hz as int };
    (base_clock_hz + f) / (2 * f)
}

/// The timer setting for `hz` from a `base_clock_hz` timer clock: the
/// smallest prescaler that fits the ideal period into 16 bits, then the
/// period at that prescale, rounded, less one (the counter counts from 0),
/// never below zero and capped at 16 bits.
pub open spec fn timer_setting_spec(base_clock_hz: u32, hz: u32) -> TimerSetting {
    let ideal = ideal_period(base_clock_hz, hz);
    let prescale = ((if ideal < 1 { 1 } else { ideal }) - 1) / 0x1_0000;
    let divided = (ideal + prescale / 2) / (prescale + 1);
    let period = (if divided < 1 { 1 } else { divided }) - 1;
    TimerSetting {
        prescale: prescale as u16,
        max_duty: (if period > 0xFFFF { 0xFFFF } else { period }) as u32,
    }
}

/// Computes the prescaler and period for switching at `hz`, the same way
/// the timer builder does at construction (center-aligned: a full up and
/// down count per period), so a runtime retune lands where construction
/// would have.
pub fn timer_setting(base_clock_hz: u32, hz: u32) -> (r: TimerSetting)
    ensures
        r == timer_setting_spec(base_clock_hz, hz),
        r.max_duty <= 0xFFFF,
{
    let hz = if hz < 1 { 1 } else { hz };
    let divisor = (hz as u64) * 2;
    let ideal = (base_clock_hz as u64 + divisor / 2) / divisor;
    let at_least_one = if ideal < 1 { 1 } else { ideal };
    let prescale = (at_least_one - 1) / 0x1_0000;
    assert(prescale <= 0xFFFF) by {
        assert(ideal <= base_clock_hz as u64 + 1) by (nonlinear_arith)
            requires
                divisor >= 2,
                ideal as int == (base_clock_hz as int + divisor as int / 2) / (divisor as int),
        ;
    }
    let divided = (ideal + prescale / 2) / (prescale + 1);
    let period = (if divided < 1 { 1 } else { divided }) - 1;
    let max_duty = if period > 0xFFFF { 0xFFFF } else { period };
    TimerSetting { prescale: prescale as u16, max_duty: max_duty as u32 }
}

/// A duty register value carried over to a new full scale: the same
/// fraction of `new_max` as it was of `old_max` (taken as at least 1),
/// rounded down and never above `new_max`.
pub open spec fn rescaled_duty(duty: u16, old_max: u16, new_max: u32) -> u16 {
    let old: int = if old_max < 1 { 1 } else { old_max as int };
    let d = duty as int * new_max as int / old;
    (if d > new_max { new_max as int } else { d }) as u16
}

/// Carries a channel's duty over a change of full scale, keeping it the
/// same fraction of full scale.
pub fn rescale_duty(duty: u16, old_max: u16, new_max: u32) -> (r: u16)
    requires
        new_max <= 0xFFFF,
    ensures
        r == rescaled_duty(duty, old_max, new_max),
        r <= new_max,
{
    let old: u32 = if old_max < 1 { 1 } else { old_max as u32 };
    proof {
        assert(duty as int * new_max as int <= 0xFFFF * 0xFFFF) by (nonlinear_arith)
            requires
                duty <= 0xFFFF,
                new_max <= 0xFFFF,
        ;
    }
    let d = duty as u32 * new_max / old;
    (if d > new_max { new_max } else { d }) as u16
}

/// Duty register counts for a duty in millionths against a full scale of
/// `max_duty`: rounded toward zero, saturating at the register's width.
pub open spec fn duty_counts_spec(duty: u32, max_duty: u16) -> u16 {
    let c = duty as int * max_duty as int / SCALE as int;
    (if c > u16::MAX { u16::MAX as int } else { c }) as u16
}

/// Converts a duty in millionths to duty register counts.
pub fn duty_counts(duty: u32, max_duty: u16) -> (r: u16)
    ensures
        r == duty_counts_spec(duty, max_duty),
{
    proof {
        assert(duty as int * max_duty as int <= u64::MAX) by (nonlinear_arith)
            requires
                duty <= u32::MAX,
                max_duty <= u16::MAX,
        ;
    }
    let c = duty as u64 * max_duty as u64 / SCALE as u64;
    (if c > 0xFFFF { 0xFFFF } else { c }) as u16
}

/// A duty of at most 100% never asks for more than the bridge's full scale,
/// and 100% asks for exactly full scale.
pub proof fn lemma_duty_counts_within_full_scale(duty: u32, max_duty: u16)
    requires
        duty <= SCALE,
    ensures
        duty_counts_spec(duty, max_duty) <= max_duty,
        duty == SCALE ==> duty_counts_spec(duty, max_duty) == max_duty,
{
    assert(duty as int * max_duty as int / SCALE as int <= max_duty) by (nonlinear_arith)
        requires
            0 <= duty <= 1_000_000,
            0 <= max_duty,
            SCALE == 1_000_000,
    ;
    assert(duty == SCALE ==> duty as int * max_duty as int / SCALE as int == max_duty) by (nonlinear_arith)
        requires
            SCALE == 1_000_000,
    ;
}

/// What a step asks of one phase's channel at `duty` counts: the High
/// phase chopped at `duty`, the Low phase switched on at zero duty (its
/// low-side switch conducting steadily), the Float phase switched off on
/// both sides (`None`) for a true high-impedance BEMF window.
pub open spec fn phase_drive_spec(state: PhaseState, duty: u16) -> Option<u16> {
    match state {
        PhaseState::High => Some(duty),
        PhaseState::Low => Some(0),
        PhaseState::Float => None,
    }
}

/// The duty to enable one phase's channel at, or `None` to disable it.
pub fn phase_drive(state: PhaseState, duty: u16) -> (r: Option<u16>)
    ensures
        r == phase_drive_spec(state, duty),
{
    match state {
        PhaseState::High => Some(duty),
        PhaseState::Low => Some(0),
        PhaseState::Float => None,
    }
}

/// What one commutation step asks of a motor's bridge.
#[derive(Debug, Clone, Copy, PartialEq, Eq, Structural)]
pub enum BridgeAction {
    /// All three phases to high impedance: the stall safe-stop. A zero
    /// duty would still hold two phases low.
    Disable,
    /// Drive the step pattern, chopping the High phase at `duty` counts.
    Drive { pattern: StepPattern, duty: u16 },
}

/// What the next ADC conversion should sample.
#[derive(Debug, Clone, Copy, PartialEq, Eq, Structural)]
pub enum SenseAction {
    /// The motor's current shunt.
    Current,
    /// The named phase, floating during the step just applied.
    Phase(Phase),
}

/// Everything one interrupt-driven step hands back to the hardware.
#[derive(Debug, Clone, Copy, PartialEq, Eq, Structural)]
pub struct IsrAction {
    pub bridge: BridgeAction,
    pub sense: SenseAction,
}

/// The bridge action for a commutator output: disable on a stall,
/// otherwise drive its step at its duty scaled to `max_duty`.
pub open spec fn bridge_action(out: Output, max_duty: u16) -> BridgeAction {
    if out.phase == RunPhase::Stalled {
        BridgeAction::Disable
    } else {
        BridgeAction::Drive {
            pattern: step_table(out.step),
            duty: duty_counts_spec(out.duty, max_duty),
        }
    }
}

/// The slot after `rotation` in the sampling rotation.
pub open spec fn next_rotation(rotation: u8) -> u8 {
    ((rotation + 1) % (ROTATION_LEN as int)) as u8
}

/// What to sample in `rotation` while `step` is applied.
pub open spec fn sense_action(rotation: u8, step: u8) -> SenseAction {
    if rotation == CURRENT_SLOT {
        SenseAction::Current
    } else {
        SenseAction::Phase(floating_of(step))
    }
}

/// Whether a floating-phase sample fires the zero-cross detector: same step
/// as the reference sample, the other side of neutral, and in the direction
/// the step expects.
pub open spec fn zero_cross_fires(
    last_step: Option<u8>,
    last_positive: Option<bool>,
    step: u8,
    sample: u16,
    neutral: u16,
) -> bool {
    &&& last_step == Some(step)
    &&& last_positive != Some(sample >= neutral)
    &&& (sample >= neutral) == rising_edge(step)
}

/// One motor's state owned by the ADC interrupt: its commutator, the
/// zero-cross detector, the 64-bit extension of the cycle counter, where
/// the sampling rotation is, and the latest current reading.
pub struct MotorIsrState {
    pub commutator: Commutator,
    pub zero_cross: ZeroCrossDetector,
    pub tick_extender: TickExtender,
    pub rotation: u8,
    pub latest_current: u16,
}

/// Wraps of the 32-bit cycle counter after which extended ticks would pass
/// the commutator's limit: 2^28 wraps, over two centuries at 170 MHz.
pub const TICK_HIGH_LIMIT: u32 = 0x0FFF_FFFF;

impl MotorIsrState {
    /// The invariant every step keeps.
    pub open spec fn wf(&self) -> bool {
        &&& self.commutator@.wf()
        &&& self.zero_cross.wf()
        &&& self.rotation < ROTATION_LEN
    }

    /// Fresh state for a commutator: detector without reference, counter
    /// extension at zero, rotation at its first slot, no current reading.
    pub fn new(commutator: Commutator) -> (r: Self)
        requires
            commutator@.wf(),
        ensures
            r.wf(),
            r.commutator@ == commutator@,
            r.zero_cross.last_step() is None,
            r.zero_cross.last_positive() is None,
            r.tick_extender.high() == 0,
            r.tick_extender.last_low() == 0,
            r.rotation == 0,
            r.latest_current == 0,
    {
        MotorIsrState {
            commutator,
            zero_cross: ZeroCrossDetector::new(),
            tick_extender: TickExtender::new(),
            rotation: 0,
            latest_current: 0,
        }
    }

    /// `post` and `r` are what one step from `pre` gives for these readings:
    /// the counter extended by `cycle_count`; on the current slot the sample
    /// recorded and the detector left alone, otherwise the sample fed to
    /// the detector against the present step and a crossing reported to the
    /// commutator at this tick; then the commutator polled at this tick;
    /// the bridge action for its output; the rotation advanced; and the
    /// sense action for the new slot and the output step.
    pub open spec fn stepped(
        pre: MotorIsrState,
        post: MotorIsrState,
        cycle_count: u32,
        sample: u16,
        neutral: u16,
        max_duty: u16,
        r: IsrAction,
    ) -> bool {
        let tick = post.tick_extender.current();
        let c = pre.commutator@;
        let on_current = pre.rotation == CURRENT_SLOT;
        let fired = !on_current && zero_cross_fires(
            pre.zero_cross.last_step(),
            pre.zero_cross.last_positive(),
            c.step,
            sample,
            neutral,
        );
        let mid = if fired { c.after_zero_cross(tick) } else { c };
        let (polled, out) = Commutator::poll_result(mid, tick);
        &&& post.tick_extender.high() == (if cycle_count < pre.tick_extender.last_low() {
            (pre.tick_extender.high() + 1) as u32
        } else {
            pre.tick_extender.high()
        })
        &&& post.tick_extender.last_low() == cycle_count
        &&& post.rotation == next_rotation(pre.rotation)
        &&& post.commutator@ == polled
        &&& r.bridge == bridge_action(out, max_duty)
        &&& r.sense == sense_action(post.rotation, out.step)
        &&& post.latest_current == (if on_current { sample } else { pre.latest_current })
        &&& on_current ==> post.zero_cross.last_step() == pre.zero_cross.last_step()
        &&& on_current ==> post.zero_cross.last_positive() == pre.zero_cross.last_positive()
        &&& !on_current ==> post.zero_cross.last_step() == Some(c.step)
        &&& !on_current ==> post.zero_cross.last_positive() == Some(sample >= neutral)
    }

    /// One ADC-triggered step. `cycle_count` is the raw cycle counter,
    /// `sample` the conversion that just finished (current on the current
    /// slot, the floating phase otherwise), `neutral` the free-running
    /// neutral reading, `max_duty` the bridge's full scale.
    ///
    /// Extends the counter to this step's tick; on the current slot records
    /// the sample, otherwise feeds it to the zero-cross detector against
    /// the present step and reports a crossing to the commutator; polls the
    /// commutator; disables the bridge on a stall or drives the output step
    /// at its duty; and advances the rotation, asking for the current shunt
    /// or the newly floating phase next.
    pub fn step(&mut self, cycle_count: u32, sample: u16, neutral: u16, max_duty: u16) -> (r: IsrAction)
        requires
            old(self).wf(),
            old(self).tick_extender.high() < TICK_HIGH_LIMIT,
        ensures
            final(self).wf(),
            Self::stepped(*old(self), *final(self), cycle_count, sample, neutral, max_duty, r),
    {
        let tick = self.tick_extender.extend(cycle_count);
        proof {
            let h = self.tick_extender.high();
            assert(h <= TICK_HIGH_LIMIT);
            assert(tick == extended(h, cycle_count));
            assert(h as int * 0x1_0000_0000 + cycle_count as int <= TICK_LIMIT) by (nonlinear_arith)
                requires
                    h <= 0x0FFF_FFFF,
                    cycle_count <= 0xFFFF_FFFF,
            ;
        }
        if self.rotation == CURRENT_SLOT {
            self.latest_current = sample;
        } else {
            let step = self.commutator.step();
            if self.zero_cross.check(step, sample, neutral) {
                self.commutator.on_zero_cross(tick);
            }
        }
        let out = self.commutator.poll(tick);
        let bridge = if out.phase == RunPhase::Stalled {
            BridgeAction::Disable
        } else {
            BridgeAction::Drive { pattern: step_pattern(out.step), duty: duty_counts(out.duty, max_duty) }
        };
        self.rotation = (self.rotation + 1) % ROTATION_LEN;
        let sense = if self.rotation == CURRENT_SLOT {
            SenseAction::Current
        } else {
            SenseAction::Phase(floating_phase(out.step))
        };
        IsrAction { bridge, sense }
    }
}

/// A poll's output step is the commutator's new step, still one of the
/// table's.
proof fn lemma_poll_output_step(pre: CommutatorView, tick: u64)
    requires
        1 <= pre.step <= 6,
    ensures
        ({
            let (post, out) = Commutator::poll_result(pre, tick);
            &&& out.step == post.step
            &&& 1 <= post.step <= 6
        }),
{
}

/// Every interrupt step keeps the bridge and the converter consistent: a
/// driven bridge gets the pattern of the step the commutator is now on,
/// and on every slot but the current one the converter is pointed at a
/// phase that pattern leaves floating, so the next BEMF sample reads the
/// undriven phase of the step just applied.
pub proof fn lemma_step_samples_the_floating_phase(
    pre: MotorIsrState,
    post: MotorIsrState,
    cycle_count: u32,
    sample: u16,
    neutral: u16,
    max_duty: u16,
    r: IsrAction,
)
    requires
        pre.wf(),
        MotorIsrState::stepped(pre, post, cycle_count, sample, neutral, max_duty, r),
    ensures
        1 <= post.commutator@.step <= 6,
        r.bridge matches BridgeAction::Drive { pattern, .. } ==> pattern == step_table(post.commutator@.step),
        post.rotation != CURRENT_SLOT ==> (r.sense matches SenseAction::Phase(q) && phase_state(
            step_table(post.commutator@.step),
            q,
        ) == PhaseState::Float),
        post.rotation == CURRENT_SLOT ==> r.sense == SenseAction::Current,
{
    let tick = post.tick_extender.current();
    let c = pre.commutator@;
    let on_current = pre.rotation == CURRENT_SLOT;
    let fired = !on_current && zero_cross_fires(
        pre.zero_cross.last_step(),
        pre.zero_cross.last_positive(),
        c.step,
        sample,
        neutral,
    );
    let mid = if fired { c.after_zero_cross(tick) } else { c };
    assert(mid.step == c.step);
    lemma_poll_output_step(mid, tick);
    let post_step = post.commutator@.step;
    crate::commutator::lemma_exactly_one_floating_phase(post_step);
}

/// What the interrupt-driven step needs from a motor's 3-phase bridge:
/// the duty register's full scale, driving a step pattern at a duty, and
/// switching all three phases off. An implementation keeps `full_scale` as
/// what `max_duty` reads, `last_command` as the last drive or disable it
/// carried out, and `command_count` as how many it has carried out
/// (wrapping).
pub trait BridgeControl {
    /// The duty register's full scale.
    spec fn full_scale(&self) -> u16;

    /// The last command carried out, if any.
    spec fn last_command(&self) -> Option<BridgeAction>;

    /// How many commands have been carried out, wrapping at 2^64.
    spec fn command_count(&self) -> u64;

    fn max_duty(&self) -> (r: u16)
        ensures
            r == self.full_scale(),
    ;

    /// High phase chopped at `duty`, Low held low, Float off on both sides.
    fn apply_step(&mut self, pattern: StepPattern, duty: u16)
        ensures
            final(self).last_command() == Some(BridgeAction::Drive { pattern, duty }),
            final(self).command_count() == (old(self).command_count() + 1) as u64,
            final(self).full_scale() == old(self).full_scale(),
    ;

    /// All three phases to high impedance.
    fn disable(&mut self)
        ensures
            final(self).last_command() == Some(BridgeAction::Disable),
            final(self).command_count() == (old(self).command_count() + 1) as u64,
            final(self).full_scale() == old(self).full_scale(),
    ;
}

/// What the interrupt-driven step needs from a motor's sensing front end.
/// An implementation keeps `pending` as the end-of-conversion flag,
/// `sample` and `neutral` as what the two readers return, `channel` as
/// the channel the next conversion samples, `armed` as whether it has been
/// re-armed since, and the three counts (wrapping) of the flag clears,
/// channel choices and re-arms carried out.
pub trait SenseIsr {
    /// This converter's end-of-conversion flag.
    spec fn pending(&self) -> bool;

    /// The conversion that just finished.
    spec fn sample(&self) -> u16;

    /// The free-running virtual-neutral reading.
    spec fn neutral(&self) -> u16;

    /// What the next conversion samples.
    spec fn channel(&self) -> SenseAction;

    /// Whether the converter is armed for the next hardware trigger.
    spec fn armed(&self) -> bool;

    /// How many times the end-of-conversion flag has been cleared.
    spec fn clear_count(&self) -> u64;

    /// How many times a channel has been chosen.
    spec fn configure_count(&self) -> u64;

    /// How many times the converter has been re-armed.
    spec fn rearm_count(&self) -> u64;

    /// Points the converter at the phase channel for the next hardware
    /// trigger.
    fn configure_phase(&mut self, phase: Phase)
        ensures
            final(self).channel() == SenseAction::Phase(phase),
            final(self).pending() == old(self).pending(),
            final(self).configure_count() == (old(self).configure_count() + 1) as u64,
            final(self).clear_count() == old(self).clear_count(),
            final(self).rearm_count() == old(self).rearm_count(),
    ;

    /// Points the converter at the current shunt for the next hardware
    /// trigger.
    fn configure_current(&mut self)
        ensures
            final(self).channel() == SenseAction::Current,
            final(self).pending() == old(self).pending(),
            final(self).configure_count() == (old(self).configure_count() + 1) as u64,
            final(self).clear_count() == old(self).clear_count(),
            final(self).rearm_count() == old(self).rearm_count(),
    ;

    /// The conversion that just finished.
    fn current_sample(&self) -> (r: u16)
        ensures
            r == self.sample(),
    ;

    /// The free-running virtual-neutral reading.
    fn neutral_sample(&self) -> (r: u16)
        ensures
            r == self.neutral(),
    ;

    /// Whether this motor's converter raised the shared interrupt.
    fn eoc_pending(&self) -> (r: bool)
        ensures
            r == self.pending(),
    ;

    fn clear_eoc(&mut self)
        ensures
            !final(self).pending(),
            final(self).clear_count() == (old(self).clear_count() + 1) as u64,
            final(self).configure_count() == old(self).configure_count(),
            final(self).rearm_count() == old(self).rearm_count(),
    ;

    /// Re-arms the converter for the next hardware trigger.
    fn rearm(&mut self)
        ensures
            final(self).armed(),
            final(self).channel() == old(self).channel(),
            final(self).pending() == old(self).pending(),
            final(self).rearm_count() == (old(self).rearm_count() + 1) as u64,
            final(self).clear_count() == old(self).clear_count(),
            final(self).configure_count() == old(self).configure_count(),
    ;
}

/// One ADC-interrupt step for one motor, over its bridge and sense front
/// end; `cycle_count` is the core cycle counter read on entry. Both motors
/// share the interrupt, so a motor whose converter did not raise it is left
/// alone, and so are its bridge and converter. Otherwise the finished
/// sample and the neutral reading go through `MotorIsrState::step` against
/// the bridge's full scale, the end-of-conversion flag is cleared once, the
/// bridge gets exactly one command, disable or drive, as the step says, and
/// the converter is pointed once at what it says to sample next and
/// re-armed once.
pub fn step_motor<Br: BridgeControl, S: SenseIsr>(
    state: &mut MotorIsrState,
    bridge: &mut Br,
    sense: &mut S,
    cycle_count: u32,
)
    requires
        old(state).wf(),
        old(state).tick_extender.high() < TICK_HIGH_LIMIT,
    ensures
        final(state).wf(),
        !old(sense).pending() ==> {
            &&& *final(state) == *old(state)
            &&& *final(bridge) == *old(bridge)
            &&& *final(sense) == *old(sense)
        },
        old(sense).pending() ==> exists|r: IsrAction|
            {
                &&& #[trigger] MotorIsrState::stepped(
                    *old(state),
                    *final(state),
                    cycle_count,
                    old(sense).sample(),
                    old(sense).neutral(),
                    old(bridge).full_scale(),
                    r,
                )
                &&& final(bridge).last_command() == Some(r.bridge)
                &&& final(sense).channel() == r.sense
                &&& final(sense).armed()
                &&& !final(sense).pending()
            },
        old(sense).pending() ==> {
            &&& final(bridge).command_count() == (old(bridge).command_count() + 1) as u64
            &&& final(sense).clear_count() == (old(sense).clear_count() + 1) as u64
            &&& final(sense).configure_count() == (old(sense).configure_count() + 1) as u64
            &&& final(sense).rearm_count() == (old(sense).rearm_count() + 1) as u64
        },
{
    if !sense.eoc_pending() {
        return;
    }
    let sample = sense.current_sample();
    let neutral = sense.neutral_sample();
    sense.clear_eoc();
    let action = state.step(cycle_count, sample, neutral, bridge.max_duty());
    match action.bridge {
        BridgeAction::Disable => bridge.disable(),
        BridgeAction::Drive { pattern, duty } => bridge.apply_step(pattern, duty),
    }
    match action.sense {
        SenseAction::Current => sense.configure_current(),
        SenseAction::Phase(phase) => sense.configure_phase(phase),
    }
    sense.rearm();
}

} // verus!
