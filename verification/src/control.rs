//! The firmware's slow control loop, run once per 1 kHz system tick and
//! once per received command line: the differential (fed the front/rear
//! axle-balance feedforward of the steer command), PWM frequency
//! scheduling, fault supervision, the steer command, telemetry pacing and
//! what each command line is answered with.
//!
//! The loop itself lives with the hardware: it reads each motor's state
//! out of the interrupt-owned data, calls `ControlLoop::on_tick`, and
//! carries out the returned `TickPlan` (duties, frequency changes, bridge
//! disables, a telemetry line); parsed command lines go through
//! `ControlLoop::on_command`, whose `Reply` says what to send back.
use vstd::prelude::*;

use crate::axle_balance::bias_spec;
use crate::commutator::PwmFrequencySchedule;
use crate::diff_ctrl::{bemf_slip, mix, BemfSlipEstimator, DiffController, DiffControllerConfig};
use crate::drive_layout::DriveLayout;
use crate::drive::{
    pwm_frequency_schedule, PWM_FREQUENCY_MAX_KHZ, PWM_FREQUENCY_MIN_KHZ, RUNNING_BASE_DUTY,
    SYNC_START_ERPM, TOP_RUNNING_ERPM,
};
use crate::fault::{comms_lost_at, FaultConfig, FaultSupervisor};
use crate::params::{self, param_range, param_value, with_param, Params};
use crate::protocol::{Command, ParseError};
use crate::units::{clamp_int, SCALE};

verus! {

/// Rate of the slow loop's system tick.
pub const TICK_HZ: u32 = 1_000;

/// One telemetry line per this many ticks (once a second).
pub const TELEMETRY_PERIOD_TICKS: u64 = 1_000;

/// Raw 12-bit current-shunt reading at or above which a motor's bridge is
/// shut off.
pub const OVERCURRENT_LIMIT: u16 = 3_500;

/// Ticks of command silence after which the link counts as lost.
pub const COMMS_TIMEOUT_TICKS: u64 = 1_000;

/// Hardware watchdog timeout.
pub const IWDG_TIMEOUT_MS: u32 = 200;

/// Slip (millionths) treated as noise by the differential.
pub const SLIP_THRESHOLD: i64 = 50_000;

/// Differential duty cut per unit of slip beyond the threshold (millionths).
pub const SLIP_GAIN: i64 = 2_000_000;

/// How the two motors sit in the chassis: motor A drives the front axle,
/// motor B the rear.
pub const DRIVE_LAYOUT: DriveLayout = DriveLayout::FourWheelFrontRear;

/// Front-axle bias per unit of steer magnitude (millionths per unit), the
/// axle-balance feedforward's gain: a placeholder pending tuning against
/// the chassis's wheelbase and turn radii.
pub const AXLE_BIAS_GAIN: i64 = 1_000_000;

/// The steer-shaped input the differential gets for a steer command: the
/// front/rear axle-balance feedforward, which depends only on how sharp
/// the turn is and always favours the front axle.
pub open spec fn commanded_bias(steer: i64) -> int {
    bias_spec(steer as int, AXLE_BIAS_GAIN as int)
}

/// The differential's configuration.
pub open spec fn diff_config() -> DiffControllerConfig {
    DiffControllerConfig { slip_threshold: SLIP_THRESHOLD, slip_gain: SLIP_GAIN }
}

/// The fault supervisor's configuration.
pub open spec fn fault_config() -> FaultConfig {
    FaultConfig { current_limit: OVERCURRENT_LIMIT, comms_timeout_ticks: COMMS_TIMEOUT_TICKS }
}

/// The PWM frequency schedule both motors follow.
pub open spec fn schedule() -> PwmFrequencySchedule {
    PwmFrequencySchedule {
        min_erpm: SYNC_START_ERPM,
        max_erpm: TOP_RUNNING_ERPM,
        min_khz: PWM_FREQUENCY_MIN_KHZ,
        max_khz: PWM_FREQUENCY_MAX_KHZ,
    }
}

/// What the loop reads of one motor each tick.
#[derive(Debug, Clone, Copy, PartialEq, Eq, Structural)]
pub struct MotorReading {
    /// BEMF-measured electrical RPM, once trusted.
    pub erpm: Option<u32>,
    /// Best current speed estimate in any phase (drives PWM frequency).
    pub current_erpm: u32,
    /// Latest raw current-shunt reading.
    pub current_sample: u16,
    pub stalled: bool,
}

/// A telemetry line's contents.
#[derive(Debug, Clone, Copy, PartialEq, Eq, Structural)]
pub struct Telemetry {
    pub speed_a: i32,
    pub speed_b: i32,
    /// Millionths.
    pub slip: i64,
}

/// What one tick asks of the hardware.
#[derive(Debug, Clone, Copy, PartialEq, Eq, Structural)]
pub struct TickPlan {
    /// Running duties (millionths) for each motor's commutator.
    pub target_duty_a: u32,
    pub target_duty_b: u32,
    /// A new PWM switching frequency, only when the schedule's output changed.
    pub frequency_hz_a: Option<u32>,
    pub frequency_hz_b: Option<u32>,
    /// Shut a motor's bridge off (overcurrent).
    pub disable_a: bool,
    pub disable_b: bool,
    /// A telemetry line to send this tick.
    pub telemetry: Option<Telemetry>,
}

/// What to send back for a command line.
#[derive(Debug, Clone, Copy, PartialEq, Eq)]
pub enum Reply<'a> {
    /// Nothing (steer and throttle are not acknowledged).
    Silent,
    /// An `ERR ...` line.
    Error(ParseError),
    /// A `name=value OK` line.
    Param(&'a str, i32),
    /// Persist the parameters, then acknowledge.
    Save,
}

/// The plain-value model of a reply.
pub enum ReplyView {
    Silent,
    Error(ParseError),
    Param(Seq<char>, i32),
    Save,
}

pub open spec fn reply_view(r: Reply) -> ReplyView {
    match r {
        Reply::Silent => ReplyView::Silent,
        Reply::Error(e) => ReplyView::Error(e),
        Reply::Param(n, v) => ReplyView::Param(n@, v),
        Reply::Save => ReplyView::Save,
    }
}

/// The reply to `GET name`.
pub open spec fn get_reply(p: Params, name: Seq<char>) -> ReplyView {
    match param_value(p, name) {
        Some(v) => ReplyView::Param(name, v),
        None => ReplyView::Error(ParseError::UnknownParam),
    }
}

/// The reply to `SET name value`, and the parameters after it.
pub open spec fn set_outcome(p: Params, name: Seq<char>, value: i32) -> (ReplyView, Params) {
    match param_range(name) {
        None => (ReplyView::Error(ParseError::UnknownParam), p),
        Some((lo, hi)) => if lo <= value <= hi {
            (ReplyView::Param(name, value), with_param(p, name, value))
        } else {
            (ReplyView::Error(ParseError::OutOfRange), p)
        },
    }
}

/// The `speed` field telemetry reports for a motor: its measured eRPM, 0
/// before one is trusted, as a signed 32-bit value.
pub open spec fn telemetry_speed(erpm: Option<u32>) -> i32 {
    match erpm {
        Some(e) => e as i32,
        None => 0,
    }
}

pub struct ControlLoop {
    diff_controller: DiffController<BemfSlipEstimator>,
    fault_supervisor: FaultSupervisor,
    pwm_schedule: PwmFrequencySchedule,
    steer_cmd: i64,
    last_freq_khz_a: u32,
    last_freq_khz_b: u32,
    last_slip_estimate: i64,
    system_healthy: bool,
}

impl ControlLoop {
    /// Configurations fixed at construction.
    pub closed spec fn wf(&self) -> bool {
        &&& self.diff_controller.config() == diff_config()
        &&& self.fault_supervisor.config() == fault_config()
        &&& self.pwm_schedule == schedule()
    }

    /// Steer command (millionths) the differential mixes in.
    pub closed spec fn steer(&self) -> i64 {
        self.steer_cmd
    }

    /// Last PWM frequency sent to motor A's bridge.
    pub closed spec fn freq_khz_a(&self) -> u32 {
        self.last_freq_khz_a
    }

    /// Last PWM frequency sent to motor B's bridge.
    pub closed spec fn freq_khz_b(&self) -> u32 {
        self.last_freq_khz_b
    }

    /// The differential's latest slip estimate (millionths).
    pub closed spec fn slip(&self) -> i64 {
        self.last_slip_estimate
    }

    /// Whether the last tick found no fault at all.
    pub closed spec fn healthy(&self) -> bool {
        self.system_healthy
    }

    /// Tick of the last successfully parsed command, if any.
    pub closed spec fn last_command(&self) -> Option<u64> {
        self.fault_supervisor.last_command()
    }

    /// Going straight, both bridges at the starting PWM frequency, no
    /// command heard yet, not yet declared healthy (the watchdog is fed
    /// only after a tick finds no fault).
    pub fn new() -> (r: Self)
        ensures
            r.wf(),
            r.steer() == 0,
            r.freq_khz_a() == PWM_FREQUENCY_MIN_KHZ,
            r.freq_khz_b() == PWM_FREQUENCY_MIN_KHZ,
            r.slip() == 0,
            !r.healthy(),
            r.last_command() is None,
    {
        ControlLoop {
            diff_controller: DiffController::new(
                DiffControllerConfig { slip_threshold: SLIP_THRESHOLD, slip_gain: SLIP_GAIN },
                BemfSlipEstimator::new(),
            ),
            fault_supervisor: FaultSupervisor::new(
                FaultConfig { current_limit: OVERCURRENT_LIMIT, comms_timeout_ticks: COMMS_TIMEOUT_TICKS },
            ),
            pwm_schedule: pwm_frequency_schedule(),
            steer_cmd: 0,
            last_freq_khz_a: PWM_FREQUENCY_MIN_KHZ,
            last_freq_khz_b: PWM_FREQUENCY_MIN_KHZ,
            last_slip_estimate: 0,
            system_healthy: false,
        }
    }

    /// Whether the hardware watchdog may be fed.
    pub fn system_healthy(&self) -> (r: bool)
        ensures
            r == self.healthy(),
    {
        self.system_healthy
    }

    /// The steer command in force.
    pub fn steer_cmd(&self) -> (r: i64)
        ensures
            r == self.steer(),
    {
        self.steer_cmd
    }

    /// One system tick at `now`, given each motor's reading.
    ///
    /// Mixes the running base duty with the axle-balance feedforward of the
    /// steer command (the layout's bias) through the differential;
    /// re-schedules each bridge's PWM frequency from its
    /// current speed, asking for a change only when it differs from the
    /// last one sent; shuts off a bridge whose current reading is at the
    /// limit; on comms loss returns the steer command to straight ahead (it
    /// takes effect from the next tick); records whether everything is
    /// healthy; and asks for a telemetry line on every
    /// `TELEMETRY_PERIOD_TICKS`-th tick.
    pub fn on_tick(&mut self, now: u64, a: MotorReading, b: MotorReading) -> (plan: TickPlan)
        requires
            old(self).wf(),
        ensures
            final(self).wf(),
            final(self).last_command() == old(self).last_command(),
            final(self).slip() == bemf_slip(
                a.erpm,
                b.erpm,
                clamp_int(commanded_bias(old(self).steer()), -SCALE, SCALE as int) as i32,
            ),
            ({
                let mixed = mix(
                    diff_config(),
                    RUNNING_BASE_DUTY as int,
                    clamp_int(commanded_bias(old(self).steer()), -SCALE, SCALE as int),
                    final(self).slip() as int,
                );
                &&& plan.target_duty_a == mixed.target_duty_a
                &&& plan.target_duty_b == mixed.target_duty_b
            }),
            final(self).freq_khz_a() == schedule().frequency_spec(a.current_erpm),
            final(self).freq_khz_b() == schedule().frequency_spec(b.current_erpm),
            plan.frequency_hz_a == (if final(self).freq_khz_a() != old(self).freq_khz_a() {
                Some((final(self).freq_khz_a() * 1000) as u32)
            } else {
                None
            }),
            plan.frequency_hz_b == (if final(self).freq_khz_b() != old(self).freq_khz_b() {
                Some((final(self).freq_khz_b() * 1000) as u32)
            } else {
                None
            }),
            plan.disable_a == (a.current_sample >= OVERCURRENT_LIMIT),
            plan.disable_b == (b.current_sample >= OVERCURRENT_LIMIT),
            ({
                let lost = comms_lost_at(old(self).last_command(), COMMS_TIMEOUT_TICKS, now);
                &&& final(self).steer() == (if lost { 0 } else { old(self).steer() })
                &&& final(self).healthy() == !(plan.disable_a || plan.disable_b || a.stalled
                    || b.stalled || lost)
            }),
            plan.telemetry == (if now % TELEMETRY_PERIOD_TICKS == 0 {
                Some(
                    Telemetry {
                        speed_a: telemetry_speed(a.erpm),
                        speed_b: telemetry_speed(b.erpm),
                        slip: final(self).slip(),
                    },
                )
            } else {
                None
            }),
    {
        let bias = DRIVE_LAYOUT.bias(self.steer_cmd, AXLE_BIAS_GAIN);
        let diff_out = self.diff_controller.update(RUNNING_BASE_DUTY as i64, bias, a.erpm, b.erpm);
        self.last_slip_estimate = diff_out.slip_estimate;

        let freq_khz_a = self.pwm_schedule.frequency_khz(a.current_erpm);
        let frequency_hz_a = if freq_khz_a != self.last_freq_khz_a {
            self.last_freq_khz_a = freq_khz_a;
            Some(freq_khz_a * 1000)
        } else {
            None
        };
        let freq_khz_b = self.pwm_schedule.frequency_khz(b.current_erpm);
        let frequency_hz_b = if freq_khz_b != self.last_freq_khz_b {
            self.last_freq_khz_b = freq_khz_b;
            Some(freq_khz_b * 1000)
        } else {
            None
        };

        let status = self.fault_supervisor.evaluate(
            now,
            a.current_sample,
            b.current_sample,
            a.stalled,
            b.stalled,
        );
        if status.comms_lost {
            self.steer_cmd = 0;
        }
        self.system_healthy = status.all_healthy();

        let telemetry = if now % TELEMETRY_PERIOD_TICKS == 0 {
            let speed_a = match a.erpm {
                Some(e) => #[verifier::truncate] (e as i32),
                None => 0,
            };
            let speed_b = match b.erpm {
                Some(e) => #[verifier::truncate] (e as i32),
                None => 0,
            };
            Some(Telemetry { speed_a, speed_b, slip: self.last_slip_estimate })
        } else {
            None
        };

        TickPlan {
            target_duty_a: diff_out.target_duty_a,
            target_duty_b: diff_out.target_duty_b,
            frequency_hz_a,
            frequency_hz_b,
            disable_a: status.overcurrent_a,
            disable_b: status.overcurrent_b,
            telemetry,
        }
    }

    /// Handles one parsed command line received at `now`.
    ///
    /// Any line that parsed counts as proof the link is alive. `STEER`
    /// replaces the steer command; `THR` is accepted but drives nothing
    /// (track voltage sets the speed); `GET` and `SET` answer with the
    /// parameter's value or the error; `SAVE` asks for the parameters to be
    /// persisted; a line that did not parse is answered with its error.
    pub fn on_command<'a>(
        &mut self,
        now: u64,
        parsed: Result<Command<'a>, ParseError>,
        params: &mut Params,
    ) -> (r: Reply<'a>)
        requires
            old(self).wf(),
        ensures
            final(self).wf(),
            final(self).freq_khz_a() == old(self).freq_khz_a(),
            final(self).freq_khz_b() == old(self).freq_khz_b(),
            final(self).slip() == old(self).slip(),
            final(self).healthy() == old(self).healthy(),
            final(self).last_command() == (if parsed is Ok {
                Some(now)
            } else {
                old(self).last_command()
            }),
            final(self).steer() == (match parsed {
                Ok(Command::Steer(v)) => v,
                _ => old(self).steer(),
            }),
            match parsed {
                Ok(Command::Get(name)) => reply_view(r) == get_reply(*old(params), name@)
                    && *final(params) == *old(params),
                Ok(Command::SetParam(name, value)) => (reply_view(r), *final(params))
                    == set_outcome(*old(params), name@, value),
                Ok(Command::Save) => r == Reply::Save && *final(params) == *old(params),
                Ok(_) => r == Reply::Silent && *final(params) == *old(params),
                Err(e) => r == Reply::Error(e) && *final(params) == *old(params),
            },
    {
        if parsed.is_ok() {
            self.fault_supervisor.note_valid_command(now);
        }
        match parsed {
            Ok(Command::Throttle(_)) => Reply::Silent,
            Ok(Command::Steer(v)) => {
                self.steer_cmd = v;
                Reply::Silent
            },
            Ok(Command::Get(name)) => match params::get(params, name) {
                Ok(value) => Reply::Param(name, value),
                Err(e) => Reply::Error(e),
            },
            Ok(Command::SetParam(name, value)) => match params::set(params, name, value) {
                Ok(applied) => Reply::Param(name, applied),
                Err(e) => Reply::Error(e),
            },
            Ok(Command::Save) => Reply::Save,
            Err(e) => Reply::Error(e),
        }
    }
}

} // verus!
