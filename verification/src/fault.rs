//! Fault aggregation: overcurrent, stall, and UART comms-loss, rolled up
//! into one status the firmware acts on (disabling a faulted motor's bridge,
//! zeroing the steer command on comms-loss) and one bit -
//! `FaultStatus::all_healthy` - that gates whether the hardware watchdog
//! gets fed at all.
//!
//! Takes plain values (a raw current sample, a stalled flag) so it stays
//! composable and host-testable.
use vstd::prelude::*;

verus! {

#[derive(Debug, Clone, Copy, PartialEq, Eq, Structural)]
pub struct FaultConfig {
    /// A current sample (raw ADC counts) at or above this is overcurrent.
    pub current_limit: u16,
    /// Fail-safe if no valid command has parsed within this many ticks of
    /// the last one - not counted from boot, since never having received a
    /// command isn't the same as having lost an established link.
    pub comms_timeout_ticks: u64,
}

#[derive(Debug, Clone, Copy, PartialEq, Eq, Structural)]
pub struct FaultStatus {
    pub overcurrent_a: bool,
    pub overcurrent_b: bool,
    pub stalled_a: bool,
    pub stalled_b: bool,
    pub comms_lost: bool,
}

impl FaultStatus {
    /// The only condition under which the watchdog should be fed.
    pub fn all_healthy(&self) -> (r: bool)
        ensures
            r == !(self.overcurrent_a || self.overcurrent_b || self.stalled_a || self.stalled_b
                || self.comms_lost),
    {
        !(self.overcurrent_a || self.overcurrent_b || self.stalled_a || self.stalled_b
            || self.comms_lost)
    }
}

impl Default for FaultStatus {
    /// No fault of any kind.
    fn default() -> (r: Self)
        ensures
            r == (FaultStatus {
                overcurrent_a: false,
                overcurrent_b: false,
                stalled_a: false,
                stalled_b: false,
                comms_lost: false,
            }),
    {
        FaultStatus {
            overcurrent_a: false,
            overcurrent_b: false,
            stalled_a: false,
            stalled_b: false,
            comms_lost: false,
        }
    }
}

/// Whether the link counts as lost at `tick`: a command was seen at some
/// point, and more than `timeout` ticks have passed since the last one.
pub open spec fn comms_lost_at(last: Option<u64>, timeout: u64, tick: u64) -> bool {
    match last {
        None => false,
        Some(l) => (if tick > l { tick - l } else { 0 }) > timeout,
    }
}

pub struct FaultSupervisor {
    config: FaultConfig,
    last_valid_command_tick: Option<u64>,
}

impl FaultSupervisor {
    pub closed spec fn config(&self) -> FaultConfig {
        self.config
    }

    /// Tick of the last valid command, if any.
    pub closed spec fn last_command(&self) -> Option<u64> {
        self.last_valid_command_tick
    }

    pub fn new(config: FaultConfig) -> (r: Self)
        ensures
            r.config() == config,
            r.last_command() is None,
    {
        FaultSupervisor { config, last_valid_command_tick: None }
    }

    /// Call whenever a command line parses successfully.
    pub fn note_valid_command(&mut self, tick: u64)
        ensures
            final(self).config() == old(self).config(),
            final(self).last_command() == Some(tick),
    {
        self.last_valid_command_tick = Some(tick);
    }

    pub fn is_overcurrent(&self, sample: u16) -> (r: bool)
        ensures
            r == (sample >= self.config().current_limit),
    {
        sample >= self.config.current_limit
    }

    pub fn comms_lost(&self, tick: u64) -> (r: bool)
        ensures
            r == comms_lost_at(self.last_command(), self.config().comms_timeout_ticks, tick),
    {
        match self.last_valid_command_tick {
            None => false,
            Some(last) => {
                let since = if tick > last { tick - last } else { 0 };
                since > self.config.comms_timeout_ticks
            },
        }
    }

    /// Call every tick with each motor's raw current sample and stall status
    /// to get the aggregate fault picture.
    pub fn evaluate(
        &self,
        tick: u64,
        current_a: u16,
        current_b: u16,
        stalled_a: bool,
        stalled_b: bool,
    ) -> (r: FaultStatus)
        ensures
            r == (FaultStatus {
                overcurrent_a: current_a >= self.config().current_limit,
                overcurrent_b: current_b >= self.config().current_limit,
                stalled_a,
                stalled_b,
                comms_lost: comms_lost_at(self.last_command(), self.config().comms_timeout_ticks, tick),
            }),
    {
        FaultStatus {
            overcurrent_a: self.is_overcurrent(current_a),
            overcurrent_b: self.is_overcurrent(current_b),
            stalled_a,
            stalled_b,
            comms_lost: self.comms_lost(tick),
        }
    }
}

/// A link that was never established is never reported lost, however much
/// time passes.
pub proof fn lemma_never_established_never_lost(timeout: u64, tick: u64)
    ensures
        !comms_lost_at(None, timeout, tick),
{
}

/// A fresh valid command at `t` keeps the link alive through `t + timeout`
/// and reports it lost at every tick after that.
pub proof fn lemma_fresh_command_window(t: u64, timeout: u64, tick: u64)
    ensures
        comms_lost_at(Some(t), timeout, tick) <==> tick > t && tick - t > timeout,
{
}

} // verus!
