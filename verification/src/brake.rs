//! Drag-brake ("Latvian brake") supervisor.
//!
//! Slot car motors need active braking when the car loses electrical
//! contact with the track (track power off, or the car left the slot):
//! otherwise the wheels keep freewheeling. This is a whole-car concern,
//! measured once at the shared input, so there is one supervisor per car.
//!
//! Detection is a single boolean in - `current_present` - and `eligible` is
//! likewise a bool the caller computes; this keeps the module decoupled from
//! the commutator.
use vstd::prelude::*;

verus! {

/// How far a sample lies from the zero-current reference, in counts.
pub open spec fn deviation(sample: u16, zero_offset: u16) -> int {
    if sample >= zero_offset { sample - zero_offset } else { zero_offset - sample }
}

/// Turns a raw bidirectional current-sense ADC sample into a
/// `current_present` bool: current flows one way while driving and the
/// other way under braking, so what matters is the magnitude of the
/// deviation from the amplifier's zero-current reference, not the raw
/// sample. A deviation of at least `min_magnitude` counts as present.
pub fn current_present(sample: u16, zero_offset: u16, min_magnitude: u16) -> (r: bool)
    ensures
        r == (deviation(sample, zero_offset) >= min_magnitude),
{
    let d: i32 = sample as i32 - zero_offset as i32;
    let magnitude: u32 = if d < 0 { (-d) as u32 } else { d as u32 };
    magnitude >= min_magnitude as u32
}

/// Driving and braking current are treated alike: a deviation `d` above the
/// reference counts exactly when the same deviation below it does.
pub proof fn lemma_current_present_symmetric(zero_offset: u16, d: u16, min_magnitude: u16)
    requires
        zero_offset + d <= u16::MAX,
        zero_offset >= d,
    ensures
        (deviation((zero_offset + d) as u16, zero_offset) >= min_magnitude) == (deviation(
            (zero_offset - d) as u16,
            zero_offset,
        ) >= min_magnitude),
{
}

#[derive(Debug, Clone, Copy, PartialEq, Eq, Structural)]
pub struct DragBrakeConfig {
    /// Consecutive "no current" ticks required before engaging - guards
    /// against a single glitched reading. 0 and 1 both react on the very
    /// first bad tick.
    pub debounce_ticks: u16,
}

/// The number of consecutive eligible no-current ticks that engages the
/// brake.
pub open spec fn threshold(config: DragBrakeConfig) -> u16 {
    if config.debounce_ticks > 1 { config.debounce_ticks } else { 1 }
}

/// One supervisor update on the plain state (consecutive count, engaged).
pub open spec fn brake_step(
    config: DragBrakeConfig,
    count: u16,
    engaged: bool,
    eligible: bool,
    present: bool,
) -> (u16, bool) {
    if present {
        (0, false)
    } else if !eligible {
        (0, engaged)
    } else {
        let c: u16 = if count < u16::MAX { (count + 1) as u16 } else { u16::MAX };
        (c, engaged || c >= threshold(config))
    }
}

pub struct DragBrakeSupervisor {
    config: DragBrakeConfig,
    consecutive_no_current: u16,
    engaged: bool,
}

impl DragBrakeSupervisor {
    pub closed spec fn config(&self) -> DragBrakeConfig {
        self.config
    }

    /// Consecutive eligible ticks without current so far.
    pub closed spec fn count(&self) -> u16 {
        self.consecutive_no_current
    }

    pub closed spec fn engaged(&self) -> bool {
        self.engaged
    }

    /// Reaching the debounce threshold always means engaged.
    pub open spec fn wf(&self) -> bool {
        self.count() >= threshold(self.config()) ==> self.engaged()
    }

    pub fn new(config: DragBrakeConfig) -> (r: Self)
        ensures
            r.wf(),
            r.config() == config,
            r.count() == 0,
            !r.engaged(),
    {
        DragBrakeSupervisor { config, consecutive_no_current: 0, engaged: false }
    }

    /// Call once per tick with whether a low reading is meaningful right
    /// now (`eligible`) and whether current is present. Returns whether the
    /// brake should be (or remain) engaged: current present releases it at
    /// once; an ineligible tick resets the count and changes nothing else;
    /// an eligible tick without current counts toward the debounce
    /// threshold and engages on reaching it.
    pub fn update(&mut self, eligible: bool, current_present: bool) -> (engaged: bool)
        requires
            old(self).wf(),
        ensures
            final(self).wf(),
            final(self).config() == old(self).config(),
            (final(self).count(), final(self).engaged()) == brake_step(
                old(self).config(),
                old(self).count(),
                old(self).engaged(),
                eligible,
                current_present,
            ),
            engaged == final(self).engaged(),
    {
        if current_present {
            self.consecutive_no_current = 0;
            self.engaged = false;
            return self.engaged;
        }
        if !eligible {
            self.consecutive_no_current = 0;
            return self.engaged;
        }
        self.consecutive_no_current = if self.consecutive_no_current < u16::MAX {
            self.consecutive_no_current + 1
        } else {
            u16::MAX
        };
        let threshold = if self.config.debounce_ticks > 1 { self.config.debounce_ticks } else { 1 };
        if self.consecutive_no_current >= threshold {
            self.engaged = true;
        }
        self.engaged
    }

    pub fn is_engaged(&self) -> (r: bool)
        ensures
            r == self.engaged(),
    {
        self.engaged
    }
}

/// The state after `n` consecutive eligible ticks without current, starting
/// from a released supervisor with a zero count.
pub open spec fn after_absent_ticks(config: DragBrakeConfig, n: nat) -> (u16, bool)
    decreases n,
{
    if n == 0 {
        (0, false)
    } else {
        let prev = after_absent_ticks(config, (n - 1) as nat);
        brake_step(config, prev.0, prev.1, true, false)
    }
}

/// From a released state, the brake engages exactly on the
/// `max(debounce_ticks, 1)`-th consecutive eligible tick without current.
pub proof fn lemma_engages_after_debounce(config: DragBrakeConfig, n: nat)
    requires
        n <= u16::MAX,
    ensures
        after_absent_ticks(config, n).0 == n,
        after_absent_ticks(config, n).1 == (n >= threshold(config)),
    decreases n,
{
    if n > 0 {
        lemma_engages_after_debounce(config, (n - 1) as nat);
    }
}

} // verus!
