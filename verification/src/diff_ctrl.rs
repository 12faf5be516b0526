//! Electronic differential + slip estimate.
//!
//! Takes a base duty (in practice the Running baseline - there is no
//! throttle input on a slot car) plus a steer command and each motor's own
//! electrical speed, and produces a skid-steer-style duty split plus a slip
//! estimate used to cut duty on the "slipping" (faster-than-commanded)
//! side.
//!
//! `SlipEstimator` is a trait so the estimator can be swapped independently
//! of the mixing/cut logic. `BemfSlipEstimator` is a motor-vs-motor proxy:
//! it compares the two motors' electrical speeds against what the steer
//! command implies; there is no ground-truth wheel-speed sensor behind it.
//!
//! Duties, steer commands, slip, thresholds and gains are millionths (see
//! `crate::units`).
use vstd::prelude::*;

use crate::units::{SCALE, SCALE_I64, clamp_int, div_trunc};

verus! {

pub trait SlipEstimator: Sized {
    /// The estimate this estimator gives for these readings and steer
    /// command.
    spec fn slip(&self, erpm_a: Option<u32>, erpm_b: Option<u32>, steer_cmd: i32) -> i64;

    /// The estimator's state after giving that estimate (itself, for a
    /// stateless one).
    spec fn after(&self, erpm_a: Option<u32>, erpm_b: Option<u32>, steer_cmd: i32) -> Self;

    /// `erpm_a`/`erpm_b` are `None` when a motor doesn't have a trusted
    /// speed reading yet (still ramping, or stalled) - implementations
    /// should return 0 (no basis for an estimate) rather than guess.
    /// `steer_cmd` is in millionths.
    fn estimate(&mut self, erpm_a: Option<u32>, erpm_b: Option<u32>, steer_cmd: i32) -> (r: i64)
        ensures
            r == old(self).slip(erpm_a, erpm_b, steer_cmd),
            *final(self) == old(self).after(erpm_a, erpm_b, steer_cmd),
    ;
}

/// The BEMF proxy's slip estimate in millionths: how much faster `b` spins
/// than `a` as a normalized ratio `(b - a) / (a + b)` in `[-1, 1]`, minus
/// the commanded ratio; 0 without both readings or when both are zero.
pub open spec fn bemf_slip(erpm_a: Option<u32>, erpm_b: Option<u32>, steer_cmd: i32) -> int {
    match (erpm_a, erpm_b) {
        (Some(a), Some(b)) => if a == 0 && b == 0 {
            0
        } else {
            div_trunc((b - a) * SCALE, a + b) - steer_cmd
        },
        _ => 0,
    }
}

pub struct BemfSlipEstimator;

impl BemfSlipEstimator {
    pub fn new() -> (r: Self) {
        BemfSlipEstimator
    }

    /// See `bemf_slip`.
    pub fn estimate_slip(erpm_a: Option<u32>, erpm_b: Option<u32>, steer_cmd: i32) -> (r: i64)
        ensures
            r == bemf_slip(erpm_a, erpm_b, steer_cmd),
    {
        match (erpm_a, erpm_b) {
            (Some(a), Some(b)) => {
                if a == 0 && b == 0 {
                    return 0;
                }
                let diff: i64 = b as i64 - a as i64;
                let ratio = crate::units::i64_div_trunc(diff * SCALE_I64, a as i64 + b as i64);
                proof {
                    assert(-(a as int + b as int) * SCALE <= (b - a) * SCALE <= (a as int + b as int) * SCALE) by (nonlinear_arith)
                        requires
                            0 <= a,
                            0 <= b,
                    ;
                    lemma_ratio_bounded((b - a) * SCALE, (a + b) as int);
                }
                ratio - steer_cmd as i64
            },
            _ => 0,
        }
    }
}

/// A normalized difference stays within one whole unit.
proof fn lemma_ratio_bounded(n: int, d: int)
    requires
        d > 0,
        -d * SCALE <= n <= d * SCALE,
    ensures
        -(SCALE as int) <= div_trunc(n, d) <= SCALE,
{
    if n >= 0 {
        assert(n / d <= SCALE) by (nonlinear_arith)
            requires
                d > 0,
                0 <= n <= d * SCALE,
        ;
        assert(n / d >= 0) by (nonlinear_arith)
            requires
                d > 0,
                0 <= n,
        ;
    } else {
        assert((-n) / d <= SCALE) by (nonlinear_arith)
            requires
                d > 0,
                0 <= -n <= d * SCALE,
        ;
        assert((-n) / d >= 0) by (nonlinear_arith)
            requires
                d > 0,
                0 <= -n,
        ;
    }
}

impl Default for BemfSlipEstimator {
    fn default() -> (r: Self) {
        BemfSlipEstimator
    }
}

impl SlipEstimator for BemfSlipEstimator {
    open spec fn slip(&self, erpm_a: Option<u32>, erpm_b: Option<u32>, steer_cmd: i32) -> i64 {
        bemf_slip(erpm_a, erpm_b, steer_cmd) as i64
    }

    open spec fn after(&self, erpm_a: Option<u32>, erpm_b: Option<u32>, steer_cmd: i32) -> Self {
        *self
    }

    fn estimate(&mut self, erpm_a: Option<u32>, erpm_b: Option<u32>, steer_cmd: i32) -> (r: i64)
        ensures
            r == bemf_slip(erpm_a, erpm_b, steer_cmd),
    {
        Self::estimate_slip(erpm_a, erpm_b, steer_cmd)
    }
}

#[derive(Debug, Clone, Copy, PartialEq, Eq, Structural)]
pub struct DiffControllerConfig {
    /// `|slip_estimate|` at or below this (millionths) is treated as noise.
    pub slip_threshold: i64,
    /// How hard to cut duty on the slipping side per unit of slip beyond
    /// the threshold (millionths per unit). Proportional only.
    pub slip_gain: i64,
}

#[derive(Debug, Clone, Copy, PartialEq, Eq, Structural)]
pub struct DiffOutput {
    pub target_duty_a: u32,
    pub target_duty_b: u32,
    pub slip_estimate: i64,
}

/// Lowers `duty` by `excess * gain` (millionths, the cut rounded toward
/// zero), not below zero; a negative gain raises it instead, up to what 32
/// bits hold.
pub open spec fn cut(duty: int, excess: int, gain: int) -> int {
    clamp_int(duty - div_trunc(excess * gain, SCALE as int), 0, u32::MAX as int)
}

/// The duty split for an already-clamped base duty and steer command, and
/// a slip estimate: skid-steer mixing `base * (1 - steer)` for `a` and
/// `base * (1 + steer)` for `b` (each clamped to `[0, 1]`), then a
/// proportional cut on `b` when slip exceeds the threshold (b spinning
/// faster than commanded) or on `a` when it falls below its negative.
pub open spec fn mix(config: DiffControllerConfig, base: int, steer: int, slip: int) -> DiffOutput {
    let duty_a = clamp_int(base * (SCALE - steer) / (SCALE as int), 0, SCALE as int);
    let duty_b = clamp_int(base * (SCALE + steer) / (SCALE as int), 0, SCALE as int);
    let t = config.slip_threshold as int;
    let g = config.slip_gain as int;
    if slip > t {
        DiffOutput {
            target_duty_a: duty_a as u32,
            target_duty_b: cut(duty_b, slip - t, g) as u32,
            slip_estimate: slip as i64,
        }
    } else if slip < -t {
        DiffOutput {
            target_duty_a: cut(duty_a, -t - slip, g) as u32,
            target_duty_b: duty_b as u32,
            slip_estimate: slip as i64,
        }
    } else {
        DiffOutput {
            target_duty_a: duty_a as u32,
            target_duty_b: duty_b as u32,
            slip_estimate: slip as i64,
        }
    }
}

pub struct DiffController<S> {
    config: DiffControllerConfig,
    slip_estimator: S,
}

/// Mixing output for clamped inputs, in 64-bit arithmetic.
fn mixed_duty(base: i64, factor: i64) -> (r: u32)
    requires
        0 <= base <= SCALE,
        0 <= factor <= 2 * SCALE,
    ensures
        r == clamp_int(base * factor / (SCALE as int), 0, SCALE as int),
{
    proof {
        assert(0 <= base * factor <= 2_000_000_000_000) by (nonlinear_arith)
            requires
                0 <= base <= 1_000_000,
                0 <= factor <= 2_000_000,
        ;
    }
    let d = base * factor / SCALE_I64;
    if d > SCALE_I64 {
        SCALE
    } else {
        d as u32
    }
}

/// `cut` in 128-bit arithmetic.
fn apply_cut(duty: u32, excess: i128, gain: i64) -> (r: u32)
    requires
        duty <= SCALE,
        0 < excess <= 0x1_0000_0000_0000_0000,
    ensures
        r == cut(duty as int, excess as int, gain as int),
        gain >= 0 ==> r <= duty,
{
    let g: u128 = if gain < 0 { (-(gain as i128)) as u128 } else { gain as u128 };
    proof {
        assert(excess * g <= 0x1_0000_0000_0000_0000 * 0x8000_0000_0000_0000) by (nonlinear_arith)
            requires
                0 < excess <= 0x1_0000_0000_0000_0000,
                0 <= g <= 0x8000_0000_0000_0000,
        ;
        assert(excess * g >= 0) by (nonlinear_arith)
            requires
                excess > 0,
                g >= 0,
        ;
        if gain < 0 {
            assert(excess * gain == -(excess * g)) by (nonlinear_arith)
                requires
                    g == -gain,
            ;
            if excess * g > 0 {
                assert(excess * gain < 0);
            }
        } else {
            assert(excess * gain == excess * g);
        }
    }
    let m = (excess as u128) * g;
    let q = m / (SCALE as u128);
    assert(q <= 0x1_0000_0000_0000_0000_0000_0000_0000) by (nonlinear_arith)
        requires
            m <= 0x1_0000_0000_0000_0000 * 0x8000_0000_0000_0000,
            q == m / 1_000_000,
    ;
    let c: i128 = if gain < 0 { -(q as i128) } else { q as i128 };
    let v = duty as i128 - c;
    if v < 0 {
        0
    } else if v > u32::MAX as i128 {
        u32::MAX
    } else {
        v as u32
    }
}

impl<S: SlipEstimator> DiffController<S> {
    pub closed spec fn config(&self) -> DiffControllerConfig {
        self.config
    }

    /// The slip estimator as it stands.
    pub closed spec fn estimator(&self) -> S {
        self.slip_estimator
    }

    pub fn new(config: DiffControllerConfig, slip_estimator: S) -> (r: Self)
        ensures
            r.config() == config,
            r.estimator() == slip_estimator,
    {
        DiffController { config, slip_estimator }
    }

    /// `base_duty` is the duty both motors would run at going straight with
    /// no correction; it is clamped to `[0, 1]` and `steer_cmd` to
    /// `[-1, 1]` before mixing, and the clamped steer command is what the
    /// slip estimator sees, once, with both readings. The result is `mix`
    /// of those with the estimator's estimate, which is reported as
    /// `slip_estimate`.
    pub fn update(
        &mut self,
        base_duty: i64,
        steer_cmd: i64,
        erpm_a: Option<u32>,
        erpm_b: Option<u32>,
    ) -> (r: DiffOutput)
        ensures
            final(self).config() == old(self).config(),
            r.slip_estimate == old(self).estimator().slip(
                erpm_a,
                erpm_b,
                clamp_int(steer_cmd as int, -SCALE, SCALE as int) as i32,
            ),
            final(self).estimator() == old(self).estimator().after(
                erpm_a,
                erpm_b,
                clamp_int(steer_cmd as int, -SCALE, SCALE as int) as i32,
            ),
            r == mix(
                old(self).config(),
                clamp_int(base_duty as int, 0, SCALE as int),
                clamp_int(steer_cmd as int, -SCALE, SCALE as int),
                r.slip_estimate as int,
            ),
    {
        let base = crate::units::clamp_i64(base_duty, 0, SCALE_I64);
        let steer = crate::units::clamp_i64(steer_cmd, -SCALE_I64, SCALE_I64);
        let duty_a = mixed_duty(base, SCALE_I64 - steer);
        let duty_b = mixed_duty(base, SCALE_I64 + steer);
        let slip = self.slip_estimator.estimate(erpm_a, erpm_b, steer as i32);
        let t = self.config.slip_threshold;
        let g = self.config.slip_gain;
        if slip > t {
            let excess = slip as i128 - t as i128;
            let b = apply_cut(duty_b, excess, g);
            DiffOutput { target_duty_a: duty_a, target_duty_b: b, slip_estimate: slip }
        } else if (slip as i128) < -(t as i128) {
            let excess = -(t as i128) - slip as i128;
            let a = apply_cut(duty_a, excess, g);
            DiffOutput { target_duty_a: a, target_duty_b: duty_b, slip_estimate: slip }
        } else {
            DiffOutput { target_duty_a: duty_a, target_duty_b: duty_b, slip_estimate: slip }
        }
    }
}

/// Both duties always lie in `[0, 1]`; slip beyond the threshold cuts only
/// the side spinning faster than commanded and leaves the other side at its
/// mixed duty; slip within the threshold cuts nothing.
pub proof fn lemma_cut_only_the_slipping_side(config: DiffControllerConfig, base: int, steer: int, slip: int)
    requires
        0 <= base <= SCALE,
        -SCALE <= steer <= SCALE,
        config.slip_threshold >= 0,
        config.slip_gain >= 0,
    ensures
        ({
            let out = mix(config, base, steer, slip);
            let duty_a = clamp_int(base * (SCALE - steer) / (SCALE as int), 0, SCALE as int);
            let duty_b = clamp_int(base * (SCALE + steer) / (SCALE as int), 0, SCALE as int);
            &&& out.target_duty_a <= SCALE
            &&& out.target_duty_b <= SCALE
            &&& slip > config.slip_threshold ==> out.target_duty_a == duty_a && out.target_duty_b <= duty_b
            &&& slip < -config.slip_threshold ==> out.target_duty_b == duty_b && out.target_duty_a <= duty_a
            &&& -config.slip_threshold <= slip <= config.slip_threshold ==> out.target_duty_a == duty_a
                && out.target_duty_b == duty_b
        }),
{
    let t = config.slip_threshold as int;
    let g = config.slip_gain as int;
    if slip > t {
        assert((slip - t) * g >= 0) by (nonlinear_arith)
            requires
                slip - t > 0,
                g >= 0,
        ;
        assert((slip - t) * g / (SCALE as int) >= 0) by (nonlinear_arith)
            requires
                (slip - t) * g >= 0,
        ;
    } else if slip < -t {
        assert((-t - slip) * g >= 0) by (nonlinear_arith)
            requires
                -t - slip > 0,
                g >= 0,
        ;
        assert((-t - slip) * g / (SCALE as int) >= 0) by (nonlinear_arith)
            requires
                (-t - slip) * g >= 0,
        ;
    }
}

/// Going straight (no steer) gives both motors the base duty, and the BEMF
/// estimate then reads zero slip exactly when both speeds are equal.
pub proof fn lemma_straight_is_symmetric(config: DiffControllerConfig, base: int, erpm: u32)
    requires
        0 <= base <= SCALE,
        config.slip_threshold >= 0,
    ensures
        bemf_slip(Some(erpm), Some(erpm), 0) == 0,
        mix(config, base, 0, 0).target_duty_a == base,
        mix(config, base, 0, 0).target_duty_b == base,
{
    assert(base * (SCALE - 0) / (SCALE as int) == base) by (nonlinear_arith);
}

/// With a non-negative gain, slip beyond the threshold cuts the slipping
/// side by `excess * gain` (millionths, rounded down), stopping at zero:
/// `b` when slip is above the threshold, with excess `slip - threshold`,
/// and otherwise `a` when it is below the negated threshold, with excess
/// `-threshold - slip`. The other side keeps its mixed duty.
pub proof fn lemma_cut_is_proportional(config: DiffControllerConfig, base: int, steer: int, slip: int)
    requires
        0 <= base <= SCALE,
        -SCALE <= steer <= SCALE,
        config.slip_gain >= 0,
    ensures
        ({
            let out = mix(config, base, steer, slip);
            let t = config.slip_threshold as int;
            let g = config.slip_gain as int;
            let duty_a = clamp_int(base * (SCALE - steer) / (SCALE as int), 0, SCALE as int);
            let duty_b = clamp_int(base * (SCALE + steer) / (SCALE as int), 0, SCALE as int);
            &&& slip > t ==> out.target_duty_a == duty_a && out.target_duty_b == (if duty_b - (slip - t) * g
                / (SCALE as int) < 0 { 0 } else { duty_b - (slip - t) * g / (SCALE as int) })
            &&& slip <= t && slip < -t ==> out.target_duty_b == duty_b && out.target_duty_a == (if duty_a - (-t - slip) * g
                / (SCALE as int) < 0 { 0 } else { duty_a - (-t - slip) * g / (SCALE as int) })
        }),
{
    let t = config.slip_threshold as int;
    let g = config.slip_gain as int;
    let duty_a = clamp_int(base * (SCALE - steer) / (SCALE as int), 0, SCALE as int);
    let duty_b = clamp_int(base * (SCALE + steer) / (SCALE as int), 0, SCALE as int);
    if slip > t {
        assert((slip - t) * g >= 0) by (nonlinear_arith)
            requires
                slip - t > 0,
                g >= 0,
        ;
        let c = (slip - t) * g / (SCALE as int);
        assert(c >= 0) by (nonlinear_arith)
            requires
                (slip - t) * g >= 0,
                c == (slip - t) * g / (SCALE as int),
        ;
        assert(div_trunc((slip - t) * g, SCALE as int) == c);
        assert(cut(duty_b, slip - t, g) == (if duty_b - c < 0 { 0 } else { duty_b - c }));
    } else if slip < -t {
        assert((-t - slip) * g >= 0) by (nonlinear_arith)
            requires
                -t - slip > 0,
                g >= 0,
        ;
        let c = (-t - slip) * g / (SCALE as int);
        assert(c >= 0) by (nonlinear_arith)
            requires
                (-t - slip) * g >= 0,
                c == (-t - slip) * g / (SCALE as int),
        ;
        assert(div_trunc((-t - slip) * g, SCALE as int) == c);
        assert(cut(duty_a, -t - slip, g) == (if duty_a - c < 0 { 0 } else { duty_a - c }));
    }
}

/// The differential treats the two sides alike: with a non-negative
/// threshold, mirroring the steer command and the slip swaps the two
/// duties.
pub proof fn lemma_mix_is_mirror_symmetric(config: DiffControllerConfig, base: int, steer: int, slip: int)
    requires
        config.slip_threshold >= 0,
    ensures
        ({
            let out = mix(config, base, steer, slip);
            let mirrored = mix(config, base, -steer, -slip);
            &&& out.target_duty_a == mirrored.target_duty_b
            &&& out.target_duty_b == mirrored.target_duty_a
        }),
{
    let t = config.slip_threshold as int;
    let g = config.slip_gain as int;
    let da = clamp_int(base * (SCALE - steer) / (SCALE as int), 0, SCALE as int);
    let db = clamp_int(base * (SCALE + steer) / (SCALE as int), 0, SCALE as int);
    let ma = clamp_int(base * (SCALE - (-steer)) / (SCALE as int), 0, SCALE as int);
    let mb = clamp_int(base * (SCALE + (-steer)) / (SCALE as int), 0, SCALE as int);
    assert(SCALE - (-steer) == SCALE + steer);
    assert(SCALE + (-steer) == SCALE - steer);
    assert(ma == db);
    assert(mb == da);
    let out = mix(config, base, steer, slip);
    let mirrored = mix(config, base, -steer, -slip);
    if slip > t {
        assert(-t - (-slip) == slip - t);
    } else if slip < -t {
        assert(-slip - t == -t - slip);
    }
}

} // verus!
