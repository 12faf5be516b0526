//! Runtime-tunable parameters, gettable/settable over the UART protocol and
//! persisted to flash by the firmware.
//!
//! Field names follow ESCape32's own configuration wherever a clear
//! equivalent exists (`freq_min`/`freq_max`, `duty_spup`, `duty_drag`,
//! `timing`, `revdir`); `timing`/`revdir` are split per motor.
//!
//! Pure and hardware-agnostic: the parameter table, validation, and the
//! byte encoding the firmware writes to flash. `get`/`set` report failures
//! as `ParseError`s, part of the same UART error vocabulary as everything
//! else on this channel.
use vstd::prelude::*;

use crate::protocol::ParseError;
use crate::protocol::str_eq;

verus! {

/// Marks a flash page as holding a valid `Params` encoding ("AART") rather
/// than erased (`0xFF` fill) or garbage.
pub const MAGIC: u32 = 0x4141_5254;

#[derive(Debug, Clone, Copy, PartialEq, Eq, Structural)]
pub struct Params {
    /// PWM switching frequency at low eRPM, kHz.
    pub freq_min: u16,
    /// PWM switching frequency at high eRPM, kHz.
    pub freq_max: u16,
    /// Startup/spin-up duty, percent.
    pub duty_spup: u8,
    /// Sync ramp rate, eRPM added per commutation step.
    pub duty_ramp: u16,
    /// Drag-brake chop duty, percent.
    pub duty_drag: u8,
    /// Motor A commutation timing advance, 0-31.
    pub timing_a: u8,
    /// Motor B commutation timing advance, 0-31.
    pub timing_b: u8,
    /// Motor A commutation direction reversed.
    pub revdir_a: bool,
    /// Motor B commutation direction reversed.
    pub revdir_b: bool,
}

/// The compiled-in defaults.
pub open spec fn default_params() -> Params {
    Params {
        freq_min: 48,
        freq_max: 96,
        duty_spup: 15,
        duty_ramp: 500,
        duty_drag: 60,
        timing_a: 0,
        timing_b: 0,
        revdir_a: false,
        revdir_b: false,
    }
}

/// Little-endian bytes of a 16-bit value.
pub open spec fn le16(x: u16) -> Seq<u8> {
    seq![(x % 256) as u8, (x / 256) as u8]
}

/// Little-endian bytes of a 32-bit value.
pub open spec fn le32(x: u32) -> Seq<u8> {
    seq![(x % 256) as u8, ((x / 256) % 256) as u8, ((x / 65536) % 256) as u8, (x / 16777216) as u8]
}

/// The value of two little-endian bytes.
pub open spec fn from_le16(b0: u8, b1: u8) -> u16 {
    (b0 + b1 * 256) as u16
}

/// The value of four little-endian bytes.
pub open spec fn from_le32(b0: u8, b1: u8, b2: u8, b3: u8) -> u32 {
    (b0 + b1 * 256 + b2 * 65536 + b3 * 16777216) as u32
}

/// The fixed little-endian layout: magic, `freq_min`, `freq_max`,
/// `duty_spup`, `duty_ramp`, `duty_drag`, `timing_a`, `timing_b`,
/// `revdir_a`, `revdir_b` (booleans as 0/1).
pub open spec fn encode(p: Params) -> Seq<u8> {
    le32(MAGIC) + le16(p.freq_min) + le16(p.freq_max) + seq![p.duty_spup] + le16(p.duty_ramp)
        + seq![
        p.duty_drag,
        p.timing_a,
        p.timing_b,
        if p.revdir_a { 1u8 } else { 0u8 },
        if p.revdir_b { 1u8 } else { 0u8 },
    ]
}

/// Reads the layout back: `None` when fewer than `Params::BYTE_LEN` bytes are given
/// or the magic doesn't match; any nonzero flag byte reads as `true`.
pub open spec fn decode(b: Seq<u8>) -> Option<Params> {
    if b.len() < Params::BYTE_LEN || from_le32(b[0], b[1], b[2], b[3]) != MAGIC {
        None
    } else {
        Some(
            Params {
                freq_min: from_le16(b[4], b[5]),
                freq_max: from_le16(b[6], b[7]),
                duty_spup: b[8],
                duty_ramp: from_le16(b[9], b[10]),
                duty_drag: b[11],
                timing_a: b[12],
                timing_b: b[13],
                revdir_a: b[14] != 0,
                revdir_b: b[15] != 0,
            },
        )
    }
}

impl Params {
    /// Serialized size in bytes (magic + fields) - see `to_bytes`.
    pub const BYTE_LEN: usize = 16;

    /// Compiled-in defaults.
    pub fn defaults() -> (r: Self)
        ensures
            r == default_params(),
    {
        Params {
            freq_min: 48,
            freq_max: 96,
            duty_spup: 15,
            duty_ramp: 500,
            duty_drag: 60,
            timing_a: 0,
            timing_b: 0,
            revdir_a: false,
            revdir_b: false,
        }
    }

    /// Fixed layout, little-endian (see `encode`).
    pub fn to_bytes(&self) -> (r: [u8; 16])
        ensures
            r@ == encode(*self),
    {
        let mut buf = [0u8; 16];
        buf[0] = (MAGIC % 256) as u8;
        buf[1] = ((MAGIC / 256) % 256) as u8;
        buf[2] = ((MAGIC / 65536) % 256) as u8;
        buf[3] = (MAGIC / 16777216) as u8;
        buf[4] = (self.freq_min % 256) as u8;
        buf[5] = (self.freq_min / 256) as u8;
        buf[6] = (self.freq_max % 256) as u8;
        buf[7] = (self.freq_max / 256) as u8;
        buf[8] = self.duty_spup;
        buf[9] = (self.duty_ramp % 256) as u8;
        buf[10] = (self.duty_ramp / 256) as u8;
        buf[11] = self.duty_drag;
        buf[12] = self.timing_a;
        buf[13] = self.timing_b;
        buf[14] = if self.revdir_a { 1 } else { 0 };
        buf[15] = if self.revdir_b { 1 } else { 0 };
        assert(buf@ =~= encode(*self));
        buf
    }

    /// `None` if `buf` is too short, or the magic doesn't match (erased
    /// flash reads back as `0xFF` fill, which never matches) - callers
    /// should fall back to `defaults()` in either case.
    pub fn from_bytes(buf: &[u8]) -> (r: Option<Self>)
        ensures
            r == decode(buf@),
    {
        if buf.len() < Self::BYTE_LEN {
            return None;
        }
        let magic = buf[0] as u32 + buf[1] as u32 * 256 + buf[2] as u32 * 65536 + buf[3] as u32
            * 16777216;
        if magic != MAGIC {
            return None;
        }
        Some(
            Params {
                freq_min: buf[4] as u16 + buf[5] as u16 * 256,
                freq_max: buf[6] as u16 + buf[7] as u16 * 256,
                duty_spup: buf[8],
                duty_ramp: buf[9] as u16 + buf[10] as u16 * 256,
                duty_drag: buf[11],
                timing_a: buf[12],
                timing_b: buf[13],
                revdir_a: buf[14] != 0,
                revdir_b: buf[15] != 0,
            },
        )
    }
}

impl Default for Params {
    fn default() -> (r: Self)
        ensures
            r == default_params(),
    {
        Params::defaults()
    }
}

/// Reading back what was written gives the same parameters.
pub proof fn lemma_bytes_round_trip(p: Params)
    ensures
        decode(encode(p)) == Some(p),
{
    let b = encode(p);
    assert(b.len() == 16);
    assert(from_le32(b[0], b[1], b[2], b[3]) == MAGIC);
    assert(from_le16(b[4], b[5]) == p.freq_min);
    assert(from_le16(b[6], b[7]) == p.freq_max);
    assert(from_le16(b[9], b[10]) == p.duty_ramp);
}

/// A buffer that starts like erased flash (`0xFF`) never decodes.
pub proof fn lemma_erased_flash_rejected(b: Seq<u8>)
    requires
        b.len() >= 1,
        b[0] == 0xFF,
    ensures
        decode(b) is None,
{
}

/// All recognized parameter names, in table order: one source of truth
/// alongside `get`/`set` for a listing of the parameters.
pub const PARAM_NAMES: [&'static str; 9] = [
    "freq_min",
    "freq_max",
    "duty_spup",
    "duty_ramp",
    "duty_drag",
    "timing_a",
    "timing_b",
    "revdir_a",
    "revdir_b",
];

/// A value accepted for a parameter is what that parameter then reads
/// back as, and every other parameter reads back unchanged (motor A's and
/// motor B's settings never leak into each other).
pub proof fn lemma_get_after_set(p: Params, name: Seq<char>, other: Seq<char>, v: i32)
    requires
        param_range(name) matches Some((lo, hi)) && lo <= v <= hi,
        other != name,
    ensures
        param_value(with_param(p, name, v), name) == Some(v),
        param_value(with_param(p, name, v), other) == param_value(p, other),
{
    reveal_strlit("freq_min");
    reveal_strlit("freq_max");
    reveal_strlit("duty_spup");
    reveal_strlit("duty_ramp");
    reveal_strlit("duty_drag");
    reveal_strlit("timing_a");
    reveal_strlit("timing_b");
    reveal_strlit("revdir_a");
    reveal_strlit("revdir_b");
}

/// `value` if it lies in `[min, max]`, else `OutOfRange`.
pub fn ranged(value: i32, min: i32, max: i32) -> (r: Result<i32, ParseError>)
    ensures
        r == (if value < min || value > max {
            Err::<i32, ParseError>(ParseError::OutOfRange)
        } else {
            Ok(value)
        }),
{
    if value < min || value > max {
        Err(ParseError::OutOfRange)
    } else {
        Ok(value)
    }
}

/// A named parameter's value as a plain integer (booleans as 0/1), or
/// `None` for an unknown name.
pub open spec fn param_value(p: Params, name: Seq<char>) -> Option<i32> {
    if name == "freq_min"@ {
        Some(p.freq_min as i32)
    } else if name == "freq_max"@ {
        Some(p.freq_max as i32)
    } else if name == "duty_spup"@ {
        Some(p.duty_spup as i32)
    } else if name == "duty_ramp"@ {
        Some(p.duty_ramp as i32)
    } else if name == "duty_drag"@ {
        Some(p.duty_drag as i32)
    } else if name == "timing_a"@ {
        Some(p.timing_a as i32)
    } else if name == "timing_b"@ {
        Some(p.timing_b as i32)
    } else if name == "revdir_a"@ {
        Some(if p.revdir_a { 1i32 } else { 0i32 })
    } else if name == "revdir_b"@ {
        Some(if p.revdir_b { 1i32 } else { 0i32 })
    } else {
        None
    }
}

/// The accepted range of a named parameter, or `None` for an unknown name.
pub open spec fn param_range(name: Seq<char>) -> Option<(i32, i32)> {
    if name == "freq_min"@ || name == "freq_max"@ {
        Some((20, 150))
    } else if name == "duty_spup"@ {
        Some((1, 100))
    } else if name == "duty_ramp"@ {
        Some((1, 10_000))
    } else if name == "duty_drag"@ {
        Some((0, 100))
    } else if name == "timing_a"@ || name == "timing_b"@ {
        Some((0, 31))
    } else if name == "revdir_a"@ || name == "revdir_b"@ {
        Some((0, 1))
    } else {
        None
    }
}

/// `p` with the named parameter set to `v` (assumed in its range).
pub open spec fn with_param(p: Params, name: Seq<char>, v: i32) -> Params {
    if name == "freq_min"@ {
        Params { freq_min: v as u16, ..p }
    } else if name == "freq_max"@ {
        Params { freq_max: v as u16, ..p }
    } else if name == "duty_spup"@ {
        Params { duty_spup: v as u8, ..p }
    } else if name == "duty_ramp"@ {
        Params { duty_ramp: v as u16, ..p }
    } else if name == "duty_drag"@ {
        Params { duty_drag: v as u8, ..p }
    } else if name == "timing_a"@ {
        Params { timing_a: v as u8, ..p }
    } else if name == "timing_b"@ {
        Params { timing_b: v as u8, ..p }
    } else if name == "revdir_a"@ {
        Params { revdir_a: v != 0, ..p }
    } else if name == "revdir_b"@ {
        Params { revdir_b: v != 0, ..p }
    } else {
        p
    }
}

/// Reads a named parameter as a plain integer (booleans as 0/1) - the shape
/// `GET`'s wire response needs.
pub fn get(params: &Params, name: &str) -> (r: Result<i32, ParseError>)
    ensures
        r == (match param_value(*params, name@) {
            Some(v) => Ok(v),
            None => Err::<i32, ParseError>(ParseError::UnknownParam),
        }),
{
    if str_eq(name, "freq_min") {
        Ok(params.freq_min as i32)
    } else if str_eq(name, "freq_max") {
        Ok(params.freq_max as i32)
    } else if str_eq(name, "duty_spup") {
        Ok(params.duty_spup as i32)
    } else if str_eq(name, "duty_ramp") {
        Ok(params.duty_ramp as i32)
    } else if str_eq(name, "duty_drag") {
        Ok(params.duty_drag as i32)
    } else if str_eq(name, "timing_a") {
        Ok(params.timing_a as i32)
    } else if str_eq(name, "timing_b") {
        Ok(params.timing_b as i32)
    } else if str_eq(name, "revdir_a") {
        Ok(if params.revdir_a { 1 } else { 0 })
    } else if str_eq(name, "revdir_b") {
        Ok(if params.revdir_b { 1 } else { 0 })
    } else {
        Err(ParseError::UnknownParam)
    }
}

/// Validates and applies `value` to the named parameter, returning the
/// value actually stored (always `value` itself: out-of-range values are
/// rejected outright rather than clamped, and a rejected `SET` changes
/// nothing).
pub fn set(params: &mut Params, name: &str, value: i32) -> (r: Result<i32, ParseError>)
    ensures
        match param_range(name@) {
            None => r == Err::<i32, ParseError>(ParseError::UnknownParam) && *final(params) == *old(params),
            Some((lo, hi)) => if lo <= value <= hi {
                r == Ok::<i32, ParseError>(value) && *final(params) == with_param(*old(params), name@, value)
            } else {
                r == Err::<i32, ParseError>(ParseError::OutOfRange) && *final(params) == *old(params)
            },
        },
{
    if str_eq(name, "freq_min") {
        let v = ranged(value, 20, 150)?;
        params.freq_min = v as u16;
    } else if str_eq(name, "freq_max") {
        let v = ranged(value, 20, 150)?;
        params.freq_max = v as u16;
    } else if str_eq(name, "duty_spup") {
        let v = ranged(value, 1, 100)?;
        params.duty_spup = v as u8;
    } else if str_eq(name, "duty_ramp") {
        let v = ranged(value, 1, 10_000)?;
        params.duty_ramp = v as u16;
    } else if str_eq(name, "duty_drag") {
        let v = ranged(value, 0, 100)?;
        params.duty_drag = v as u8;
    } else if str_eq(name, "timing_a") {
        let v = ranged(value, 0, 31)?;
        params.timing_a = v as u8;
    } else if str_eq(name, "timing_b") {
        let v = ranged(value, 0, 31)?;
        params.timing_b = v as u8;
    } else if str_eq(name, "revdir_a") {
        let v = ranged(value, 0, 1)?;
        params.revdir_a = v != 0;
    } else if str_eq(name, "revdir_b") {
        let v = ranged(value, 0, 1)?;
        params.revdir_b = v != 0;
    } else {
        return Err(ParseError::UnknownParam);
    }
    get(params, name)
}

} // verus!
