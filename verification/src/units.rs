//! Fixed-point representation shared by every module that deals in
//! fractions of one: a value `v` stands for `v / SCALE`.
use vstd::prelude::*;

verus! {

/// One whole unit (100% duty, full-scale steer) in millionths.
pub const SCALE: u32 = 1_000_000;

/// `SCALE` as a signed 64-bit value, for signed quantities.
pub const SCALE_I64: i64 = 1_000_000;

/// Integer division rounding toward zero, as Rust's `/` does on signed
/// integers (Verus's spec `/` rounds toward negative infinity instead).
pub open spec fn div_trunc(n: int, d: int) -> int
    recommends d > 0,
{
    if n >= 0 { n / d } else { -((-n) / d) }
}

/// `n / d` rounded toward zero, for signed `n` and positive `d`.
pub fn i64_div_trunc(n: i64, d: i64) -> (r: i64)
    requires
        d > 0,
        n > i64::MIN,
    ensures
        r == div_trunc(n as int, d as int),
{
    if n >= 0 {
        n / d
    } else {
        let m: i64 = -n;
        -(m / d)
    }
}

/// Clamps `v` into `[lo, hi]`.
pub open spec fn clamp_int(v: int, lo: int, hi: int) -> int {
    if v < lo { lo } else if v > hi { hi } else { v }
}

/// Clamps `v` into `[lo, hi]`.
pub fn clamp_i64(v: i64, lo: i64, hi: i64) -> (r: i64)
    requires
        lo <= hi,
    ensures
        r == clamp_int(v as int, lo as int, hi as int),
{
    if v < lo { lo } else if v > hi { hi } else { v }
}

/// Scaling `x` by a fraction `num / den` of at most one stays within `x`,
/// and for 32-bit factors the product stays within 64 bits.
pub proof fn lemma_mul_div_bounded(x: int, num: int, den: int)
    requires
        0 <= x <= u32::MAX,
        0 <= num <= den <= u32::MAX,
        den > 0,
    ensures
        0 <= x * num <= u64::MAX,
        0 <= x * num / den <= x,
{
    assert(0 <= x * num <= u64::MAX) by (nonlinear_arith)
        requires
            0 <= x <= u32::MAX,
            0 <= num <= u32::MAX,
    ;
    assert(x * num <= x * den) by (nonlinear_arith)
        requires
            0 <= x,
            num <= den,
    ;
    assert(x * num / den <= x) by (nonlinear_arith)
        requires
            x * num <= x * den,
            den > 0,
            0 <= x * num,
    ;
    assert(0 <= x * num / den) by (nonlinear_arith)
        requires
            0 <= x * num,
            den > 0,
    ;
}

} // verus!
