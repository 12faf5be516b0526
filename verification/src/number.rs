//! Numbers in command lines: the decimal grammar of a value token (what
//! parsing an `f32` accepts - optional sign, digits with an optional point,
//! an optional exponent, or `inf`/`infinity`/`nan`), its exact value as a
//! significand times a power of ten, and `i32` tokens.
use vstd::prelude::*;

use crate::units::SCALE;

verus! {

pub open spec fn is_digit_char(c: char) -> bool {
    '0' <= c <= '9'
}

pub open spec fn digit_value(c: char) -> nat {
    (c as u32 - '0' as u32) as nat
}

pub open spec fn all_digits(d: Seq<char>) -> bool {
    forall|i: int| 0 <= i < d.len() ==> is_digit_char(#[trigger] d[i])
}

/// The value of a string of decimal digits (0 for the empty string).
pub open spec fn digits_value(d: Seq<char>) -> nat
    decreases d.len(),
{
    if d.len() == 0 {
        0
    } else {
        digits_value(d.drop_last()) * 10 + digit_value(d.last())
    }
}

pub open spec fn pow10(k: nat) -> nat
    decreases k,
{
    if k == 0 { 1 } else { 10 * pow10((k - 1) as nat) }
}

pub open spec fn min_nat(a: nat, b: nat) -> nat {
    if a < b { a } else { b }
}

/// Length of an optional leading `+`/`-`.
pub open spec fn sign_len(t: Seq<char>) -> int {
    if t.len() > 0 && (t[0] == '+' || t[0] == '-') { 1 } else { 0 }
}

/// The first `c` at or after `i` in `s` (or the end).
pub open spec fn find_char(s: Seq<char>, i: int, c: char) -> int
    decreases s.len() - i,
{
    if i < 0 || i >= s.len() {
        s.len() as int
    } else if s[i] == c {
        i
    } else {
        find_char(s, i + 1, c)
    }
}

/// The first `e` or `E` at or after `i` in `s` (or the end).
pub open spec fn find_exp(s: Seq<char>, i: int) -> int
    decreases s.len() - i,
{
    if i < 0 || i >= s.len() {
        s.len() as int
    } else if s[i] == 'e' || s[i] == 'E' {
        i
    } else {
        find_exp(s, i + 1)
    }
}

/// `[+-]? digits+` as an unbounded integer.
pub open spec fn exponent_of(t: Seq<char>) -> Option<int> {
    let body = t.skip(sign_len(t));
    if body.len() == 0 || !all_digits(body) {
        None
    } else if sign_len(t) == 1 && t[0] == '-' {
        Some(-digits_value(body))
    } else {
        Some(digits_value(body) as int)
    }
}

/// A finite number token split into its parts: a sign, the digits before
/// the point, the digits after it, and the exponent (0 when absent).
pub struct Decimal {
    pub negative: bool,
    pub whole: Seq<char>,
    pub fraction: Seq<char>,
    pub exponent: int,
}

/// Parses `[+-]? mantissa ([eE] [+-]? digits+)?` where the mantissa is
/// `digits* ('.' digits*)?` with at least one digit.
pub open spec fn decimal_of(t: Seq<char>) -> Option<Decimal> {
    let body = t.skip(sign_len(t));
    let e = find_exp(body, 0);
    let mantissa = body.take(e);
    let dot = find_char(mantissa, 0, '.');
    let whole = mantissa.take(dot);
    let fraction = if dot < mantissa.len() { mantissa.skip(dot + 1) } else { Seq::empty() };
    let exponent = if e < body.len() { exponent_of(body.skip(e + 1)) } else { Some(0int) };
    if all_digits(whole) && all_digits(fraction) && whole.len() + fraction.len() > 0
        && exponent is Some {
        Some(
            Decimal {
                negative: sign_len(t) == 1 && t[0] == '-',
                whole,
                fraction,
                exponent: exponent->0,
            },
        )
    } else {
        None
    }
}

/// The code of a character with ASCII letters folded to lower case.
pub open spec fn lower_code(c: char) -> u32 {
    if 'A' <= c <= 'Z' { (c as u32 + 32) as u32 } else { c as u32 }
}

/// `s` spells `word` (lower case) ignoring ASCII case.
pub open spec fn spells(s: Seq<char>, word: Seq<char>) -> bool {
    &&& s.len() == word.len()
    &&& forall|i: int| 0 <= i < s.len() ==> lower_code(#[trigger] s[i]) == word[i] as u32
}

/// `inf`, `infinity` or `nan` in any case, optionally signed: a number
/// token that is never within any finite range.
pub open spec fn non_finite(t: Seq<char>) -> bool {
    let body = t.skip(sign_len(t));
    spells(body, "inf"@) || spells(body, "infinity"@) || spells(body, "nan"@)
}

/// All the digits of a decimal, the point removed.
pub open spec fn significand(d: Decimal) -> nat {
    digits_value(d.whole + d.fraction)
}

/// The power of ten the significand is scaled by: the magnitude is
/// `significand(d) * 10^scale10(d)`.
pub open spec fn scale10(d: Decimal) -> int {
    d.exponent - d.fraction.len()
}

/// `n * 10^k`, for any integer `k`, is at most one.
pub open spec fn scaled_at_most_one(n: nat, k: int) -> bool {
    if k >= 0 { n * pow10(k as nat) <= 1 } else { n <= pow10((-k) as nat) }
}

/// `n * 10^k` rounded toward zero.
pub open spec fn scaled_floor(n: nat, k: int) -> nat {
    if k >= 0 { n * pow10(k as nat) } else { n / pow10((-k) as nat) }
}

/// Whether the exact value of `d` lies in `[0, 1]`, or in `[-1, 1]` when
/// `signed` (zero of either sign is always in). The check is on the value
/// the digits spell, not on a nearby float: `1.00000001` lies outside
/// `[0, 1]` here, though it would round to `1.0` as an `f32`, and `-1e-50`
/// is negative here, though as an `f32` it rounds to `-0.0`.
pub open spec fn within_unit(d: Decimal, signed: bool) -> bool {
    if significand(d) == 0 {
        true
    } else if d.negative {
        signed && scaled_at_most_one(significand(d), scale10(d))
    } else {
        scaled_at_most_one(significand(d), scale10(d))
    }
}

/// A decimal's value in millionths, rounded toward zero.
pub open spec fn millionths(d: Decimal) -> int {
    let m = scaled_floor(significand(d), scale10(d) + 6);
    if d.negative { -m } else { m as int }
}

/// Parses `[+-]? digits+` as an `i32` (what parsing an `i32` accepts).
pub open spec fn int_of(t: Seq<char>) -> Option<i32> {
    let body = t.skip(sign_len(t));
    let v = digits_value(body);
    let negative = sign_len(t) == 1 && t[0] == '-';
    if body.len() == 0 || !all_digits(body) {
        None
    } else if negative {
        if v <= 0x8000_0000 { Some((-v) as i32) } else { None }
    } else {
        if v <= 0x7fff_ffff { Some(v as i32) } else { None }
    }
}

/* ---------------------------------------------------------------------- */
/* Lemmas                                                                  */
/* ---------------------------------------------------------------------- */

pub proof fn lemma_pow10_values()
    ensures
        pow10(0) == 1,
        pow10(1) == 10,
        pow10(2) == 100,
        pow10(3) == 1000,
        pow10(4) == 10_000,
        pow10(5) == 100_000,
        pow10(6) == 1_000_000,
{
    reveal_with_fuel(pow10, 7);
}

pub proof fn lemma_pow10_positive(k: nat)
    ensures
        pow10(k) >= 1,
    decreases k,
{
    if k > 0 {
        lemma_pow10_positive((k - 1) as nat);
    }
}

pub proof fn lemma_pow10_mono(i: nat, j: nat)
    requires
        i <= j,
    ensures
        pow10(i) <= pow10(j),
    decreases j,
{
    if i < j {
        lemma_pow10_mono(i, (j - 1) as nat);
        lemma_pow10_positive((j - 1) as nat);
    }
}

pub proof fn lemma_pow10_strict(i: nat, j: nat)
    requires
        i < j,
    ensures
        pow10(i) < pow10(j),
{
    lemma_pow10_mono(i, (j - 1) as nat);
    lemma_pow10_positive((j - 1) as nat);
}

pub proof fn lemma_pow10_add(a: nat, b: nat)
    ensures
        pow10(a + b) == pow10(a) * pow10(b),
    decreases b,
{
    if b == 0 {
        assert(pow10(0) == 1);
    } else {
        let b1 = (b - 1) as nat;
        lemma_pow10_add(a, b1);
        let x = pow10(a);
        let y = pow10(b1);
        assert(pow10(a + b) == 10 * pow10(a + b1));
        assert(pow10(b) == 10 * y);
        assert(10 * (x * y) == x * (10 * y)) by (nonlinear_arith);
    }
}

pub proof fn lemma_take_all_digits(d: Seq<char>, k: int)
    requires
        all_digits(d),
        0 <= k <= d.len(),
    ensures
        all_digits(d.take(k)),
        all_digits(d.skip(k)),
{
    assert forall|i: int| 0 <= i < d.take(k).len() implies is_digit_char(#[trigger] d.take(k)[i]) by {
        assert(d.take(k)[i] == d[i]);
    }
    assert forall|i: int| 0 <= i < d.skip(k).len() implies is_digit_char(#[trigger] d.skip(k)[i]) by {
        assert(d.skip(k)[i] == d[i + k]);
    }
}

pub proof fn lemma_digits_value_bound(d: Seq<char>)
    requires
        all_digits(d),
    ensures
        digits_value(d) < pow10(d.len()),
    decreases d.len(),
{
    if d.len() > 0 {
        assert(all_digits(d.drop_last())) by {
            assert forall|i: int| 0 <= i < d.drop_last().len() implies is_digit_char(
                #[trigger] d.drop_last()[i],
            ) by {
                assert(d.drop_last()[i] == d[i]);
            }
        }
        lemma_digits_value_bound(d.drop_last());
        assert(is_digit_char(d[d.len() - 1]));
    }
}

/// Digits side by side: the first string's value shifted past the second.
pub proof fn lemma_digits_concat(a: Seq<char>, b: Seq<char>)
    ensures
        digits_value(a + b) == digits_value(a) * pow10(b.len()) + digits_value(b),
    decreases b.len(),
{
    if b.len() == 0 {
        assert(a + b =~= a);
        assert(pow10(0) == 1);
    } else {
        let ab = a + b;
        let bd = b.drop_last();
        assert(ab.drop_last() =~= a + bd);
        assert(ab.last() == b.last());
        lemma_digits_concat(a, bd);
        let x = digits_value(a);
        let p = pow10(bd.len());
        let y = digits_value(bd);
        let l = digit_value(b.last());
        assert(digits_value(ab) == digits_value(a + bd) * 10 + l);
        assert(digits_value(b) == y * 10 + l);
        assert(pow10(b.len()) == 10 * p);
        assert((x * p + y) * 10 + l == x * (10 * p) + (y * 10 + l)) by (nonlinear_arith);
    }
}

/// A string of zeros is worth zero, and a string worth zero is all zeros.
pub proof fn lemma_digits_zero(d: Seq<char>)
    requires
        all_digits(d),
    ensures
        (digits_value(d) == 0) <==> (forall|i: int| 0 <= i < d.len() ==> #[trigger] d[i] == '0'),
    decreases d.len(),
{
    if d.len() > 0 {
        let p = d.drop_last();
        assert(all_digits(p)) by {
            assert forall|i: int| 0 <= i < p.len() implies is_digit_char(#[trigger] p[i]) by {
                assert(p[i] == d[i]);
            }
        }
        lemma_digits_zero(p);
        assert(is_digit_char(d[d.len() - 1]));
        if digits_value(d) == 0 {
            assert forall|i: int| 0 <= i < d.len() implies #[trigger] d[i] == '0' by {
                if i < d.len() - 1 {
                    assert(p[i] == d[i]);
                }
            }
        }
        if forall|i: int| 0 <= i < d.len() ==> #[trigger] d[i] == '0' {
            assert forall|i: int| 0 <= i < p.len() implies #[trigger] p[i] == '0' by {
                assert(p[i] == d[i]);
                assert(d[i] == '0');
            }
            assert(d[d.len() - 1] == '0');
        }
    }
}

/// A string whose first digit is nonzero is worth at least the power of
/// ten of its length less one, exactly that when it reads `10...0`.
pub proof fn lemma_digits_leading(d: Seq<char>)
    requires
        all_digits(d),
        d.len() > 0,
        d[0] != '0',
    ensures
        pow10((d.len() - 1) as nat) <= digits_value(d),
        digits_value(d) == pow10((d.len() - 1) as nat) <==> (d[0] == '1' && forall|i: int|
            1 <= i < d.len() ==> #[trigger] d[i] == '0'),
{
    let head = d.take(1);
    let tail = d.skip(1);
    assert(head + tail =~= d);
    lemma_digits_concat(head, tail);
    lemma_take_all_digits(d, 1);
    assert(head.drop_last() =~= Seq::<char>::empty());
    assert(head.last() == d[0]);
    assert(digits_value(Seq::<char>::empty()) == 0);
    assert(digits_value(head) == digits_value(head.drop_last()) * 10 + digit_value(head.last()));
    assert(digits_value(head) == digit_value(d[0]));
    assert(is_digit_char(d[0]));
    let p = pow10(tail.len());
    assert(tail.len() == d.len() - 1);
    assert(digits_value(d) == digit_value(d[0]) * p + digits_value(tail));
    lemma_pow10_positive(tail.len());
    lemma_digits_zero(tail);
    assert(digit_value(d[0]) >= 1);
    assert(digit_value(d[0]) * p >= p) by (nonlinear_arith)
        requires
            digit_value(d[0]) >= 1,
            p >= 1,
    ;
    if digits_value(d) == p {
        assert(digit_value(d[0]) * p <= p);
        assert(digit_value(d[0]) == 1) by (nonlinear_arith)
            requires
                digit_value(d[0]) * p <= p,
                digit_value(d[0]) >= 1,
                p >= 1,
        ;
        assert(digits_value(tail) == 0);
        assert forall|i: int| 1 <= i < d.len() implies #[trigger] d[i] == '0' by {
            assert(tail[i - 1] == d[i]);
        }
    }
    if d[0] == '1' && forall|i: int| 1 <= i < d.len() ==> #[trigger] d[i] == '0' {
        assert forall|i: int| 0 <= i < tail.len() implies #[trigger] tail[i] == '0' by {
            assert(tail[i] == d[i + 1]);
        }
        assert(digits_value(tail) == 0);
        assert(digit_value(d[0]) == 1);
        assert(digit_value(d[0]) * p == p) by (nonlinear_arith)
            requires
                digit_value(d[0]) == 1,
        ;
    }
}

/// Leading zeros add nothing.
pub proof fn lemma_digits_leading_zeros(d: Seq<char>, s: int)
    requires
        all_digits(d),
        0 <= s <= d.len(),
        forall|i: int| 0 <= i < s ==> #[trigger] d[i] == '0',
    ensures
        digits_value(d) == digits_value(d.skip(s)),
{
    let z = d.take(s);
    assert(z + d.skip(s) =~= d);
    lemma_digits_concat(z, d.skip(s));
    lemma_take_all_digits(d, s);
    assert forall|i: int| 0 <= i < z.len() implies #[trigger] z[i] == '0' by {
        assert(z[i] == d[i]);
    }
    lemma_digits_zero(z);
}

/// Dropping the last `j` digits divides by `10^j`, rounding down.
pub proof fn lemma_digits_prefix_floor(d: Seq<char>, j: nat)
    requires
        all_digits(d),
        j <= d.len(),
    ensures
        digits_value(d) / pow10(j) == digits_value(d.take(d.len() - j)),
{
    let p = d.take(d.len() - j);
    let q = d.skip(d.len() - j);
    assert(p + q =~= d);
    lemma_digits_concat(p, q);
    lemma_take_all_digits(d, d.len() - j);
    lemma_digits_value_bound(q);
    let x = digits_value(p);
    let y = digits_value(q);
    let m = pow10(j);
    lemma_pow10_positive(j);
    assert((x * m + y) / m == x) by (nonlinear_arith)
        requires
            m >= 1,
            0 <= y < m,
    ;
}

/// With `n` of `sig` significant digits (at least `10^(sig-1)`, exactly
/// that when `exact`), `n * 10^k` is at most one exactly when its leading
/// digit sits below the units place, or at it with nothing else.
pub proof fn lemma_at_most_one_by_magnitude(n: nat, sig: nat, exact: bool, k: int)
    requires
        sig >= 1,
        pow10((sig - 1) as nat) <= n < pow10(sig),
        exact == (n == pow10((sig - 1) as nat)),
    ensures
        scaled_at_most_one(n, k) == ((sig - 1 + k < 0) || (sig - 1 + k == 0 && exact)),
{
    lemma_pow10_positive((sig - 1) as nat);
    if k >= 0 {
        let p = pow10(k as nat);
        lemma_pow10_positive(k as nat);
        if sig > 1 {
            lemma_pow10_strict(0, (sig - 1) as nat);
            assert(pow10(0) == 1);
        }
        if k > 0 {
            lemma_pow10_strict(0, k as nat);
            assert(pow10(0) == 1);
        }
        assert(n * p <= 1 <==> (n == 1 && p == 1)) by (nonlinear_arith)
            requires
                n >= 1,
                p >= 1,
        ;
        if n == 1 && p == 1 {
            if sig > 1 {
                assert(false);
            }
            if k > 0 {
                assert(false);
            }
            assert(pow10(0) == 1);
        }
    } else {
        let j = (-k) as nat;
        if sig - 1 < j {
            lemma_pow10_mono(sig, j);
        } else if sig - 1 > j {
            lemma_pow10_strict(j, (sig - 1) as nat);
        }
    }
}

/* ---------------------------------------------------------------------- */
/* Parsing                                                                 */
/* ---------------------------------------------------------------------- */

/// Exponent magnitudes are read saturating here: past it, whether a
/// nonzero value is at most one, and its millionths, no longer change for
/// any token that fits in memory.
pub const EXPONENT_CAP: u128 = 0x2_0000_0000_0000_0000;

/// Reads the digits of `line[from..to]`, saturating the value at `cap`;
/// `None` if any of them is not an ASCII digit.
pub fn digits_saturating(line: &str, from: usize, to: usize, cap: u128) -> (r: Option<u128>)
    requires
        from <= to <= line@.len(),
        cap <= 0x1_0000_0000_0000_0000_0000_0000,
    ensures
        r is Some <==> all_digits(line@.subrange(from as int, to as int)),
        r matches Some(v) ==> v == min_nat(digits_value(line@.subrange(from as int, to as int)), cap as nat),
{
    let mut acc: u128 = 0;
    let mut i = from;
    assert(line@.subrange(from as int, from as int) =~= Seq::<char>::empty());
    while i < to
        invariant
            from <= i <= to <= line@.len(),
            cap <= 0x1_0000_0000_0000_0000_0000_0000,
            all_digits(line@.subrange(from as int, i as int)),
            acc == min_nat(digits_value(line@.subrange(from as int, i as int)), cap as nat),
        decreases to - i,
    {
        let c = line.get_char(i);
        if !('0' <= c && c <= '9') {
            assert(!all_digits(line@.subrange(from as int, to as int))) by {
                assert(line@.subrange(from as int, to as int)[i - from] == c);
            }
            return None;
        }
        let d = (c as u32 - '0' as u32) as u128;
        let ghost prev = line@.subrange(from as int, i as int);
        let ghost next = line@.subrange(from as int, i + 1);
        assert(next.drop_last() =~= prev);
        assert(next.last() == c);
        let v = acc * 10 + d;
        acc = if v < cap { v } else { cap };
        i = i + 1;
        assert(all_digits(next)) by {
            assert forall|j: int| 0 <= j < next.len() implies is_digit_char(#[trigger] next[j]) by {
                if j < prev.len() {
                    assert(next[j] == prev[j]);
                }
            }
        }
    }
    Some(acc)
}

/// Reads the `i32` token `line[a..b]`.
pub fn parse_int(line: &str, a: usize, b: usize) -> (r: Option<i32>)
    requires
        a < b <= line@.len(),
    ensures
        r == int_of(line@.subrange(a as int, b as int)),
{
    let ghost t = line@.subrange(a as int, b as int);
    let c0 = line.get_char(a);
    let signed = c0 == '+' || c0 == '-';
    let negative = c0 == '-';
    let bs = if signed { a + 1 } else { a };
    assert(t.skip(sign_len(t)) =~= line@.subrange(bs as int, b as int));
    if bs == b {
        return None;
    }
    match digits_saturating(line, bs, b, 0x8000_0001) {
        Some(v) => {
            if negative {
                if v <= 0x8000_0000 {
                    Some((-(v as i64)) as i32)
                } else {
                    None
                }
            } else {
                if v <= 0x7fff_ffff {
                    Some(v as i32)
                } else {
                    None
                }
            }
        },
        None => None,
    }
}

/// The first `c` in `line[from..to]`, or `to`.
fn find_char_exec(line: &str, from: usize, to: usize, c: char) -> (r: usize)
    requires
        from <= to <= line@.len(),
    ensures
        from <= r <= to,
        r - from == find_char(line@.subrange(from as int, to as int), 0, c),
{
    let ghost s = line@.subrange(from as int, to as int);
    let mut i = from;
    while i < to
        invariant
            from <= i <= to <= line@.len(),
            s == line@.subrange(from as int, to as int),
            find_char(s, (i - from) as int, c) == find_char(s, 0, c),
        decreases to - i,
    {
        if line.get_char(i) == c {
            assert(s[i - from] == c);
            return i;
        }
        assert(s[i - from] != c);
        i = i + 1;
    }
    i
}

/// The first `e`/`E` in `line[from..to]`, or `to`.
fn find_exp_exec(line: &str, from: usize, to: usize) -> (r: usize)
    requires
        from <= to <= line@.len(),
    ensures
        from <= r <= to,
        r - from == find_exp(line@.subrange(from as int, to as int), 0),
{
    let ghost s = line@.subrange(from as int, to as int);
    let mut i = from;
    while i < to
        invariant
            from <= i <= to <= line@.len(),
            s == line@.subrange(from as int, to as int),
            find_exp(s, (i - from) as int) == find_exp(s, 0),
        decreases to - i,
    {
        let c = line.get_char(i);
        if c == 'e' || c == 'E' {
            assert(s[i - from] == c);
            return i;
        }
        assert(s[i - from] == c);
        i = i + 1;
    }
    i
}

/// Whether `line[from..to]` spells `word` ignoring ASCII case.
fn spells_exec(line: &str, from: usize, to: usize, word: &str) -> (r: bool)
    requires
        from <= to <= line@.len(),
    ensures
        r == spells(line@.subrange(from as int, to as int), word@),
{
    let ghost s = line@.subrange(from as int, to as int);
    let k = word.unicode_len();
    if to - from != k {
        return false;
    }
    let mut i: usize = 0;
    while i < k
        invariant
            from <= to <= line@.len(),
            s == line@.subrange(from as int, to as int),
            to - from == k,
            k == word@.len(),
            i <= k,
            forall|j: int| 0 <= j < i ==> lower_code(#[trigger] s[j]) == word@[j] as u32,
        decreases k - i,
    {
        let c = line.get_char(from + i);
        assert(s[i as int] == c);
        let code = c as u32;
        let lower = if 'A' <= c && c <= 'Z' { code + 32 } else { code };
        if lower != word.get_char(i) as u32 {
            return false;
        }
        i = i + 1;
    }
    true
}

/// `line[bs..dot)` followed by `line[fs..fe)`: a mantissa's digits with
/// its point taken out.
pub open spec fn joined(s: Seq<char>, bs: int, dot: int, fs: int, fe: int) -> Seq<char> {
    s.subrange(bs, dot) + s.subrange(fs, fe)
}

fn joined_char(line: &str, bs: usize, dot: usize, fs: usize, fe: usize, i: usize) -> (c: char)
    requires
        bs <= dot <= fs <= fe <= line@.len(),
        i < (dot - bs) + (fe - fs),
    ensures
        c == joined(line@, bs as int, dot as int, fs as int, fe as int)[i as int],
{
    if i < dot - bs {
        line.get_char(bs + i)
    } else {
        line.get_char(fs + (i - (dot - bs)))
    }
}

/// Index of the first nonzero digit of the joined digits (their length if
/// there is none).
fn first_nonzero(line: &str, bs: usize, dot: usize, fs: usize, fe: usize) -> (r: usize)
    requires
        bs <= dot <= fs <= fe <= line@.len(),
    ensures
        r <= (dot - bs) + (fe - fs),
        forall|i: int| 0 <= i < r ==> #[trigger] joined(line@, bs as int, dot as int, fs as int, fe as int)[i] == '0',
        r < (dot - bs) + (fe - fs) ==> joined(line@, bs as int, dot as int, fs as int, fe as int)[r as int] != '0',
{
    let ghost d = joined(line@, bs as int, dot as int, fs as int, fe as int);
    let len = (dot - bs) + (fe - fs);
    let mut i: usize = 0;
    while i < len
        invariant
            bs <= dot <= fs <= fe <= line@.len(),
            len == (dot - bs) + (fe - fs),
            d == joined(line@, bs as int, dot as int, fs as int, fe as int),
            i <= len,
            forall|j: int| 0 <= j < i ==> #[trigger] d[j] == '0',
        decreases len - i,
    {
        if joined_char(line, bs, dot, fs, fe, i) != '0' {
            return i;
        }
        i = i + 1;
    }
    i
}

/// Whether the joined digits from `s` on read `10...0`.
fn unit_power_from(line: &str, bs: usize, dot: usize, fs: usize, fe: usize, s: usize) -> (r: bool)
    requires
        bs <= dot <= fs <= fe <= line@.len(),
        s < (dot - bs) + (fe - fs),
    ensures
        r == ({
            let d = joined(line@, bs as int, dot as int, fs as int, fe as int);
            d[s as int] == '1' && forall|i: int| s < i < d.len() ==> #[trigger] d[i] == '0'
        }),
{
    let ghost d = joined(line@, bs as int, dot as int, fs as int, fe as int);
    let len = (dot - bs) + (fe - fs);
    if joined_char(line, bs, dot, fs, fe, s) != '1' {
        return false;
    }
    let mut i: usize = s + 1;
    while i < len
        invariant
            bs <= dot <= fs <= fe <= line@.len(),
            len == (dot - bs) + (fe - fs),
            d == joined(line@, bs as int, dot as int, fs as int, fe as int),
            s < i <= len,
            forall|j: int| s < j < i ==> #[trigger] d[j] == '0',
        decreases len - i,
    {
        if joined_char(line, bs, dot, fs, fe, i) != '0' {
            return false;
        }
        i = i + 1;
    }
    true
}

/// The value of the first `count` joined digits, saturating at `cap`.
fn joined_prefix_value(line: &str, bs: usize, dot: usize, fs: usize, fe: usize, count: usize, cap: u64) -> (r: u64)
    requires
        bs <= dot <= fs <= fe <= line@.len(),
        count <= (dot - bs) + (fe - fs),
        all_digits(joined(line@, bs as int, dot as int, fs as int, fe as int)),
        cap <= 0x1_0000_0000,
    ensures
        r == min_nat(digits_value(joined(line@, bs as int, dot as int, fs as int, fe as int).take(count as int)), cap as nat),
{
    let ghost d = joined(line@, bs as int, dot as int, fs as int, fe as int);
    let mut acc: u64 = 0;
    let mut i: usize = 0;
    assert(d.take(0) =~= Seq::<char>::empty());
    while i < count
        invariant
            bs <= dot <= fs <= fe <= line@.len(),
            count <= (dot - bs) + (fe - fs),
            d == joined(line@, bs as int, dot as int, fs as int, fe as int),
            all_digits(d),
            cap <= 0x1_0000_0000,
            i <= count,
            acc == min_nat(digits_value(d.take(i as int)), cap as nat),
        decreases count - i,
    {
        let c = joined_char(line, bs, dot, fs, fe, i);
        assert(is_digit_char(d[i as int]));
        let dv = (c as u32 - '0' as u32) as u64;
        assert(d.take(i + 1).drop_last() =~= d.take(i as int));
        assert(d.take(i + 1).last() == c);
        let v = acc * 10 + dv;
        acc = if v < cap { v } else { cap };
        i = i + 1;
    }
    acc
}

/// The magnitude of an exponent token's digits.
pub open spec fn exponent_magnitude(t: Seq<char>) -> nat {
    digits_value(t.skip(sign_len(t)))
}

/// Reads an exponent token `line[from..to]`: its sign and its magnitude
/// saturated at `EXPONENT_CAP`.
fn parse_exponent(line: &str, from: usize, to: usize) -> (r: Option<(bool, u128)>)
    requires
        from <= to <= line@.len(),
    ensures
        ({
            let t = line@.subrange(from as int, to as int);
            &&& (r is Some) == (exponent_of(t) is Some)
            &&& r matches Some((neg, mag)) ==> {
                &&& exponent_of(t) == Some(
                    if neg { -exponent_magnitude(t) } else { exponent_magnitude(t) as int },
                )
                &&& mag == min_nat(exponent_magnitude(t), EXPONENT_CAP as nat)
            }
        }),
{
    let ghost t = line@.subrange(from as int, to as int);
    if from == to {
        return None;
    }
    let x0 = line.get_char(from);
    let signed = x0 == '+' || x0 == '-';
    let es = if signed { from + 1 } else { from };
    assert(t.skip(sign_len(t)) =~= line@.subrange(es as int, to as int));
    if es == to {
        return None;
    }
    match digits_saturating(line, es, to, EXPONENT_CAP) {
        Some(v) => Some((x0 == '-', v)),
        None => None,
    }
}

/// What the command parser needs of a value token.
#[derive(Debug, Clone, Copy, PartialEq, Eq, Structural)]
pub enum NumberToken {
    /// Not a number.
    Invalid,
    /// `inf`, `infinity` or `nan`.
    NonFinite,
    /// A finite number: its sign, whether it is zero, whether its magnitude
    /// is at most one, and (when it is) that magnitude in millionths,
    /// rounded toward zero.
    Finite { negative: bool, zero: bool, at_most_one: bool, magnitude: u64 },
}

/// 10^k for k <= 6.
fn pow10_small(k: u64) -> (r: u64)
    requires
        k <= 6,
    ensures
        r == pow10(k as nat),
{
    proof {
        lemma_pow10_values();
    }
    if k == 0 {
        1
    } else if k == 1 {
        10
    } else if k == 2 {
        100
    } else if k == 3 {
        1000
    } else if k == 4 {
        10_000
    } else if k == 5 {
        100_000
    } else {
        1_000_000
    }
}

/// Classifies the number token `line[a..b]`.
#[verifier::rlimit(80)]
pub fn parse_number(line: &str, a: usize, b: usize) -> (r: NumberToken)
    requires
        a < b <= line@.len(),
    ensures
        ({
            let t = line@.subrange(a as int, b as int);
            &&& (r is Invalid) == (decimal_of(t) is None && !non_finite(t))
            &&& (r is NonFinite) == (decimal_of(t) is None && non_finite(t))
            &&& (r is Finite) == (decimal_of(t) is Some)
            &&& r matches NumberToken::Finite { negative, zero, at_most_one, magnitude } ==> {
                let d = decimal_of(t)->0;
                &&& negative == d.negative
                &&& zero == (significand(d) == 0)
                &&& at_most_one == scaled_at_most_one(significand(d), scale10(d))
                &&& at_most_one ==> magnitude == scaled_floor(significand(d), scale10(d) + 6)
                &&& magnitude <= 1_000_000
            }
        }),
{
    let ghost t = line@.subrange(a as int, b as int);
    let c0 = line.get_char(a);
    let signed = c0 == '+' || c0 == '-';
    let negative = c0 == '-';
    let bs = if signed { a + 1 } else { a };
    let ghost body = t.skip(sign_len(t));
    assert(body =~= line@.subrange(bs as int, b as int));
    let e = find_exp_exec(line, bs, b);
    let ghost mantissa = body.take((e - bs) as int);
    assert(mantissa =~= line@.subrange(bs as int, e as int));
    let dot = find_char_exec(line, bs, e, '.');
    let fs = if dot < e { dot + 1 } else { e };
    let ghost whole = mantissa.take((dot - bs) as int);
    let ghost fraction = if dot < e { mantissa.skip(dot - bs + 1) } else { Seq::<char>::empty() };
    assert(whole =~= line@.subrange(bs as int, dot as int));
    assert(fraction =~= line@.subrange(fs as int, e as int));

    let whole_ok = digits_saturating(line, bs, dot, 0).is_some();
    let fraction_ok = digits_saturating(line, fs, e, 0).is_some();
    let mut exponent_ok = true;
    let mut exp_negative = false;
    let mut exp_mag: u128 = 0;
    let ghost mut v_true: nat = 0;
    if e < b {
        match parse_exponent(line, e + 1, b) {
            Some((neg, mag)) => {
                exp_negative = neg;
                exp_mag = mag;
                proof {
                    v_true = exponent_magnitude(line@.subrange(e + 1, b as int));
                }
            },
            None => {
                exponent_ok = false;
            },
        }
        assert(body.skip(e - bs + 1) =~= line@.subrange(e + 1, b as int));
    }
    if !whole_ok || !fraction_ok || (dot - bs) + (e - fs) == 0 || !exponent_ok {
        assert(decimal_of(t) is None);
        let inf = spells_exec(line, bs, b, "inf");
        let infinity = spells_exec(line, bs, b, "infinity");
        let nan = spells_exec(line, bs, b, "nan");
        return if inf || infinity || nan {
            NumberToken::NonFinite
        } else {
            NumberToken::Invalid
        };
    }
    let ghost d = decimal_of(t)->0;
    assert(d.whole == whole && d.fraction == fraction);
    let ghost digits = joined(line@, bs as int, dot as int, fs as int, e as int);
    assert(digits =~= d.whole + d.fraction);
    assert(all_digits(digits)) by {
        assert forall|i: int| 0 <= i < digits.len() implies is_digit_char(#[trigger] digits[i]) by {
            if i < whole.len() {
                assert(digits[i] == whole[i]);
            } else {
                assert(digits[i] == fraction[i - whole.len()]);
            }
        }
    }
    assert(d.exponent == (if exp_negative { -v_true } else { v_true as int }));
    let (zero, at_most_one, magnitude) = classify_finite(
        line,
        bs,
        dot,
        fs,
        e,
        exp_negative,
        exp_mag,
        Ghost(d.exponent),
    );
    NumberToken::Finite { negative, zero, at_most_one, magnitude }
}

/// For the joined digits `n` of a mantissa and an exponent (known exactly,
/// or past `EXPONENT_CAP` in magnitude when `exp_mag` is the cap): whether
/// `n` is zero, whether `n * 10^k` is at most one, and then its millionths
/// rounded down, where `k` is the exponent less the fraction's length.
fn classify_finite(
    line: &str,
    bs: usize,
    dot: usize,
    fs: usize,
    fe: usize,
    exp_negative: bool,
    exp_mag: u128,
    Ghost(exponent): Ghost<int>,
) -> (r: (bool, bool, u64))
    requires
        bs <= dot <= fs <= fe <= line@.len(),
        all_digits(joined(line@, bs as int, dot as int, fs as int, fe as int)),
        exp_mag <= EXPONENT_CAP,
        exp_mag < EXPONENT_CAP ==> exponent == (if exp_negative { -exp_mag } else { exp_mag as int }),
        exp_mag == EXPONENT_CAP ==> (if exp_negative {
            exponent <= -EXPONENT_CAP
        } else {
            exponent >= EXPONENT_CAP
        }),
    ensures
        ({
            let n = digits_value(joined(line@, bs as int, dot as int, fs as int, fe as int));
            let k = exponent - (fe - fs);
            &&& r.0 == (n == 0)
            &&& r.1 == scaled_at_most_one(n, k)
            &&& r.1 ==> r.2 == scaled_floor(n, k + 6)
            &&& r.2 <= 1_000_000
        }),
{
    let ghost digits = joined(line@, bs as int, dot as int, fs as int, fe as int);
    let ghost n = digits_value(digits);
    let ghost kt = exponent - (fe - fs);
    let len = (dot - bs) + (fe - fs);
    let s = first_nonzero(line, bs, dot, fs, fe);
    proof {
        lemma_digits_leading_zeros(digits, s as int);
    }
    if s == len {
        proof {
            assert(digits.skip(s as int) =~= Seq::<char>::empty());
            assert(n == 0);
            if kt >= 0 {
                assert(0 * pow10(kt as nat) == 0);
            } else {
                lemma_pow10_positive((-kt) as nat);
            }
            let kk = kt + 6;
            if kk >= 0 {
                assert(0 * pow10(kk as nat) == 0);
            } else {
                lemma_pow10_positive((-kk) as nat);
            }
        }
        return (true, true, 0);
    }
    let exact = unit_power_from(line, bs, dot, fs, fe, s);
    let sig = len - s;
    proof {
        let rest = digits.skip(s as int);
        lemma_take_all_digits(digits, s as int);
        assert(rest[0] == digits[s as int]);
        lemma_digits_leading(rest);
        lemma_digits_value_bound(rest);
        assert(exact == (rest[0] == '1' && forall|i: int| 1 <= i < rest.len() ==> #[trigger] rest[i] == '0')) by {
            if rest[0] == '1' && forall|i: int| 1 <= i < rest.len() ==> #[trigger] rest[i] == '0' {
                assert forall|i: int| s < i < digits.len() implies #[trigger] digits[i] == '0' by {
                    assert(rest[i - s] == digits[i]);
                }
            }
            if exact {
                assert forall|i: int| 1 <= i < rest.len() implies #[trigger] rest[i] == '0' by {
                    assert(rest[i] == digits[i + s]);
                }
            }
        }
        lemma_at_most_one_by_magnitude(n, sig as nat, exact, kt);
    }
    // The power of ten of the leading digit, from the saturated exponent.
    let f = (fe - fs) as i128;
    let exp_value: i128 = if exp_negative { -(exp_mag as i128) } else { exp_mag as i128 };
    let k = exp_value - f;
    let m = (sig as i128 - 1) + k;
    let at_most_one = m < 0 || (m == 0 && exact);
    proof {
        assert(usize::MAX <= 0xffff_ffff_ffff_ffff);
        if exp_mag < EXPONENT_CAP {
            assert(k == kt);
        }
    }
    if !at_most_one {
        return (false, false, 0);
    }
    let kk = k + 6;
    proof {
        if exp_mag < EXPONENT_CAP {
            lemma_magnitude(n, digits, kt);
        } else {
            assert(exp_negative);
            lemma_digits_value_bound(digits);
            lemma_pow10_mono(len as nat, (-(kt + 6)) as nat);
            lemma_pow10_positive((-(kt + 6)) as nat);
            assert(n / pow10((-(kt + 6)) as nat) == 0) by (nonlinear_arith)
                requires
                    n < pow10((-(kt + 6)) as nat),
            ;
        }
    }
    let magnitude = if kk >= 0 {
        let v = joined_prefix_value(line, bs, dot, fs, fe, len, 1_000_001);
        proof {
            assert(digits.take(len as int) =~= digits);
        }
        v * pow10_small(kk as u64)
    } else {
        let j = -kk;
        if j >= len as i128 {
            0
        } else {
            joined_prefix_value(line, bs, dot, fs, fe, len - (j as usize), 1_000_001)
        }
    };
    (false, true, magnitude)
}

/// For a nonzero significand `n` (the value of `digits`) whose scaled
/// value `n * 10^k` is at most one: the millionths `n * 10^(k+6)` rounded
/// down, by where the scaling lands.
proof fn lemma_magnitude(n: nat, digits: Seq<char>, k: int)
    requires
        all_digits(digits),
        n == digits_value(digits),
        n >= 1,
        scaled_at_most_one(n, k),
    ensures
        k + 6 >= 0 ==> k + 6 <= 6 && n <= 1_000_000 && n * pow10((k + 6) as nat) <= 1_000_000
            && scaled_floor(n, k + 6) == n * pow10((k + 6) as nat),
        k + 6 < 0 && -(k + 6) >= digits.len() ==> scaled_floor(n, k + 6) == 0,
        k + 6 < 0 && -(k + 6) < digits.len() ==> scaled_floor(n, k + 6) == digits_value(
            digits.take(digits.len() + (k + 6)),
        ) && scaled_floor(n, k + 6) <= 1_000_000,
{
    lemma_pow10_values();
    let kk = k + 6;
    if kk >= 0 {
        if k >= 0 {
            lemma_pow10_positive(k as nat);
            assert(n * pow10(k as nat) >= n) by (nonlinear_arith)
                requires
                    pow10(k as nat) >= 1,
            ;
            assert(n == 1);
            assert(pow10(k as nat) <= 1) by (nonlinear_arith)
                requires
                    n * pow10(k as nat) <= 1,
                    n == 1,
            ;
            if k > 0 {
                lemma_pow10_strict(0, k as nat);
            }
            assert(k == 0);
        } else {
            let j = (-k) as nat;
            lemma_pow10_mono(j, 6);
            lemma_pow10_add(j, kk as nat);
            assert(j + kk == 6);
            assert(n * pow10(kk as nat) <= pow10(j) * pow10(kk as nat)) by (nonlinear_arith)
                requires
                    n <= pow10(j),
            ;
        }
    } else {
        let j = (-kk) as nat;
        lemma_pow10_positive(j);
        if j >= digits.len() {
            lemma_digits_value_bound(digits);
            lemma_pow10_mono(digits.len(), j);
            assert(n / pow10(j) == 0) by (nonlinear_arith)
                requires
                    n < pow10(j),
            ;
        } else {
            lemma_digits_prefix_floor(digits, j);
            lemma_pow10_add(j, 6);
            assert((-k) as nat == j + 6);
            let p = pow10(j);
            assert(n / p <= 1_000_000) by (nonlinear_arith)
                requires
                    n <= p * 1_000_000,
                    p >= 1,
            ;
        }
    }
}

} // verus!
