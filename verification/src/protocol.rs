//! Command/telemetry line protocol over the UART command channel:
//!
//! ```text
//! > THR 0.35
//! > STEER -0.10
//! > SET duty_drag 75
//! > GET duty_drag
//! < SPD a=1200rpm b=980rpm slip=0.00 OK
//! ```
//!
//! Byte I/O lives in the firmware; everything here is pure parsing and
//! formatting. Command values that are fractions of one are carried in
//! millionths (see `crate::units`).
use vstd::prelude::*;
use vstd::string::StrSliceExecFns;
use vstd::string::StringSliceAdditionalSpecFns;
use vstd::utf8::valid_utf8;

use crate::number::{
    decimal_of, int_of, millionths, non_finite, parse_int, parse_number, pow10, within_unit,
    NumberToken,
};

verus! {

/// A parsed command line. `Throttle`/`Steer` values are millionths;
/// `Get`/`SetParam` name a parameter (see `crate::params`).
#[derive(Debug, Clone, Copy, PartialEq, Eq)]
pub enum Command<'a> {
    Throttle(i64),
    Steer(i64),
    Get(&'a str),
    SetParam(&'a str, i32),
    Save,
}

#[derive(Debug, Clone, Copy, PartialEq, Eq, Structural)]
pub enum ParseError {
    Empty,
    UnknownCommand,
    MissingValue,
    /// Either not a number, or extra tokens after the value - deliberately
    /// strict rather than silently ignoring trailing garbage on a
    /// motor-control channel.
    InvalidValue,
    OutOfRange,
    /// `GET`/`SET` named a parameter that doesn't exist.
    UnknownParam,
}

/* ---------------------------------------------------------------------- */
/* Tokens                                                                  */
/* ---------------------------------------------------------------------- */

/// Unicode `White_Space`, the set `char::is_whitespace` tests for.
pub open spec fn is_whitespace_char(c: char) -> bool {
    let u = c as u32;
    ||| (0x09 <= u <= 0x0d)
    ||| u == 0x20
    ||| u == 0x85
    ||| u == 0xa0
    ||| u == 0x1680
    ||| (0x2000 <= u <= 0x200a)
    ||| u == 0x2028
    ||| u == 0x2029
    ||| u == 0x202f
    ||| u == 0x205f
    ||| u == 0x3000
}

fn is_whitespace(c: char) -> (r: bool)
    ensures
        r == is_whitespace_char(c),
{
    let u = c as u32;
    (0x09 <= u && u <= 0x0d) || u == 0x20 || u == 0x85 || u == 0xa0 || u == 0x1680 || (0x2000
        <= u && u <= 0x200a) || u == 0x2028 || u == 0x2029 || u == 0x202f || u == 0x205f || u
        == 0x3000
}

/// The first non-whitespace position at or after `i` (or the end).
pub open spec fn skip_ws(s: Seq<char>, i: int) -> int
    decreases s.len() - i,
{
    if i < 0 || i >= s.len() {
        s.len() as int
    } else if is_whitespace_char(s[i]) {
        skip_ws(s, i + 1)
    } else {
        i
    }
}

/// The first whitespace position at or after `i` (or the end).
pub open spec fn run_end(s: Seq<char>, i: int) -> int
    decreases s.len() - i,
{
    if i < 0 || i >= s.len() {
        s.len() as int
    } else if is_whitespace_char(s[i]) {
        i
    } else {
        run_end(s, i + 1)
    }
}

/// Start and end of the first whitespace-separated token at or after `from`;
/// the start is the end of the line when there is none.
pub open spec fn token_after(s: Seq<char>, from: int) -> (int, int) {
    let a = skip_ws(s, from);
    (a, run_end(s, a))
}

fn skip_ws_exec(line: &str, n: usize, i: usize) -> (r: usize)
    requires
        n == line@.len(),
        i <= n,
    ensures
        r == skip_ws(line@, i as int),
        i <= r <= n,
{
    let mut j = i;
    while j < n
        invariant
            n == line@.len(),
            i <= j <= n,
            skip_ws(line@, j as int) == skip_ws(line@, i as int),
        decreases n - j,
    {
        if !is_whitespace(line.get_char(j)) {
            return j;
        }
        j = j + 1;
    }
    j
}

fn run_end_exec(line: &str, n: usize, i: usize) -> (r: usize)
    requires
        n == line@.len(),
        i <= n,
    ensures
        r == run_end(line@, i as int),
        i <= r <= n,
{
    let mut j = i;
    while j < n
        invariant
            n == line@.len(),
            i <= j <= n,
            run_end(line@, j as int) == run_end(line@, i as int),
        decreases n - j,
    {
        if is_whitespace(line.get_char(j)) {
            return j;
        }
        j = j + 1;
    }
    j
}

proof fn lemma_skip_ws_stops(s: Seq<char>, i: int)
    requires
        0 <= i <= s.len(),
    ensures
        i <= skip_ws(s, i) <= s.len(),
        skip_ws(s, i) < s.len() ==> !is_whitespace_char(s[skip_ws(s, i)]),
    decreases s.len() - i,
{
    if i < s.len() && is_whitespace_char(s[i]) {
        lemma_skip_ws_stops(s, i + 1);
    }
}

proof fn lemma_run_end_bounds(s: Seq<char>, i: int)
    requires
        0 <= i <= s.len(),
    ensures
        i <= run_end(s, i) <= s.len(),
        i < s.len() && !is_whitespace_char(s[i]) ==> i < run_end(s, i),
    decreases s.len() - i,
{
    if i < s.len() && !is_whitespace_char(s[i]) {
        lemma_run_end_bounds(s, i + 1);
    }
}

fn next_token(line: &str, n: usize, from: usize) -> (r: (usize, usize))
    requires
        n == line@.len(),
        from <= n,
    ensures
        r.0 as int == token_after(line@, from as int).0,
        r.1 as int == token_after(line@, from as int).1,
        from <= r.0 <= r.1 <= n,
        r.0 < n ==> r.0 < r.1,
{
    proof {
        lemma_skip_ws_stops(line@, from as int);
        lemma_run_end_bounds(line@, skip_ws(line@, from as int));
    }
    let a = skip_ws_exec(line, n, from);
    let b = run_end_exec(line, n, a);
    (a, b)
}

/// Whether two strings hold the same characters.
pub fn str_eq(a: &str, b: &str) -> (r: bool)
    ensures
        r == (a@ == b@),
{
    let n = a.unicode_len();
    if n != b.unicode_len() {
        return false;
    }
    let mut i: usize = 0;
    while i < n
        invariant
            n == a@.len(),
            n == b@.len(),
            i <= n,
            forall|j: int| 0 <= j < i ==> a@[j] == b@[j],
        decreases n - i,
    {
        if a.get_char(i) != b.get_char(i) {
            return false;
        }
        i = i + 1;
    }
    assert(a@ =~= b@);
    true
}

fn token_is(line: &str, a: usize, b: usize, word: &str) -> (r: bool)
    requires
        a <= b <= line@.len(),
    ensures
        r == (line@.subrange(a as int, b as int) == word@),
{
    let k = word.unicode_len();
    if b - a != k {
        return false;
    }
    let mut i: usize = 0;
    while i < k
        invariant
            a <= b <= line@.len(),
            b - a == k,
            k == word@.len(),
            i <= k,
            forall|j: int| 0 <= j < i ==> line@[a + j] == word@[j],
        decreases k - i,
    {
        if line.get_char(a + i) != word.get_char(i) {
            assert(line@.subrange(a as int, b as int)[i as int] != word@[i as int]);
            return false;
        }
        i = i + 1;
    }
    assert(line@.subrange(a as int, b as int) =~= word@);
    true
}

/* ---------------------------------------------------------------------- */
/* Commands                                                                */
/* ---------------------------------------------------------------------- */

/// The plain-value model of a `Command`.
pub enum CommandView {
    Throttle(int),
    Steer(int),
    Get(Seq<char>),
    SetParam(Seq<char>, i32),
    Save,
}

pub open spec fn command_view(c: Command) -> CommandView {
    match c {
        Command::Throttle(v) => CommandView::Throttle(v as int),
        Command::Steer(v) => CommandView::Steer(v as int),
        Command::Get(n) => CommandView::Get(n@),
        Command::SetParam(n, v) => CommandView::SetParam(n@, v),
        Command::Save => CommandView::Save,
    }
}

pub open spec fn result_view(r: Result<Command, ParseError>) -> Result<CommandView, ParseError> {
    match r {
        Ok(c) => Ok(command_view(c)),
        Err(e) => Err(e),
    }
}

/// What a line means. Tokens are maximal runs of non-whitespace.
///
/// - no token: `Empty`;
/// - `SAVE` alone: `Save` (anything after it: `InvalidValue`);
/// - `GET name`: `Get(name)`; no name: `MissingValue`; more: `InvalidValue`;
/// - `SET name value`: `SetParam(name, value)` for an `i32` value; a
///   missing token: `MissingValue`; more tokens or a bad number:
///   `InvalidValue`;
/// - any other keyword takes exactly one number (see `crate::number`;
///   missing: `MissingValue`; more tokens or not a number: `InvalidValue`);
///   then `THR` needs its exact value in `[0, 1]` and `STEER` in `[-1, 1]`
///   (`OutOfRange` otherwise, always for `inf` and `nan`), and any other
///   keyword is `UnknownCommand`. The value is kept in millionths, rounded
///   toward zero.
pub open spec fn parse_spec(s: Seq<char>) -> Result<CommandView, ParseError> {
    let n = s.len() as int;
    let t0 = token_after(s, 0);
    let t1 = token_after(s, t0.1);
    let t2 = token_after(s, t1.1);
    let t3 = token_after(s, t2.1);
    let keyword = s.subrange(t0.0, t0.1);
    let arg1 = s.subrange(t1.0, t1.1);
    let arg2 = s.subrange(t2.0, t2.1);
    if t0.0 >= n {
        Err(ParseError::Empty)
    } else if keyword == "SAVE"@ {
        if t1.0 < n { Err(ParseError::InvalidValue) } else { Ok(CommandView::Save) }
    } else if keyword == "GET"@ {
        if t1.0 >= n {
            Err(ParseError::MissingValue)
        } else if t2.0 < n {
            Err(ParseError::InvalidValue)
        } else {
            Ok(CommandView::Get(arg1))
        }
    } else if keyword == "SET"@ {
        if t1.0 >= n || t2.0 >= n {
            Err(ParseError::MissingValue)
        } else if t3.0 < n {
            Err(ParseError::InvalidValue)
        } else {
            match int_of(arg2) {
                Some(v) => Ok(CommandView::SetParam(arg1, v)),
                None => Err(ParseError::InvalidValue),
            }
        }
    } else if t1.0 >= n {
        Err(ParseError::MissingValue)
    } else if t2.0 < n {
        Err(ParseError::InvalidValue)
    } else {
        match decimal_of(arg1) {
            None => if !non_finite(arg1) {
                Err(ParseError::InvalidValue)
            } else if keyword == "THR"@ || keyword == "STEER"@ {
                Err(ParseError::OutOfRange)
            } else {
                Err(ParseError::UnknownCommand)
            },
            Some(d) => if keyword == "THR"@ {
                if within_unit(d, false) {
                    Ok(CommandView::Throttle(millionths(d)))
                } else {
                    Err(ParseError::OutOfRange)
                }
            } else if keyword == "STEER"@ {
                if within_unit(d, true) {
                    Ok(CommandView::Steer(millionths(d)))
                } else {
                    Err(ParseError::OutOfRange)
                }
            } else {
                Err(ParseError::UnknownCommand)
            },
        }
    }
}

/// Parses one already-delimited line (no terminator). Use `LineReader` to
/// get there from a raw byte stream.
pub fn parse_line(line: &str) -> (r: Result<Command<'_>, ParseError>)
    ensures
        result_view(r) == parse_spec(line@),
{
    let n = line.unicode_len();
    let t0 = next_token(line, n, 0);
    if t0.0 >= n {
        return Err(ParseError::Empty);
    }
    let t1 = next_token(line, n, t0.1);
    let t2 = next_token(line, n, t1.1);
    let t3 = next_token(line, n, t2.1);
    if token_is(line, t0.0, t0.1, "SAVE") {
        return if t1.0 < n { Err(ParseError::InvalidValue) } else { Ok(Command::Save) };
    }
    if token_is(line, t0.0, t0.1, "GET") {
        if t1.0 >= n {
            return Err(ParseError::MissingValue);
        }
        if t2.0 < n {
            return Err(ParseError::InvalidValue);
        }
        return Ok(Command::Get(line.substring_char(t1.0, t1.1)));
    }
    if token_is(line, t0.0, t0.1, "SET") {
        if t1.0 >= n || t2.0 >= n {
            return Err(ParseError::MissingValue);
        }
        if t3.0 < n {
            return Err(ParseError::InvalidValue);
        }
        return match parse_int(line, t2.0, t2.1) {
            Some(v) => Ok(Command::SetParam(line.substring_char(t1.0, t1.1), v)),
            None => Err(ParseError::InvalidValue),
        };
    }
    if t1.0 >= n {
        return Err(ParseError::MissingValue);
    }
    if t2.0 < n {
        return Err(ParseError::InvalidValue);
    }
    let parsed = parse_number(line, t1.0, t1.1);
    proof {
        reveal_strlit("THR");
        reveal_strlit("STEER");
    }
    let thr = token_is(line, t0.0, t0.1, "THR");
    let steer = token_is(line, t0.0, t0.1, "STEER");
    assert("THR"@.len() != "STEER"@.len());
    match parsed {
        NumberToken::Invalid => Err(ParseError::InvalidValue),
        NumberToken::NonFinite => if thr || steer {
            Err(ParseError::OutOfRange)
        } else {
            Err(ParseError::UnknownCommand)
        },
        NumberToken::Finite { negative, zero, at_most_one, magnitude } => {
            if !thr && !steer {
                return Err(ParseError::UnknownCommand);
            }
            let ok = if zero {
                true
            } else if negative {
                steer && at_most_one
            } else {
                at_most_one
            };
            if !ok {
                return Err(ParseError::OutOfRange);
            }
            let v = if negative { -(magnitude as i64) } else { magnitude as i64 };
            if thr {
                Ok(Command::Throttle(v))
            } else {
                Ok(Command::Steer(v))
            }
        },
    }
}

/* ---------------------------------------------------------------------- */
/* Line framing                                                            */
/* ---------------------------------------------------------------------- */

#[derive(Debug, Clone, Copy, PartialEq, Eq, Structural)]
pub enum LineError {
    /// No terminator arrived before the buffer filled up; the partial line
    /// was discarded so accumulation can resync from the next byte.
    TooLong,
    /// The accumulated bytes weren't valid UTF-8 (e.g. line noise).
    NotUtf8,
}

/// `core::str::from_utf8`: `Some` exactly for valid UTF-8, viewing the
/// same bytes as a `str`. (Trusted: std's function, with vstd's own UTF-8
/// definition as its contract.)
#[verifier::external_body]
fn str_from_utf8(bytes: &[u8]) -> (r: Option<&str>)
    ensures
        r is Some <==> valid_utf8(bytes@),
        r matches Some(s) ==> s.spec_bytes() == bytes@,
{
    core::str::from_utf8(bytes).ok()
}

/// A line's bytes with one trailing carriage return removed.
pub open spec fn strip_cr(line: Seq<u8>) -> Seq<u8> {
    if line.len() > 0 && line.last() == 13 { line.drop_last() } else { line }
}

/// Accumulates raw bytes into newline-delimited lines, tolerating bytes
/// arriving split across arbitrarily many reads (a UART read can return a
/// partial line, a whole line, or several lines at once).
pub struct LineReader<const N: usize> {
    buf: [u8; N],
    len: usize,
}

impl<const N: usize> LineReader<N> {
    /// The bytes received since the last terminator or resync.
    pub closed spec fn pending(&self) -> Seq<u8> {
        self.buf@.take(self.len as int)
    }

    pub closed spec fn wf(&self) -> bool {
        self.len <= N
    }

    pub fn new() -> (r: Self)
        ensures
            r.wf(),
            r.pending() == Seq::<u8>::empty(),
    {
        let r = LineReader { buf: [0u8; N], len: 0 };
        assert(r.pending() =~= Seq::<u8>::empty());
        r
    }

    /// Feed one byte. Returns `Some(line)` the moment `byte` completes a
    /// line (`\n`, with a preceding `\r` stripped if present), `None` if
    /// more bytes are still needed. On overflow (a byte arriving with `N`
    /// bytes already pending and no terminator) the pending bytes and this
    /// byte are dropped and `TooLong` is reported.
    pub fn push_byte(&mut self, byte: u8) -> (r: Option<Result<&str, LineError>>)
        requires
            old(self).wf(),
        ensures
            final(self).wf(),
            byte == 10 ==> {
                let line = strip_cr(old(self).pending());
                &&& final(self).pending() == Seq::<u8>::empty()
                &&& r is Some
                &&& (r->0 is Ok <==> valid_utf8(line))
                &&& (r->0 matches Ok(s) ==> s.spec_bytes() == line)
                &&& (r->0 matches Err(e) ==> e == LineError::NotUtf8)
            },
            byte != 10 && old(self).pending().len() == N ==> final(self).pending() == Seq::<u8>::empty()
                && r == Some(Err::<&str, LineError>(LineError::TooLong)),
            byte != 10 && old(self).pending().len() < N ==> final(self).pending() == old(self).pending().push(byte)
                && r is None,
    {
        if byte == 10 {
            let mut end = self.len;
            if end > 0 && self.buf[end - 1] == 13 {
                end = end - 1;
            }
            let ghost line = strip_cr(self.buf@.take(self.len as int));
            assert(self.buf@.take(end as int) =~= line);
            let result = match str_from_utf8(vstd::slice::slice_subrange(self.buf.as_slice(), 0, end)) {
                Some(s) => Ok(s),
                None => Err(LineError::NotUtf8),
            };
            self.len = 0;
            assert(self.buf@.take(0) =~= Seq::<u8>::empty());
            return Some(result);
        }
        if self.len == N {
            self.len = 0;
            assert(self.buf@.take(0) =~= Seq::<u8>::empty());
            return Some(Err(LineError::TooLong));
        }
        let ghost before = self.buf@.take(self.len as int);
        self.buf[self.len] = byte;
        self.len = self.len + 1;
        assert(self.buf@.take(self.len as int) =~= before.push(byte));
        None
    }
}

impl<const N: usize> Default for LineReader<N> {
    /// Same as `new`: nothing pending.
    fn default() -> (r: Self)
        ensures
            r.wf(),
            r.pending() == Seq::<u8>::empty(),
    {
        Self::new()
    }
}

/* ---------------------------------------------------------------------- */
/* Formatting                                                              */
/* ---------------------------------------------------------------------- */

/// ASCII decimal digits of `n`, most significant first.
pub open spec fn decimal_bytes(n: nat) -> Seq<u8>
    decreases n,
{
    if n < 10 {
        seq![(48 + n) as u8]
    } else {
        decimal_bytes(n / 10).push((48 + n % 10) as u8)
    }
}

/// `v` in decimal, with a leading `-` when negative.
pub open spec fn signed_decimal_bytes(v: int) -> Seq<u8> {
    if v < 0 { seq![45u8] + decimal_bytes((-v) as nat) } else { decimal_bytes(v as nat) }
}

/// A magnitude in millionths in hundredths, rounded to nearest with ties
/// to even (as formatting a float to two places does).
pub open spec fn hundredths(a: nat) -> nat {
    let q = a / 10000;
    let r = a % 10000;
    if r > 5000 || (r == 5000 && q % 2 == 1) { q + 1 } else { q }
}

/// A millionths value to two decimal places; a negative value keeps its
/// `-` even when it rounds to zero.
pub open spec fn two_places_bytes(v: int) -> Seq<u8> {
    let a: nat = if v < 0 { (-v) as nat } else { v as nat };
    let h: nat = hundredths(a);
    (if v < 0 { seq![45u8] } else { Seq::empty() }) + decimal_bytes(h / 100) + seq![
        46u8,
        (48 + (h % 100) / 10) as u8,
        (48 + h % 10) as u8,
    ]
}

/// Renders `n` in decimal into the tail of a 20-byte array, returning the
/// array and where the digits start.
fn render_decimal(n: u64) -> (r: ([u8; 20], usize))
    ensures
        r.1 <= 20,
        r.0@.subrange(r.1 as int, 20) == decimal_bytes(n as nat),
{
    let mut tmp = [0u8; 20];
    let mut i: usize = 20;
    let mut m = n;
    proof {
        assert(pow10(20) == 100_000_000_000_000_000_000) by {
            reveal_with_fuel(pow10, 21);
        }
    }
    if m == 0 {
        tmp[19] = 48;
        assert(tmp@.subrange(19, 20) =~= decimal_bytes(0));
        return (tmp, 19);
    }
    assert(tmp@.subrange(20, 20) =~= Seq::<u8>::empty());
    assert(decimal_bytes(n as nat) =~= decimal_bytes(m as nat) + tmp@.subrange(20, 20));
    while m > 0
        invariant
            i <= 20,
            m as nat <= n as nat,
            (m as nat) < pow10(i as nat),
            m > 0 ==> decimal_bytes(n as nat) == decimal_bytes(m as nat) + tmp@.subrange(i as int, 20),
            m == 0 ==> decimal_bytes(n as nat) == tmp@.subrange(i as int, 20),
        decreases m,
    {
        proof {
            if i == 0 {
                assert(pow10(0) == 1);
            }
            assert(pow10(i as nat) == 10 * pow10((i - 1) as nat));
        }
        let ghost tail = tmp@.subrange(i as int, 20);
        i = i - 1;
        let d = (48 + m % 10) as u8;
        tmp[i] = d;
        assert(tmp@.subrange(i as int, 20) =~= seq![d] + tail);
        let ghost old_m = m;
        m = m / 10;
        proof {
            if old_m >= 10 {
                assert(decimal_bytes(old_m as nat) == decimal_bytes(m as nat).push(d));
                assert(decimal_bytes(m as nat).push(d) + tail =~= decimal_bytes(m as nat) + (seq![d] + tail));
            } else {
                assert(decimal_bytes(old_m as nat) == seq![d]);
            }
        }
    }
    (tmp, i)
}

proof fn lemma_minus_bytes()
    ensures
        "-".spec_bytes() == seq![45u8],
{
    reveal_strlit("-");
    assert(vstd::utf8::is_ascii_chars("-"@));
    vstd::utf8::is_ascii_chars_encode_utf8("-"@);
    assert("-".spec_bytes() =~= seq![45u8]);
}

/// A byte sink over a caller's buffer that only ever appends pieces that
/// fit.
struct FixedWriter<'a> {
    buf: &'a mut [u8],
    len: usize,
}

impl<'a> FixedWriter<'a> {
    fn new(buf: &'a mut [u8]) -> (w: Self)
        ensures
            w.buf@ == old(buf)@,
            final(w.buf)@ == final(buf)@,
            w.len == 0,
    {
        FixedWriter { buf, len: 0 }
    }

    /// Appends `bytes` after what was written so far.
    fn write_bytes(&mut self, bytes: &[u8])
        requires
            old(self).len + bytes@.len() <= old(self).buf@.len(),
        ensures
            final(self).len == old(self).len + bytes@.len(),
            final(self).buf@ == old(self).buf@.take(old(self).len as int) + bytes@ + old(self).buf@.skip(
                final(self).len as int,
            ),
            final(final(self).buf)@ == final(old(self).buf)@,
    {
        let ghost start = self.buf@;
        let ghost l0 = self.len;
        let cap = self.buf.len();
        let k = bytes.len();
        let mut i: usize = 0;
        while i < k
            invariant
                k == bytes@.len(),
                i <= k,
                self.len == l0,
                l0 + k <= start.len(),
                start.len() == cap,
                self.buf@.len() == start.len(),
                self.buf@ == start.take(l0 as int) + bytes@.take(i as int) + start.skip(l0 + i),
                final(self.buf)@ == final(old(self).buf)@,
            decreases k - i,
        {
            let ghost before = self.buf@;
            self.buf[self.len + i] = bytes[i];
            assert(self.buf@ =~= start.take(l0 as int) + bytes@.take(i + 1) + start.skip(l0 + i + 1));
            i = i + 1;
        }
        assert(bytes@.take(k as int) =~= bytes@);
        self.len = self.len + k;
    }
}

/// The reason text of an error line.
pub open spec fn error_reason(err: ParseError) -> &'static str {
    match err {
        ParseError::Empty => "empty",
        ParseError::UnknownCommand => "unknown command",
        ParseError::MissingValue => "missing value",
        ParseError::InvalidValue => "invalid value",
        ParseError::OutOfRange => "out of range",
        ParseError::UnknownParam => "unknown parameter",
    }
}

/// The bytes of `ERR <reason>\r\n`.
pub open spec fn error_message(err: ParseError) -> Seq<u8> {
    "ERR ".spec_bytes() + error_reason(err).spec_bytes() + "\r\n".spec_bytes()
}

/// The bytes of `<name>=<value> OK\r\n`.
pub open spec fn param_message(name: Seq<u8>, value: i32) -> Seq<u8> {
    name + "=".spec_bytes() + signed_decimal_bytes(value as int) + " OK\r\n".spec_bytes()
}

/// The bytes of `SPD a=<a>rpm b=<b>rpm slip=<slip to two places> OK\r\n`.
pub open spec fn telemetry_message(speed_a_rpm: i32, speed_b_rpm: i32, slip: i64) -> Seq<u8> {
    "SPD a=".spec_bytes() + signed_decimal_bytes(speed_a_rpm as int) + "rpm b=".spec_bytes()
        + signed_decimal_bytes(speed_b_rpm as int) + "rpm slip=".spec_bytes() + two_places_bytes(
        slip as int,
    ) + " OK\r\n".spec_bytes()
}

/// What a formatter leaves behind: the message at the front of `buf` and
/// its length, or `0` and `buf` untouched when it doesn't fit (the length
/// is checked before anything is written, so no partial message is left
/// behind either).
pub open spec fn formatted(msg: Seq<u8>, before: Seq<u8>, after: Seq<u8>, n: usize) -> bool {
    if msg.len() <= before.len() {
        &&& n == msg.len()
        &&& after == msg + before.skip(msg.len() as int)
    } else {
        &&& n == 0
        &&& after == before
    }
}

fn reason_text(err: ParseError) -> (r: &'static str)
    ensures
        r == error_reason(err),
{
    match err {
        ParseError::Empty => "empty",
        ParseError::UnknownCommand => "unknown command",
        ParseError::MissingValue => "missing value",
        ParseError::InvalidValue => "invalid value",
        ParseError::OutOfRange => "out of range",
        ParseError::UnknownParam => "unknown parameter",
    }
}

/// Formats an `ERR ...` line for a rejected command. Returns the number of
/// bytes written, or 0 (writing nothing) if it didn't fit.
pub fn format_error(err: ParseError, buf: &mut [u8]) -> (n: usize)
    ensures
        formatted(error_message(err), old(buf)@, final(buf)@, n),
{
    let head = "ERR ".as_bytes();
    let reason = reason_text(err).as_bytes();
    let tail = "\r\n".as_bytes();
    if head.len() > buf.len() || reason.len() > buf.len() - head.len() || tail.len() > buf.len()
        - head.len() - reason.len() {
        return 0;
    }
    let ghost before = buf@;
    let mut w = FixedWriter::new(buf);
    w.write_bytes(head);
    w.write_bytes(reason);
    w.write_bytes(tail);
    let n = w.len;
    assert(w.buf@ =~= error_message(err) + before.skip(n as int));
    n
}

/// Renders `v` in decimal, `-` first when negative, into the tail of a
/// 21-byte array, returning the array and where the text starts.
fn render_signed(v: i64) -> (r: ([u8; 21], usize))
    requires
        v > i64::MIN,
    ensures
        r.1 <= 21,
        r.0@.subrange(r.1 as int, 21) == signed_decimal_bytes(v as int),
{
    let magnitude: u64 = if v < 0 { (-v) as u64 } else { v as u64 };
    let (digits, start) = render_decimal(magnitude);
    let mut out = [0u8; 21];
    let mut i = start;
    while i < 20
        invariant
            start <= i <= 20,
            forall|j: int| start <= j < i ==> out@[j + 1] == digits@[j],
        decreases 20 - i,
    {
        out[i + 1] = digits[i];
        i = i + 1;
    }
    assert(out@.subrange(start + 1, 21) =~= digits@.subrange(start as int, 20));
    if v < 0 {
        out[start] = 45;
        assert(out@.subrange(start as int, 21) =~= seq![45u8] + digits@.subrange(start as int, 20));
        (out, start)
    } else {
        (out, start + 1)
    }
}

/// Formats `<name>=<value> OK\r\n`, the reply to `GET`/`SET`. Returns the
/// number of bytes written, or 0 (writing nothing) if it didn't fit.
pub fn format_param(buf: &mut [u8], name: &str, value: i32) -> (n: usize)
    ensures
        formatted(param_message(name.spec_bytes(), value), old(buf)@, final(buf)@, n),
{
    let name_bytes = name.as_bytes();
    let eq = "=".as_bytes();
    let tail = " OK\r\n".as_bytes();
    let (text, start) = render_signed(value as i64);
    let number = vstd::slice::slice_subrange(text.as_slice(), start, 21);
    let cap = buf.len();
    if name_bytes.len() > cap {
        return 0;
    }
    let room = cap - name_bytes.len();
    if eq.len() > room || number.len() > room - eq.len() || tail.len() > room - eq.len()
        - number.len() {
        return 0;
    }
    let ghost before = buf@;
    let mut w = FixedWriter::new(buf);
    w.write_bytes(name_bytes);
    w.write_bytes(eq);
    w.write_bytes(number);
    w.write_bytes(tail);
    let n = w.len;
    assert(w.buf@ =~= param_message(name.spec_bytes(), value) + before.skip(n as int));
    n
}

/// Renders a millionths value to two decimal places (see
/// `two_places_bytes`) into the tail of a 24-byte array, returning the
/// array and where the text starts.
fn render_two_places(v: i64) -> (r: ([u8; 24], usize))
    ensures
        r.1 <= 24,
        r.0@.subrange(r.1 as int, 24) == two_places_bytes(v as int),
{
    let a: u64 = if v < 0 { ((-(v + 1)) as u64) + 1 } else { v as u64 };
    let q = a / 10000;
    let r = a % 10000;
    let h = if r > 5000 || (r == 5000 && q % 2 == 1) { q + 1 } else { q };
    let (digits, start) = render_decimal(h / 100);
    let mut out = [0u8; 24];
    let mut i = start;
    while i < 20
        invariant
            start <= i <= 20,
            forall|j: int| start <= j < i ==> out@[j + 1] == digits@[j],
        decreases 20 - i,
    {
        out[i + 1] = digits[i];
        i = i + 1;
    }
    out[21] = 46;
    out[22] = (48 + (h % 100) / 10) as u8;
    out[23] = (48 + h % 10) as u8;
    let ghost whole = digits@.subrange(start as int, 20);
    let ghost frac = seq![46u8, (48 + (h % 100) / 10) as u8, (48 + h % 10) as u8];
    assert(out@.subrange(start + 1, 24) =~= whole + frac);
    if v < 0 {
        out[start] = 45;
        assert(out@.subrange(start as int, 24) =~= seq![45u8] + whole + frac);
        (out, start)
    } else {
        assert(out@.subrange(start + 1, 24) =~= Seq::<u8>::empty() + whole + frac);
        (out, start + 1)
    }
}

/// Formats a `SPD ... OK` telemetry line into `buf` (CRLF-terminated).
/// `slip` is in millionths and is shown to two decimal places. Returns the
/// number of bytes written, or 0 (writing nothing) if it didn't fit.
#[verifier::rlimit(40)]
pub fn format_telemetry(buf: &mut [u8], speed_a_rpm: i32, speed_b_rpm: i32, slip: i64) -> (n: usize)
    ensures
        formatted(telemetry_message(speed_a_rpm, speed_b_rpm, slip), old(buf)@, final(buf)@, n),
{
    let p1 = "SPD a=".as_bytes();
    let p3 = "rpm b=".as_bytes();
    let p5 = "rpm slip=".as_bytes();
    let p7 = " OK\r\n".as_bytes();
    let (ta, sa) = render_signed(speed_a_rpm as i64);
    let p2 = vstd::slice::slice_subrange(ta.as_slice(), sa, 21);
    let (tb, sb) = render_signed(speed_b_rpm as i64);
    let p4 = vstd::slice::slice_subrange(tb.as_slice(), sb, 21);
    let (ts, ss) = render_two_places(slip);
    let p6 = vstd::slice::slice_subrange(ts.as_slice(), ss, 24);
    let mut room = buf.len();
    if p1.len() > room {
        return 0;
    }
    room = room - p1.len();
    if p2.len() > room {
        return 0;
    }
    room = room - p2.len();
    if p3.len() > room {
        return 0;
    }
    room = room - p3.len();
    if p4.len() > room {
        return 0;
    }
    room = room - p4.len();
    if p5.len() > room {
        return 0;
    }
    room = room - p5.len();
    if p6.len() > room {
        return 0;
    }
    room = room - p6.len();
    if p7.len() > room {
        return 0;
    }
    let ghost before = buf@;
    let mut w = FixedWriter::new(buf);
    w.write_bytes(p1);
    w.write_bytes(p2);
    w.write_bytes(p3);
    w.write_bytes(p4);
    w.write_bytes(p5);
    w.write_bytes(p6);
    w.write_bytes(p7);
    let n = w.len;
    assert(w.buf@ =~= telemetry_message(speed_a_rpm, speed_b_rpm, slip) + before.skip(n as int));
    n
}

} // verus!
