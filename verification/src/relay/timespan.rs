//! The text of an `OperationTimeout`: plain seconds, or the .NET timespan
//! form `[d.]hh:mm:ss[.fff]`.
//!
//! A text that reads as a floating-point number is a number of seconds;
//! its value is computed where floating point is at hand. Every other text
//! is read here as a whole number of seconds and an optional fraction.

use vstd::prelude::*;

use crate::relay::error::RelayError;
use crate::text::{
    all_digits, chars_eq_str, chars_of, decimal, digit_char, digit_val, digits_value, find_char,
    find_index,
    is_digit, lemma_find_concat, lemma_find_none, lemma_trim_fixed,
    lemma_find_index, lower_chars, lower_seq, parse_u64, parse_u64_spec, push_decimal, push_str,
    string_of, to_vec, trim, trim_chars,
};

verus! {

// ---------------------------------------------------------------------------
// Floating-point text
// ---------------------------------------------------------------------------

/// The digits, a `.` and more digits, with at least one digit in all.
pub open spec fn mantissa_ok(m: Seq<char>) -> bool {
    match find_index(m, '.') {
        None => m.len() > 0 && all_digits(m),
        Some(i) => all_digits(m.take(i)) && all_digits(m.skip(i + 1)) && m.len() > 1,
    }
}

/// An exponent after its `e`: an optional sign, then at least one digit.
pub open spec fn exponent_ok(e: Seq<char>) -> bool {
    if e.len() > 0 && (e[0] == '+' || e[0] == '-') {
        e.len() > 1 && all_digits(e.skip(1))
    } else {
        e.len() > 0 && all_digits(e)
    }
}

/// The position of the first `e` or `E`.
pub open spec fn exponent_index(s: Seq<char>) -> Option<int>
    decreases s.len(),
{
    if s.len() == 0 {
        None
    } else if s[0] == 'e' || s[0] == 'E' {
        Some(0)
    } else {
        match exponent_index(s.drop_first()) {
            Some(i) => Some(i + 1),
            None => None,
        }
    }
}

/// A decimal number as `f64::from_str` reads it, without its sign.
pub open spec fn number_ok(s: Seq<char>) -> bool {
    match exponent_index(s) {
        None => mantissa_ok(s),
        Some(i) => mantissa_ok(s.take(i)) && exponent_ok(s.skip(i + 1)),
    }
}

/// The text `f64::from_str` accepts: an optional sign, then `inf`,
/// `infinity` or `nan` in any case, or a decimal number with an optional
/// exponent.
pub open spec fn is_float_text(s: Seq<char>) -> bool {
    let body = if s.len() > 0 && (s[0] == '+' || s[0] == '-') {
        s.skip(1)
    } else {
        s
    };
    ||| lower_seq(body) == "inf"@
    ||| lower_seq(body) == "infinity"@
    ||| lower_seq(body) == "nan"@
    ||| number_ok(body)
}

/// Whether every character is an ASCII digit.
fn digits_only(s: &[char]) -> (r: bool)
    ensures
        r == all_digits(s@),
{
    let mut i: usize = 0;
    while i < s.len()
        invariant
            i <= s@.len(),
            forall|j: int| 0 <= j < i ==> is_digit(#[trigger] s@[j]),
        decreases s@.len() - i,
    {
        if !('0' <= s[i] && s[i] <= '9') {
            return false;
        }
        i = i + 1;
    }
    true
}

fn mantissa_check(m: &[char]) -> (r: bool)
    ensures
        r == mantissa_ok(m@),
{
    let n = m.len();
    match find_char(m, '.') {
        None => n > 0 && digits_only(m),
        Some(i) => {
            proof {
                lemma_find_index(m@, '.');
            }
            let a = &m[0..i];
            let b = &m[i + 1..n];
            assert(a@ =~= m@.take(i as int));
            assert(b@ =~= m@.skip(i + 1));
            digits_only(a) && digits_only(b) && n > 1
        },
    }
}

fn exponent_check(e: &[char]) -> (r: bool)
    ensures
        r == exponent_ok(e@),
{
    let n = e.len();
    if n > 0 && (e[0] == '+' || e[0] == '-') {
        let rest = &e[1..n];
        assert(rest@ =~= e@.skip(1));
        n > 1 && digits_only(rest)
    } else {
        n > 0 && digits_only(e)
    }
}

proof fn lemma_exponent_index(s: Seq<char>)
    ensures
        exponent_index(s) matches Some(i) ==> 0 <= i < s.len() && (s[i] == 'e' || s[i] == 'E')
            && forall|j: int| 0 <= j < i ==> s[j] != 'e' && s[j] != 'E',
        exponent_index(s) is None ==> forall|j: int| 0 <= j < s.len() ==> s[j] != 'e' && s[j] != 'E',
    decreases s.len(),
{
    if s.len() > 0 {
        lemma_exponent_index(s.drop_first());
        if !(s[0] == 'e' || s[0] == 'E') {
            assert forall|j: int| 1 <= j < s.len() implies s[j] == s.drop_first()[j - 1] by {}
        }
    }
}

proof fn lemma_exponent_index_is_first(s: Seq<char>, k: int)
    requires
        0 <= k < s.len(),
        s[k] == 'e' || s[k] == 'E',
        forall|j: int| 0 <= j < k ==> s[j] != 'e' && s[j] != 'E',
    ensures
        exponent_index(s) == Some(k),
    decreases k,
{
    if k > 0 {
        lemma_exponent_index_is_first(s.drop_first(), k - 1);
    }
}

proof fn lemma_exponent_index_none(s: Seq<char>)
    requires
        forall|j: int| 0 <= j < s.len() ==> s[j] != 'e' && s[j] != 'E',
    ensures
        exponent_index(s) is None,
    decreases s.len(),
{
    if s.len() > 0 {
        lemma_exponent_index_none(s.drop_first());
    }
}

fn number_check(s: &[char]) -> (r: bool)
    ensures
        r == number_ok(s@),
{
    let n = s.len();
    let mut i: usize = 0;
    while i < n
        invariant
            n == s@.len(),
            i <= n,
            forall|j: int| 0 <= j < i ==> s@[j] != 'e' && s@[j] != 'E',
        decreases n - i,
    {
        if s[i] == 'e' || s[i] == 'E' {
            proof {
                lemma_exponent_index_is_first(s@, i as int);
            }
            let m = &s[0..i];
            let e = &s[i + 1..n];
            assert(m@ =~= s@.take(i as int));
            assert(e@ =~= s@.skip(i + 1));
            return mantissa_check(m) && exponent_check(e);
        }
        i = i + 1;
    }
    proof {
        lemma_exponent_index_none(s@);
    }
    mantissa_check(s)
}

/// Whether `f64::from_str` accepts the text.
pub fn float_text(s: &[char]) -> (r: bool)
    ensures
        r == is_float_text(s@),
{
    let n = s.len();
    let body: &[char] = if n > 0 && (s[0] == '+' || s[0] == '-') {
        &s[1..n]
    } else {
        s
    };
    assert(body@ =~= (if s@.len() > 0 && (s@[0] == '+' || s@[0] == '-') {
        s@.skip(1)
    } else {
        s@
    }));
    let lower = lower_chars(body);
    chars_eq_str(lower.as_slice(), "inf") || chars_eq_str(lower.as_slice(), "infinity")
        || chars_eq_str(lower.as_slice(), "nan") || number_check(body)
}

/// Whether a floating-point text names no finite number.
fn float_word_check(t: &[char]) -> (r: bool)
    ensures
        r == float_word(t@),
{
    let n = t.len();
    let body: &[char] = if n > 0 && t[0] == '+' {
        &t[1..n]
    } else {
        t
    };
    assert(body@ =~= (if t@.len() > 0 && t@[0] == '+' {
        t@.skip(1)
    } else {
        t@
    }));
    let lower = lower_chars(body);
    chars_eq_str(lower.as_slice(), "inf") || chars_eq_str(lower.as_slice(), "infinity")
        || chars_eq_str(lower.as_slice(), "nan")
}

// ---------------------------------------------------------------------------
// The timespan form
// ---------------------------------------------------------------------------

/// What is wrong with a timespan text.
#[derive(Debug, Clone, Copy, PartialEq, Eq, Structural)]
pub enum TimespanProblem {
    /// The days or the fraction are not where they can be.
    Format,
    /// The fraction is not a decimal fraction.
    Fraction,
    /// The time is not three `:`-separated fields.
    FieldCount,
    Hours,
    Minutes,
    Seconds,
    /// The number of seconds is negative.
    Negative,
}

/// The days and the rest: before a first `.` with no `:` in front of it
/// stand the days, a `u64`; with a `:` before the first `.` (or no `.`)
/// there are none.
pub open spec fn days_split(s: Seq<char>) -> Option<(int, Seq<char>)> {
    match find_index(s, '.') {
        Some(i) => if find_index(s.take(i), ':') is Some {
            Some((0, s))
        } else {
            match parse_u64_spec(s.take(i)) {
                Some(d) => Some((d, s.skip(i + 1))),
                None => None,
            }
        },
        None => Some((0, s)),
    }
}

/// The time and its fraction: after a `.` that follows a `:` stands the
/// fraction; a `.` with no `:` before it is misplaced.
pub open spec fn fraction_split(t: Seq<char>) -> Option<(Seq<char>, Option<Seq<char>>)> {
    match find_index(t, '.') {
        Some(i) => if find_index(t.take(i), ':') is Some {
            Some((t.take(i), Some(t.skip(i + 1))))
        } else {
            None
        },
        None => Some((t, None)),
    }
}

/// The three `:`-separated fields of a time, when there are exactly three.
pub open spec fn clock_fields(h: Seq<char>) -> Option<(Seq<char>, Seq<char>, Seq<char>)> {
    match find_index(h, ':') {
        None => None,
        Some(i) => {
            let rest = h.skip(i + 1);
            match find_index(rest, ':') {
                None => None,
                Some(j) => {
                    let last = rest.skip(j + 1);
                    if find_index(last, ':') is Some {
                        None
                    } else {
                        Some((h.take(i), rest.take(j), last))
                    }
                },
            }
        },
    }
}

/// A timespan text read as whole seconds and the digits of its fraction:
/// `[d.]hh:mm:ss[.fff]`, where the days, hours, minutes and seconds are
/// `u64`s and `0.fff` must read as a floating-point number.
pub open spec fn clock_spec(s: Seq<char>) -> Result<(int, Option<Seq<char>>), TimespanProblem> {
    match days_split(s) {
        None => Err(TimespanProblem::Format),
        Some((days, time)) => match fraction_split(time) {
            None => Err(TimespanProblem::Format),
            Some((hms, frac)) => if frac matches Some(f) && !is_float_text("0."@ + f) {
                Err(TimespanProblem::Fraction)
            } else {
                match clock_fields(hms) {
                    None => Err(TimespanProblem::FieldCount),
                    Some((a, b, c)) => match parse_u64_spec(a) {
                        None => Err(TimespanProblem::Hours),
                        Some(h) => match parse_u64_spec(b) {
                            None => Err(TimespanProblem::Minutes),
                            Some(m) => match parse_u64_spec(c) {
                                None => Err(TimespanProblem::Seconds),
                                Some(sec) => Ok((days * 86400 + h * 3600 + m * 60 + sec, frac)),
                            },
                        },
                    },
                }
            },
        },
    }
}

/// How a timespan text reads.
pub enum TimespanText {
    /// A floating-point number of seconds (the text, trimmed).
    Seconds(String),
    /// Whole seconds and, when given, the digits of a fraction of a second.
    Clock { whole_secs: u64, fraction: Option<String> },
}

/// Every character before the first `e` or `E` is `0` or `.`: a number
/// whose value is zero, whatever its exponent.
pub open spec fn zero_value(s: Seq<char>) -> bool
    decreases s.len(),
{
    ||| s.len() == 0
    ||| s[0] == 'e'
    ||| s[0] == 'E'
    ||| (s[0] == '0' || s[0] == '.') && zero_value(s.drop_first())
}

/// Whether a number's value is zero by its digits.
fn zero_value_check(s: &[char]) -> (r: bool)
    ensures
        r == zero_value(s@),
{
    let n = s.len();
    let mut i: usize = 0;
    assert(s@.skip(0) =~= s@);
    while i < n
        invariant
            n == s@.len(),
            i <= n,
            zero_value(s@) == zero_value(s@.skip(i as int)),
        decreases n - i,
    {
        assert(s@.skip(i as int).drop_first() =~= s@.skip(i + 1));
        assert(s@.skip(i as int)[0] == s@[i as int]);
        let c = s[i];
        if c == 'e' || c == 'E' {
            return true;
        }
        if !(c == '0' || c == '.') {
            return false;
        }
        i = i + 1;
    }
    true
}

/// A floating-point text that names no finite number: `inf`, `infinity`
/// or `nan` in any case, after an optional `+`.
pub open spec fn float_word(t: Seq<char>) -> bool {
    let body = if t.len() > 0 && t[0] == '+' {
        t.skip(1)
    } else {
        t
    };
    ||| lower_seq(body) == "inf"@
    ||| lower_seq(body) == "infinity"@
    ||| lower_seq(body) == "nan"@
}

/// The timespan reading of a text, trimmed: a non-negative, finite
/// floating-point number of seconds, or the timespan form. A number with a
/// `-` is refused as negative unless its digits are all zeros (`-0` is
/// zero seconds), and `inf`, `infinity` and `nan` as no timespan at all.
pub open spec fn timespan_spec(s: Seq<char>) -> Result<
    Option<(int, Option<Seq<char>>)>,
    TimespanProblem,
> {
    let t = trim(s);
    if is_float_text(t) {
        if t.len() > 0 && t[0] == '-' && !zero_value(t.skip(1)) {
            Err(TimespanProblem::Negative)
        } else if float_word(t) {
            Err(TimespanProblem::Format)
        } else {
            Ok(None)
        }
    } else {
        match clock_spec(t) {
            Ok(v) => Ok(Some(v)),
            Err(p) => Err(p),
        }
    }
}

/// The timespan form reads within `u64` seconds (else the sum overflows).
pub open spec fn timespan_fits(s: Seq<char>) -> bool {
    timespan_spec(s) matches Ok(Some((total, _))) ==> total <= u64::MAX
}

/// The message of a timespan problem.
pub open spec fn timespan_message(p: TimespanProblem, s: Seq<char>) -> Seq<char> {
    let what = match p {
        TimespanProblem::Format => "Invalid OperationTimeout format: '"@,
        TimespanProblem::Fraction => "Invalid fractional seconds in OperationTimeout: '"@,
        TimespanProblem::FieldCount => "Invalid OperationTimeout format (expected hh:mm:ss): '"@,
        TimespanProblem::Hours => "Invalid hours in OperationTimeout: '"@,
        TimespanProblem::Minutes => "Invalid minutes in OperationTimeout: '"@,
        TimespanProblem::Seconds => "Invalid seconds in OperationTimeout: '"@,
        TimespanProblem::Negative => "OperationTimeout cannot be negative: '"@,
    };
    what + s + "'"@
}

/// Splits at the first `c`, if there is one.
fn split_at_char(s: &[char], c: char) -> (r: Option<(Vec<char>, Vec<char>)>)
    ensures
        match r {
            Some((a, b)) => find_index(s@, c) matches Some(i) && a@ == s@.take(i) && b@ == s@.skip(
                i + 1,
            ),
            None => find_index(s@, c) is None,
        },
{
    match find_char(s, c) {
        Some(i) => {
            proof {
                lemma_find_index(s@, c);
            }
            let n = s.len();
            let a = to_vec(&s[0..i]);
            let b = to_vec(&s[i + 1..n]);
            assert(a@ =~= s@.take(i as int));
            assert(b@ =~= s@.skip(i + 1));
            Some((a, b))
        },
        None => None,
    }
}

/// Reads the timespan form `[d.]hh:mm:ss[.fff]` as whole seconds and the
/// digits of the fraction.
pub fn parse_clock(s: &[char]) -> (r: Result<(u128, Option<Vec<char>>), TimespanProblem>)
    ensures
        match r {
            Ok((total, frac)) => clock_spec(s@) == Ok::<(int, Option<Seq<char>>), TimespanProblem>(
                (
                    total as int,
                    match frac {
                        Some(f) => Some(f@),
                        None => None,
                    },
                ),
            ),
            Err(p) => clock_spec(s@) == Err::<(int, Option<Seq<char>>), TimespanProblem>(p),
        },
{
    let (days, time): (u64, Vec<char>) = match split_at_char(s, '.') {
        Some((d, rest)) => {
            if find_char(d.as_slice(), ':').is_some() {
                (0, to_vec(s))
            } else {
                match parse_u64(d.as_slice()) {
                    Some(v) => (v, rest),
                    None => {
                        return Err(TimespanProblem::Format);
                    },
                }
            }
        },
        None => (0, to_vec(s)),
    };
    assert(days_split(s@) == Some((days as int, time@)));
    let (hms, frac): (Vec<char>, Option<Vec<char>>) = match split_at_char(time.as_slice(), '.') {
        Some((h, f)) => {
            if find_char(h.as_slice(), ':').is_some() {
                (h, Some(f))
            } else {
                return Err(TimespanProblem::Format);
            }
        },
        None => (time, None),
    };
    if let Some(f) = &frac {
        let mut z: Vec<char> = Vec::new();
        z.push('0');
        z.push('.');
        let ghost z0 = z@;
        crate::text::push_chars(&mut z, f.as_slice());
        assert(z0 =~= "0."@) by {
            reveal_strlit("0.");
        }
        if !float_text(z.as_slice()) {
            return Err(TimespanProblem::Fraction);
        }
    }
    let (a, rest) = match split_at_char(hms.as_slice(), ':') {
        Some(p) => p,
        None => {
            return Err(TimespanProblem::FieldCount);
        },
    };
    let (b, c) = match split_at_char(rest.as_slice(), ':') {
        Some(p) => p,
        None => {
            return Err(TimespanProblem::FieldCount);
        },
    };
    if find_char(c.as_slice(), ':').is_some() {
        return Err(TimespanProblem::FieldCount);
    }
    let h = match parse_u64(a.as_slice()) {
        Some(v) => v,
        None => {
            return Err(TimespanProblem::Hours);
        },
    };
    let m = match parse_u64(b.as_slice()) {
        Some(v) => v,
        None => {
            return Err(TimespanProblem::Minutes);
        },
    };
    let sec = match parse_u64(c.as_slice()) {
        Some(v) => v,
        None => {
            return Err(TimespanProblem::Seconds);
        },
    };
    let total = (days as u128) * 86400 + (h as u128) * 3600 + (m as u128) * 60 + (sec as u128);
    Ok((total, frac))
}

/// Reads an `OperationTimeout` text: trimmed, a floating-point number of
/// seconds as such, otherwise the timespan form.
pub fn read_timespan(s: &str) -> (r: Result<TimespanText, RelayError>)
    requires
        timespan_fits(s@),
    ensures
        match r {
            Ok(TimespanText::Seconds(t)) => timespan_spec(s@) == Ok::<
                Option<(int, Option<Seq<char>>)>,
                TimespanProblem,
            >(None) && t@ == trim(s@),
            Ok(TimespanText::Clock { whole_secs, fraction }) => timespan_spec(s@) == Ok::<
                Option<(int, Option<Seq<char>>)>,
                TimespanProblem,
            >(
                Some(
                    (
                        whole_secs as int,
                        match fraction {
                            Some(f) => Some(f@),
                            None => None,
                        },
                    ),
                ),
            ),
            Err(e) => timespan_spec(s@) matches Err(p) && (e matches RelayError::InvalidConnectionString(
                m,
            ) && m@ == timespan_message(p, trim(s@))),
        },
{
    let all = chars_of(s);
    let t = trim_chars(all.as_slice());
    let problem: Option<TimespanProblem> = if float_text(t) {
        let n = t.len();
        let negative = n > 0 && t[0] == '-' && {
            let body = &t[1..n];
            assert(body@ =~= t@.skip(1));
            !zero_value_check(body)
        };
        if negative {
            Some(TimespanProblem::Negative)
        } else if float_word_check(t) {
            Some(TimespanProblem::Format)
        } else {
            return Ok(TimespanText::Seconds(string_of(t)));
        }
    } else {
        None
    };
    let outcome = match problem {
        Some(p) => Err(p),
        None => parse_clock(t),
    };
    match outcome {
        Ok((total, frac)) => {
            let fraction = match frac {
                Some(f) => Some(string_of(f.as_slice())),
                None => None,
            };
            Ok(TimespanText::Clock { whole_secs: total as u64, fraction })
        },
        Err(p) => {
            let mut m: Vec<char> = Vec::new();
            match p {
                TimespanProblem::Format => push_str(&mut m, "Invalid OperationTimeout format: '"),
                TimespanProblem::Fraction => push_str(
                    &mut m,
                    "Invalid fractional seconds in OperationTimeout: '",
                ),
                TimespanProblem::FieldCount => push_str(
                    &mut m,
                    "Invalid OperationTimeout format (expected hh:mm:ss): '",
                ),
                TimespanProblem::Hours => push_str(&mut m, "Invalid hours in OperationTimeout: '"),
                TimespanProblem::Minutes => push_str(
                    &mut m,
                    "Invalid minutes in OperationTimeout: '",
                ),
                TimespanProblem::Seconds => push_str(
                    &mut m,
                    "Invalid seconds in OperationTimeout: '",
                ),
                TimespanProblem::Negative => push_str(
                    &mut m,
                    "OperationTimeout cannot be negative: '",
                ),
            }
            crate::text::push_chars(&mut m, t);
            push_str(&mut m, "'");
            let text = string_of(m.as_slice());
            assert(text@ =~= timespan_message(p, trim(s@)));
            Err(RelayError::InvalidConnectionString(text))
        },
    }
}

// ---------------------------------------------------------------------------
// Formatting
// ---------------------------------------------------------------------------

/// A number of at least two digits, zero-padded as `{:02}` writes it.
pub open spec fn two_digits(n: nat) -> Seq<char> {
    if n < 10 {
        seq!['0'] + decimal(n)
    } else {
        decimal(n)
    }
}

/// `hh:mm:ss` for a whole number of seconds (hours are not bounded by 24).
pub open spec fn hms_text(total_secs: nat) -> Seq<char> {
    two_digits(total_secs / 3600) + seq![':'] + two_digits((total_secs % 3600) / 60) + seq![':']
        + two_digits(total_secs % 60)
}

fn push_two_digits(out: &mut Vec<char>, n: u64)
    ensures
        final(out)@ == old(out)@ + two_digits(n as nat),
{
    if n < 10 {
        out.push('0');
    }
    push_decimal(out, n);
    assert(n < 10 ==> out@ =~= old(out)@ + two_digits(n as nat));
}

/// Formats a whole number of seconds as a `hh:mm:ss` timespan.
pub fn format_hms(total_secs: u64) -> (r: String)
    ensures
        r@ == hms_text(total_secs as nat),
{
    let mut out: Vec<char> = Vec::new();
    push_two_digits(&mut out, total_secs / 3600);
    out.push(':');
    push_two_digits(&mut out, (total_secs % 3600) / 60);
    out.push(':');
    push_two_digits(&mut out, total_secs % 60);
    assert(out@ =~= hms_text(total_secs as nat));
    string_of(out.as_slice())
}

/// Whether the timespan form of a text, if it reads as one, stays within
/// `u64` seconds.
pub fn timespan_text_fits(s: &str) -> (r: bool)
    ensures
        r == timespan_fits(s@),
{
    let all = chars_of(s);
    let t = trim_chars(all.as_slice());
    if float_text(t) {
        return true;
    }
    match parse_clock(t) {
        Ok((total, _)) => total <= u64::MAX as u128,
        Err(_) => true,
    }
}

// ---------------------------------------------------------------------------
// Reading back a formatted timespan
// ---------------------------------------------------------------------------

/// The decimal text of a number is digits that read as that number.
proof fn lemma_decimal_reads(k: nat)
    ensures
        decimal(k).len() > 0,
        all_digits(decimal(k)),
        digits_value(decimal(k)) == k,
    decreases k,
{
    let s = decimal(k);
    let c = digit_char(k % 10);
    assert(c as int == '0' as int + k % 10);
    assert(digit_val(c) == k % 10);
    if k >= 10 {
        lemma_decimal_reads(k / 10);
        let d = decimal(k / 10);
        assert(s.drop_last() =~= d);
        assert(s.last() == c);
        assert(digits_value(s) == digits_value(d) * 10 + digit_val(c));
        assert(k == (k / 10) * 10 + k % 10);
        assert forall|i: int| 0 <= i < s.len() implies is_digit(#[trigger] s[i]) by {
            if i < d.len() {
                assert(s[i] == d[i]);
            }
        }
    } else {
        assert(s.drop_last() =~= Seq::<char>::empty());
        assert(digits_value(Seq::<char>::empty()) == 0);
        assert(digits_value(s) == digits_value(s.drop_last()) * 10 + digit_val(s.last()));
    }
}

/// A two-digit field reads as its number.
proof fn lemma_two_digits_reads(k: nat)
    requires
        k <= u64::MAX,
    ensures
        two_digits(k).len() > 0,
        all_digits(two_digits(k)),
        parse_u64_spec(two_digits(k)) == Some(k as int),
{
    lemma_decimal_reads(k);
    let t = two_digits(k);
    if k < 10 {
        let d = decimal(k);
        let z = seq!['0'];
        assert(z.drop_last() =~= Seq::<char>::empty());
        assert(digits_value(Seq::<char>::empty()) == 0);
        assert(digit_val('0') == 0);
        assert(digits_value(z) == digits_value(z.drop_last()) * 10 + digit_val(z.last()));
        assert(t.drop_last() =~= z);
        assert(t.last() == d[0]);
        assert(d.drop_last() =~= Seq::<char>::empty());
        assert(digits_value(d) == digits_value(d.drop_last()) * 10 + digit_val(d.last()));
        assert(digits_value(t) == digits_value(t.drop_last()) * 10 + digit_val(t.last()));
        assert forall|i: int| 0 <= i < t.len() implies is_digit(#[trigger] t[i]) by {
            if i == 1 {
                assert(t[1] == d[0]);
            }
        }
    }
    assert(is_digit(t[0]));
}

/// The three fields of `hh:mm:ss`.
pub open spec fn hms_fields(k: nat) -> (Seq<char>, Seq<char>, Seq<char>) {
    (two_digits(k / 3600), two_digits((k % 3600) / 60), two_digits(k % 60))
}

/// `hh:mm:ss` is its digits fields with a `:` between each two.
proof fn lemma_hms_shape(k: nat)
    requires
        k <= u64::MAX,
    ensures
        ({
            let (a, b, c) = hms_fields(k);
            let s = hms_text(k);
            &&& all_digits(a) && all_digits(b) && all_digits(c)
            &&& a.len() > 0 && b.len() > 0 && c.len() > 0
            &&& s == a + (seq![':'] + (b + (seq![':'] + c)))
            &&& forall|i: int| 0 <= i < s.len() ==> (is_digit(#[trigger] s[i]) || s[i] == ':')
            &&& s[a.len() as int] == ':'
        }),
{
    let (a, b, c) = hms_fields(k);
    lemma_two_digits_reads(k / 3600);
    lemma_two_digits_reads((k % 3600) / 60);
    lemma_two_digits_reads(k % 60);
    let s = hms_text(k);
    assert(s =~= a + (seq![':'] + (b + (seq![':'] + c))));
    assert forall|i: int| 0 <= i < s.len() implies (is_digit(#[trigger] s[i]) || s[i] == ':') by {
        if i < a.len() {
            assert(s[i] == a[i]);
        } else if i == a.len() {
        } else if i < a.len() + 1 + b.len() {
            assert(s[i] == b[i - a.len() - 1]);
        } else if i == a.len() + 1 + b.len() {
        } else {
            assert(s[i] == c[i - a.len() - 2 - b.len()]);
        }
    }
}

/// `hh:mm:ss` is no floating-point text, has no `.` and is its own trim.
proof fn lemma_hms_not_float(k: nat)
    requires
        k <= u64::MAX,
    ensures
        !is_float_text(hms_text(k)),
        find_index(hms_text(k), '.') is None,
        trim(hms_text(k)) == hms_text(k),
{
    lemma_hms_shape(k);
    let (a, b, c) = hms_fields(k);
    let s = hms_text(k);
    assert forall|i: int| 0 <= i < s.len() implies s[i] != '.' by {
        assert(is_digit(s[i]) || s[i] == ':');
    }
    lemma_find_none(s, '.');
    assert forall|j: int| 0 <= j < s.len() implies s[j] != 'e' && s[j] != 'E' by {
        assert(is_digit(s[j]) || s[j] == ':');
    }
    lemma_exponent_index_none(s);
    assert(!is_digit(s[a.len() as int]));
    assert(!all_digits(s));
    assert(is_digit(s[0]));
    assert(is_digit(s[s.len() - 1]));
    lemma_trim_fixed(s);
    reveal_strlit("inf");
    reveal_strlit("infinity");
    reveal_strlit("nan");
    assert(lower_seq(s)[0] == s[0]);
    assert(lower_seq(s) != "inf"@);
    assert(lower_seq(s) != "infinity"@);
    assert(lower_seq(s) != "nan"@);
}

/// `hh:mm:ss` splits into its three fields.
proof fn lemma_hms_clock_fields(k: nat)
    requires
        k <= u64::MAX,
    ensures
        clock_fields(hms_text(k)) == Some(hms_fields(k)),
{
    lemma_hms_shape(k);
    let (a, b, c) = hms_fields(k);
    let colon = seq![':'];
    let s = hms_text(k);
    let r2 = b + (colon + c);
    let r1 = colon + r2;
    assert(!a.contains(':'));
    assert(!b.contains(':'));
    assert(!c.contains(':'));
    lemma_find_none(c, ':');
    assert(r1[0] == ':');
    assert(find_index(r1, ':') == Some(0int));
    lemma_find_concat(a, r1, ':');
    assert((colon + c)[0] == ':');
    assert(find_index(colon + c, ':') == Some(0int));
    lemma_find_concat(b, colon + c, ':');
    assert(s.take(a.len() as int) =~= a);
    assert(s.skip(a.len() as int + 1) =~= r2);
    assert(r2.take(b.len() as int) =~= b);
    assert(r2.skip(b.len() as int + 1) =~= c);
}

/// `hh:mm:ss` is not blank, is its own trim and holds no `;`.
pub proof fn lemma_hms_plain(n: u64)
    ensures
        hms_text(n as nat).len() > 0,
        trim(hms_text(n as nat)) == hms_text(n as nat),
        !hms_text(n as nat).contains(';'),
{
    let k = n as nat;
    lemma_hms_shape(k);
    lemma_hms_not_float(k);
    let s = hms_text(k);
    assert forall|i: int| 0 <= i < s.len() implies s[i] != ';' by {
        assert(is_digit(s[i]) || s[i] == ':');
    }
}

/// The text `format_hms` writes for a whole number of seconds reads back
/// as that number of seconds, with no fraction: a whole-second timeout
/// survives being written and read.
pub proof fn law_formatted_timespan_reads_back(n: u64)
    ensures
        timespan_spec(hms_text(n as nat)) == Ok::<Option<(int, Option<Seq<char>>)>, TimespanProblem>(
            Some((n as int, None)),
        ),
{
    let k = n as nat;
    lemma_hms_not_float(k);
    lemma_hms_clock_fields(k);
    lemma_two_digits_reads(k / 3600);
    lemma_two_digits_reads((k % 3600) / 60);
    lemma_two_digits_reads(k % 60);
    let s = hms_text(k);
    assert(days_split(s) == Some((0int, s)));
    assert(fraction_split(s) == Some((s, None::<Seq<char>>)));
    assert(k == (k / 3600) * 3600 + ((k % 3600) / 60) * 60 + k % 60);
}

} // verus!
