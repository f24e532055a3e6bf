//! The wake-up schedule model: time-of-day and duration parsing and
//! rendering, schedules and their collection.

use vstd::prelude::*;
use chrono::Timelike;
use crate::cycle::str_equal;
use crate::percent::{all_digit_chars, first_index, read_digits};
use crate::text::{all_digits, decimal, digits_value, push_decimal};

verus! {

/// Failures of time and duration parsing; each carries the normalized
/// input.
#[derive(Debug, PartialEq, Eq)]
pub enum ParseError {
    InvalidTime(String),
    InvalidDuration(String),
}

/// Failures of schedule validation.
#[derive(Debug, PartialEq, Eq)]
pub enum ScheduleError {
    NoTimesSpecified,
    InvalidTime(String),
}

/// A span of time: whole seconds and the nanoseconds beyond them.
#[derive(Clone, Copy, Debug, PartialEq, Eq, Structural)]
pub struct Duration {
    pub secs: u64,
    pub nanos: u32,
}

/// A time of day to the second.
#[derive(Clone, Copy, Debug, PartialEq, Eq, Structural)]
pub struct TimeOfDay {
    pub hour: u32,
    pub minute: u32,
    pub second: u32,
}

/// Nanoseconds per second.
pub const NANOS_PER_SEC: u64 = 1000000000;

/// The longest span, in seconds, that a duration text may denote.
pub const MAX_SPAN_SECS: u64 = 1000000000000000000;

impl Duration {
    /// A span of whole seconds.
    pub fn from_secs(secs: u64) -> (r: Duration)
        ensures
            r.secs == secs && r.nanos == 0,
    {
        Duration { secs, nanos: 0 }
    }
}

impl TimeOfDay {
    /// Whether the fields denote a time of day.
    pub open spec fn valid(&self) -> bool {
        self.hour < 24 && self.minute < 60 && self.second < 60
    }

    /// The time `hour:minute:second`, if it is one.
    pub fn from_hms_opt(hour: u32, minute: u32, second: u32) -> (r: Option<TimeOfDay>)
        ensures
            r is Some <==> (hour < 24 && minute < 60 && second < 60),
            r matches Some(t) ==> t.hour == hour && t.minute == minute && t.second == second,
    {
        if hour < 24 && minute < 60 && second < 60 {
            Some(TimeOfDay { hour, minute, second })
        } else {
            None
        }
    }
}

/// Ten to the power `n`.
pub open spec fn pow10(n: nat) -> nat
    decreases n,
{
    if n == 0 { 1 } else { 10 * pow10((n - 1) as nat) }
}

/// Seconds per unit letter: 's', 'm', 'h' and 'd'.
pub open spec fn unit_secs(c: char) -> Option<nat> {
    if c == 's' { Some(1) } else if c == 'm' { Some(60) } else if c == 'h' { Some(3600) } else if c == 'd' { Some(86400) } else { None }
}

/// `t` with every trailing `c` removed.
pub open spec fn strip_trailing(t: Seq<char>, c: char) -> Seq<char>
    decreases t.len(),
{
    if t.len() > 0 && t.last() == c { strip_trailing(t.drop_last(), c) } else { t }
}

/// The span that a decimal number of units denotes: an optional '+', digits,
/// optionally '.' and up to eighteen fractional digits (at least one digit
/// in all), times `unit` seconds, truncated to whole nanoseconds; at most
/// `MAX_SPAN_SECS` whole seconds from the integer part.
pub open spec fn decimal_span(t: Seq<char>, unit: nat) -> Option<(nat, nat)> {
    let body = if t.len() > 0 && t[0] == '+' { t.drop_first() } else { t };
    let dot = first_index(body, '.');
    let ip = body.subrange(0, dot as int);
    let fp = if dot < body.len() { body.subrange(dot as int + 1, body.len() as int) } else { seq![] };
    if all_digits(ip) && all_digits(fp) && ip.len() + fp.len() > 0 && fp.len() <= 18
        && digits_value(ip) * unit <= MAX_SPAN_SECS {
        let frac: int = (digits_value(fp) * unit * 1000000000) as int / pow10(fp.len()) as int;
        Some((((digits_value(ip) * unit) as int + frac / 1000000000) as nat, (frac % 1000000000) as nat))
    } else {
        None
    }
}

/// The span a normalized duration text denotes: a number followed by the
/// unit letters of one unit ('s', 'm', 'h', 'd'), or a bare number of
/// seconds.
pub open spec fn duration_span(t: Seq<char>) -> Option<(nat, nat)> {
    if t.len() > 0 && unit_secs(t.last()) is Some {
        decimal_span(strip_trailing(t, t.last()), unit_secs(t.last()).unwrap())
    } else {
        decimal_span(t, 1)
    }
}

fn unit_of(c: char) -> (r: u64)
    ensures
        unit_secs(c) matches Some(u) ==> r == u,
        unit_secs(c) is None ==> r == 0,
{
    if c == 's' { 1 } else if c == 'm' { 60 } else if c == 'h' { 3600 } else if c == 'd' { 86400 } else { 0 }
}

fn pow10_exec(n: usize) -> (r: u128)
    requires
        n <= 18,
    ensures
        r == pow10(n as nat),
        r <= 1000000000000000000,
{
    let mut p: u128 = 1;
    let mut i: usize = 0;
    while i < n
        invariant
            i <= n <= 18,
            p == pow10(i as nat),
            p <= pow10(i as nat),
            pow10(i as nat) <= 1000000000000000000,
        decreases n - i,
    {
        proof {
            lemma_pow10_bound((i + 1) as nat);
        }
        p = p * 10;
        i = i + 1;
    }
    proof {
        lemma_pow10_bound(n as nat);
    }
    p
}

proof fn lemma_pow10_mono(a: nat, b: nat)
    requires
        a <= b,
    ensures
        1 <= pow10(a) <= pow10(b),
    decreases b,
{
    if b > a {
        lemma_pow10_mono(a, (b - 1) as nat);
    } else {
        lemma_pow10_pos(a);
    }
}

proof fn lemma_pow10_pos(n: nat)
    ensures
        pow10(n) >= 1,
    decreases n,
{
    if n > 0 {
        lemma_pow10_pos((n - 1) as nat);
    }
}

proof fn lemma_pow10_bound(n: nat)
    requires
        n <= 18,
    ensures
        1 <= pow10(n) <= 1000000000000000000,
        pow10(n) * 10 == pow10(n + 1),
{
    lemma_pow10_mono(n, 18);
    assert(pow10(18) == 1000000000000000000) by {
        reveal_with_fuel(pow10, 19);
    }
}

/// The nanoseconds that `fval / p` of a `unit`-second unit amount to,
/// truncated.
fn scaled_fraction(fval: u64, unit: u64, p: u128) -> (r: u128)
    requires
        fval < p <= 1000000000000000000,
        1 <= unit <= 86400,
    ensures
        r as int == (fval as int * unit as int * 1000000000) / p as int,
        r < unit as int * 1000000000,
{
    assert(fval as int * unit as int * 1000000000 < 0x1_0000_0000_0000_0000_0000_0000_0000) by (nonlinear_arith)
        requires fval < 1000000000000000000, unit <= 86400;
    let num: u128 = fval as u128 * unit as u128 * 1000000000u128;
    let frac = num / p;
    assert(frac < unit as int * 1000000000) by (nonlinear_arith)
        requires frac as int == num as int / p as int, num as int == fval as int * unit as int * 1000000000, fval < p, p > 0, unit >= 1;
    frac
}

/// Reads `s[from..to]` as a decimal number of `unit`-second units; see
/// `decimal_span`.
#[verifier::rlimit(40)]
fn read_span(s: &str, from: usize, to: usize, unit: u64) -> (r: Option<Duration>)
    requires
        from <= to <= s@.len(),
        1 <= unit <= 86400,
    ensures
        r is Some <==> decimal_span(s@.subrange(from as int, to as int), unit as nat) is Some,
        r matches Some(d) ==> decimal_span(s@.subrange(from as int, to as int), unit as nat) == Some((d.secs as nat, d.nanos as nat)),
{
    let ghost t = s@.subrange(from as int, to as int);
    let mut start = from;
    if from < to && s.get_char(from) == '+' {
        start = from + 1;
    }
    let ghost body = if t.len() > 0 && t[0] == '+' { t.drop_first() } else { t };
    assert(body =~= s@.subrange(start as int, to as int));
    let mut dot = start;
    while dot < to && s.get_char(dot) != '.'
        invariant
            start <= dot <= to <= s@.len(),
            body =~= s@.subrange(start as int, to as int),
            forall|j: int| 0 <= j < dot - start ==> body[j] != '.',
        decreases to - dot,
    {
        dot = dot + 1;
    }
    proof {
        crate::percent::lemma_first_index(body, '.', dot - start);
    }
    let ghost ip = body.subrange(0, dot - start);
    assert(s@.subrange(start as int, dot as int) =~= ip);
    let frac_from: usize = if dot < to { dot + 1 } else { to };
    let ghost fp = if dot - start < body.len() { body.subrange(dot - start + 1, body.len() as int) } else { seq![] };
    assert(s@.subrange(frac_from as int, to as int) =~= fp);
    if dot == start && frac_from == to {
        return None;
    }
    if to - frac_from > 18 {
        return None;
    }
    if !all_digit_chars(s, frac_from, to) {
        return None;
    }
    let limit = MAX_SPAN_SECS / unit;
    let whole = match read_digits(s, start, dot, limit) {
        Some(w) => w,
        None => {
            proof {
                if all_digits(ip) && digits_value(ip) <= limit {
                } else if all_digits(ip) {
                    assert(digits_value(ip) * unit > MAX_SPAN_SECS) by (nonlinear_arith)
                        requires digits_value(ip) > limit, limit == MAX_SPAN_SECS / unit, unit >= 1;
                }
            }
            return None;
        }
    };
    assert(whole * unit <= MAX_SPAN_SECS) by (nonlinear_arith)
        requires whole <= limit, limit == MAX_SPAN_SECS / unit, unit >= 1;
    proof {
        lemma_digits_below_pow10(fp);
        lemma_pow10_bound(fp.len());
    }
    let fval = match read_digits(s, frac_from, to, 999999999999999999) {
        Some(f) => f,
        None => {
            return None;
        }
    };
    let p = pow10_exec(to - frac_from);
    proof {
        lemma_digits_below_pow10(fp);
    }
    let frac = scaled_fraction(fval, unit, p);
    let secs = whole * unit + (frac / 1000000000u128) as u64;
    let nanos = (frac % 1000000000u128) as u32;
    Some(Duration { secs, nanos })
}

proof fn lemma_digits_below_pow10(s: Seq<char>)
    ensures
        digits_value(s) < pow10(s.len()),
    decreases s.len(),
{
    if s.len() > 0 {
        lemma_digits_below_pow10(s.drop_last());
        let d = match crate::text::digit_value(s.last()) { Some(d) => d, None => 0 };
        assert(digits_value(s) < pow10(s.len())) by (nonlinear_arith)
            requires digits_value(s) == digits_value(s.drop_last()) * 10 + d,
                d <= 9, digits_value(s.drop_last()) < pow10(s.drop_last().len()),
                pow10(s.len()) == 10 * pow10(s.drop_last().len());
    }
}

/// Parses a duration text that is already trimmed and lowercased; see
/// `duration_span`.
#[verifier::rlimit(40)]
pub fn parse_normalized_duration(text: &str) -> (r: Result<Duration, ParseError>)
    ensures
        r is Ok <==> duration_span(text@) is Some,
        r matches Ok(d) ==> duration_span(text@) == Some((d.secs as nat, d.nanos as nat)),
        r matches Err(e) ==> (e matches ParseError::InvalidDuration(m) && m@ == text@),
{
    let n = text.unicode_len();
    let mut end = n;
    let mut unit: u64 = 1;
    if n > 0 {
        let c = text.get_char(n - 1);
        let u = unit_of(c);
        if u > 0 {
            unit = u;
            assert(text@.subrange(0, end as int) =~= text@);
            while end > 0 && text.get_char(end - 1) == c
                invariant
                    end <= n == text@.len(),
                    n > 0,
                    c == text@.last(),
                    strip_trailing(text@, c) == strip_trailing(text@.subrange(0, end as int), c),
                decreases end,
            {
                assert(text@.subrange(0, end as int).drop_last() =~= text@.subrange(0, end - 1));
                end = end - 1;
            }
            assert(text@.subrange(0, end as int) == strip_trailing(text@.subrange(0, end as int), c));
        }
    }
    proof {
        if n > 0 && unit_secs(text@.last()) is Some {
        } else {
            assert(text@.subrange(0, n as int) =~= text@);
        }
        assert(text@.subrange(0, n as int) =~= text@);
    }
    match read_span(text, 0, end, unit) {
        Some(d) => Ok(d),
        None => Err(ParseError::InvalidDuration(String::from_str(text))),
    }
}

/// Whether a character has Unicode's White_Space property.
pub open spec fn white_space(c: char) -> bool {
    ||| '\u{9}' <= c && c <= '\u{d}'
    ||| c == ' ' || c == '\u{85}' || c == '\u{a0}' || c == '\u{1680}'
    ||| '\u{2000}' <= c && c <= '\u{200a}'
    ||| c == '\u{2028}' || c == '\u{2029}' || c == '\u{202f}' || c == '\u{205f}' || c == '\u{3000}'
}

/// The text without its leading white space.
pub open spec fn trim_start(s: Seq<char>) -> Seq<char>
    decreases s.len(),
{
    if s.len() > 0 && white_space(s[0]) { trim_start(s.drop_first()) } else { s }
}

/// The text without its trailing white space.
pub open spec fn trim_end(s: Seq<char>) -> Seq<char>
    decreases s.len(),
{
    if s.len() > 0 && white_space(s.last()) { trim_end(s.drop_last()) } else { s }
}

/// The text with leading and trailing white space removed.
pub open spec fn trimmed(s: Seq<char>) -> Seq<char> {
    trim_end(trim_start(s))
}

/// The text with every character lowercased.
pub uninterp spec fn lowercased(s: Seq<char>) -> Seq<char>;

/// Relies on str::trim: the text without leading and trailing characters
/// that have the White_Space property.
#[verifier::external_body]
pub fn trim_text(s: &str) -> (r: &str)
    ensures
        r@ == trimmed(s@),
{
    s.trim()
}

/// Relies on str::to_lowercase: the lowercase form of the text.
#[verifier::external_body]
fn lowercase_text(s: &str) -> (r: String)
    ensures
        r@ == lowercased(s@),
{
    s.to_lowercase()
}

/// The form in which time and duration texts are read: trimmed, then
/// lowercased.
pub open spec fn normalized(s: Seq<char>) -> Seq<char> {
    lowercased(trimmed(s))
}

/// Trims and lowercases a time or duration text.
pub fn normalize(input: &str) -> (r: String)
    ensures
        r@ == normalized(input@),
{
    lowercase_text(trim_text(input))
}

/// Parses a duration such as "90", "60s", "5m", "1h" or "0.5d" (surrounding
/// whitespace and letter case do not matter); see `duration_span`.
pub fn parse_duration(input: &str) -> (r: Result<Duration, ParseError>)
    ensures
        r is Ok <==> duration_span(normalized(input@)) is Some,
        r matches Ok(d) ==> duration_span(normalized(input@)) == Some((d.secs as nat, d.nanos as nat)),
        r matches Err(e) ==> (e matches ParseError::InvalidDuration(m) && m@ == normalized(input@)),
{
    let text = normalize(input);
    parse_normalized_duration(text.as_str())
}

/// The compact text of a span of whole seconds: days, hours and minutes
/// above a day ("1d1h1m", zero parts after the days left out); hours and
/// minutes above an hour; minutes and seconds above a minute; else seconds.
pub open spec fn duration_text(total: nat) -> Seq<char> {
    if total >= 86400 {
        let days = total / 86400;
        let rem = total % 86400;
        let hours = rem / 3600;
        let minutes = (rem % 3600) / 60;
        decimal(days) + "d"@
            + (if hours > 0 { decimal(hours) + "h"@ } else { seq![] })
            + (if minutes > 0 { decimal(minutes) + "m"@ } else { seq![] })
    } else if total >= 3600 {
        let hours = total / 3600;
        let minutes = (total % 3600) / 60;
        decimal(hours) + "h"@ + (if minutes > 0 { decimal(minutes) + "m"@ } else { seq![] })
    } else if total >= 60 {
        let minutes = total / 60;
        let seconds = total % 60;
        decimal(minutes) + "m"@ + (if seconds > 0 { decimal(seconds) + "s"@ } else { seq![] })
    } else {
        decimal(total) + "s"@
    }
}

/// Renders a span's whole seconds; see `duration_text`.
pub fn format_duration(duration: &Duration) -> (r: String)
    ensures
        r@ == duration_text(duration.secs as nat),
{
    let total = duration.secs;
    let mut out = String::new();
    if total >= 86400 {
        let rem = total % 86400;
        let hours = rem / 3600;
        let minutes = (rem % 3600) / 60;
        push_decimal(&mut out, total / 86400);
        out.append("d");
        if hours > 0 {
            push_decimal(&mut out, hours);
            out.append("h");
        }
        if minutes > 0 {
            push_decimal(&mut out, minutes);
            out.append("m");
        }
    } else if total >= 3600 {
        let minutes = (total % 3600) / 60;
        push_decimal(&mut out, total / 3600);
        out.append("h");
        if minutes > 0 {
            push_decimal(&mut out, minutes);
            out.append("m");
        }
    } else if total >= 60 {
        let seconds = total % 60;
        push_decimal(&mut out, total / 60);
        out.append("m");
        if seconds > 0 {
            push_decimal(&mut out, seconds);
            out.append("s");
        }
    } else {
        push_decimal(&mut out, total);
        out.append("s");
    }
    assert(out@ =~= duration_text(total as nat));
    out
}

/// The hour, minute and second of a time that chrono reads from `text` in
/// the strftime format `fmt`.
pub uninterp spec fn chrono_time(text: Seq<char>, fmt: Seq<char>) -> Option<(u32, u32, u32)>;

/// Relies on chrono::NaiveTime::parse_from_str and chrono's Timelike
/// accessors: the time `text` denotes in the format `fmt`, whose hour lies
/// in 0..=23 and whose minute and second lie in 0..=59.
#[verifier::external_body]
fn chrono_parse_time(text: &str, fmt: &str) -> (r: Option<TimeOfDay>)
    ensures
        r matches Some(t) ==> chrono_time(text@, fmt@) == Some((t.hour, t.minute, t.second)) && t.valid(),
        r is None ==> chrono_time(text@, fmt@) is None,
{
    chrono::NaiveTime::parse_from_str(text, fmt)
        .ok()
        .map(|t| TimeOfDay { hour: t.hour(), minute: t.minute(), second: t.second() })
}

/// Two decimal digits of a number below one hundred.
pub open spec fn two_digits(n: nat) -> Seq<char> {
    seq![crate::text::digit_char(n / 10), crate::text::digit_char(n % 10)]
}

/// Relies on chrono::NaiveTime::format with "%H:%M": the zero-padded hour
/// and minute.
#[verifier::external_body]
fn chrono_format_hm(t: &TimeOfDay) -> (r: String)
    requires
        t.valid(),
    ensures
        r@ == two_digits(t.hour as nat) + ":"@ + two_digits(t.minute as nat),
{
    chrono::NaiveTime::from_hms_opt(t.hour, t.minute, t.second).unwrap().format("%H:%M").to_string()
}

/// A time of day as "HH:MM".
pub fn format_time(time: &TimeOfDay) -> (r: String)
    requires
        time.valid(),
    ensures
        r@ == two_digits(time.hour as nat) + ":"@ + two_digits(time.minute as nat),
{
    chrono_format_hm(time)
}

/// `s` with every trailing occurrence of the two-letter `suffix` removed.
pub open spec fn strip_suffix_all(s: Seq<char>, suffix: Seq<char>) -> Seq<char>
    decreases s.len(),
{
    if s.len() >= 2 && suffix.len() == 2 && s.subrange(s.len() - 2, s.len() as int) == suffix {
        strip_suffix_all(s.subrange(0, s.len() - 2), suffix)
    } else {
        s
    }
}

/// Whether `s` ends with the two-letter `suffix`.
pub open spec fn ends_with2(s: Seq<char>, suffix: Seq<char>) -> bool {
    s.len() >= 2 && s.subrange(s.len() - 2, s.len() as int) == suffix
}

/// The value of an unsigned number text (optional '+', then digits) if it
/// is at most `limit`.
pub open spec fn number_up_to(s: Seq<char>, limit: nat) -> Option<nat> {
    let body = if s.len() > 0 && s[0] == '+' { s.drop_first() } else { s };
    if body.len() > 0 && all_digits(body) && digits_value(body) <= limit { Some(digits_value(body)) } else { None }
}

/// The time a twelve-hour text denotes: "8am", "2pm", "12:30am", ... The
/// hour lies in 1..=12 and the minute, when given, in 0..=59; 12am is
/// midnight and 12pm noon.
pub open spec fn twelve_hour_time(t: Seq<char>) -> Option<TimeOfDay> {
    let pm = ends_with2(t, "pm"@);
    let am = ends_with2(t, "am"@);
    if !(pm || am) {
        None
    } else {
        let core = strip_suffix_all(strip_suffix_all(t, "pm"@), "am"@);
        let colon = first_index(core, ':');
        let hs = core.subrange(0, colon as int);
        let rest = if colon < core.len() { core.subrange(colon as int + 1, core.len() as int) } else { seq![] };
        let ms = rest.subrange(0, first_index(rest, ':') as int);
        let hour = number_up_to(hs, 12);
        let minute = if colon < core.len() { number_up_to(ms, 59) } else { Some(0nat) };
        match (hour, minute) {
            (Some(h), Some(m)) => if h >= 1 {
                let h24 = if pm { if h == 12 { 12nat } else { h + 12 } } else { if h == 12 { 0nat } else { h } };
                Some(TimeOfDay { hour: h24 as u32, minute: m as u32, second: 0 })
            } else {
                None
            },
            _ => None,
        }
    }
}

fn ends_with_pair(s: &str, a: char, b: char) -> (r: bool)
    ensures
        r == (s@.len() >= 2 && s@[s@.len() - 2] == a && s@[s@.len() - 1] == b),
{
    let n = s.unicode_len();
    n >= 2 && s.get_char(n - 2) == a && s.get_char(n - 1) == b
}

/// The end of `s[..end]` once every trailing `ab` pair is removed.
fn strip_pairs(s: &str, end: usize, a: char, b: char) -> (r: usize)
    requires
        end <= s@.len(),
    ensures
        r <= end,
        s@.subrange(0, r as int) == strip_suffix_all(s@.subrange(0, end as int), seq![a, b]),
{
    let mut e = end;
    while e >= 2 && s.get_char(e - 2) == a && s.get_char(e - 1) == b
        invariant
            e <= end <= s@.len(),
            strip_suffix_all(s@.subrange(0, e as int), seq![a, b]) == strip_suffix_all(s@.subrange(0, end as int), seq![a, b]),
        decreases e,
    {
        let ghost cur = s@.subrange(0, e as int);
        assert(cur.subrange(cur.len() - 2, cur.len() as int) =~= seq![a, b]);
        assert(cur.subrange(0, cur.len() - 2) =~= s@.subrange(0, e - 2));
        e = e - 2;
    }
    let ghost cur = s@.subrange(0, e as int);
    if e >= 2 {
        assert(cur.subrange(cur.len() - 2, cur.len() as int) != seq![a, b]) by {
            if cur.subrange(cur.len() - 2, cur.len() as int) == seq![a, b] {
                assert(cur.subrange(cur.len() - 2, cur.len() as int)[0] == s@[e - 2]);
                assert(cur.subrange(cur.len() - 2, cur.len() as int)[1] == s@[e - 1]);
            }
        }
    }
    e
}

/// Reads `s[from..to]` as a number of at most `limit`; see `number_up_to`.
pub fn number_in(s: &str, from: usize, to: usize, limit: u64) -> (r: Option<u64>)
    requires
        from <= to <= s@.len(),
        limit < 0x1000_0000_0000_0000,
    ensures
        r is Some <==> number_up_to(s@.subrange(from as int, to as int), limit as nat) is Some,
        r matches Some(v) ==> number_up_to(s@.subrange(from as int, to as int), limit as nat) == Some(v as nat),
{
    let ghost t = s@.subrange(from as int, to as int);
    let start = if from < to && s.get_char(from) == '+' { from + 1 } else { from };
    let ghost body = if t.len() > 0 && t[0] == '+' { t.drop_first() } else { t };
    assert(body =~= s@.subrange(start as int, to as int));
    if start == to {
        return None;
    }
    read_digits(s, start, to, limit)
}

/// The time a normalized text denotes, given what chrono made of it as
/// "%H:%M" and as "%H:%M:%S": the first of those that succeeded, else the
/// twelve-hour reading; see `twelve_hour_time`.
#[verifier::rlimit(40)]
pub fn time_from_parts(text: &str, hm: Option<TimeOfDay>, hms: Option<TimeOfDay>) -> (r: Result<TimeOfDay, ParseError>)
    ensures
        hm matches Some(t) ==> r == Ok::<TimeOfDay, ParseError>(t),
        hm is None && hms is Some ==> r == Ok::<TimeOfDay, ParseError>(hms.unwrap()),
        hm is None && hms is None ==> match twelve_hour_time(text@) {
            Some(t) => r == Ok::<TimeOfDay, ParseError>(t),
            None => r matches Err(ParseError::InvalidTime(m)) && m@ == text@,
        },
{
    if let Some(t) = hm {
        return Ok(t);
    }
    if let Some(t) = hms {
        return Ok(t);
    }
    let n = text.unicode_len();
    let pm = ends_with_pair(text, 'p', 'm');
    let am = ends_with_pair(text, 'a', 'm');
    proof {
        reveal_strlit("pm");
        reveal_strlit("am");
        assert("pm"@ =~= seq!['p', 'm']);
        assert("am"@ =~= seq!['a', 'm']);
        if n >= 2 {
            assert(text@.subrange(n - 2, n as int) == "pm"@ <==> (text@[n - 2] == 'p' && text@[n - 1] == 'm')) by {
                if text@[n - 2] == 'p' && text@[n - 1] == 'm' {
                    assert(text@.subrange(n - 2, n as int) =~= "pm"@);
                }
                if text@.subrange(n - 2, n as int) == "pm"@ {
                    assert(text@.subrange(n - 2, n as int)[0] == 'p');
                    assert(text@.subrange(n - 2, n as int)[1] == 'm');
                }
            }
            assert(text@.subrange(n - 2, n as int) == "am"@ <==> (text@[n - 2] == 'a' && text@[n - 1] == 'm')) by {
                if text@[n - 2] == 'a' && text@[n - 1] == 'm' {
                    assert(text@.subrange(n - 2, n as int) =~= "am"@);
                }
                if text@.subrange(n - 2, n as int) == "am"@ {
                    assert(text@.subrange(n - 2, n as int)[0] == 'a');
                    assert(text@.subrange(n - 2, n as int)[1] == 'm');
                }
            }
        }
    }
    if !(pm || am) {
        return Err(ParseError::InvalidTime(String::from_str(text)));
    }
    assert("pm"@ =~= seq!['p', 'm']);
    assert("am"@ =~= seq!['a', 'm']);
    assert(text@.subrange(0, n as int) =~= text@);
    let e1 = strip_pairs(text, n, 'p', 'm');
    let e2 = strip_pairs(text, e1, 'a', 'm');
    let ghost core = text@.subrange(0, e2 as int);
    let mut colon: usize = 0;
    while colon < e2 && text.get_char(colon) != ':'
        invariant
            colon <= e2 <= text@.len(),
            core == text@.subrange(0, e2 as int),
            forall|j: int| 0 <= j < colon ==> core[j] != ':',
        decreases e2 - colon,
    {
        colon = colon + 1;
    }
    proof {
        crate::percent::lemma_first_index(core, ':', colon as int);
    }
    assert(core.subrange(0, colon as int) =~= text@.subrange(0, colon as int));
    let hour = number_in(text, 0, colon, 12);
    let minute: Option<u64> = if colon < e2 {
        let ghost rest = core.subrange(colon as int + 1, core.len() as int);
        let mut c2 = colon + 1;
        while c2 < e2 && text.get_char(c2) != ':'
            invariant
                colon + 1 <= c2 <= e2 <= text@.len(),
                rest == text@.subrange(colon + 1, e2 as int),
                forall|j: int| 0 <= j < c2 - colon - 1 ==> rest[j] != ':',
            decreases e2 - c2,
        {
            c2 = c2 + 1;
        }
        proof {
            crate::percent::lemma_first_index(rest, ':', c2 - colon - 1);
        }
        assert(rest.subrange(0, c2 - colon - 1) =~= text@.subrange(colon + 1, c2 as int));
        number_in(text, colon + 1, c2, 59)
    } else {
        Some(0)
    };
    match (hour, minute) {
        (Some(h), Some(m)) => {
            if h >= 1 {
                let h24: u64 = if pm { if h == 12 { 12 } else { h + 12 } } else { if h == 12 { 0 } else { h } };
                Ok(TimeOfDay { hour: h24 as u32, minute: m as u32, second: 0 })
            } else {
                Err(ParseError::InvalidTime(String::from_str(text)))
            }
        }
        _ => Err(ParseError::InvalidTime(String::from_str(text))),
    }
}

/// Parses a time of day: "HH:MM" or "HH:MM:SS" as chrono reads them, else
/// a twelve-hour time such as "8am" or "2:30pm" (surrounding whitespace and
/// letter case do not matter).
pub fn parse_time(input: &str) -> (r: Result<TimeOfDay, ParseError>)
    ensures
        chrono_time(normalized(input@), "%H:%M"@) matches Some((h, m, s)) ==>
            r == Ok::<TimeOfDay, ParseError>(TimeOfDay { hour: h, minute: m, second: s }),
        chrono_time(normalized(input@), "%H:%M"@) is None ==> (chrono_time(normalized(input@), "%H:%M:%S"@) matches Some((h, m, s)) ==>
            r == Ok::<TimeOfDay, ParseError>(TimeOfDay { hour: h, minute: m, second: s })),
        chrono_time(normalized(input@), "%H:%M"@) is None && chrono_time(normalized(input@), "%H:%M:%S"@) is None ==>
            match twelve_hour_time(normalized(input@)) {
                Some(t) => r == Ok::<TimeOfDay, ParseError>(t),
                None => r matches Err(ParseError::InvalidTime(m)) && m@ == normalized(input@),
            },
        r matches Ok(t) ==> t.valid(),
{
    let text = normalize(input);
    let hm = chrono_parse_time(text.as_str(), "%H:%M");
    let hms = if hm.is_none() { chrono_parse_time(text.as_str(), "%H:%M:%S") } else { None };
    time_from_parts(text.as_str(), hm, hms)
}

/// A wake-up schedule: times of day, an optional repeat interval, and the
/// account to wake (all cycling accounts when none).
pub struct WakeupSchedule {
    pub name: String,
    pub account: Option<String>,
    pub times: Vec<TimeOfDay>,
    pub interval: Option<Duration>,
    pub wake_system: bool,
    pub enabled: bool,
}

/// The persisted set of schedules.
pub struct WakeupConfig {
    pub schedules: Vec<WakeupSchedule>,
}

impl WakeupSchedule {
    /// An enabled schedule named `name` with no times, no interval, no
    /// account and no system wake.
    pub fn new(name: &str) -> (r: WakeupSchedule)
        ensures
            r.name@ == name@,
            r.account is None,
            r.times@.len() == 0,
            r.interval is None,
            !r.wake_system,
            r.enabled,
    {
        WakeupSchedule {
            name: String::from_str(name),
            account: None,
            times: Vec::new(),
            interval: None,
            wake_system: false,
            enabled: true,
        }
    }

    /// The schedule with its times replaced.
    pub fn with_times(self, times: Vec<TimeOfDay>) -> (r: WakeupSchedule)
        ensures
            r == (WakeupSchedule { times, ..self }),
    {
        WakeupSchedule { times, ..self }
    }

    /// The schedule repeating every `interval`.
    pub fn with_interval(self, interval: Duration) -> (r: WakeupSchedule)
        ensures
            r == (WakeupSchedule { interval: Some(interval), ..self }),
    {
        WakeupSchedule { interval: Some(interval), ..self }
    }

    /// The schedule waking `account` (all cycling accounts when `None`).
    pub fn with_account(self, account: Option<String>) -> (r: WakeupSchedule)
        ensures
            r == (WakeupSchedule { account, ..self }),
    {
        WakeupSchedule { account, ..self }
    }

    /// The schedule with system wake set as given.
    pub fn with_wake_system(self, wake_system: bool) -> (r: WakeupSchedule)
        ensures
            r == (WakeupSchedule { wake_system, ..self }),
    {
        WakeupSchedule { wake_system, ..self }
    }

    /// A schedule needs at least one time.
    pub fn validate(&self) -> (r: Result<(), ScheduleError>)
        ensures
            r is Ok <==> self.times@.len() > 0,
            r matches Err(e) ==> e == ScheduleError::NoTimesSpecified,
    {
        if self.times.len() == 0 {
            return Err(ScheduleError::NoTimesSpecified);
        }
        Ok(())
    }
}

/// Builds and validates a schedule.
pub fn create_schedule(
    name: &str,
    times: Vec<TimeOfDay>,
    interval: Option<Duration>,
    account: Option<String>,
    wake_system: bool,
) -> (r: Result<WakeupSchedule, ScheduleError>)
    ensures
        r is Ok <==> times@.len() > 0,
        r matches Err(e) ==> e == ScheduleError::NoTimesSpecified,
        r matches Ok(s) ==> s.name@ == name@ && s.times == times && s.interval == interval && s.account == account
            && s.wake_system == wake_system && s.enabled,
{
    let schedule = WakeupSchedule::new(name).with_times(times).with_account(account).with_wake_system(wake_system);
    let schedule = match interval {
        Some(i) => schedule.with_interval(i),
        None => schedule,
    };
    match schedule.validate() {
        Ok(()) => Ok(schedule),
        Err(e) => Err(e),
    }
}

/// Index of the first schedule named `name`, or `s.len()`.
pub open spec fn schedule_index(s: Seq<WakeupSchedule>, name: Seq<char>) -> nat
    decreases s.len(),
{
    if s.len() == 0 {
        0
    } else if s[0].name@ == name {
        0
    } else {
        1 + schedule_index(s.drop_first(), name)
    }
}

/// The schedules not named `name`, in order.
pub open spec fn others(s: Seq<WakeupSchedule>, name: Seq<char>) -> Seq<WakeupSchedule>
    decreases s.len(),
{
    if s.len() == 0 {
        seq![]
    } else if s.last().name@ == name {
        others(s.drop_last(), name)
    } else {
        others(s.drop_last(), name).push(s.last())
    }
}

proof fn lemma_schedule_index(s: Seq<WakeupSchedule>, name: Seq<char>, i: int)
    requires
        0 <= i <= s.len(),
        forall|j: int| 0 <= j < i ==> s[j].name@ != name,
        i == s.len() || s[i].name@ == name,
    ensures
        schedule_index(s, name) == i,
    decreases i,
{
    if i > 0 {
        lemma_schedule_index(s.drop_first(), name, i - 1);
    }
}

proof fn lemma_others_len(s: Seq<WakeupSchedule>, name: Seq<char>)
    ensures
        others(s, name).len() <= s.len(),
        others(s, name).len() == s.len() <==> forall|j: int| 0 <= j < s.len() ==> s[j].name@ != name,
    decreases s.len(),
{
    if s.len() > 0 {
        lemma_others_len(s.drop_last(), name);
        if others(s, name).len() == s.len() {
            assert forall|j: int| 0 <= j < s.len() implies s[j].name@ != name by {
                if j < s.len() - 1 {
                    assert(s[j] == s.drop_last()[j]);
                }
            }
        }
        if forall|j: int| 0 <= j < s.len() ==> s[j].name@ != name {
            assert forall|j: int| 0 <= j < s.drop_last().len() implies s.drop_last()[j].name@ != name by {
                assert(s.drop_last()[j] == s[j]);
            }
        }
    }
}

impl WakeupConfig {
    /// No schedules.
    pub fn new() -> (r: WakeupConfig)
        ensures
            r.schedules@.len() == 0,
    {
        WakeupConfig { schedules: Vec::new() }
    }

    fn find(&self, name: &str) -> (r: usize)
        ensures
            r as nat == schedule_index(self.schedules@, name@),
            r <= self.schedules@.len(),
    {
        let mut i: usize = 0;
        while i < self.schedules.len()
            invariant
                i <= self.schedules@.len(),
                forall|j: int| 0 <= j < i ==> self.schedules@[j].name@ != name@,
            decreases self.schedules.len() - i,
        {
            if str_equal(self.schedules[i].name.as_str(), name) {
                proof {
                    lemma_schedule_index(self.schedules@, name@, i as int);
                }
                return i;
            }
            i = i + 1;
        }
        proof {
            lemma_schedule_index(self.schedules@, name@, i as int);
        }
        i
    }

    /// Stores `schedule`, replacing the first schedule of the same name or
    /// appending it.
    pub fn add_schedule(&mut self, schedule: WakeupSchedule)
        ensures
            ({
                let i = schedule_index(old(self).schedules@, schedule.name@);
                final(self).schedules@ == if i < old(self).schedules@.len() {
                    old(self).schedules@.update(i as int, schedule)
                } else {
                    old(self).schedules@.push(schedule)
                }
            }),
    {
        let i = self.find(schedule.name.as_str());
        if i < self.schedules.len() {
            self.schedules.set(i, schedule);
        } else {
            self.schedules.push(schedule);
        }
    }

    /// The first schedule named `name`.
    pub fn get_schedule(&self, name: &str) -> (r: Option<&WakeupSchedule>)
        ensures
            ({
                let i = schedule_index(self.schedules@, name@);
                if i < self.schedules@.len() { r == Some(&self.schedules@[i as int]) } else { r is None }
            }),
    {
        let i = self.find(name);
        if i < self.schedules.len() {
            Some(&self.schedules[i])
        } else {
            None
        }
    }

    /// The first schedule named `name`, for changing it in place.
    pub fn get_schedule_mut(&mut self, name: &str) -> (r: Option<&mut WakeupSchedule>)
        ensures
            ({
                let i = schedule_index(old(self).schedules@, name@);
                if i < old(self).schedules@.len() {
                    r matches Some(s) && *s == old(self).schedules@[i as int]
                        && final(self).schedules@ == old(self).schedules@.update(i as int, *final(s))
                } else {
                    r is None && final(self).schedules@ == old(self).schedules@
                }
            }),
    {
        let i = self.find(name);
        if i < self.schedules.len() {
            Some(&mut self.schedules[i])
        } else {
            None
        }
    }

    /// Removes every schedule named `name`; whether any was removed.
    pub fn remove_schedule(&mut self, name: &str) -> (r: bool)
        ensures
            final(self).schedules@ == others(old(self).schedules@, name@),
            r == (final(self).schedules@.len() < old(self).schedules@.len()),
    {
        let mut src: Vec<WakeupSchedule> = Vec::new();
        std::mem::swap(&mut src, &mut self.schedules);
        let ghost orig = src@;
        let n = src.len();
        let mut kept: Vec<WakeupSchedule> = Vec::new();
        let mut k: usize = 0;
        assert(orig.take(0) =~= Seq::<WakeupSchedule>::empty());
        assert(orig.skip(0) =~= orig);
        while src.len() > 0
            invariant
                n == orig.len(),
                k <= n,
                src@ == orig.skip(k as int),
                kept@ == others(orig.take(k as int), name@),
            decreases src.len(),
        {
            let x = src.remove(0);
            proof {
                assert(orig.take(k + 1).drop_last() =~= orig.take(k as int));
                assert(orig.take(k + 1).last() == x);
                assert(src@ =~= orig.skip(k + 1));
            }
            if !str_equal(x.name.as_str(), name) {
                kept.push(x);
            }
            k = k + 1;
        }
        assert(orig.take(n as int) =~= orig);
        proof {
            lemma_others_len(orig, name@);
        }
        let removed = kept.len() < n;
        self.schedules = kept;
        removed
    }

    /// Removes every schedule.
    pub fn clear_schedules(&mut self)
        ensures
            final(self).schedules@.len() == 0,
    {
        self.schedules.clear();
    }
}

} // verus!
