//! Percentages as integers in hundredths of a percent ("points"): 100% is
//! 10000 points. Remote payloads carry percentages as decimal numbers; they
//! are read from their text, so no floating point is involved.

use vstd::prelude::*;
use crate::text::{all_digits, decimal, digit_value, digits_value, push_signed_decimal, signed_decimal};

verus! {

/// Points in one whole percent.
pub const POINTS_PER_PERCENT: i64 = 100;

/// One hundred percent, in points.
pub const FULL_POINTS: i64 = 10000;

/// The largest magnitude, in points, that a decoded percentage may have.
pub const POINTS_LIMIT: i64 = 1000000000;

/// Index of the first occurrence of `c` in `s`, or `s.len()` when absent.
pub open spec fn first_index(s: Seq<char>, c: char) -> nat
    decreases s.len(),
{
    if s.len() == 0 {
        0
    } else if s[0] == c {
        0
    } else {
        1 + first_index(s.drop_first(), c)
    }
}

/// The points contributed by the fractional digits `f` (only the first two
/// count: digits beyond hundredths are truncated).
pub open spec fn fraction_points(f: Seq<char>) -> nat {
    if f.len() == 0 {
        0
    } else if f.len() == 1 {
        digits_value(f) * 10
    } else {
        digits_value(f.subrange(0, 2))
    }
}

/// The unsigned part of a percentage text: `digits` or `digits.digits`.
pub open spec fn unsigned_points(body: Seq<char>) -> Option<nat> {
    let dot = first_index(body, '.');
    let int_part = body.subrange(0, dot as int);
    if dot == body.len() {
        if int_part.len() > 0 && all_digits(int_part) {
            Some(digits_value(int_part) * 100)
        } else {
            None
        }
    } else {
        let frac = body.subrange(dot as int + 1, body.len() as int);
        if int_part.len() > 0 && all_digits(int_part) && frac.len() > 0 && all_digits(frac) {
            Some(digits_value(int_part) * 100 + fraction_points(frac))
        } else {
            None
        }
    }
}

/// The percentage, in points, that a decimal text denotes: an optional '-',
/// digits, and optionally '.' and more digits. Digits beyond hundredths
/// are truncated. Any other text, or a magnitude above `POINTS_LIMIT`,
/// denotes nothing.
pub open spec fn points_of_text(s: Seq<char>) -> Option<int> {
    let neg = s.len() > 0 && s[0] == '-';
    let body = if neg { s.drop_first() } else { s };
    match unsigned_points(body) {
        Some(m) => if m <= POINTS_LIMIT {
            Some(if neg { -(m as int) } else { m as int })
        } else {
            None
        },
        None => None,
    }
}

/// `first_index` is the first position holding `c`.
pub proof fn lemma_first_index(s: Seq<char>, c: char, i: int)
    requires
        0 <= i <= s.len(),
        forall|j: int| 0 <= j < i ==> s[j] != c,
        i == s.len() || s[i] == c,
    ensures
        first_index(s, c) == i,
    decreases i,
{
    if i > 0 {
        lemma_first_index(s.drop_first(), c, i - 1);
    }
}

proof fn lemma_digits_prefix(s: Seq<char>, i: int)
    requires
        all_digits(s),
        0 <= i <= s.len(),
    ensures
        digits_value(s.subrange(0, i)) <= digits_value(s),
    decreases s.len(),
{
    if i < s.len() {
        let t = s.drop_last();
        assert(all_digits(t)) by {
            assert forall|j: int| 0 <= j < t.len() implies #[trigger] digit_value(t[j]) is Some by {
                assert(t[j] == s[j]);
            }
        }
        lemma_digits_prefix(t, i);
        assert(t.subrange(0, i) =~= s.subrange(0, i));
    } else {
        assert(s.subrange(0, i) =~= s);
    }
}

proof fn lemma_digits_step(s: Seq<char>, i: int)
    requires
        0 <= i < s.len(),
        digit_value(s[i]) is Some,
    ensures
        digits_value(s.subrange(0, i + 1)) == digits_value(s.subrange(0, i)) * 10 + digit_value(s[i]).unwrap(),
{
    assert(s.subrange(0, i + 1).drop_last() =~= s.subrange(0, i));
}

pub fn char_digit(c: char) -> (r: Option<u64>)
    ensures
        r is Some <==> digit_value(c) is Some,
        r is Some ==> r.unwrap() == digit_value(c).unwrap(),
        r is Some ==> r.unwrap() < 10,
{
    if '0' <= c && c <= '9' {
        Some((c as u32 - '0' as u32) as u64)
    } else {
        None
    }
}

/// Reads the digits `s[from..to]` as a number, or `None` when one of them
/// is not a digit or the number exceeds `limit`.
pub fn read_digits(s: &str, from: usize, to: usize, limit: u64) -> (r: Option<u64>)
    requires
        from <= to <= s@.len(),
        limit < 0x1000_0000_0000_0000,
    ensures
        r is Some <==> (all_digits(s@.subrange(from as int, to as int))
            && digits_value(s@.subrange(from as int, to as int)) <= limit),
        r is Some ==> r.unwrap() == digits_value(s@.subrange(from as int, to as int)),
{
    let ghost full = s@.subrange(from as int, to as int);
    let mut acc: u64 = 0;
    let mut i = from;
    while i < to
        invariant
            from <= i <= to <= s@.len(),
            full == s@.subrange(from as int, to as int),
            limit < 0x1000_0000_0000_0000,
            all_digits(full.subrange(0, i - from)),
            acc == digits_value(full.subrange(0, i - from)),
            acc <= limit,
        decreases to - i,
    {
        let c = s.get_char(i);
        let ghost k = (i - from) as int;
        assert(full[k] == c);
        match char_digit(c) {
            None => {
                assert(!all_digits(full));
                return None;
            }
            Some(d) => {
                proof {
                    lemma_digits_step(full, k);
                    assert(full.subrange(0, k + 1).subrange(0, k) =~= full.subrange(0, k));
                    assert(all_digits(full.subrange(0, k + 1))) by {
                        assert forall|j: int| 0 <= j < k + 1 implies #[trigger] digit_value(full.subrange(0, k + 1)[j]) is Some by {
                            if j < k {
                                assert(full.subrange(0, k + 1)[j] == full.subrange(0, k)[j]);
                            }
                        }
                    }
                }
                let next = acc * 10 + d;
                if next > limit {
                    proof {
                        if all_digits(full) {
                            lemma_digits_prefix(full, k + 1);
                        }
                    }
                    return None;
                }
                acc = next;
            }
        }
        i = i + 1;
    }
    assert(full.subrange(0, (to - from) as int) =~= full);
    Some(acc)
}

/// Reads a percentage from its decimal text; see `points_of_text`.
#[verifier::rlimit(40)]
pub fn parse_points(s: &str) -> (r: Option<i64>)
    ensures
        r is Some <==> points_of_text(s@) is Some,
        r is Some ==> r.unwrap() as int == points_of_text(s@).unwrap(),
{
    let n = s.unicode_len();
    if n == 0 {
        return None;
    }
    let neg = s.get_char(0) == '-';
    let start: usize = if neg { 1 } else { 0 };
    let ghost body = if neg { s@.drop_first() } else { s@ };
    assert(body =~= s@.subrange(start as int, n as int));
    let mut dot = start;
    while dot < n && s.get_char(dot) != '.'
        invariant
            start <= dot <= n,
            n == s@.len(),
            body =~= s@.subrange(start as int, n as int),
            forall|j: int| 0 <= j < dot - start ==> body[j] != '.',
        decreases n - dot,
    {
        dot = dot + 1;
    }
    proof {
        lemma_first_index(body, '.', dot - start);
    }
    let ghost int_part = body.subrange(0, dot - start);
    assert(s@.subrange(start as int, dot as int) =~= int_part);
    if dot == start {
        return None;
    }
    let whole = match read_digits(s, start, dot, 10000000) {
        Some(w) => w,
        None => {
            return None;
        }
    };
    if dot == n {
        return Some(if neg { 0 - (whole * 100) as i64 } else { (whole * 100) as i64 });
    }
    let ghost frac = body.subrange(dot - start + 1, body.len() as int);
    assert(s@.subrange(dot + 1, n as int) =~= frac);
    if dot + 1 == n || !all_digit_chars(s, dot + 1, n) {
        return None;
    }
    let c1 = s.get_char(dot + 1);
    assert(c1 == frac[0]);
    let d1 = match char_digit(c1) {
        Some(d) => d,
        None => {
            return None;
        }
    };
    proof {
        lemma_digits_step(frac, 0);
        assert(frac.subrange(0, 0) =~= Seq::<char>::empty());
        if frac.len() == 1 {
            assert(frac.subrange(0, 1) =~= frac);
        }
    }
    let mut pts: u64 = d1 * 10;
    if dot + 2 < n {
        let c2 = s.get_char(dot + 2);
        assert(c2 == frac[1]);
        assert(digit_value(frac[1]) is Some);
        match char_digit(c2) {
            Some(d2) => {
                proof {
                    lemma_digits_step(frac, 1);
                    assert(frac.subrange(0, 2).subrange(0, 1) =~= frac.subrange(0, 1));
                }
                pts = d1 * 10 + d2;
            }
            None => {
                return None;
            }
        }
    }
    let mag = whole * 100 + pts;
    if mag > 1000000000 {
        return None;
    }
    Some(if neg { 0 - mag as i64 } else { mag as i64 })
}

/// Whether every character of `s[from..to]` is a decimal digit.
pub fn all_digit_chars(s: &str, from: usize, to: usize) -> (r: bool)
    requires
        from <= to <= s@.len(),
    ensures
        r == all_digits(s@.subrange(from as int, to as int)),
{
    let ghost full = s@.subrange(from as int, to as int);
    let mut i = from;
    while i < to
        invariant
            from <= i <= to <= s@.len(),
            full == s@.subrange(from as int, to as int),
            forall|j: int| 0 <= j < i - from ==> #[trigger] digit_value(full[j]) is Some,
        decreases to - i,
    {
        let c = s.get_char(i);
        assert(full[i - from] == c);
        if char_digit(c).is_none() {
            return false;
        }
        i = i + 1;
    }
    true
}

/// `m` points rounded to a whole percent, ties to the even neighbour.
pub open spec fn round_points(m: nat) -> nat {
    let q = m / 100;
    let r = m % 100;
    if r > 50 || (r == 50 && q % 2 == 1) {
        q + 1
    } else {
        q
    }
}

/// A percentage in points rounded to a whole percent, ties to even; the
/// rounding is symmetric around zero.
pub open spec fn whole_percent(p: int) -> int {
    if p < 0 {
        -(round_points((-p) as nat) as int)
    } else {
        round_points(p as nat) as int
    }
}

/// Rounds a percentage in points to a whole percent; see `whole_percent`.
pub fn round_to_whole(p: i64) -> (r: i64)
    ensures
        r as int == whole_percent(p as int),
{
    let m: u64 = if p < 0 { (0i128 - p as i128) as u64 } else { p as u64 };
    let q = m / 100;
    let rem = m % 100;
    let w: u64 = if rem > 50 || (rem == 50 && q % 2 == 1) { q + 1 } else { q };
    if p < 0 {
        0 - (w as i64)
    } else {
        w as i64
    }
}

/// The text of a percentage rounded to a whole percent, without the sign
/// '%' (for example "12" for 1249 points).
pub fn whole_percent_text(p: i64) -> (r: String)
    ensures
        r@ == signed_decimal(whole_percent(p as int)),
{
    let mut out = String::new();
    push_signed_decimal(&mut out, round_to_whole(p));
    assert(out@ =~= signed_decimal(whole_percent(p as int)));
    out
}

} // verus!
