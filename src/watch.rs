//! What live monitoring computes between polls: the poll interval, the
//! uptime text, and the burn-rate sample a snapshot yields.

use vstd::prelude::*;
use crate::burn::UsageSample;
use crate::quota::UsageData;
use crate::schedule::{normalize, normalized, number_up_to, number_in, Duration};
use crate::text::{decimal, push_decimal};

verus! {

/// The largest count a poll interval text may hold.
pub const INTERVAL_LIMIT: u64 = 0x0fff_ffff_ffff_ffff;

/// Failure of poll interval parsing; carries the normalized text.
#[derive(Debug, PartialEq, Eq)]
pub struct IntervalError {
    pub input: String,
}

/// The seconds a normalized poll interval denotes: a whole number followed
/// by 's', 'm' or 'h', or a bare whole number of seconds.
pub open spec fn interval_secs(t: Seq<char>) -> Option<nat> {
    let body = if t.len() > 0 { t.drop_last() } else { t };
    let per = if t.len() > 0 && t.last() == 's' { 1nat } else if t.len() > 0 && t.last() == 'm' { 60nat }
        else if t.len() > 0 && t.last() == 'h' { 3600nat } else { 0nat };
    if per > 0 {
        match number_up_to(body, (INTERVAL_LIMIT / per as u64) as nat) {
            Some(v) => Some(v * per),
            None => None,
        }
    } else {
        number_up_to(t, INTERVAL_LIMIT as nat)
    }
}

/// Parses a poll interval such as "10s", "5m", "1h" or "30"; see
/// `interval_secs`.
pub fn parse_interval(s: &str) -> (r: Result<Duration, IntervalError>)
    ensures
        r is Ok <==> interval_secs(normalized(s@)) is Some,
        r matches Ok(d) ==> d.nanos == 0 && interval_secs(normalized(s@)) == Some(d.secs as nat),
        r matches Err(e) ==> e.input@ == normalized(s@),
{
    let text = normalize(s);
    let t = text.as_str();
    let n = t.unicode_len();
    let per: u64 = if n == 0 { 0 } else {
        let c = t.get_char(n - 1);
        if c == 's' { 1 } else if c == 'm' { 60 } else if c == 'h' { 3600 } else { 0 }
    };
    let value = if per > 0 {
        assert(t@.subrange(0, n - 1) =~= t@.drop_last());
        match number_in(t, 0, n - 1, INTERVAL_LIMIT / per) {
            Some(v) => {
                assert(v * per <= INTERVAL_LIMIT) by (nonlinear_arith)
                    requires v <= INTERVAL_LIMIT / per, per > 0;
                Some(v * per)
            }
            None => None,
        }
    } else {
        assert(t@.subrange(0, n as int) =~= t@);
        number_in(t, 0, n, INTERVAL_LIMIT)
    };
    match value {
        Some(v) => Ok(Duration::from_secs(v)),
        None => Err(IntervalError { input: text }),
    }
}

/// The uptime text: "Hh Mm Ss" from an hour on, "Mm Ss" from a minute on,
/// else "Ss".
pub open spec fn uptime_text(total: nat) -> Seq<char> {
    let hours = total / 3600;
    let minutes = (total % 3600) / 60;
    let seconds = total % 60;
    if hours > 0 {
        decimal(hours) + "h "@ + decimal(minutes) + "m "@ + decimal(seconds) + "s"@
    } else if minutes > 0 {
        decimal(minutes) + "m "@ + decimal(seconds) + "s"@
    } else {
        decimal(seconds) + "s"@
    }
}

/// Renders an uptime; see `uptime_text`.
pub fn format_uptime(duration: &Duration) -> (r: String)
    ensures
        r@ == uptime_text(duration.secs as nat),
{
    let total = duration.secs;
    let hours = total / 3600;
    let minutes = (total % 3600) / 60;
    let seconds = total % 60;
    let mut out = String::new();
    if hours > 0 {
        push_decimal(&mut out, hours);
        out.append("h ");
        push_decimal(&mut out, minutes);
        out.append("m ");
    } else if minutes > 0 {
        push_decimal(&mut out, minutes);
        out.append("m ");
    }
    push_decimal(&mut out, seconds);
    out.append("s");
    assert(out@ =~= uptime_text(total as nat));
    out
}

/// The used share of a window, zero when the window is absent.
pub open spec fn used_or_zero(w: Option<crate::quota::RateWindow>) -> i64 {
    match w {
        Some(x) => x.used_percent,
        None => 0,
    }
}

/// The burn-rate sample a snapshot taken at `now_ms` yields: each window's
/// used share, zero for an absent window.
pub fn sample_of(usage: &UsageData, now_ms: u64) -> (r: UsageSample)
    ensures
        r.timestamp_ms == now_ms,
        r.primary_used == used_or_zero(usage.primary_window),
        r.secondary_used == used_or_zero(usage.secondary_window),
        r.code_review_used == match usage.code_review {
            Some(c) => c.used_percent,
            None => 0,
        },
{
    UsageSample {
        timestamp_ms: now_ms,
        primary_used: match &usage.primary_window {
            Some(w) => w.used_percent,
            None => 0,
        },
        secondary_used: match &usage.secondary_window {
            Some(w) => w.used_percent,
            None => 0,
        },
        code_review_used: match &usage.code_review {
            Some(c) => c.used_percent,
            None => 0,
        },
    }
}

} // verus!
