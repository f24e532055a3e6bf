//! Usage snapshots and the decoder that turns a quota payload, every field
//! of which is optional, into one.

use vstd::prelude::*;
use crate::percent::FULL_POINTS;
use crate::text::{decimal, push_decimal};

verus! {

/// Length of the primary window when the payload does not give it.
pub const DEFAULT_PRIMARY_WINDOW_SECS: u64 = 18000;

/// Length of the secondary window when the payload does not give it.
pub const DEFAULT_SECONDARY_WINDOW_SECS: u64 = 604800;

/// Used share of a window when the payload does not give it.
pub const DEFAULT_USED_POINTS: i64 = 0;

/// Seconds until reset when the payload does not give it (no reset shown).
pub const DEFAULT_RESET_SECS: u64 = 0;

/// One quota window of a snapshot. Percentages are in points (hundredths of
/// a percent).
pub struct RateWindow {
    pub used_percent: i64,
    pub remaining_percent: i64,
    /// The window's length as a label, such as "5h" or "7d".
    pub window: String,
    /// Time until the window resets, such as "2h 5m".
    pub resets_in: Option<String>,
}

/// The code-review quota of a snapshot, in points.
pub struct CodeReview {
    pub used_percent: i64,
}

/// A usage snapshot of one account.
pub struct UsageData {
    pub account_name: String,
    pub status: String,
    pub plan: Option<String>,
    pub primary_window: Option<RateWindow>,
    pub secondary_window: Option<RateWindow>,
    pub code_review: Option<CodeReview>,
    pub limit_reached: bool,
    pub auth_type: String,
}

/// One window of a payload as found: each field may be missing.
pub struct RawWindow {
    /// Used share in points.
    pub used_percent: Option<i64>,
    pub limit_window_seconds: Option<u64>,
    pub reset_after_seconds: Option<u64>,
}

/// A quota payload as found: each field may be missing.
pub struct RawUsage {
    pub plan_type: Option<String>,
    pub primary_window: Option<RawWindow>,
    pub secondary_window: Option<RawWindow>,
    pub limit_reached: Option<bool>,
    /// The code-review primary window; only its used share is read.
    pub code_review_window: Option<RawWindow>,
}

/// The unit in which a window's length is labelled.
pub enum WindowUnit {
    Hours,
    Days,
}

impl RateWindow {
    /// A field-by-field copy.
    pub fn copy(&self) -> (r: RateWindow)
        ensures
            r == *self,
    {
        RateWindow {
            used_percent: self.used_percent,
            remaining_percent: self.remaining_percent,
            window: self.window.clone(),
            resets_in: copy_opt_string(&self.resets_in),
        }
    }
}

impl UsageData {
    /// A field-by-field copy.
    pub fn copy(&self) -> (r: UsageData)
        ensures
            r == *self,
    {
        UsageData {
            account_name: self.account_name.clone(),
            status: self.status.clone(),
            plan: copy_opt_string(&self.plan),
            primary_window: match &self.primary_window {
                Some(w) => Some(w.copy()),
                None => None,
            },
            secondary_window: match &self.secondary_window {
                Some(w) => Some(w.copy()),
                None => None,
            },
            code_review: match &self.code_review {
                Some(c) => Some(CodeReview { used_percent: c.used_percent }),
                None => None,
            },
            limit_reached: self.limit_reached,
            auth_type: self.auth_type.clone(),
        }
    }
}

/// A copy of an optional string.
pub fn copy_opt_string(s: &Option<String>) -> (r: Option<String>)
    ensures
        r == *s,
{
    match s {
        Some(t) => Some(t.clone()),
        None => None,
    }
}

/// The text for `secs` seconds until a reset: whole hours and minutes
/// ("2h 5m"), or minutes alone under an hour ("45m").
pub open spec fn reset_text(secs: nat) -> Seq<char> {
    let hours = secs / 3600;
    let minutes = (secs % 3600) / 60;
    if hours > 0 {
        decimal(hours) + "h "@ + decimal(minutes) + "m"@
    } else {
        decimal(minutes) + "m"@
    }
}

/// Renders the time until a reset; see `reset_text`.
pub fn format_reset_time(seconds: u64) -> (r: String)
    ensures
        r@ == reset_text(seconds as nat),
{
    let hours = seconds / 3600;
    let minutes = (seconds % 3600) / 60;
    let mut out = String::new();
    if hours > 0 {
        push_decimal(&mut out, hours);
        out.append("h ");
        push_decimal(&mut out, minutes);
        out.append("m");
    } else {
        push_decimal(&mut out, minutes);
        out.append("m");
    }
    assert(out@ =~= reset_text(seconds as nat));
    out
}

/// The label of a window `secs` seconds long: whole hours with 'h', or
/// whole days with 'd'.
pub open spec fn window_label(secs: nat, unit: WindowUnit) -> Seq<char> {
    match unit {
        WindowUnit::Hours => decimal(secs / 3600) + "h"@,
        WindowUnit::Days => decimal(secs / 86400) + "d"@,
    }
}

/// The used share of a raw window, defaulted.
pub open spec fn used_or_default(raw: RawWindow) -> int {
    match raw.used_percent {
        Some(u) => u as int,
        None => DEFAULT_USED_POINTS as int,
    }
}

/// Whether `w` is what `raw` decodes to, with `default_secs` as the
/// window's length when it is missing.
pub open spec fn decodes_window(raw: RawWindow, default_secs: u64, unit: WindowUnit, w: RateWindow) -> bool {
    let secs = match raw.limit_window_seconds {
        Some(s) => s,
        None => default_secs,
    };
    let reset = match raw.reset_after_seconds {
        Some(s) => s,
        None => DEFAULT_RESET_SECS,
    };
    &&& w.used_percent == used_or_default(raw)
    &&& w.remaining_percent == FULL_POINTS - used_or_default(raw)
    &&& w.window@ == window_label(secs as nat, unit)
    &&& if reset > 0 {
        w.resets_in matches Some(t) && t@ == reset_text(reset as nat)
    } else {
        w.resets_in is None
    }
}

/// Whether an optional window is what an optional raw window decodes to.
pub open spec fn decodes_opt_window(raw: Option<RawWindow>, default_secs: u64, unit: WindowUnit, w: Option<RateWindow>) -> bool {
    match raw {
        Some(rw) => w matches Some(dw) && decodes_window(rw, default_secs, unit, dw),
        None => w is None,
    }
}

/// Whether `u` is the snapshot that `raw` decodes to for `account`: absent
/// windows stay absent, a present window takes the defaults for what it
/// lacks, and the remaining share is one hundred percent minus the used one.
pub open spec fn decodes_usage(raw: RawUsage, account: Seq<char>, u: UsageData) -> bool {
    &&& u.account_name@ == account
    &&& u.status@ == "ok"@
    &&& u.auth_type@ == "OAuth (ChatGPT)"@
    &&& u.plan == raw.plan_type
    &&& decodes_opt_window(raw.primary_window, DEFAULT_PRIMARY_WINDOW_SECS, WindowUnit::Hours, u.primary_window)
    &&& decodes_opt_window(raw.secondary_window, DEFAULT_SECONDARY_WINDOW_SECS, WindowUnit::Days, u.secondary_window)
    &&& u.limit_reached == match raw.limit_reached {
        Some(b) => b,
        None => false,
    }
    &&& match raw.code_review_window {
        Some(rw) => u.code_review matches Some(c) && c.used_percent == used_or_default(rw),
        None => u.code_review is None,
    }
}

/// Decodes one window of a payload; see `decodes_window`.
pub fn decode_window(raw: &RawWindow, default_secs: u64, unit: WindowUnit) -> (r: RateWindow)
    requires
        raw.used_percent matches Some(u) ==> -1000000000 <= u <= 1000000000,
    ensures
        decodes_window(*raw, default_secs, unit, r),
{
    let secs = match raw.limit_window_seconds {
        Some(s) => s,
        None => default_secs,
    };
    let used = match raw.used_percent {
        Some(u) => u,
        None => DEFAULT_USED_POINTS,
    };
    let reset = match raw.reset_after_seconds {
        Some(s) => s,
        None => DEFAULT_RESET_SECS,
    };
    let mut label = String::new();
    match unit {
        WindowUnit::Hours => {
            push_decimal(&mut label, secs / 3600);
            label.append("h");
        }
        WindowUnit::Days => {
            push_decimal(&mut label, secs / 86400);
            label.append("d");
        }
    }
    assert(label@ =~= window_label(secs as nat, unit));
    RateWindow {
        used_percent: used,
        remaining_percent: FULL_POINTS - used,
        window: label,
        resets_in: if reset > 0 { Some(format_reset_time(reset)) } else { None },
    }
}

/// Whether every used share in a raw payload lies within the decodable
/// range (as `parse_points` guarantees).
pub open spec fn raw_in_range(raw: RawUsage) -> bool {
    &&& raw.primary_window matches Some(w) ==> (w.used_percent matches Some(u) ==> -1000000000 <= u <= 1000000000)
    &&& raw.secondary_window matches Some(w) ==> (w.used_percent matches Some(u) ==> -1000000000 <= u <= 1000000000)
    &&& raw.code_review_window matches Some(w) ==> (w.used_percent matches Some(u) ==> -1000000000 <= u <= 1000000000)
}

/// Decodes a payload into a snapshot for `account_name`, with the defaults
/// above for whatever is missing; see `decodes_usage`.
pub fn decode_usage(raw: &RawUsage, account_name: &str) -> (r: UsageData)
    requires
        raw_in_range(*raw),
    ensures
        decodes_usage(*raw, account_name@, r),
{
    let primary = match &raw.primary_window {
        Some(w) => Some(decode_window(w, DEFAULT_PRIMARY_WINDOW_SECS, WindowUnit::Hours)),
        None => None,
    };
    let secondary = match &raw.secondary_window {
        Some(w) => Some(decode_window(w, DEFAULT_SECONDARY_WINDOW_SECS, WindowUnit::Days)),
        None => None,
    };
    let code_review = match &raw.code_review_window {
        Some(w) => Some(CodeReview {
            used_percent: match w.used_percent {
                Some(u) => u,
                None => DEFAULT_USED_POINTS,
            },
        }),
        None => None,
    };
    let status = String::from_str("ok");
    let auth_type = String::from_str("OAuth (ChatGPT)");
    UsageData {
        account_name: String::from_str(account_name),
        status,
        plan: copy_opt_string(&raw.plan_type),
        primary_window: primary,
        secondary_window: secondary,
        code_review,
        limit_reached: match raw.limit_reached {
            Some(b) => b,
            None => false,
        },
        auth_type,
    }
}

} // verus!
