//! What the scheduler integration computes: the crontab entries of a
//! schedule and the crontab texts after installing or removing them, the
//! program arguments a scheduler runs, and XML escaping for launch agents.
//! Reading and writing the crontab itself is left to the caller.

use vstd::prelude::*;
use crate::percent::first_index;
use crate::schedule::{format_time, trim_text, trimmed, two_digits, TimeOfDay, WakeupSchedule};
use crate::text::{decimal, push_decimal};

verus! {

/// The marker that tags this tool's crontab lines.
pub const CRON_TASK_NAME: &'static str = "codex-usage-wakeup";

/// `line` without one trailing carriage return.
pub open spec fn strip_cr(line: Seq<char>) -> Seq<char> {
    if line.len() > 0 && line.last() == '\r' { line.drop_last() } else { line }
}

/// The lines of a text: split at each line feed, each without a trailing
/// carriage return, with no empty line after a final line feed.
pub open spec fn text_lines(s: Seq<char>) -> Seq<Seq<char>>
    decreases s.len(),
{
    if s.len() == 0 {
        seq![]
    } else {
        let i = first_index(s, '\n');
        if i >= s.len() {
            seq![strip_cr(s)]
        } else {
            seq![strip_cr(s.subrange(0, i as int))] + text_lines(s.subrange(i as int + 1, s.len() as int))
        }
    }
}

/// Whether `p` occurs in `s`.
pub open spec fn occurs_in(s: Seq<char>, p: Seq<char>) -> bool {
    exists|i: int| 0 <= i && i + p.len() <= s.len() && #[trigger] s.subrange(i, i + p.len()) == p
}

/// The lines of `lines` that do (`keep == true`) or do not hold `p`.
pub open spec fn lines_matching(lines: Seq<Seq<char>>, p: Seq<char>, keep: bool) -> Seq<Seq<char>>
    decreases lines.len(),
{
    if lines.len() == 0 {
        seq![]
    } else {
        let rest = lines_matching(lines.drop_last(), p, keep);
        if occurs_in(lines.last(), p) == keep { rest.push(lines.last()) } else { rest }
    }
}

/// Whether `p` occurs in `s`.
pub fn contains_text(s: &str, p: &str) -> (r: bool)
    ensures
        r == occurs_in(s@, p@),
{
    let n = s.unicode_len();
    let m = p.unicode_len();
    if m > n {
        assert forall|i: int| 0 <= i && i + p@.len() <= s@.len() implies #[trigger] s@.subrange(i, i + p@.len()) != p@ by {}
        return false;
    }
    let mut i: usize = 0;
    while i <= n - m
        invariant
            n == s@.len(),
            m == p@.len(),
            m <= n,
            i <= n - m + 1,
            forall|k: int| 0 <= k < i ==> #[trigger] s@.subrange(k, k + m) != p@,
        decreases n - i,
    {
        let mut j: usize = 0;
        let mut same = true;
        while j < m
            invariant
                n == s@.len(),
                m == p@.len(),
                i + m <= n,
                j <= m,
                same == forall|k: int| 0 <= k < j ==> s@[i + k] == p@[k],
            decreases m - j,
        {
            if s.get_char(i + j) != p.get_char(j) {
                same = false;
            }
            j = j + 1;
        }
        if same {
            assert(s@.subrange(i as int, i + m) =~= p@);
            return true;
        }
        assert(s@.subrange(i as int, i + m) != p@) by {
            if s@.subrange(i as int, i + m) == p@ {
                assert forall|k: int| 0 <= k < m implies s@[i + k] == p@[k] by {
                    assert(s@.subrange(i as int, i + m)[k] == s@[i + k]);
                }
            }
        }
        i = i + 1;
    }
    assert forall|k: int| 0 <= k && k + p@.len() <= s@.len() implies #[trigger] s@.subrange(k, k + p@.len()) != p@ by {}
    false
}

/// The lines of a text; see `text_lines`.
#[verifier::rlimit(40)]
pub fn split_lines(s: &str) -> (r: Vec<String>)
    ensures
        r@.map_values(|l: String| l@) == text_lines(s@),
{
    let n = s.unicode_len();
    let mut out: Vec<String> = Vec::new();
    let mut start: usize = 0;
    assert(s@.subrange(0, n as int) =~= s@);
    while start < n
        invariant
            n == s@.len(),
            start <= n,
            text_lines(s@) == out@.map_values(|l: String| l@) + text_lines(s@.subrange(start as int, n as int)),
        decreases n - start,
    {
        let ghost rest = s@.subrange(start as int, n as int);
        let mut i = start;
        while i < n && s.get_char(i) != '\n'
            invariant
                start <= i <= n == s@.len(),
                rest == s@.subrange(start as int, n as int),
                forall|j: int| 0 <= j < i - start ==> rest[j] != '\n',
            decreases n - i,
        {
            i = i + 1;
        }
        proof {
            crate::percent::lemma_first_index(rest, '\n', i - start);
        }
        let mut end = i;
        if end > start && s.get_char(end - 1) == '\r' {
            end = end - 1;
        }
        let line = s.substring_char(start, end);
        proof {
            let raw = rest.subrange(0, i - start);
            assert(raw =~= s@.subrange(start as int, i as int));
            if i > start && s@[i - 1] == '\r' {
                assert(strip_cr(raw) =~= s@.subrange(start as int, end as int));
            } else {
                assert(strip_cr(raw) =~= s@.subrange(start as int, end as int));
            }
        }
        let ghost before = out@;
        out.push(String::from_str(line));
        let next = if i < n { i + 1 } else { n };
        proof {
            assert(out@.map_values(|l: String| l@) =~= before.map_values(|l: String| l@).push(line@));
            if i < n {
                assert(rest.subrange(i - start + 1, rest.len() as int) =~= s@.subrange(next as int, n as int));
            } else {
                assert(s@.subrange(next as int, n as int) =~= Seq::<char>::empty());
            }
        }
        start = next;
    }
    out
}

/// The texts of a list of strings.
pub open spec fn texts(v: Seq<String>) -> Seq<Seq<char>> {
    v.map_values(|l: String| l@)
}

/// The lines of `lines` that hold `p` (when `keep`) or do not.
pub fn filter_lines(lines: &Vec<String>, p: &str, keep: bool) -> (r: Vec<String>)
    ensures
        texts(r@) == lines_matching(texts(lines@), p@, keep),
{
    let mut out: Vec<String> = Vec::new();
    let mut i: usize = 0;
    assert(texts(lines@).take(0) =~= Seq::<Seq<char>>::empty());
    while i < lines.len()
        invariant
            i <= lines@.len(),
            texts(out@) == lines_matching(texts(lines@).take(i as int), p@, keep),
        decreases lines.len() - i,
    {
        let ghost before = out@;
        let ghost t = texts(lines@).take(i + 1);
        assert(t.drop_last() =~= texts(lines@).take(i as int));
        assert(t.last() == lines@[i as int]@);
        if contains_text(lines[i].as_str(), p) == keep {
            out.push(lines[i].clone());
            assert(texts(out@) =~= texts(before).push(lines@[i as int]@));
        }
        i = i + 1;
    }
    assert(texts(lines@).take(lines@.len() as int) =~= texts(lines@));
    out
}

/// This tool's lines of a crontab.
pub fn list_schedules(crontab: &str) -> (r: Vec<String>)
    ensures
        texts(r@) == lines_matching(text_lines(crontab@), CRON_TASK_NAME@, true),
{
    filter_lines(&split_lines(crontab), CRON_TASK_NAME, true)
}

/// The installed schedules: this tool's lines of the crontab.
pub fn list(crontab: &str) -> (r: Vec<String>)
    ensures
        texts(r@) == lines_matching(text_lines(crontab@), CRON_TASK_NAME@, true),
{
    list_schedules(crontab)
}

/// Lines joined with line feeds between them.
pub open spec fn joined(lines: Seq<Seq<char>>, sep: Seq<char>) -> Seq<char>
    decreases lines.len(),
{
    if lines.len() == 0 {
        seq![]
    } else if lines.len() == 1 {
        lines[0]
    } else {
        joined(lines.drop_last(), sep) + sep + lines.last()
    }
}

/// Joins strings with `sep` between them.
pub fn join_with(lines: &Vec<String>, sep: &str) -> (r: String)
    ensures
        r@ == joined(texts(lines@), sep@),
{
    let mut out = String::new();
    let mut i: usize = 0;
    assert(texts(lines@).take(0) =~= Seq::<Seq<char>>::empty());
    while i < lines.len()
        invariant
            i <= lines@.len(),
            out@ == joined(texts(lines@).take(i as int), sep@),
        decreases lines.len() - i,
    {
        let ghost t = texts(lines@).take(i + 1);
        assert(t.drop_last() =~= texts(lines@).take(i as int));
        if i > 0 {
            out.append(sep);
        }
        out.append(lines[i].as_str());
        i = i + 1;
        proof {
            if i == 1 {
                assert(out@ =~= joined(t, sep@));
            }
        }
    }
    assert(texts(lines@).take(lines@.len() as int) =~= texts(lines@));
    out
}

/// A text ending with a line feed: `s`, with one added when it lacks it.
pub open spec fn ending_in_newline(s: Seq<char>) -> Seq<char> {
    if s.len() > 0 && s.last() == '\n' { s } else { s.push('\n') }
}

fn finish_text(mut s: String) -> (r: String)
    ensures
        r@ == ending_in_newline(s@),
{
    let n = s.unicode_len();
    if n > 0 && s.as_str().get_char(n - 1) == '\n' {
        s
    } else {
        s.append("\n");
        proof {
            reveal_strlit("\n");
        }
        s
    }
}

/// The arguments the scheduler passes: "wakeup --run", the account when the
/// schedule names one, and "--wake-system" when asked for and the schedule
/// wakes the system.
pub open spec fn wakeup_arguments(s: WakeupSchedule, with_wake: bool) -> Seq<Seq<char>> {
    seq!["wakeup"@, "--run"@]
        + (match s.account { Some(a) => seq!["--account"@, a@], None => seq![] })
        + (if with_wake && s.wake_system { seq!["--wake-system"@] } else { seq![] })
}

/// The arguments the scheduler passes; see `wakeup_arguments`.
pub fn program_arguments(schedule: &WakeupSchedule, with_wake: bool) -> (r: Vec<String>)
    ensures
        texts(r@) == wakeup_arguments(*schedule, with_wake),
{
    let mut args: Vec<String> = Vec::new();
    args.push(String::from_str("wakeup"));
    args.push(String::from_str("--run"));
    if let Some(a) = &schedule.account {
        args.push(String::from_str("--account"));
        args.push(a.clone());
    }
    if with_wake && schedule.wake_system {
        args.push(String::from_str("--wake-system"));
    }
    assert(texts(args@) =~= wakeup_arguments(*schedule, with_wake));
    args
}

/// The crontab line for one time: minute and hour, weekdays only, the
/// command with its arguments, and the marker.
pub open spec fn cron_line(minute: nat, hour: nat, args: Seq<Seq<char>>) -> Seq<char> {
    two_digits(minute) + " "@ + two_digits(hour) + " * * 1-5 codex-usage "@ + joined(args, " "@) + " # "@ + CRON_TASK_NAME@
}

/// The crontab lines of a schedule, one per time.
#[verifier::rlimit(40)]
pub fn cron_entries(schedule: &WakeupSchedule) -> (r: Vec<String>)
    requires
        forall|i: int| 0 <= i < schedule.times@.len() ==> (#[trigger] schedule.times@[i]).valid(),
    ensures
        r@.len() == schedule.times@.len(),
        forall|i: int| 0 <= i < r@.len() ==> (#[trigger] r@[i])@ == cron_line(
            schedule.times@[i].minute as nat, schedule.times@[i].hour as nat, wakeup_arguments(*schedule, false)),
{
    let args = program_arguments(schedule, false);
    let joined_args = join_with(&args, " ");
    let mut out: Vec<String> = Vec::new();
    let mut i: usize = 0;
    while i < schedule.times.len()
        invariant
            i <= schedule.times@.len(),
            forall|k: int| 0 <= k < schedule.times@.len() ==> (#[trigger] schedule.times@[k]).valid(),
            texts(args@) == wakeup_arguments(*schedule, false),
            joined_args@ == joined(texts(args@), " "@),
            out@.len() == i,
            forall|k: int| 0 <= k < i ==> (#[trigger] out@[k])@ == cron_line(
                schedule.times@[k].minute as nat, schedule.times@[k].hour as nat, wakeup_arguments(*schedule, false)),
        decreases schedule.times.len() - i,
    {
        let t = schedule.times[i];
        let hm = format_time(&t);
        proof {
            reveal_strlit(":");
            assert(hm@.len() == 5);
        }
        let mut line = String::new();
        line.append(hm.as_str().substring_char(3, 5));
        line.append(" ");
        line.append(hm.as_str().substring_char(0, 2));
        line.append(" * * 1-5 codex-usage ");
        line.append(joined_args.as_str());
        line.append(" # ");
        line.append(CRON_TASK_NAME);
        proof {
            reveal_strlit(":");
            assert(hm@.subrange(3, 5) =~= two_digits(t.minute as nat));
            assert(hm@.subrange(0, 2) =~= two_digits(t.hour as nat));
            assert(line@ =~= cron_line(t.minute as nat, t.hour as nat, wakeup_arguments(*schedule, false)));
        }
        out.push(line);
        i = i + 1;
    }
    out
}

/// The crontab after installing: the existing lines other than this tool's,
/// then the new entries, ending in a line feed.
pub open spec fn installed_crontab(existing: Seq<char>, entries: Seq<Seq<char>>) -> Seq<char> {
    let kept = lines_matching(text_lines(existing), CRON_TASK_NAME@, false);
    ending_in_newline(
        if kept.len() == 0 { joined(entries, "\n"@) } else { joined(kept, "\n"@) + "\n"@ + joined(entries, "\n"@) })
}

/// The crontab text that installs `schedule` over `existing`.
pub fn install_crontab(existing: &str, schedule: &WakeupSchedule) -> (r: String)
    requires
        forall|i: int| 0 <= i < schedule.times@.len() ==> (#[trigger] schedule.times@[i]).valid(),
    ensures
        exists|entries: Seq<Seq<char>>| r@ == installed_crontab(existing@, entries) && entries.len() == schedule.times@.len()
            && forall|i: int| 0 <= i < entries.len() ==> #[trigger] entries[i] == cron_line(
                schedule.times@[i].minute as nat, schedule.times@[i].hour as nat, wakeup_arguments(*schedule, false)),
{
    let entries = cron_entries(schedule);
    let kept = filter_lines(&split_lines(existing), CRON_TASK_NAME, false);
    let new_entries = join_with(&entries, "\n");
    let text = if kept.len() == 0 {
        new_entries
    } else {
        let mut t = join_with(&kept, "\n");
        t.append("\n");
        t.append(new_entries.as_str());
        t
    };
    let r = finish_text(text);
    assert(r@ == installed_crontab(existing@, texts(entries@)));
    r
}

/// The crontab after removing this tool's lines: `None` when nothing would
/// be left (the crontab is to be deleted), else the remaining lines ending
/// in a line feed.
pub open spec fn crontab_without_schedule(existing: Seq<char>) -> Option<Seq<char>> {
    let kept = lines_matching(text_lines(existing), CRON_TASK_NAME@, false);
    if kept.len() == 0 { None } else { Some(ending_in_newline(joined(kept, "\n"@))) }
}

/// The crontab text after removing this tool's lines; see
/// `crontab_without_schedule`.
pub fn remove_schedule(existing: &str) -> (r: Option<String>)
    ensures
        r matches Some(t) ==> crontab_without_schedule(existing@) == Some(t@),
        r is None <==> crontab_without_schedule(existing@) is None,
{
    let kept = filter_lines(&split_lines(existing), CRON_TASK_NAME, false);
    if kept.len() == 0 {
        None
    } else {
        Some(finish_text(join_with(&kept, "\n")))
    }
}

/// Removing the installed schedules; see `remove_schedule`.
pub fn remove(existing: &str) -> (r: Option<String>)
    ensures
        r matches Some(t) ==> crontab_without_schedule(existing@) == Some(t@),
        r is None <==> crontab_without_schedule(existing@) is None,
{
    remove_schedule(existing)
}

/// The XML escape of one character.
pub open spec fn xml_escape_char(c: char) -> Seq<char> {
    if c == '&' { "&amp;"@ } else if c == '<' { "&lt;"@ } else if c == '>' { "&gt;"@ }
    else if c == '"' { "&quot;"@ } else if c == '\'' { "&apos;"@ } else { seq![c] }
}

/// A text with the five XML special characters escaped.
pub open spec fn xml_escaped(s: Seq<char>) -> Seq<char>
    decreases s.len(),
{
    if s.len() == 0 { seq![] } else { xml_escaped(s.drop_last()) + xml_escape_char(s.last()) }
}

/// Escapes the XML special characters of a text.
pub fn escape_xml(s: &str) -> (r: String)
    ensures
        r@ == xml_escaped(s@),
{
    let n = s.unicode_len();
    let mut out = String::new();
    let mut i: usize = 0;
    while i < n
        invariant
            n == s@.len(),
            i <= n,
            out@ == xml_escaped(s@.subrange(0, i as int)),
        decreases n - i,
    {
        let c = s.get_char(i);
        let ghost before = out@;
        if c == '&' {
            out.append("&amp;");
        } else if c == '<' {
            out.append("&lt;");
        } else if c == '>' {
            out.append("&gt;");
        } else if c == '"' {
            out.append("&quot;");
        } else if c == '\'' {
            out.append("&apos;");
        } else {
            out.append(s.substring_char(i, i + 1));
            assert(s@.subrange(i as int, i + 1) =~= seq![c]);
        }
        assert(s@.subrange(0, i + 1).drop_last() =~= s@.subrange(0, i as int));
        i = i + 1;
        assert(out@ =~= xml_escaped(s@.subrange(0, i as int)));
    }
    assert(s@.subrange(0, n as int) =~= s@);
    out
}

/// The name prefix of this tool's scheduled tasks on Windows.
pub const WINDOWS_TASK_NAME: &'static str = "CodexUsageWakeup";

/// The task name a line of a task listing gives: the trimmed text after the
/// first ':', or the whole trimmed line without one.
pub open spec fn listed_task_name(line: Seq<char>) -> Seq<char> {
    let c = first_index(line, ':');
    if c < line.len() { trimmed(line.subrange(c as int + 1, line.len() as int)) } else { trimmed(line) }
}

/// The names of this tool's tasks in a task listing, in order, leaving out
/// empty names.
pub open spec fn task_names(lines: Seq<Seq<char>>) -> Seq<Seq<char>>
    decreases lines.len(),
{
    if lines.len() == 0 {
        seq![]
    } else {
        let rest = task_names(lines.drop_last());
        let name = listed_task_name(lines.last());
        if occurs_in(lines.last(), WINDOWS_TASK_NAME@) && name.len() > 0 { rest.push(name) } else { rest }
    }
}

/// The task name of one line; see `listed_task_name`.
pub fn task_name_of(line: &str) -> (r: String)
    ensures
        r@ == listed_task_name(line@),
{
    let n = line.unicode_len();
    let mut c: usize = 0;
    while c < n && line.get_char(c) != ':'
        invariant
            c <= n == line@.len(),
            forall|j: int| 0 <= j < c ==> line@[j] != ':',
        decreases n - c,
    {
        c = c + 1;
    }
    proof {
        crate::percent::lemma_first_index(line@, ':', c as int);
    }
    if c < n {
        String::from_str(trim_text(line.substring_char(c + 1, n)))
    } else {
        String::from_str(trim_text(line))
    }
}

/// The names of this tool's tasks in a task listing; see `task_names`.
pub fn windows_task_names(listing: &str) -> (r: Vec<String>)
    ensures
        texts(r@) == task_names(text_lines(listing@)),
{
    let lines = split_lines(listing);
    let ghost ls = texts(lines@);
    let mut out: Vec<String> = Vec::new();
    let mut i: usize = 0;
    assert(ls.take(0) =~= Seq::<Seq<char>>::empty());
    while i < lines.len()
        invariant
            i <= lines@.len(),
            ls == texts(lines@),
            texts(out@) == task_names(ls.take(i as int)),
        decreases lines.len() - i,
    {
        let ghost t = ls.take(i + 1);
        assert(t.drop_last() =~= ls.take(i as int));
        assert(t.last() == lines@[i as int]@);
        let ghost before = out@;
        if contains_text(lines[i].as_str(), WINDOWS_TASK_NAME) {
            let name = task_name_of(lines[i].as_str());
            if name.unicode_len() > 0 {
                out.push(name);
                assert(texts(out@) =~= texts(before).push(listed_task_name(lines@[i as int]@)));
            }
        }
        i = i + 1;
    }
    assert(ls.take(lines@.len() as int) =~= ls);
    out
}

/// The Windows task name for one time: the prefix, '_', and the time as
/// HHMM.
pub fn windows_task_name(time: &TimeOfDay) -> (r: String)
    requires
        time.valid(),
    ensures
        r@ == WINDOWS_TASK_NAME@ + "_"@ + two_digits(time.hour as nat) + two_digits(time.minute as nat),
{
    let hm = format_time(time);
    proof {
        reveal_strlit(":");
        assert(hm@.len() == 5);
    }
    let mut out = String::from_str(WINDOWS_TASK_NAME);
    out.append("_");
    out.append(hm.as_str().substring_char(0, 2));
    out.append(hm.as_str().substring_char(3, 5));
    proof {
        assert(hm@.subrange(0, 2) =~= two_digits(time.hour as nat));
        assert(hm@.subrange(3, 5) =~= two_digits(time.minute as nat));
    }
    out
}

/// The label of this tool's launch agent.
pub const LAUNCH_AGENT_LABEL: &'static str = "com.codex-usage.wakeup";

/// One program argument of a launch agent.
pub open spec fn plist_string(a: Seq<char>) -> Seq<char> {
    "<string>"@ + xml_escaped(a) + "</string>"@
}

/// One calendar entry of a launch agent.
pub open spec fn plist_time(hour: nat, minute: nat) -> Seq<char> {
    "        <dict>\n            <key>Hour</key>\n            <integer>"@ + decimal(hour)
        + "</integer>\n            <key>Minute</key>\n            <integer>"@ + decimal(minute)
        + "</integer>\n        </dict>"@
}

/// The launch agent property list that runs `args` at each of `times`.
pub open spec fn plist_text(args: Seq<Seq<char>>, times: Seq<TimeOfDay>) -> Seq<char> {
    "<?xml version=\"1.0\" encoding=\"UTF-8\"?>\n<!DOCTYPE plist PUBLIC \"-//Apple//DTD PLIST 1.0//EN\" \"http://www.apple.com/DTDs/PropertyList-1.0.dtd\">\n<plist version=\"1.0\">\n<dict>\n    <key>Label</key>\n    <string>"@
        + xml_escaped(LAUNCH_AGENT_LABEL@)
        + "</string>\n    <key>ProgramArguments</key>\n    <array>\n        <string>codex-usage</string>\n        "@
        + joined(args.map_values(|a: Seq<char>| plist_string(a)), "\n        "@)
        + "\n    </array>\n    <key>StartCalendarInterval</key>\n    <array>\n"@
        + joined(times.map_values(|t: TimeOfDay| plist_time(t.hour as nat, t.minute as nat)), "\n"@)
        + "\n    </array>\n    <key>RunAtLoad</key>\n    <false/>\n    <key>KeepAlive</key>\n    <false/>\n</dict>\n</plist>"@
}

/// The launch agent property list of a schedule; see `plist_text`.
#[verifier::rlimit(40)]
pub fn launch_agent_plist(schedule: &WakeupSchedule) -> (r: String)
    ensures
        r@ == plist_text(wakeup_arguments(*schedule, true), schedule.times@),
{
    let args = program_arguments(schedule, true);
    let mut wrapped: Vec<String> = Vec::new();
    let mut i: usize = 0;
    while i < args.len()
        invariant
            i <= args@.len(),
            wrapped@.len() == i,
            forall|k: int| 0 <= k < i ==> (#[trigger] wrapped@[k])@ == plist_string(args@[k]@),
        decreases args.len() - i,
    {
        let mut w = String::from_str("<string>");
        w.append(escape_xml(args[i].as_str()).as_str());
        w.append("</string>");
        wrapped.push(w);
        i = i + 1;
    }
    let mut entries: Vec<String> = Vec::new();
    let mut j: usize = 0;
    while j < schedule.times.len()
        invariant
            j <= schedule.times@.len(),
            entries@.len() == j,
            forall|k: int| 0 <= k < j ==> (#[trigger] entries@[k])@ == plist_time(schedule.times@[k].hour as nat, schedule.times@[k].minute as nat),
        decreases schedule.times.len() - j,
    {
        let t = schedule.times[j];
        let mut e = String::from_str("        <dict>\n            <key>Hour</key>\n            <integer>");
        push_decimal(&mut e, t.hour as u64);
        e.append("</integer>\n            <key>Minute</key>\n            <integer>");
        push_decimal(&mut e, t.minute as u64);
        e.append("</integer>\n        </dict>");
        entries.push(e);
        j = j + 1;
    }
    let ghost targs = texts(args@);
    assert(texts(wrapped@) =~= targs.map_values(|a: Seq<char>| plist_string(a)));
    assert(texts(entries@) =~= schedule.times@.map_values(|t: TimeOfDay| plist_time(t.hour as nat, t.minute as nat)));
    let mut out = String::from_str("<?xml version=\"1.0\" encoding=\"UTF-8\"?>\n<!DOCTYPE plist PUBLIC \"-//Apple//DTD PLIST 1.0//EN\" \"http://www.apple.com/DTDs/PropertyList-1.0.dtd\">\n<plist version=\"1.0\">\n<dict>\n    <key>Label</key>\n    <string>");
    out.append(escape_xml(LAUNCH_AGENT_LABEL).as_str());
    out.append("</string>\n    <key>ProgramArguments</key>\n    <array>\n        <string>codex-usage</string>\n        ");
    out.append(join_with(&wrapped, "\n        ").as_str());
    out.append("\n    </array>\n    <key>StartCalendarInterval</key>\n    <array>\n");
    out.append(join_with(&entries, "\n").as_str());
    out.append("\n    </array>\n    <key>RunAtLoad</key>\n    <false/>\n    <key>KeepAlive</key>\n    <false/>\n</dict>\n</plist>");
    out
}

} // verus!
