//! Reading what the process probes report: the process ids `pgrep` lists,
//! and the process id a lock file records.

use vstd::prelude::*;
use crate::platform::{split_lines, text_lines, texts};
use crate::schedule::{number_in, number_up_to, trim_text, trimmed};

verus! {

/// The process id a text holds once trimmed: an unsigned number that fits
/// in 32 bits.
pub open spec fn pid_of(text: Seq<char>) -> Option<nat> {
    number_up_to(trimmed(text), 0xffff_ffff)
}

/// Reads a process id; see `pid_of`.
pub fn parse_pid(text: &str) -> (r: Option<u32>)
    ensures
        r is Some <==> pid_of(text@) is Some,
        r matches Some(p) ==> pid_of(text@) == Some(p as nat),
{
    let t = trim_text(text);
    let n = t.unicode_len();
    assert(t@.subrange(0, n as int) =~= t@);
    match number_in(t, 0, n, 0xffff_ffff) {
        Some(v) => Some(v as u32),
        None => None,
    }
}

/// Whether a line holds the id of a process other than `current`.
pub open spec fn other_pid(line: Seq<char>, current: nat) -> bool {
    match pid_of(line) {
        Some(p) => p != current,
        None => false,
    }
}

/// Whether one of the lines lists a process other than `current`.
pub open spec fn lists_other(lines: Seq<Seq<char>>, current: nat) -> bool {
    exists|i: int| 0 <= i < lines.len() && #[trigger] other_pid(lines[i], current)
}

/// Whether `pgrep` output lists a process other than `current_pid`.
pub fn lists_other_process(output: &str, current_pid: u32) -> (r: bool)
    ensures
        r == lists_other(text_lines(output@), current_pid as nat),
{
    let lines = split_lines(output);
    let ghost ls = texts(lines@);
    let mut i: usize = 0;
    while i < lines.len()
        invariant
            i <= lines@.len(),
            ls == texts(lines@),
            ls == text_lines(output@),
            forall|k: int| 0 <= k < i ==> !#[trigger] other_pid(ls[k], current_pid as nat),
        decreases lines.len() - i,
    {
        assert(ls[i as int] == lines@[i as int]@);
        if let Some(p) = parse_pid(lines[i].as_str()) {
            if p != current_pid {
                assert(other_pid(ls[i as int], current_pid as nat));
                return true;
            }
        }
        i = i + 1;
    }
    false
}

/// The process id a lock file records; zero when it holds none.
pub fn lock_pid(content: &str) -> (r: u32)
    ensures
        r as nat == match pid_of(content@) {
            Some(p) => p,
            None => 0,
        },
{
    match parse_pid(content) {
        Some(p) => p,
        None => 0,
    }
}

/// Whether the monitored process counts as running: `pgrep` lists another
/// process; or a lock file exists and either it could not be read, it names
/// no process, or the process it names is alive.
pub open spec fn counts_as_running(other_listed: bool, lock_exists: bool, lock_pid: Option<u32>, pid_alive: bool) -> bool {
    other_listed || (lock_exists && match lock_pid {
        Some(p) => p == 0 || pid_alive,
        None => true,
    })
}

/// Combines what the probes found; see `counts_as_running`. `lock_pid` is
/// the id the lock file records (`None` when it could not be read), and
/// `pid_alive` whether that process answers.
pub fn appears_running(other_listed: bool, lock_exists: bool, lock_pid: Option<u32>, pid_alive: bool) -> (r: bool)
    ensures
        r == counts_as_running(other_listed, lock_exists, lock_pid, pid_alive),
{
    if other_listed {
        return true;
    }
    if !lock_exists {
        return false;
    }
    match lock_pid {
        Some(p) => p == 0 || pid_alive,
        None => true,
    }
}

} // verus!
