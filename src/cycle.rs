//! The cycle engine: the threshold decision, round-robin target selection,
//! and one cycle run as a state machine driven by its caller.

use vstd::prelude::*;
use crate::percent::{whole_percent, whole_percent_text, FULL_POINTS};
use crate::quota::UsageData;
use crate::registry::{is_registered, marked_live, registry_wf, Config, RegistryView, VaultError};
use crate::text::signed_decimal;
use crate::vault::{activation_ops, lemma_activation_complete, lemma_marked_live_keeps_blobs, plan_activation, run_ops, CredentialVault, SlotOp};

verus! {

/// How the two window thresholds combine.
#[derive(Clone, Copy, Debug, PartialEq, Eq, Structural)]
pub enum CycleMode {
    /// Cycle only when both windows are at or below their thresholds.
    All,
    /// Cycle when either window is at or below its threshold.
    Any,
}

/// Remaining shares, in points, at or below which a window counts as low.
#[derive(Clone, Copy, Debug, PartialEq, Eq, Structural)]
pub struct CycleThresholds {
    pub five_hour: i64,
    pub weekly: i64,
}

/// The persisted cycle configuration.
pub struct CycleConfig {
    pub enabled: bool,
    pub thresholds: CycleThresholds,
    pub mode: CycleMode,
    /// The rotation list; when empty, the registry's accounts are used.
    pub accounts: Vec<String>,
    pub current_index: usize,
    pub last_cycle: Option<String>,
}

/// One completed cycle, as appended to the history.
pub struct CycleHistoryEntry {
    pub timestamp: String,
    pub from_account: String,
    pub to_account: String,
    pub reason: String,
}

impl Default for CycleConfig {
    /// Disabled, zero thresholds, both windows required, no rotation list.
    fn default() -> (r: CycleConfig)
        ensures
            !r.enabled,
            r.thresholds == (CycleThresholds { five_hour: 0, weekly: 0 }),
            r.mode == CycleMode::All,
            r.accounts@.len() == 0,
            r.current_index == 0,
            r.last_cycle is None,
    {
        CycleConfig {
            enabled: false,
            thresholds: CycleThresholds { five_hour: 0, weekly: 0 },
            mode: CycleMode::All,
            accounts: Vec::new(),
            current_index: 0,
            last_cycle: None,
        }
    }
}

impl CycleMode {
    /// The mode that a persisted name denotes: "and" is `All`, anything
    /// else `Any`.
    pub fn from_name(name: &str) -> (r: CycleMode)
        ensures
            r == (if name@ == "and"@ { CycleMode::All } else { CycleMode::Any }),
    {
        if str_equal(name, "and") {
            CycleMode::All
        } else {
            CycleMode::Any
        }
    }

    /// The mode a user names: "and" or "or"; any other name is refused.
    pub fn parse(name: &str) -> (r: Option<CycleMode>)
        ensures
            r == (if name@ == "and"@ { Some(CycleMode::All) } else if name@ == "or"@ { Some(CycleMode::Any) } else { None::<CycleMode> }),
    {
        if str_equal(name, "and") {
            Some(CycleMode::All)
        } else if str_equal(name, "or") {
            Some(CycleMode::Any)
        } else {
            None
        }
    }

    /// The persisted name of the mode.
    pub fn name(&self) -> (r: &'static str)
        ensures
            r@ == (if *self == CycleMode::All { "and"@ } else { "or"@ }),
    {
        match self {
            CycleMode::All => "and",
            CycleMode::Any => "or",
        }
    }
}

/// Character-wise equality of two strings.
pub fn str_equal(a: &str, b: &str) -> (r: bool)
    ensures
        r == (a@ == b@),
{
    let n = a.unicode_len();
    if n != b.unicode_len() {
        return false;
    }
    let mut i: usize = 0;
    while i < n
        invariant
            n == a@.len() == b@.len(),
            i <= n,
            forall|j: int| 0 <= j < i ==> a@[j] == b@[j],
        decreases n - i,
    {
        if a.get_char(i) != b.get_char(i) {
            return false;
        }
        i = i + 1;
    }
    assert(a@ =~= b@);
    true
}

/// The remaining share of the primary window; an absent window counts as
/// fully available.
pub open spec fn primary_remaining(u: UsageData) -> int {
    match u.primary_window {
        Some(w) => w.remaining_percent as int,
        None => FULL_POINTS as int,
    }
}

/// The remaining share of the secondary window; an absent window counts as
/// fully available.
pub open spec fn secondary_remaining(u: UsageData) -> int {
    match u.secondary_window {
        Some(w) => w.remaining_percent as int,
        None => FULL_POINTS as int,
    }
}

/// Whether the primary window is present and at or below its threshold;
/// an absent window never counts as crossed.
pub open spec fn primary_low(u: UsageData, t: CycleThresholds) -> bool {
    u.primary_window matches Some(w) && w.remaining_percent <= t.five_hour
}

/// Whether the secondary window is present and at or below its threshold;
/// an absent window never counts as crossed.
pub open spec fn secondary_low(u: UsageData, t: CycleThresholds) -> bool {
    u.secondary_window matches Some(w) && w.remaining_percent <= t.weekly
}

/// Whether the snapshot calls for a cycle under the thresholds and mode.
pub open spec fn cycle_due(u: UsageData, t: CycleThresholds, mode: CycleMode) -> bool {
    match mode {
        CycleMode::All => primary_low(u, t) && secondary_low(u, t),
        CycleMode::Any => primary_low(u, t) || secondary_low(u, t),
    }
}

/// "5h: P%", with P the primary remaining share in whole percent, followed
/// by " remaining" when the window has crossed its threshold.
pub open spec fn primary_clause(u: UsageData, t: CycleThresholds) -> Seq<char> {
    "5h: "@ + signed_decimal(whole_percent(primary_remaining(u)))
        + (if primary_low(u, t) { "% remaining"@ } else { "%"@ })
}

/// "weekly: S%", with S the secondary remaining share, followed by
/// " remaining" when the window has crossed its threshold.
pub open spec fn secondary_clause(u: UsageData, t: CycleThresholds) -> Seq<char> {
    "weekly: "@ + signed_decimal(whole_percent(secondary_remaining(u)))
        + (if secondary_low(u, t) { "% remaining"@ } else { "%"@ })
}

/// Both measured remaining shares, reported when no cycle is due.
pub open spec fn measured_text(u: UsageData) -> Seq<char> {
    "5h: "@ + signed_decimal(whole_percent(primary_remaining(u))) + "%, weekly: "@
        + signed_decimal(whole_percent(secondary_remaining(u))) + "%"@
}

/// The reason text of a decision. It always reports both measured values;
/// when a cycle is due, each window that crossed its threshold is marked
/// "remaining".
pub open spec fn cycle_reason(u: UsageData, t: CycleThresholds, mode: CycleMode) -> Seq<char> {
    if cycle_due(u, t, mode) {
        primary_clause(u, t) + ", "@ + secondary_clause(u, t)
    } else {
        measured_text(u)
    }
}

fn remaining_of(w: &Option<crate::quota::RateWindow>) -> (r: i64)
    ensures
        r == match w {
            Some(x) => x.remaining_percent,
            None => FULL_POINTS,
        },
{
    match w {
        Some(x) => x.remaining_percent,
        None => FULL_POINTS,
    }
}

/// Decides whether the account that `usage` measures should be cycled away
/// from, and why.
#[verifier::rlimit(40)]
pub fn should_cycle(usage: &UsageData, config: &CycleConfig) -> (r: (bool, String))
    ensures
        r.0 == cycle_due(*usage, config.thresholds, config.mode),
        r.1@ == cycle_reason(*usage, config.thresholds, config.mode),
{
    let p = remaining_of(&usage.primary_window);
    let s = remaining_of(&usage.secondary_window);
    let p_low = usage.primary_window.is_some() && p <= config.thresholds.five_hour;
    let s_low = usage.secondary_window.is_some() && s <= config.thresholds.weekly;
    let p_text = whole_percent_text(p);
    let s_text = whole_percent_text(s);
    let mut out = String::new();
    let due = match config.mode {
        CycleMode::All => p_low && s_low,
        CycleMode::Any => p_low || s_low,
    };
    out.append("5h: ");
    out.append(p_text.as_str());
    if due && p_low {
        out.append("% remaining, weekly: ");
    } else {
        out.append("%, weekly: ");
    }
    out.append(s_text.as_str());
    if due && s_low {
        out.append("% remaining");
    } else {
        out.append("%");
    }
    proof {
        reveal_strlit("% remaining, weekly: ");
        reveal_strlit("% remaining");
        reveal_strlit("%, weekly: ");
        reveal_strlit("%");
        reveal_strlit(", ");
        reveal_strlit("weekly: ");
    }
    assert(out@ =~= cycle_reason(*usage, config.thresholds, config.mode));
    (due, out)
}

/// The accounts a run rotates through, the account measured, and the
/// positions of that account and of the target in the rotation.
pub struct CyclePlan {
    pub rotation: Vec<String>,
    pub current: String,
    pub current_index: usize,
    pub target_index: usize,
}

/// How a run begins.
pub enum CycleStart {
    /// Cycling is disabled: nothing to do.
    Disabled,
    /// Neither the rotation list nor the registry holds an account.
    NoAccounts,
    /// Measure `plan.current` and decide.
    Measure(CyclePlan),
}

/// How a run that did not fail ended.
pub enum CycleOutcome {
    Disabled,
    NoAccounts,
    /// No cycle was due; the reason reports both measured values.
    NotDue(String),
    /// The target was activated and the run recorded.
    Cycled,
}

/// Failures of a run.
#[derive(Debug, PartialEq, Eq)]
pub enum CycleError {
    /// No account is live, so there is nothing to measure.
    NoActiveAccount,
    /// Activating the target failed.
    Vault(VaultError),
}

/// The characters of each string.
pub open spec fn names_of(v: Seq<String>) -> Seq<Seq<char>> {
    v.map_values(|s: String| s@)
}

/// The rotation a run uses: the configured list, or the registry's
/// accounts in order when the list is empty.
pub open spec fn rotation_of(accounts: Seq<String>, reg: RegistryView) -> Seq<Seq<char>> {
    if accounts.len() == 0 {
        reg.accounts.map_values(|a: crate::registry::AccountView| a.name)
    } else {
        names_of(accounts)
    }
}

/// Index of the first occurrence of `name` in `rot`, or `rot.len()`.
pub open spec fn position_in(rot: Seq<Seq<char>>, name: Seq<char>) -> nat
    decreases rot.len(),
{
    if rot.len() == 0 {
        0
    } else if rot[0] == name {
        0
    } else {
        1 + position_in(rot.drop_first(), name)
    }
}

/// The position of the measured account: where it stands in the rotation,
/// or the start when it is not in it.
pub open spec fn current_position(rot: Seq<Seq<char>>, name: Seq<char>) -> nat {
    if position_in(rot, name) < rot.len() {
        position_in(rot, name)
    } else {
        0
    }
}

/// The round-robin target: the position after the current one, wrapping.
pub open spec fn target_position(rot: Seq<Seq<char>>, name: Seq<char>) -> nat
    recommends
        rot.len() > 0,
{
    ((current_position(rot, name) as int + 1) % (rot.len() as int)) as nat
}

proof fn lemma_position_in(rot: Seq<Seq<char>>, name: Seq<char>, i: int)
    requires
        0 <= i <= rot.len(),
        forall|j: int| 0 <= j < i ==> rot[j] != name,
        i == rot.len() || rot[i] == name,
    ensures
        position_in(rot, name) == i,
    decreases i,
{
    if i > 0 {
        lemma_position_in(rot.drop_first(), name, i - 1);
    }
}

/// A copy of a list of strings.
pub fn copy_strings(v: &Vec<String>) -> (r: Vec<String>)
    ensures
        r@ == v@,
{
    let mut r: Vec<String> = Vec::new();
    let mut i: usize = 0;
    while i < v.len()
        invariant
            i <= v@.len(),
            r@ == v@.take(i as int),
        decreases v.len() - i,
    {
        r.push(v[i].clone());
        i = i + 1;
        assert(r@ =~= v@.take(i as int));
    }
    assert(v@.take(v@.len() as int) =~= v@);
    r
}

/// The rotation a run uses; see `rotation_of`.
pub fn rotation_list(config: &CycleConfig, registry: &Config) -> (r: Vec<String>)
    ensures
        names_of(r@) == rotation_of(config.accounts@, registry@),
{
    if config.accounts.len() > 0 {
        return copy_strings(&config.accounts);
    }
    let mut r: Vec<String> = Vec::new();
    let mut i: usize = 0;
    let ghost target = registry@.accounts.map_values(|a: crate::registry::AccountView| a.name);
    while i < registry.accounts.len()
        invariant
            i <= registry.accounts@.len(),
            target.len() == registry.accounts@.len(),
            target == registry@.accounts.map_values(|a: crate::registry::AccountView| a.name),
            names_of(r@) == target.take(i as int),
            r@.len() == i,
        decreases registry.accounts.len() - i,
    {
        let ghost old_r = r@;
        r.push(registry.accounts[i].name.clone());
        assert(registry@.accounts[i as int] == registry.accounts@[i as int].view());
        assert forall|k: int| 0 <= k < i implies names_of(r@)[k] == target[k] by {
            assert(r@[k] == old_r[k]);
            assert(names_of(old_r)[k] == target.take(i as int)[k]);
        }
        assert(names_of(r@)[i as int] == target[i as int]);
        i = i + 1;
        assert(names_of(r@) =~= target.take(i as int));
    }
    assert(target.take(i as int) =~= target);
    r
}

/// The position of `name` in the rotation; see `position_in`.
pub fn position_of(rot: &Vec<String>, name: &str) -> (r: usize)
    ensures
        r as nat == position_in(names_of(rot@), name@),
{
    let ghost names = names_of(rot@);
    let mut i: usize = 0;
    while i < rot.len()
        invariant
            i <= rot@.len(),
            names == names_of(rot@),
            forall|j: int| 0 <= j < i ==> names[j] != name@,
        decreases rot.len() - i,
    {
        if str_equal(rot[i].as_str(), name) {
            proof {
                lemma_position_in(names, name@, i as int);
            }
            return i;
        }
        i = i + 1;
    }
    proof {
        lemma_position_in(names, name@, i as int);
    }
    i
}

/// Begins a run: nothing to do when cycling is disabled or no account is
/// configured; a failure when no account is live; otherwise the plan, whose
/// target is the round-robin successor of the live account.
pub fn begin_cycle(config: &CycleConfig, registry: &Config) -> (r: Result<CycleStart, CycleError>)
    ensures
        !config.enabled ==> r matches Ok(CycleStart::Disabled),
        config.enabled && rotation_of(config.accounts@, registry@).len() == 0 ==> r matches Ok(CycleStart::NoAccounts),
        config.enabled && rotation_of(config.accounts@, registry@).len() > 0 && registry.active_account is None ==>
            r == Err::<CycleStart, CycleError>(CycleError::NoActiveAccount),
        config.enabled && rotation_of(config.accounts@, registry@).len() > 0 && registry.active_account is Some ==>
            (r matches Ok(CycleStart::Measure(plan)) && {
                let rot = rotation_of(config.accounts@, registry@);
                let cur = registry.active_account.unwrap()@;
                &&& names_of(plan.rotation@) == rot
                &&& plan.current@ == cur
                &&& plan.current_index == current_position(rot, cur)
                &&& plan.target_index == target_position(rot, cur)
                &&& plan.target_index < plan.rotation@.len()
            }),
{
    if !config.enabled {
        return Ok(CycleStart::Disabled);
    }
    let rotation = rotation_list(config, registry);
    if rotation.len() == 0 {
        return Ok(CycleStart::NoAccounts);
    }
    let current = match &registry.active_account {
        Some(a) => a.clone(),
        None => {
            return Err(CycleError::NoActiveAccount);
        }
    };
    let pos = position_of(&rotation, current.as_str());
    let current_index = if pos < rotation.len() { pos } else { 0 };
    let target_index = (current_index + 1) % rotation.len();
    Ok(CycleStart::Measure(CyclePlan { rotation, current, current_index, target_index }))
}

/// The record of a completed cycle.
pub open spec fn cycle_record(e: CycleHistoryEntry, now: Seq<char>, from: Seq<char>, to: Seq<char>, reason: Seq<char>) -> bool {
    e.timestamp@ == now && e.from_account@ == from && e.to_account@ == to && e.reason@ == reason
}

/// Records a completed cycle: the rotation index moves to the target, the
/// last-cycle time becomes `now`, and exactly one history record
/// `{now, current, target, reason}` is appended.
pub fn record_cycle(config: &mut CycleConfig, plan: &CyclePlan, reason: &str, now: &str, history: &mut Vec<CycleHistoryEntry>)
    requires
        plan.target_index < plan.rotation@.len(),
    ensures
        final(config).current_index == plan.target_index,
        final(config).last_cycle matches Some(t) && t@ == now@,
        final(config).enabled == old(config).enabled,
        final(config).thresholds == old(config).thresholds,
        final(config).mode == old(config).mode,
        final(config).accounts@ == old(config).accounts@,
        final(history)@.len() == old(history)@.len() + 1,
        final(history)@.take(old(history)@.len() as int) == old(history)@,
        cycle_record(final(history)@.last(), now@, plan.current@, plan.rotation@[plan.target_index as int]@, reason@),
{
    config.current_index = plan.target_index;
    config.last_cycle = Some(String::from_str(now));
    history.push(CycleHistoryEntry {
        timestamp: String::from_str(now),
        from_account: plan.current.clone(),
        to_account: plan.rotation[plan.target_index].clone(),
        reason: String::from_str(reason),
    });
    assert(history@.take(old(history)@.len() as int) =~= old(history)@);
}

/// What a run does once the live account is measured.
pub enum CycleAction {
    /// No cycle is due; the reason reports both measured values.
    NotDue(String),
    /// Run `ops` on the live slot to activate `target`, then commit.
    Switch { target: String, ops: Vec<SlotOp>, reason: String },
}

/// The target of a plan.
pub open spec fn plan_target(plan: CyclePlan) -> Seq<char> {
    plan.rotation@[plan.target_index as int]@
}

/// Decides a run from the snapshot of the measured account, whether the
/// monitored process appears to be running, and the target's stored blob:
/// nothing when no cycle is due; else the activation of the target, refused
/// while the process runs unless `force`, and for an unknown target or a
/// missing blob.
pub fn decide_cycle(
    config: &CycleConfig,
    registry: &Config,
    plan: &CyclePlan,
    usage: &UsageData,
    running: bool,
    force: bool,
    target_blob: Option<&Vec<u8>>,
) -> (r: Result<CycleAction, CycleError>)
    requires
        plan.target_index < plan.rotation@.len(),
    ensures
        !cycle_due(*usage, config.thresholds, config.mode) ==> (r matches Ok(CycleAction::NotDue(reason))
            && reason@ == cycle_reason(*usage, config.thresholds, config.mode)),
        cycle_due(*usage, config.thresholds, config.mode) && running && !force ==>
            r == Err::<CycleAction, CycleError>(CycleError::Vault(VaultError::RunningConflict)),
        cycle_due(*usage, config.thresholds, config.mode) && !(running && !force)
            && (!is_registered(registry@, plan_target(*plan)) || target_blob is None) ==>
            (r matches Err(CycleError::Vault(VaultError::CredentialMissing(n))) && n@ == plan_target(*plan)),
        cycle_due(*usage, config.thresholds, config.mode) && !(running && !force)
            && is_registered(registry@, plan_target(*plan)) && target_blob is Some ==>
            (r matches Ok(CycleAction::Switch { target, ops, reason }) && target@ == plan_target(*plan)
                && ops@.map_values(|o: SlotOp| o@) == activation_ops(target_blob.unwrap()@)
                && reason@ == cycle_reason(*usage, config.thresholds, config.mode)),
{
    let (due, reason) = should_cycle(usage, config);
    if !due {
        return Ok(CycleAction::NotDue(reason));
    }
    let target = plan.rotation[plan.target_index].clone();
    match plan_activation(registry, target.as_str(), target_blob, running, force) {
        Ok(ops) => Ok(CycleAction::Switch { target, ops, reason }),
        Err(e) => Err(CycleError::Vault(e)),
    }
}

/// Commits a run whose activation of the target has been carried out: the
/// registry marks the target live at `now`, and the cycle is recorded (see
/// `record_cycle`). Fails, changing nothing, for an unknown target.
pub fn commit_cycle(
    config: &mut CycleConfig,
    registry: &mut Config,
    plan: &CyclePlan,
    reason: &str,
    now: &str,
    history: &mut Vec<CycleHistoryEntry>,
) -> (r: Result<(), CycleError>)
    requires
        plan.target_index < plan.rotation@.len(),
        registry_wf(old(registry)@),
    ensures
        registry_wf(final(registry)@),
        r is Ok <==> is_registered(old(registry)@, plan_target(*plan)),
        r is Ok ==> {
            &&& final(registry)@ == marked_live(old(registry)@, plan_target(*plan), now@)
            &&& final(config).current_index == plan.target_index
            &&& (final(config).last_cycle matches Some(t) && t@ == now@)
            &&& final(history)@.len() == old(history)@.len() + 1
            &&& final(history)@.take(old(history)@.len() as int) == old(history)@
            &&& cycle_record(final(history)@.last(), now@, plan.current@, plan_target(*plan), reason@)
        },
        r is Err ==> final(registry)@ == old(registry)@ && final(history)@ == old(history)@
            && final(config).current_index == old(config).current_index
            && final(config).last_cycle == old(config).last_cycle,
        final(config).enabled == old(config).enabled,
        final(config).thresholds == old(config).thresholds,
        final(config).mode == old(config).mode,
        final(config).accounts@ == old(config).accounts@,
{
    match registry.mark_live(plan.rotation[plan.target_index].as_str(), now) {
        Err(e) => Err(CycleError::Vault(e)),
        Ok(()) => {
            record_cycle(config, plan, reason, now, history);
            Ok(())
        }
    }
}

/// One complete run against an in-memory vault, given the snapshot of the
/// live account, whether the monitored process appears to be running, and
/// the time: `begin_cycle`, then `decide_cycle`, then the activation on the
/// vault's slot and `commit_cycle`. When a cycle is due and may go ahead
/// the target is activated, the rotation index advances and one history
/// record is appended; every other ending leaves the configuration, the
/// vault and the history as they were.
#[verifier::rlimit(60)]
pub fn run_once(
    config: &mut CycleConfig,
    vault: &mut CredentialVault,
    usage: &UsageData,
    running: bool,
    force: bool,
    now: &str,
    history: &mut Vec<CycleHistoryEntry>,
) -> (r: Result<CycleOutcome, CycleError>)
    requires
        old(vault).wf(),
    ensures
        final(vault).wf(),
        (r matches Ok(CycleOutcome::Cycled)) ==> final(vault).live_matches(),
        old(vault).live_matches() ==> final(vault).live_matches(),
        !old(config).enabled ==> r matches Ok(CycleOutcome::Disabled),
        (r matches Ok(CycleOutcome::Disabled)) ==> !old(config).enabled,
        old(config).enabled && rotation_of(old(config).accounts@, old(vault).registry@).len() == 0 ==>
            r matches Ok(CycleOutcome::NoAccounts),
        (r matches Ok(CycleOutcome::NoAccounts)) ==> old(config).enabled
            && rotation_of(old(config).accounts@, old(vault).registry@).len() == 0,
        old(config).enabled && rotation_of(old(config).accounts@, old(vault).registry@).len() > 0
            && old(vault).registry.active_account is None ==> r == Err::<CycleOutcome, CycleError>(CycleError::NoActiveAccount),
        r matches Ok(CycleOutcome::NotDue(reason)) ==> !cycle_due(*usage, old(config).thresholds, old(config).mode)
            && reason@ == cycle_reason(*usage, old(config).thresholds, old(config).mode),
        old(config).enabled && rotation_of(old(config).accounts@, old(vault).registry@).len() > 0
            && old(vault).registry.active_account is Some ==> {
            let rot = rotation_of(old(config).accounts@, old(vault).registry@);
            let cur = old(vault).registry.active_account.unwrap()@;
            let target = rot[target_position(rot, cur) as int];
            let due = cycle_due(*usage, old(config).thresholds, old(config).mode);
            &&& !due ==> (r matches Ok(CycleOutcome::NotDue(_)))
            &&& due && running && !force ==> r == Err::<CycleOutcome, CycleError>(CycleError::Vault(VaultError::RunningConflict))
            &&& due && !(running && !force) && is_registered(old(vault).registry@, target) ==> (r matches Ok(CycleOutcome::Cycled))
            &&& due && !(running && !force) && !is_registered(old(vault).registry@, target) ==>
                (r matches Err(CycleError::Vault(VaultError::CredentialMissing(n))) && n@ == target)
            &&& (r matches Ok(CycleOutcome::Cycled)) ==> {
                &&& final(config).current_index == target_position(rot, cur)
                &&& (final(config).last_cycle matches Some(t) && t@ == now@)
                &&& final(history)@.len() == old(history)@.len() + 1
                &&& final(history)@.take(old(history)@.len() as int) == old(history)@
                &&& cycle_record(final(history)@.last(), now@, cur, target,
                    cycle_reason(*usage, old(config).thresholds, old(config).mode))
                &&& final(vault).registry@ == marked_live(old(vault).registry@, target, now@)
                &&& final(vault).slot@ == run_ops(old(vault).slot@, activation_ops(old(vault).blob_of(target)))
                &&& final(vault).slot@.live == Some(final(vault).blob_of(target))
            }
        },
        !(r matches Ok(CycleOutcome::Cycled)) ==> final(history)@ == old(history)@
            && final(config).current_index == old(config).current_index
            && final(config).last_cycle == old(config).last_cycle
            && final(vault).registry@ == old(vault).registry@
            && final(vault).slot@ == old(vault).slot@,
        final(config).enabled == old(config).enabled,
        final(config).thresholds == old(config).thresholds,
        final(config).mode == old(config).mode,
        final(config).accounts@ == old(config).accounts@,
        final(vault).blobs@ == old(vault).blobs@,
{
    let plan = match begin_cycle(config, &vault.registry) {
        Err(e) => {
            return Err(e);
        }
        Ok(CycleStart::Disabled) => {
            return Ok(CycleOutcome::Disabled);
        }
        Ok(CycleStart::NoAccounts) => {
            return Ok(CycleOutcome::NoAccounts);
        }
        Ok(CycleStart::Measure(plan)) => plan,
    };
    let found = vault.registry.find(plan.rotation[plan.target_index].as_str());
    let blob = match found {
        Some(i) => Some(&vault.blobs[i]),
        None => None,
    };
    let ghost target_blob = old(vault).blob_of(plan_target(plan));
    let (ops, reason) = match decide_cycle(config, &vault.registry, &plan, usage, running, force, blob) {
        Err(e) => {
            return Err(e);
        }
        Ok(CycleAction::NotDue(reason)) => {
            return Ok(CycleOutcome::NotDue(reason));
        }
        Ok(CycleAction::Switch { target: _, ops, reason }) => (ops, reason),
    };
    proof {
        lemma_activation_complete(vault.slot@, target_blob);
    }
    vault.slot.run(&ops);
    let ghost before = vault.registry@;
    match commit_cycle(config, &mut vault.registry, &plan, reason.as_str(), now, history) {
        Err(e) => Err(e),
        Ok(()) => {
            proof {
                lemma_marked_live_keeps_blobs(before, vault.blobs@, plan_target(plan), now@);
            }
            Ok(CycleOutcome::Cycled)
        }
    }
}

/// Sets the rotation list to `accounts`, all of which must be registered;
/// the rotation index moves to the live account's position when it is in
/// the list. Fails, changing nothing, with the first unknown name.
pub fn reorder(config: &mut CycleConfig, registry: &Config, accounts: Vec<String>) -> (r: Result<(), String>)
    ensures
        r is Ok <==> forall|i: int| 0 <= i < accounts@.len() ==> is_registered(registry@, #[trigger] accounts@[i]@),
        r matches Err(n) ==> exists|i: int| 0 <= i < accounts@.len() && accounts@[i]@ == n@ && !is_registered(registry@, n@),
        r is Err ==> final(config).accounts@ == old(config).accounts@ && final(config).current_index == old(config).current_index,
        r is Ok ==> final(config).accounts@ == accounts@ && final(config).current_index == match registry.active_account {
            Some(a) => if position_in(names_of(accounts@), a@) < accounts@.len() {
                position_in(names_of(accounts@), a@) as usize
            } else {
                old(config).current_index
            },
            None => old(config).current_index,
        },
        final(config).enabled == old(config).enabled,
        final(config).thresholds == old(config).thresholds,
        final(config).mode == old(config).mode,
        final(config).last_cycle == old(config).last_cycle,
{
    let mut i: usize = 0;
    while i < accounts.len()
        invariant
            i <= accounts@.len(),
            forall|k: int| 0 <= k < i ==> is_registered(registry@, #[trigger] accounts@[k]@),
        decreases accounts.len() - i,
    {
        if registry.find(accounts[i].as_str()).is_none() {
            return Err(accounts[i].clone());
        }
        i = i + 1;
    }
    if let Some(a) = &registry.active_account {
        let pos = position_of(&accounts, a.as_str());
        if pos < accounts.len() {
            config.current_index = pos;
        }
    }
    config.accounts = accounts;
    Ok(())
}

} // verus!
