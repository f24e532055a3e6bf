use codex_usage::cycle::{
    begin_cycle, run_once, should_cycle, CycleConfig, CycleError, CycleHistoryEntry, CycleMode, CycleOutcome,
    CycleStart, CycleThresholds,
};
use codex_usage::quota::{RateWindow, UsageData};
use codex_usage::registry::VaultError;
use codex_usage::vault::CredentialVault;

fn window(remaining_points: i64) -> RateWindow {
    RateWindow {
        used_percent: 10000 - remaining_points,
        remaining_percent: remaining_points,
        window: "5h".to_string(),
        resets_in: None,
    }
}

fn usage(primary: Option<i64>, secondary: Option<i64>) -> UsageData {
    UsageData {
        account_name: "B".to_string(),
        status: "ok".to_string(),
        plan: None,
        primary_window: primary.map(window),
        secondary_window: secondary.map(window),
        code_review: None,
        limit_reached: false,
        auth_type: "OAuth (ChatGPT)".to_string(),
    }
}

fn config(mode: CycleMode, accounts: &[&str]) -> CycleConfig {
    CycleConfig {
        enabled: true,
        thresholds: CycleThresholds { five_hour: 1000, weekly: 1000 },
        mode,
        accounts: accounts.iter().map(|a| a.to_string()).collect(),
        current_index: 0,
        last_cycle: None,
    }
}

#[test]
fn decide_all_mode_needs_both_windows_low() {
    let c = config(CycleMode::All, &[]);
    let (due, reason) = should_cycle(&usage(Some(500), Some(5000)), &c);
    assert!(!due);
    assert_eq!(reason, "5h: 5%, weekly: 50%");
    let (due, reason) = should_cycle(&usage(Some(500), Some(500)), &c);
    assert!(due);
    assert_eq!(reason, "5h: 5% remaining, weekly: 5% remaining");
}

#[test]
fn decide_any_mode_triggers_on_either_window() {
    let c = config(CycleMode::Any, &[]);
    let (due, reason) = should_cycle(&usage(Some(500), Some(5000)), &c);
    assert!(due);
    assert_eq!(reason, "5h: 5% remaining, weekly: 50%");
    let (due, reason) = should_cycle(&usage(Some(5000), Some(700)), &c);
    assert!(due);
    assert_eq!(reason, "5h: 50%, weekly: 7% remaining");
    let (due, reason) = should_cycle(&usage(Some(500), Some(700)), &c);
    assert!(due);
    assert_eq!(reason, "5h: 5% remaining, weekly: 7% remaining");
    let (due, _) = should_cycle(&usage(Some(5000), Some(5000)), &c);
    assert!(!due);
}

#[test]
fn decide_threshold_is_inclusive_and_absent_window_never_triggers() {
    let c = config(CycleMode::Any, &[]);
    assert!(should_cycle(&usage(Some(1000), None), &c).0);
    assert!(!should_cycle(&usage(Some(1001), None), &c).0);
    let all = config(CycleMode::All, &[]);
    let (due, reason) = should_cycle(&usage(Some(0), None), &all);
    assert!(!due);
    assert_eq!(reason, "5h: 0%, weekly: 100%");
}

#[test]
fn absent_windows_never_trigger_whatever_the_thresholds() {
    for mode in [CycleMode::All, CycleMode::Any] {
        let mut c = config(mode, &[]);
        c.thresholds = CycleThresholds { five_hour: 10000, weekly: 20000 };
        let (due, reason) = should_cycle(&usage(None, None), &c);
        assert!(!due);
        assert_eq!(reason, "5h: 100%, weekly: 100%");
    }
    let mut any = config(CycleMode::Any, &[]);
    any.thresholds = CycleThresholds { five_hour: 10000, weekly: 10000 };
    let (due, reason) = should_cycle(&usage(Some(9000), None), &any);
    assert!(due);
    assert_eq!(reason, "5h: 90% remaining, weekly: 100%");
}

#[test]
fn decide_rounds_reported_values_half_to_even() {
    let c = config(CycleMode::All, &[]);
    let (_, reason) = should_cycle(&usage(Some(1250), Some(1350)), &c);
    assert_eq!(reason, "5h: 12%, weekly: 14%");
}

#[test]
fn mode_names() {
    assert_eq!(CycleMode::from_name("and"), CycleMode::All);
    assert_eq!(CycleMode::from_name("or"), CycleMode::Any);
    assert_eq!(CycleMode::All.name(), "and");
    assert_eq!(CycleMode::Any.name(), "or");
}

fn vault_with(names: &[&str], live: Option<&str>) -> CredentialVault {
    let mut v = CredentialVault::new(None);
    for (i, n) in names.iter().enumerate() {
        let blob = format!("{{\"token\":\"{}{}\"}}", n, i).into_bytes();
        v.add(n, Some(blob), "2024-01-01T00:00:00Z").unwrap();
    }
    if let Some(l) = live {
        v.activate(l, false, false, "2024-01-01T00:00:00Z").unwrap();
    }
    v
}

#[test]
fn run_once_advances_round_robin_and_records_history() {
    let mut c = config(CycleMode::All, &["A", "B", "C"]);
    let mut v = vault_with(&["A", "B", "C"], Some("B"));
    let mut history: Vec<CycleHistoryEntry> = Vec::new();
    let r = run_once(&mut c, &mut v, &usage(Some(500), Some(500)), false, false, "2024-06-01T10:00:00Z", &mut history);
    assert!(matches!(r, Ok(CycleOutcome::Cycled)));
    assert_eq!(v.registry.active_account.as_deref(), Some("C"));
    assert_eq!(c.current_index, 2);
    assert_eq!(c.last_cycle.as_deref(), Some("2024-06-01T10:00:00Z"));
    assert_eq!(history.len(), 1);
    assert_eq!(history[0].from_account, "B");
    assert_eq!(history[0].to_account, "C");
    assert_eq!(history[0].reason, "5h: 5% remaining, weekly: 5% remaining");
    assert_eq!(v.slot.live.as_deref(), Some(v.blobs[2].as_slice()));
}

#[test]
fn run_once_wraps_to_the_first_account() {
    let mut c = config(CycleMode::Any, &["A", "B", "C"]);
    let mut v = vault_with(&["A", "B", "C"], Some("C"));
    let mut history = Vec::new();
    let r = run_once(&mut c, &mut v, &usage(Some(500), None), false, false, "t", &mut history);
    assert!(matches!(r, Ok(CycleOutcome::Cycled)));
    assert_eq!(v.registry.active_account.as_deref(), Some("A"));
    assert_eq!(c.current_index, 0);
}

#[test]
fn run_once_running_conflict_changes_nothing_unless_forced() {
    let mut c = config(CycleMode::Any, &["A", "B", "C"]);
    let mut v = vault_with(&["A", "B", "C"], Some("B"));
    let mut history = Vec::new();
    let r = run_once(&mut c, &mut v, &usage(Some(500), None), true, false, "t", &mut history);
    assert_eq!(r.err(), Some(CycleError::Vault(VaultError::RunningConflict)));
    assert_eq!(v.registry.active_account.as_deref(), Some("B"));
    assert_eq!(c.current_index, 0);
    assert!(history.is_empty());
    let r = run_once(&mut c, &mut v, &usage(Some(500), None), true, true, "t", &mut history);
    assert!(matches!(r, Ok(CycleOutcome::Cycled)));
    assert_eq!(history.len(), 1);
}

#[test]
fn run_once_no_ops_and_failures() {
    let mut history = Vec::new();
    let mut disabled = config(CycleMode::Any, &["A"]);
    disabled.enabled = false;
    let mut v = vault_with(&["A"], Some("A"));
    assert!(matches!(run_once(&mut disabled, &mut v, &usage(Some(0), None), false, false, "t", &mut history), Ok(CycleOutcome::Disabled)));

    let mut empty = config(CycleMode::Any, &[]);
    let mut none = CredentialVault::new(None);
    assert!(matches!(run_once(&mut empty, &mut none, &usage(Some(0), None), false, false, "t", &mut history), Ok(CycleOutcome::NoAccounts)));

    let mut c = config(CycleMode::Any, &[]);
    let mut no_live = vault_with(&["A", "B"], None);
    assert_eq!(run_once(&mut c, &mut no_live, &usage(Some(0), None), false, false, "t", &mut history).err(), Some(CycleError::NoActiveAccount));

    let mut v2 = vault_with(&["A", "B"], Some("A"));
    let r = run_once(&mut c, &mut v2, &usage(Some(5000), None), false, false, "t", &mut history);
    match r {
        Ok(CycleOutcome::NotDue(reason)) => assert_eq!(reason, "5h: 50%, weekly: 100%"),
        _ => panic!("expected no cycle"),
    }
    assert!(history.is_empty());
}

#[test]
fn rotation_falls_back_to_registry_order() {
    let c = config(CycleMode::Any, &[]);
    let v = vault_with(&["X", "Y"], Some("Y"));
    match begin_cycle(&c, &v.registry) {
        Ok(CycleStart::Measure(plan)) => {
            assert_eq!(plan.rotation, vec!["X".to_string(), "Y".to_string()]);
            assert_eq!(plan.current_index, 1);
            assert_eq!(plan.target_index, 0);
        }
        _ => panic!("expected a plan"),
    }
}

#[test]
fn default_cycle_config() {
    let c = CycleConfig::default();
    assert!(!c.enabled);
    assert_eq!(c.mode, CycleMode::All);
    assert!(c.accounts.is_empty());
}
