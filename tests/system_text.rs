use codex_usage::cycle::{reorder, CycleConfig, CycleMode};
use codex_usage::paths::{get_codex_auth_path, get_config_dir, get_launch_agent_path, get_wakeup_config_path};
use codex_usage::platform::{launch_agent_plist, windows_task_name, windows_task_names};
use codex_usage::probe::{lists_other_process, lock_pid, parse_pid};
use codex_usage::registry::Config;
use codex_usage::schedule::{TimeOfDay, WakeupSchedule};

#[test]
fn pgrep_output_and_lock_file() {
    assert!(lists_other_process("123\n456\n", 123));
    assert!(!lists_other_process("123\n", 123));
    assert!(!lists_other_process("", 1));
    assert!(!lists_other_process("abc\n", 1));
    assert_eq!(parse_pid(" 42 \n"), Some(42));
    assert_eq!(parse_pid("99999999999"), None);
    assert_eq!(lock_pid("  77\n"), 77);
    assert_eq!(lock_pid("garbage"), 0);
}

#[test]
fn windows_task_listing() {
    let listing = "Folder: \\\r\nTaskName:      \\CodexUsageWakeup_0800\r\nStatus: Ready\r\nTaskName: \\Other\r\n";
    assert_eq!(windows_task_names(listing), vec!["\\CodexUsageWakeup_0800".to_string()]);
    assert_eq!(windows_task_name(&TimeOfDay { hour: 8, minute: 5, second: 0 }), "CodexUsageWakeup_0805");
}

#[test]
fn launch_agent_property_list() {
    let s = WakeupSchedule::new("d")
        .with_times(vec![TimeOfDay { hour: 8, minute: 0, second: 0 }])
        .with_account(Some("a&b".to_string()))
        .with_wake_system(true);
    let text = launch_agent_plist(&s);
    assert!(text.starts_with("<?xml version=\"1.0\" encoding=\"UTF-8\"?>\n"));
    assert!(text.contains("<string>com.codex-usage.wakeup</string>"));
    assert!(text.contains("<string>wakeup</string>\n        <string>--run</string>\n        <string>--account</string>\n        <string>a&amp;b</string>\n        <string>--wake-system</string>"));
    assert!(text.contains("<key>Hour</key>\n            <integer>8</integer>\n            <key>Minute</key>\n            <integer>0</integer>"));
    assert!(text.ends_with("</dict>\n</plist>"));
}

#[test]
fn reorder_checks_names_and_moves_the_index() {
    let mut reg = Config::new();
    reg.add_account("a", &vec![1u8; 32], "t").unwrap();
    reg.add_account("b", &vec![2u8; 32], "t").unwrap();
    reg.mark_live("b", "t").unwrap();
    let mut c = CycleConfig::default();
    assert_eq!(reorder(&mut c, &reg, vec!["b".to_string(), "zed".to_string()]), Err("zed".to_string()));
    assert!(c.accounts.is_empty());
    assert_eq!(reorder(&mut c, &reg, vec!["a".to_string(), "b".to_string()]), Ok(()));
    assert_eq!(c.accounts, vec!["a".to_string(), "b".to_string()]);
    assert_eq!(c.current_index, 1);
    assert!(reg.is_well_formed());
}

#[test]
fn strict_mode_names() {
    assert_eq!(CycleMode::parse("and"), Some(CycleMode::All));
    assert_eq!(CycleMode::parse("or"), Some(CycleMode::Any));
    assert_eq!(CycleMode::parse("xor"), None);
}

#[test]
fn home_relative_paths() {
    assert!(get_config_dir().ends_with(".codex-usage"));
    assert!(get_codex_auth_path().ends_with(".codex/auth.json"));
    assert!(get_wakeup_config_path().ends_with(".codex-usage/wakeup.json"));
    assert!(get_launch_agent_path().ends_with("Library/LaunchAgents/com.codex-usage.wakeup.plist"));
}

#[test]
fn registry_well_formedness_check() {
    let mut reg = Config::new();
    reg.add_account("a", &vec![1u8; 32], "t").unwrap();
    assert!(reg.is_well_formed());
    reg.active_account = Some("ghost".to_string());
    assert!(!reg.is_well_formed());
    reg.active_account = None;
    let dup = reg.accounts[0].info.auth_hash.clone();
    reg.accounts.push(codex_usage::registry::AccountEntry {
        name: "b".to_string(),
        info: codex_usage::registry::AccountInfo { added_at: "t".to_string(), last_used: None, auth_hash: dup },
    });
    assert!(!reg.is_well_formed());
}
