use codex_usage::paths::{
    get_account_auth_path, get_cache_path, get_config_path, get_history_db_path, get_wakeup_config_path_from_dir,
    join_path, sanitize_account_name,
};
use codex_usage::platform::{escape_xml, install_crontab, list, list_schedules, remove, split_lines};
use codex_usage::schedule::{TimeOfDay, WakeupSchedule};

#[test]
fn crontab_listing_and_removal() {
    let tab = "0 1 * * * backup\r\n00 08 * * 1-5 codex-usage wakeup --run # codex-usage-wakeup\n";
    assert_eq!(split_lines(tab), vec!["0 1 * * * backup".to_string(), "00 08 * * 1-5 codex-usage wakeup --run # codex-usage-wakeup".to_string()]);
    assert_eq!(list_schedules(tab), vec!["00 08 * * 1-5 codex-usage wakeup --run # codex-usage-wakeup".to_string()]);
    assert_eq!(list(tab).len(), 1);
    assert_eq!(remove(tab), Some("0 1 * * * backup\n".to_string()));
    assert_eq!(remove("00 08 * * 1-5 x # codex-usage-wakeup\n"), None);
    assert_eq!(remove(""), None);
}

#[test]
fn crontab_install_replaces_old_entries() {
    let s = WakeupSchedule::new("default")
        .with_times(vec![TimeOfDay { hour: 8, minute: 0, second: 0 }, TimeOfDay { hour: 14, minute: 30, second: 0 }])
        .with_account(Some("me".to_string()));
    let tab = install_crontab("0 1 * * * backup\n00 09 * * 1-5 old # codex-usage-wakeup\n", &s);
    assert_eq!(
        tab,
        "0 1 * * * backup\n00 08 * * 1-5 codex-usage wakeup --run --account me # codex-usage-wakeup\n30 14 * * 1-5 codex-usage wakeup --run --account me # codex-usage-wakeup\n"
    );
    let fresh = install_crontab("", &WakeupSchedule::new("d").with_times(vec![TimeOfDay { hour: 7, minute: 5, second: 0 }]));
    assert_eq!(fresh, "05 07 * * 1-5 codex-usage wakeup --run # codex-usage-wakeup\n");
}

#[test]
fn xml_escaping() {
    assert_eq!(escape_xml("a&b<c>\"d'"), "a&amp;b&lt;c&gt;&quot;d&apos;");
    assert_eq!(escape_xml("plain"), "plain");
}

#[test]
fn config_paths() {
    assert_eq!(join_path("/home/u/.codex-usage", "config.json"), "/home/u/.codex-usage/config.json");
    assert_eq!(join_path("dir/", "x"), "dir/x");
    assert_eq!(join_path("", "x"), "x");
    assert_eq!(get_config_path("/c"), "/c/config.json");
    assert_eq!(get_history_db_path("/c"), "/c/history.db");
    assert_eq!(get_wakeup_config_path_from_dir("/c"), "/c/wakeup.json");
    assert_eq!(sanitize_account_name("me@x.com/../y"), "me_x_com____y");
    assert_eq!(get_account_auth_path("/c", "a.b"), "/c/accounts/a_b/auth.json");
    assert_eq!(get_cache_path("/c", "a b"), "/c/usage_cache_a_b.json");
}
