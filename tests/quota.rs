use codex_usage::payload::parse_usage_body;
use codex_usage::percent::{parse_points, round_to_whole, whole_percent_text};
use codex_usage::quota::{decode_usage, format_reset_time, RawUsage, RawWindow};

#[test]
fn decode_full_payload() {
    let body = r#"{"plan_type":"plus","rate_limit":{"primary_window":{"used_percent":12.5,"limit_window_seconds":18000,"reset_after_seconds":7500},"secondary_window":{"used_percent":40,"limit_window_seconds":604800,"reset_after_seconds":0},"limit_reached":true},"code_review_rate_limit":{"primary_window":{"used_percent":3}}}"#;
    let u = parse_usage_body(body, "me").unwrap();
    assert_eq!(u.account_name, "me");
    assert_eq!(u.status, "ok");
    assert_eq!(u.auth_type, "OAuth (ChatGPT)");
    assert_eq!(u.plan.as_deref(), Some("plus"));
    let p = u.primary_window.unwrap();
    assert_eq!(p.used_percent, 1250);
    assert_eq!(p.remaining_percent, 8750);
    assert_eq!(p.window, "5h");
    assert_eq!(p.resets_in.as_deref(), Some("2h 5m"));
    let s = u.secondary_window.unwrap();
    assert_eq!(s.used_percent, 4000);
    assert_eq!(s.window, "7d");
    assert_eq!(s.resets_in, None);
    assert!(u.limit_reached);
    assert_eq!(u.code_review.unwrap().used_percent, 300);
}

#[test]
fn decode_sparse_payload_takes_defaults() {
    let u = parse_usage_body(r#"{"rate_limit":{"primary_window":{},"secondary_window":{"used_percent":"n/a"}}}"#, "x").unwrap();
    let p = u.primary_window.unwrap();
    assert_eq!((p.used_percent, p.remaining_percent), (0, 10000));
    assert_eq!(p.window, "5h");
    let s = u.secondary_window.unwrap();
    assert_eq!((s.used_percent, s.remaining_percent), (0, 10000));
    assert_eq!(s.window, "7d");
    assert!(u.code_review.is_none());
    assert!(!u.limit_reached);
    assert!(u.plan.is_none());

    let empty = parse_usage_body("{}", "x").unwrap();
    assert!(empty.primary_window.is_none() && empty.secondary_window.is_none());
    assert!(parse_usage_body("not json", "x").is_none());
}

#[test]
fn decode_from_raw_fields() {
    let raw = RawUsage {
        plan_type: None,
        primary_window: Some(RawWindow { used_percent: Some(9000), limit_window_seconds: Some(3600), reset_after_seconds: Some(59) }),
        secondary_window: None,
        limit_reached: None,
        code_review_window: Some(RawWindow { used_percent: None, limit_window_seconds: None, reset_after_seconds: None }),
    };
    let u = decode_usage(&raw, "acct");
    let p = u.primary_window.unwrap();
    assert_eq!(p.remaining_percent, 1000);
    assert_eq!(p.window, "1h");
    assert_eq!(p.resets_in.as_deref(), Some("0m"));
    assert_eq!(u.code_review.unwrap().used_percent, 0);
}

#[test]
fn percent_text_reading() {
    assert_eq!(parse_points("12"), Some(1200));
    assert_eq!(parse_points("12.5"), Some(1250));
    assert_eq!(parse_points("0.129"), Some(12));
    assert_eq!(parse_points("-3.5"), Some(-350));
    assert_eq!(parse_points("100.0"), Some(10000));
    assert_eq!(parse_points("1e-7"), None);
    assert_eq!(parse_points(""), None);
    assert_eq!(parse_points("."), None);
    assert_eq!(parse_points("5."), None);
    assert_eq!(parse_points("10000001"), None);
}

#[test]
fn whole_percent_rounding() {
    assert_eq!(round_to_whole(1249), 12);
    assert_eq!(round_to_whole(1250), 12);
    assert_eq!(round_to_whole(1350), 14);
    assert_eq!(round_to_whole(1251), 13);
    assert_eq!(round_to_whole(-250), -2);
    assert_eq!(whole_percent_text(-1251), "-13");
}

#[test]
fn reset_time_text() {
    assert_eq!(format_reset_time(7500), "2h 5m");
    assert_eq!(format_reset_time(3600), "1h 0m");
    assert_eq!(format_reset_time(59), "0m");
    assert_eq!(format_reset_time(2700), "45m");
}
