use codex_usage::burn::{calculate_burn_rate, isqrt, BurnRateTracker, UsageSample, SAMPLE_CAPACITY};
use codex_usage::cache::{QuotaCache, CACHE_TTL_MS};
use codex_usage::quota::UsageData;
use codex_usage::schedule::Duration;
use codex_usage::watch::{format_uptime, parse_interval, sample_of};

fn snapshot(name: &str) -> UsageData {
    UsageData {
        account_name: name.to_string(),
        status: "ok".to_string(),
        plan: Some("plus".to_string()),
        primary_window: None,
        secondary_window: None,
        code_review: None,
        limit_reached: false,
        auth_type: "OAuth (ChatGPT)".to_string(),
    }
}

fn sample(t_ms: u64, primary: i64, secondary: i64) -> UsageSample {
    UsageSample { timestamp_ms: t_ms, primary_used: primary, secondary_used: secondary, code_review_used: 0 }
}

#[test]
fn cache_entry_is_fresh_up_to_the_ttl() {
    let mut cache = QuotaCache::new();
    cache.put("a", snapshot("a"), 1_000_000);
    let fresh = cache.get("a", 1_000_000 + 299_900).expect("fresh at 299.9s");
    assert_eq!(fresh.account_name, "a");
    assert_eq!(fresh.plan.as_deref(), Some("plus"));
    assert!(cache.get("a", 1_000_000 + 300_100).is_none());
    assert!(cache.get("a", 1_000_000 + CACHE_TTL_MS).is_some());
    assert!(cache.get("a", 1_000_000 + CACHE_TTL_MS + 1).is_none());
    assert!(cache.get("b", 1_000_000).is_none());
}

#[test]
fn cache_put_overwrites_and_keeps_others() {
    let mut cache = QuotaCache::new();
    cache.put("a", snapshot("first"), 0);
    cache.put("b", snapshot("b"), 0);
    cache.put("a", snapshot("second"), 400_000);
    assert_eq!(cache.get("a", 500_000).unwrap().account_name, "second");
    assert!(cache.get("b", 500_000).is_none());
    assert_eq!(cache.get("b", 100).unwrap().account_name, "b");
    assert_eq!(cache.entries.len(), 2);
}

#[test]
fn burn_rate_two_samples_sixty_seconds_apart() {
    let stats = calculate_burn_rate(&vec![sample(0, 1000, 0), sample(60_000, 1600, 0)]).unwrap();
    assert_eq!(stats.primary_burn, 600);
    assert_eq!(stats.secondary_burn, 0);
    assert_eq!(stats.primary_stddev, 0);
}

#[test]
fn burn_rate_needs_two_samples_and_elapsed_time() {
    assert!(calculate_burn_rate(&vec![]).is_none());
    assert!(calculate_burn_rate(&vec![sample(0, 1000, 0)]).is_none());
    assert!(calculate_burn_rate(&vec![sample(5, 1000, 0), sample(5, 2000, 0)]).is_none());
}

#[test]
fn burn_rate_negative_after_reset_and_dispersion_per_interval() {
    let stats = calculate_burn_rate(&vec![sample(0, 9000, 0), sample(60_000, 100, 0)]).unwrap();
    assert_eq!(stats.primary_burn, -8900);
    // intervals of 60s and 120s, each normalized on its own: 100 and 100 points/min
    let even = calculate_burn_rate(&vec![sample(0, 0, 0), sample(60_000, 100, 0), sample(180_000, 300, 0)]).unwrap();
    assert_eq!(even.primary_burn, 100);
    assert_eq!(even.primary_stddev, 0);
    // rates 100 and 300: population deviation 100
    let uneven = calculate_burn_rate(&vec![sample(0, 0, 0), sample(60_000, 100, 0), sample(120_000, 400, 0)]).unwrap();
    assert_eq!(uneven.primary_stddev, 100);
    // a zero-length interval adds no rate but does not stop the others
    let dup = calculate_burn_rate(&vec![sample(0, 0, 0), sample(60_000, 100, 0), sample(60_000, 100, 0), sample(120_000, 400, 0)]).unwrap();
    assert_eq!(dup.primary_stddev, 100);
}

#[test]
fn tracker_keeps_the_last_thirty_samples_per_account() {
    let mut t = BurnRateTracker::new();
    for i in 0..40u64 {
        t.record("a", sample(i * 1000, i as i64, 0));
    }
    t.record("b", sample(0, 0, 0));
    assert_eq!(t.windows[0].samples.len(), SAMPLE_CAPACITY);
    assert_eq!(t.windows[0].samples[0].timestamp_ms, 10_000);
    assert_eq!(t.windows[1].samples.len(), 1);
    let r = t.rate("a").unwrap();
    assert_eq!(r.primary_burn, 60);
    assert!(t.rate("b").is_none());
    assert!(t.rate("c").is_none());
}

#[test]
fn tracker_clamps_out_of_range_shares() {
    let mut t = BurnRateTracker::new();
    t.record("a", sample(0, i64::MAX, i64::MIN));
    assert_eq!(t.windows[0].samples[0].primary_used, 1_000_000_000);
    assert_eq!(t.windows[0].samples[0].secondary_used, -1_000_000_000);
}

#[test]
fn integer_square_root() {
    assert_eq!(isqrt(0), 0);
    assert_eq!(isqrt(15), 3);
    assert_eq!(isqrt(16), 4);
    assert_eq!(isqrt(1u128 << 100), 1u64 << 50);
}

#[test]
fn poll_interval_and_uptime() {
    assert_eq!(parse_interval("10s").unwrap(), Duration::from_secs(10));
    assert_eq!(parse_interval("1m").unwrap(), Duration::from_secs(60));
    assert_eq!(parse_interval(" 2h").unwrap(), Duration::from_secs(7200));
    assert_eq!(parse_interval("45").unwrap(), Duration::from_secs(45));
    assert!(parse_interval("1.5m").is_err());
    assert!(parse_interval("x").is_err());
    assert_eq!(format_uptime(&Duration::from_secs(5)), "5s");
    assert_eq!(format_uptime(&Duration::from_secs(65)), "1m 5s");
    assert_eq!(format_uptime(&Duration::from_secs(3725)), "1h 2m 5s");
}

#[test]
fn sample_from_snapshot_defaults_absent_windows() {
    let s = sample_of(&snapshot("a"), 42);
    assert_eq!(s, UsageSample { timestamp_ms: 42, primary_used: 0, secondary_used: 0, code_review_used: 0 });
}
