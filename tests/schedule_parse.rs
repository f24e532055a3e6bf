use codex_usage::schedule::{
    create_schedule, format_duration, format_time, parse_duration, parse_time, Duration, ParseError,
    ScheduleError, TimeOfDay, WakeupConfig, WakeupSchedule,
};

#[test]
fn test_parse_time_24h() {
    assert_eq!(parse_time("08:00").unwrap(), TimeOfDay::from_hms_opt(8, 0, 0).unwrap());
    assert_eq!(parse_time("14:30").unwrap(), TimeOfDay::from_hms_opt(14, 30, 0).unwrap());
    assert_eq!(parse_time("23:59").unwrap(), TimeOfDay::from_hms_opt(23, 59, 0).unwrap());
}

#[test]
fn test_parse_time_12h() {
    assert_eq!(parse_time("8am").unwrap(), TimeOfDay::from_hms_opt(8, 0, 0).unwrap());
    assert_eq!(parse_time("2pm").unwrap(), TimeOfDay::from_hms_opt(14, 0, 0).unwrap());
    assert_eq!(parse_time("12pm").unwrap(), TimeOfDay::from_hms_opt(12, 0, 0).unwrap());
    assert_eq!(parse_time("12am").unwrap(), TimeOfDay::from_hms_opt(0, 0, 0).unwrap());
}

#[test]
fn test_parse_duration() {
    assert_eq!(parse_duration("60s").unwrap(), Duration::from_secs(60));
    assert_eq!(parse_duration("5m").unwrap(), Duration::from_secs(300));
    assert_eq!(parse_duration("1h").unwrap(), Duration::from_secs(3600));
    assert_eq!(parse_duration("0.5d").unwrap(), Duration::from_secs(43200));
}

#[test]
fn test_format_duration() {
    assert_eq!(format_duration(&Duration::from_secs(60)), "1m");
    assert_eq!(format_duration(&Duration::from_secs(3661)), "1h1m");
    assert_eq!(format_duration(&Duration::from_secs(90061)), "1d1h1m");
}

#[test]
fn parse_time_with_seconds_whitespace_and_case() {
    assert_eq!(parse_time("  07:05:09 ").unwrap(), TimeOfDay { hour: 7, minute: 5, second: 9 });
    assert_eq!(parse_time("2:30PM").unwrap(), TimeOfDay { hour: 14, minute: 30, second: 0 });
    assert_eq!(parse_time("11:59pm").unwrap(), TimeOfDay { hour: 23, minute: 59, second: 0 });
}

#[test]
fn parse_time_rejects_out_of_range_and_garbage() {
    assert_eq!(parse_time("13pm"), Err(ParseError::InvalidTime("13pm".to_string())));
    assert_eq!(parse_time("0am"), Err(ParseError::InvalidTime("0am".to_string())));
    assert_eq!(parse_time("8:60am"), Err(ParseError::InvalidTime("8:60am".to_string())));
    assert_eq!(parse_time("Noon"), Err(ParseError::InvalidTime("noon".to_string())));
    assert_eq!(parse_time("24:00"), Err(ParseError::InvalidTime("24:00".to_string())));
}

#[test]
fn parse_duration_forms_and_errors() {
    assert_eq!(parse_duration("90").unwrap(), Duration::from_secs(90));
    assert_eq!(parse_duration(" 2H ").unwrap(), Duration::from_secs(7200));
    assert_eq!(parse_duration("1.5s").unwrap(), Duration { secs: 1, nanos: 500_000_000 });
    assert_eq!(parse_duration("0.25").unwrap(), Duration { secs: 0, nanos: 250_000_000 });
    assert_eq!(parse_duration("5mm").unwrap(), Duration::from_secs(300));
    assert_eq!(parse_duration("abc"), Err(ParseError::InvalidDuration("abc".to_string())));
    assert_eq!(parse_duration("-5s"), Err(ParseError::InvalidDuration("-5s".to_string())));
    assert_eq!(parse_duration(""), Err(ParseError::InvalidDuration("".to_string())));
    assert_eq!(parse_duration("s"), Err(ParseError::InvalidDuration("s".to_string())));
}

#[test]
fn format_duration_each_range() {
    assert_eq!(format_duration(&Duration::from_secs(0)), "0s");
    assert_eq!(format_duration(&Duration::from_secs(59)), "59s");
    assert_eq!(format_duration(&Duration::from_secs(61)), "1m1s");
    assert_eq!(format_duration(&Duration::from_secs(7200)), "2h");
    assert_eq!(format_duration(&Duration::from_secs(86400)), "1d");
    assert_eq!(format_duration(&Duration::from_secs(90000)), "1d1h");
    assert_eq!(format_duration(&Duration::from_secs(86460)), "1d1m");
}

#[test]
fn format_time_pads_hour_and_minute() {
    assert_eq!(format_time(&TimeOfDay { hour: 8, minute: 5, second: 0 }), "08:05");
    assert_eq!(format_time(&TimeOfDay { hour: 23, minute: 59, second: 30 }), "23:59");
}

#[test]
fn schedule_creation_and_collection() {
    assert_eq!(create_schedule("default", Vec::new(), None, None, false).err(), Some(ScheduleError::NoTimesSpecified));
    let t = TimeOfDay { hour: 8, minute: 0, second: 0 };
    let s = create_schedule("default", vec![t], Some(Duration::from_secs(3600)), Some("a".to_string()), true).unwrap();
    assert_eq!(s.name, "default");
    assert_eq!(s.interval, Some(Duration::from_secs(3600)));
    assert!(s.enabled && s.wake_system);

    let mut config = WakeupConfig::new();
    config.add_schedule(WakeupSchedule::new("a"));
    config.add_schedule(WakeupSchedule::new("b"));
    config.add_schedule(WakeupSchedule::new("a").with_wake_system(true));
    assert_eq!(config.schedules.len(), 2);
    assert!(config.get_schedule("a").unwrap().wake_system);
    assert!(config.get_schedule("c").is_none());
    assert!(config.remove_schedule("a"));
    assert!(!config.remove_schedule("a"));
    assert_eq!(config.schedules.len(), 1);
    config.clear_schedules();
    assert!(config.schedules.is_empty());
}

#[test]
fn schedule_changed_in_place() {
    let mut config = WakeupConfig::new();
    config.add_schedule(WakeupSchedule::new("a"));
    if let Some(s) = config.get_schedule_mut("a") {
        s.enabled = false;
    }
    assert!(!config.get_schedule("a").unwrap().enabled);
    assert!(config.get_schedule_mut("b").is_none());
}

#[test]
fn unicode_white_space_is_trimmed() {
    assert_eq!(parse_duration("\u{3000}5m\u{a0}\t").unwrap(), Duration::from_secs(300));
    assert_eq!(parse_time("\u{2003}8AM\n").unwrap(), TimeOfDay { hour: 8, minute: 0, second: 0 });
}
