use timestamp_resolver::describe::describe_now;
use timestamp_resolver::describe::describe_parse;
use timestamp_resolver::describe::usage;
use timestamp_resolver::render::rfc2822_x;
use timestamp_resolver::resolver::resolve;

#[test]
fn renders_rfc2822_with_utc_marker() {
    assert_eq!(rfc2822_x(1745512106), "Thu, 24 Apr 2025 16:28:26 +0000");
}

#[test]
fn renders_epoch_zero() {
    assert_eq!(rfc2822_x(0), "Thu, 01 Jan 1970 00:00:00 +0000");
}

#[test]
fn renders_pre_epoch_instant() {
    assert_eq!(rfc2822_x(-100), "Wed, 31 Dec 1969 23:58:20 +0000");
}

#[test]
fn round_trip_through_rendering() {
    let samples: Vec<i64> = vec![0, 1, -1, -100, 1745512106, 951827696, -62167219200, 253402300799];
    for t in samples {
        let text = rfc2822_x(t);
        let r = resolve(&text).unwrap_or_else(|| panic!("no match for {:?}", text));
        assert_eq!(r.epoch_seconds, t, "round trip through {:?}", text);
        assert_eq!(r.label, "%a, %d %b %Y %H:%M:%S %z");
    }
}

#[test]
fn describe_now_omits_original_fields() {
    let d = describe_now(1745512106).unwrap();
    assert!(d.original_timestring.is_none());
    assert!(d.original_timestring_format.is_none());
    assert_eq!(d.unix_time, 1745512106);
    assert_eq!(d.time_in_rfc2822, "Thu, 24 Apr 2025 16:28:26 +0000");
}

#[test]
fn describe_now_refuses_unrepresentable_instants() {
    assert!(describe_now(253402300800).is_none());
    assert!(describe_now(-62167219201).is_none());
    assert!(describe_now(i64::MAX).is_none());
    assert!(describe_now(i64::MIN).is_none());
}

#[test]
fn describe_parse_fills_all_fields() {
    let d = describe_parse("1745512106").unwrap();
    assert_eq!(d.original_timestring.as_deref(), Some("1745512106"));
    assert_eq!(d.original_timestring_format.as_deref(), Some("UNIX TIME"));
    assert_eq!(d.unix_time, 1745512106);
    assert_eq!(d.time_in_rfc2822, "Thu, 24 Apr 2025 16:28:26 +0000");

    let d = describe_parse("Thu, 24 Apr 2025 16:28:26 +0000").unwrap();
    assert_eq!(d.original_timestring.as_deref(), Some("Thu, 24 Apr 2025 16:28:26 +0000"));
    assert_eq!(d.original_timestring_format.as_deref(), Some("%a, %d %b %Y %H:%M:%S %z"));
    assert_eq!(d.unix_time, 1745512106);
    assert_eq!(d.time_in_rfc2822, "Thu, 24 Apr 2025 16:28:26 +0000");
}

#[test]
fn describe_parse_no_match() {
    assert!(describe_parse("not a date").is_none());
    assert!(describe_parse("").is_none());
}

#[test]
fn usage_banner_text() {
    assert_eq!(usage(), "Usage: time/now, time/parse");
}

#[test]
fn catalog_patterns_are_ordered_and_complete() {
    let pats = timestamp_resolver::catalog::patterns();
    assert_eq!(pats.len(), 14);
    let labels: Vec<&str> = pats.iter().map(|p| p.1.as_str()).collect();
    assert_eq!(
        labels,
        vec![
            "%a, %d %b %Y %H:%M:%S %z",
            "%a, %d %b %Y %H:%M:%S",
            "%Y-%m-%dT%H:%M:%S%z",
            "%Y-%m-%dT%H:%M:%S",
            "%Y-%m-%d %H:%M:%S",
            "%Y-%m-%d %I:%M:%S %p",
            "%Y/%m/%d %H:%M:%S",
            "%Y/%m/%d %I:%M:%S %p",
            "%m/%d/%Y %H:%M:%S",
            "%d/%m/%Y %H:%M:%S",
            "%d-%m-%Y %H:%M:%S",
            "%d %b %Y %H:%M:%S",
            "%b %d %Y %H:%M:%S",
            "%a %b %d %H:%M:%S %Y",
        ]
    );
}
