use timestamp_resolver::resolver::resolve;

fn expect_match(input: &str, epoch: i64, label: &str) {
    let r = resolve(input).unwrap_or_else(|| panic!("no match for {:?}", input));
    assert_eq!(r.epoch_seconds, epoch, "epoch for {:?}", input);
    assert_eq!(r.label, label, "label for {:?}", input);
}

fn expect_no_match(input: &str) {
    assert!(resolve(input).is_none(), "unexpected match for {:?}", input);
}

#[test]
fn catalog_format_rfc2822_with_offset() {
    expect_match("Thu, 24 Apr 2025 16:28:26 +0000", 1745512106, "%a, %d %b %Y %H:%M:%S %z");
}

#[test]
fn catalog_format_rfc2822_without_offset() {
    expect_match("Thu, 24 Apr 2025 16:28:26", 1745512106, "%a, %d %b %Y %H:%M:%S");
}

#[test]
fn catalog_format_iso_with_offset() {
    expect_match("2025-04-24T16:28:26+00:00", 1745512106, "%Y-%m-%dT%H:%M:%S%z");
}

#[test]
fn catalog_format_iso_without_offset() {
    expect_match("2025-04-24T16:28:26", 1745512106, "%Y-%m-%dT%H:%M:%S");
}

#[test]
fn catalog_format_dashed_24h() {
    expect_match("2025-04-24 16:28:26", 1745512106, "%Y-%m-%d %H:%M:%S");
}

#[test]
fn catalog_format_dashed_12h() {
    expect_match("2025-04-24 04:28:26 PM", 1745512106, "%Y-%m-%d %I:%M:%S %p");
}

#[test]
fn catalog_format_slashed_24h() {
    expect_match("2025/04/24 16:28:26", 1745512106, "%Y/%m/%d %H:%M:%S");
}

#[test]
fn catalog_format_slashed_12h() {
    expect_match("2025/04/24 04:28:26 PM", 1745512106, "%Y/%m/%d %I:%M:%S %p");
}

#[test]
fn catalog_format_us_order() {
    expect_match("04/24/2025 16:28:26", 1745512106, "%m/%d/%Y %H:%M:%S");
}

#[test]
fn catalog_format_european_order() {
    expect_match("24/04/2025 16:28:26", 1745512106, "%d/%m/%Y %H:%M:%S");
}

#[test]
fn catalog_format_european_dashes() {
    expect_match("24-04-2025 16:28:26", 1745512106, "%d-%m-%Y %H:%M:%S");
}

#[test]
fn catalog_format_day_month_name() {
    expect_match("24 Apr 2025 16:28:26", 1745512106, "%d %b %Y %H:%M:%S");
}

#[test]
fn catalog_format_month_name_day() {
    expect_match("Apr 24 2025 16:28:26", 1745512106, "%b %d %Y %H:%M:%S");
}

#[test]
fn catalog_format_ctime_style() {
    expect_match("Thu Apr 24 16:28:26 2025", 1745512106, "%a %b %d %H:%M:%S %Y");
}

#[test]
fn unix_time_fallback() {
    expect_match("1745512106", 1745512106, "UNIX TIME");
}

#[test]
fn unix_time_with_plus_sign() {
    expect_match("+1745512106", 1745512106, "UNIX TIME");
}

#[test]
fn negative_epoch_before_1970() {
    expect_match("-100", -100, "UNIX TIME");
}

#[test]
fn no_match_free_text() {
    expect_no_match("not a date");
}

#[test]
fn no_match_empty() {
    expect_no_match("");
}

#[test]
fn ambiguous_slash_date_prefers_us_order() {
    // Both the US and the European reading are valid dates here; the US
    // pattern comes first in the catalog and wins: April 5th, not May 4th.
    expect_match("04/05/2025 16:28:26", 1743870506, "%m/%d/%Y %H:%M:%S");
}

#[test]
fn offset_is_applied_to_utc() {
    expect_match("2025-04-24T18:28:26+02:00", 1745512106, "%Y-%m-%dT%H:%M:%S%z");
    expect_match("2025-04-24T12:28:26-0400", 1745512106, "%Y-%m-%dT%H:%M:%S%z");
    expect_match("Thu, 24 Apr 2025 17:28:26 +0100", 1745512106, "%a, %d %b %Y %H:%M:%S %z");
    expect_match("Thu, 24 Apr 2025 17:28:26 +01:00", 1745512106, "%a, %d %b %Y %H:%M:%S %z");
    expect_no_match("2025-04-24T16:28:26+24:00");
    expect_no_match("2025-04-24T16:28:26+05:60");
}

#[test]
fn twelve_hour_edge_cases() {
    expect_match("2025-04-24 12:00:00 AM", 1745452800, "%Y-%m-%d %I:%M:%S %p");
    expect_match("2025-04-24 12:00:00 PM", 1745496000, "%Y-%m-%d %I:%M:%S %p");
}

#[test]
fn leap_day_is_valid_only_in_leap_years() {
    expect_match("2024-02-29 00:00:00", 1709164800, "%Y-%m-%d %H:%M:%S");
    expect_no_match("2025-02-29 00:00:00");
}

#[test]
fn invalid_calendar_values_do_not_match() {
    expect_no_match("2025-04-31 00:00:00");
    expect_no_match("2025-13-01 00:00:00");
    expect_no_match("2025-04-24 24:00:00");
    expect_no_match("2025-04-24 16:60:26");
    expect_no_match("2025-04-24 13:28:26 PM");
}

#[test]
fn wrong_weekday_name_does_not_match() {
    expect_no_match("Fri, 24 Apr 2025 16:28:26 +0000");
}

#[test]
fn partial_or_padded_input_does_not_match() {
    expect_no_match("2025-04-24 16:28:26 ");
    expect_no_match(" 2025-04-24 16:28:26");
    expect_no_match("2025-04-24");
    expect_no_match("16:28:26");
}

#[test]
fn out_of_range_integers_are_no_match() {
    // representable instants end at 9999-12-31T23:59:59Z = 253402300799
    expect_match("253402300799", 253402300799, "UNIX TIME");
    expect_no_match("253402300800");
    // and begin at 0000-01-01T00:00:00Z = -62167219200
    expect_match("-62167219200", -62167219200, "UNIX TIME");
    expect_no_match("-62167219201");
    expect_no_match("9223372036854775807");
    expect_no_match("99999999999999999999999999");
}

#[test]
fn integer_syntax_is_strict() {
    expect_no_match("12 34");
    expect_no_match("12.5");
    expect_no_match("+-12");
    expect_no_match("+");
    expect_no_match("-");
    expect_no_match("1745512106x");
}
