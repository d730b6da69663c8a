use swap_exec::utils::{current_timestamp_ms, format_duration, parse_amount, u64_to_string};

#[test]
fn test_parse_amount() {
    assert_eq!(parse_amount("1000000000").unwrap(), 1_000_000_000);
    assert_eq!(parse_amount("1.0").unwrap(), 1_000_000_000);
    assert_eq!(parse_amount("0.5").unwrap(), 500_000_000);
}

#[test]
fn test_format_duration() {
    assert_eq!(format_duration(500), "500ms");
    assert_eq!(format_duration(1500), "1.5s");
    assert_eq!(format_duration(65000), "1.1m");
}

#[test]
fn test_parse_amount_exact_and_scaled_agree() {
    assert_eq!(parse_amount("1000000000").unwrap(), parse_amount("1.0").unwrap());
    assert_eq!(parse_amount("2500000000").unwrap(), parse_amount("2.5").unwrap());
}

#[test]
fn test_parse_amount_fractional_shapes() {
    assert_eq!(parse_amount("0.000000001").unwrap(), 1);
    assert_eq!(parse_amount("5.").unwrap(), 5_000_000_000);
    assert_eq!(parse_amount(".5").unwrap(), 500_000_000);
    assert_eq!(parse_amount("0").unwrap(), 0);
}

#[test]
fn test_parse_amount_rejects_bad_shapes() {
    assert!(parse_amount("").is_none());
    assert!(parse_amount(".").is_none());
    assert!(parse_amount("1.2.3").is_none());
    assert!(parse_amount("12a").is_none());
    assert!(parse_amount("-5").is_none());
    assert!(parse_amount("99999999999999999999999").is_none());
}

#[test]
fn test_u64_to_string() {
    assert_eq!(u64_to_string(0), "0");
    assert_eq!(u64_to_string(7), "7");
    assert_eq!(u64_to_string(1234567), "1234567");
    assert_eq!(u64_to_string(u64::MAX), "18446744073709551615");
}

#[test]
fn test_format_duration_boundaries() {
    assert_eq!(format_duration(0), "0ms");
    assert_eq!(format_duration(999), "999ms");
    assert_eq!(format_duration(1000), "1.0s");
    assert_eq!(format_duration(59999), "60.0s");
    assert_eq!(format_duration(60000), "1.0m");
    assert_eq!(format_duration(120000), "2.0m");
}

#[test]
fn test_parse_amount_largest_value() {
    assert_eq!(parse_amount("18446744073709551615").unwrap(), u64::MAX);
    assert!(parse_amount("18446744073709551616").is_none());
    assert_eq!(parse_amount("18446744073.709551615").unwrap(), u64::MAX);
}

#[test]
fn test_current_timestamp_is_past_known_date() {
    // well after 2017 on any sane clock
    assert!(current_timestamp_ms() > 1_500_000_000_000);
}
