use genvm::interfaces::{read_duration, default_false, default_none, default_text, duration_text, no_wait, parse_duration, parse_u64_digits, DurationError, OutputFormat, ParsedDuration};

#[test]
fn durations() {
    assert_eq!(parse_duration("3s").ok().map(|d| d.0), Some(3_000_000_000));
    assert_eq!(parse_duration("250ms").ok().map(|d| d.0), Some(250_000_000));
    assert_eq!(parse_duration("3 s").err(), Some(DurationError::Format));
    assert_eq!(parse_duration("s").err(), Some(DurationError::Format));
    assert_eq!(parse_duration("1m").err(), Some(DurationError::Format));
    assert_eq!(parse_duration("99999999999999999999s").err(), Some(DurationError::Number));
    assert_eq!(parse_duration("٣s").err(), Some(DurationError::Number));
    assert_eq!(duration_text(&ParsedDuration(1_500_000_000)), "1500ms");
    assert_eq!(duration_text(&no_wait()), "0ms");
}

#[test]
fn numbers() {
    assert_eq!(parse_u64_digits("0042"), Some(42));
    assert_eq!(parse_u64_digits("18446744073709551615"), Some(u64::MAX));
    assert_eq!(parse_u64_digits("18446744073709551616"), None);
    assert_eq!(parse_u64_digits(""), None);
    assert_eq!(parse_u64_digits("+1"), None);
}

#[test]
fn defaults() {
    assert_eq!(default_text(), OutputFormat::Text);
    assert!(default_none().is_none());
    assert!(!default_false());
}

#[test]
fn duration_text_reads_back() {
    for ms in [0u128, 7, 250, 10_000, u64::MAX as u128] {
        let d = ParsedDuration(ms * 1_000_000 + 999);
        let t = duration_text(&d);
        assert_eq!(t, format!("{ms}ms"));
        assert_eq!(parse_duration(&t).ok().map(|x| x.0), Some(ms * 1_000_000));
    }
    assert_eq!(parse_duration("10s").ok().map(|d| d.0), Some(10_000_000_000));
    assert_eq!(parse_duration("1.5s").err(), Some(DurationError::Format));
    assert_eq!(parse_duration("").err(), Some(DurationError::Format));
    assert_eq!(parse_duration("ms").err(), Some(DurationError::Format));
}

#[test]
fn absent_duration_is_zero() {
    assert_eq!(read_duration(None).ok().map(|d| d.0), Some(0));
    assert_eq!(read_duration(Some("2s")).ok().map(|d| d.0), Some(2_000_000_000));
    assert_eq!(read_duration(Some("x")).err(), Some(DurationError::Format));
}
