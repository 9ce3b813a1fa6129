use dropit::expiration::Threshold;
use dropit::parse::{
    find, parse_credential, parse_duration, parse_number, parse_threshold, ThresholdParseError,
};

#[test]
fn find_gives_the_first_position() {
    assert_eq!(find("a:b:c", ':'), Some(1));
    assert_eq!(find(":", ':'), Some(0));
    assert_eq!(find("abc", ':'), None);
    assert_eq!(find("", ':'), None);
    // positions count characters, not bytes
    assert_eq!(find("é:x", ':'), Some(1));
}

#[test]
fn numbers_are_decimal_numerals() {
    assert_eq!(parse_number("0"), Some(0));
    assert_eq!(parse_number("007"), Some(7));
    assert_eq!(parse_number("1234567890"), Some(1_234_567_890));
    assert_eq!(parse_number("18446744073709551615"), Some(u64::MAX));
    assert_eq!(parse_number("18446744073709551616"), None);
    assert_eq!(parse_number("99999999999999999999999"), None);
    assert_eq!(parse_number(""), None);
    assert_eq!(parse_number("12a"), None);
    assert_eq!(parse_number("-1"), None);
    assert_eq!(parse_number("+1"), None);
    assert_eq!(parse_number(" 1"), None);
    assert_eq!(parse_number("１"), None);
}

#[test]
fn durations_have_one_unit() {
    assert_eq!(parse_duration("90s"), Some(90));
    assert_eq!(parse_duration("5m"), Some(300));
    assert_eq!(parse_duration("12h"), Some(43_200));
    assert_eq!(parse_duration("7d"), Some(604_800));
    assert_eq!(parse_duration("0d"), Some(0));
    assert_eq!(parse_duration("5"), None);
    assert_eq!(parse_duration("m"), None);
    assert_eq!(parse_duration(""), None);
    assert_eq!(parse_duration("5w"), None);
    assert_eq!(parse_duration("5 m"), None);
    assert_eq!(parse_duration("1h30m"), None);
    assert_eq!(parse_duration("18446744073709551615s"), Some(u64::MAX));
    assert_eq!(parse_duration("18446744073709551615m"), None);
    assert_eq!(parse_duration("213503982334601d"), Some(213_503_982_334_601 * 86_400));
    assert_eq!(parse_duration("213503982334602d"), None);
}

#[test]
fn thresholds_are_size_and_duration() {
    assert_eq!(parse_threshold("100kb:5m"), Ok(Threshold { max_size: 100_000, duration: 300 }));
    assert_eq!(parse_threshold("5mb:1d"), Ok(Threshold { max_size: 5_000_000, duration: 86_400 }));
    assert_eq!(parse_threshold("64 MiB:12h"), Ok(Threshold { max_size: 67_108_864, duration: 43_200 }));
    assert_eq!(parse_threshold("0:0s"), Ok(Threshold { max_size: 0, duration: 0 }));
    assert_eq!(parse_threshold("100kb"), Err(ThresholdParseError::MissingSeparator));
    assert_eq!(parse_threshold(""), Err(ThresholdParseError::MissingSeparator));
    assert_eq!(parse_threshold(":5m"), Err(ThresholdParseError::InvalidSize));
    assert_eq!(parse_threshold("big:5m"), Err(ThresholdParseError::InvalidSize));
    assert_eq!(parse_threshold("100kb:"), Err(ThresholdParseError::InvalidDuration));
    assert_eq!(parse_threshold("100kb:5"), Err(ThresholdParseError::InvalidDuration));
    assert_eq!(parse_threshold("100kb:5m:1"), Err(ThresholdParseError::InvalidDuration));
    // the size is looked at first
    assert_eq!(parse_threshold("big:long"), Err(ThresholdParseError::InvalidSize));
    // a size out of range is no size
    assert_eq!(parse_threshold("20000PB:5m"), Err(ThresholdParseError::InvalidSize));
    assert_eq!(
        parse_threshold("9999PB:5m"),
        Ok(Threshold { max_size: 9_999_000_000_000_000_000, duration: 300 })
    );
}

#[test]
fn credentials_split_at_the_first_colon() {
    let c = parse_credential("username:password").unwrap();
    assert_eq!(c.username, "username");
    assert_eq!(c.password, "password");
    let c = parse_credential("user:pa:ss").unwrap();
    assert_eq!(c.username, "user");
    assert_eq!(c.password, "pa:ss");
    let c = parse_credential(":").unwrap();
    assert_eq!(c.username, "");
    assert_eq!(c.password, "");
    let c = parse_credential("é:ü").unwrap();
    assert_eq!(c.username, "é");
    assert_eq!(c.password, "ü");
    assert!(parse_credential("username").is_none());
    assert!(parse_credential("").is_none());
}
