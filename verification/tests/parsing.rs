use rise_fault_proof::common::primitives::is_duration_in_range;
use rise_fault_proof::common::primitives::parse_duration;
use rise_fault_proof::common::primitives::parse_range;
use rise_fault_proof::common::primitives::Duration;
use rise_fault_proof::common::primitives::ParseDurationError;
use rise_fault_proof::common::primitives::ParseRangeError;
use rise_fault_proof::common::text::first_dots;
use rise_fault_proof::common::text::last_digit;
use rise_fault_proof::common::text::str_eq;
use rise_fault_proof::config::args::optional_u32;
use rise_fault_proof::config::args::parse_bool;
use rise_fault_proof::config::args::ConfigArgs;

fn secs(text: &str) -> Result<Duration, std::num::ParseFloatError> {
    let duration = std::time::Duration::from_secs_f64(text.parse()?);
    Ok(Duration { secs: duration.as_secs(), nanos: duration.subsec_nanos() })
}

fn duration(text: &str) -> (u64, u32) {
    assert!(is_duration_in_range(text));
    let parsed = parse_duration(text, secs).unwrap();
    (parsed.secs, parsed.nanos)
}

#[test]
fn durations_have_units() {
    assert_eq!(duration("2h"), (7200, 0));
    assert_eq!(duration("3m"), (180, 0));
    assert_eq!(duration("90s"), (90, 0));
    assert_eq!(duration("1500ms"), (1, 500_000_000));
    assert_eq!(duration("2000001us"), (2, 1_000));
    assert_eq!(duration("1000000007ns"), (1, 7));
    assert_eq!(duration("+5s"), (5, 0));
    assert_eq!(duration("18446744073709551615s"), (u64::MAX, 0));
    assert_eq!(duration("18446744073709551615ms"), (18_446_744_073_709_551, 615_000_000));
}

#[test]
fn durations_without_a_unit_are_seconds() {
    assert_eq!(duration("60"), (60, 0));
    assert_eq!(duration("2.5"), (2, 500_000_000));
}

#[test]
fn durations_need_an_amount_and_a_unit() {
    assert!(matches!(parse_duration("", secs), Err(ParseDurationError::MissingAmount)));
    assert!(matches!(parse_duration("ms", secs), Err(ParseDurationError::MissingAmount)));
    match parse_duration("5d", secs) {
        Err(ParseDurationError::InvalidUnit(unit)) => assert_eq!(unit, "d"),
        other => panic!("{:?}", other),
    }
    match parse_duration("5 s", secs) {
        Err(ParseDurationError::InvalidUnit(unit)) => assert_eq!(unit, " s"),
        other => panic!("{:?}", other),
    }
    assert!(matches!(parse_duration("1.5s", secs), Err(ParseDurationError::ParseIntError(_))));
    assert!(matches!(parse_duration("s5m", secs), Err(ParseDurationError::ParseIntError(_))));
    assert!(matches!(
        parse_duration("18446744073709551616s", secs),
        Err(ParseDurationError::ParseIntError(_))
    ));
    assert!(matches!(parse_duration("x5", secs), Err(ParseDurationError::ParseFloatError(_))));
    assert!(matches!(parse_duration("5\u{e9}", secs), Err(ParseDurationError::InvalidUnit(_))));
}

#[test]
fn durations_have_to_be_in_range() {
    assert!(is_duration_in_range("5124095576030431h"));
    assert!(!is_duration_in_range("5124095576030432h"));
    assert!(is_duration_in_range("307445734561825860m"));
    assert!(!is_duration_in_range("307445734561825861m"));
    assert!(is_duration_in_range("18446744073709551615s"));
    assert!(is_duration_in_range("nothing"));
    assert!(is_duration_in_range("1.5h"));
    assert_eq!(duration("5124095576030431h"), (18_446_744_073_709_551_600, 0));
}

#[test]
fn ranges_have_two_bounds() {
    let number = |text: &str| text.parse::<u64>();
    assert_eq!(parse_range("3..8", number), Ok(3..8));
    assert_eq!(parse_range("8..3", number), Ok(8..3));
    assert_eq!(parse_range("3-8", number), Err(ParseRangeError::MissingSeparator));
    assert_eq!(parse_range("3.8", number), Err(ParseRangeError::MissingSeparator));
    assert_eq!(parse_range("", number), Err(ParseRangeError::MissingSeparator));
    assert!(matches!(parse_range("x..8", number), Err(ParseRangeError::InvalidStart(_))));
    assert!(matches!(parse_range("x..y", number), Err(ParseRangeError::InvalidStart(_))));
    assert!(matches!(parse_range("3..y", number), Err(ParseRangeError::InvalidEnd(_))));
    assert!(matches!(parse_range("3...8", number), Err(ParseRangeError::InvalidEnd(_))));
}

#[test]
fn text_is_searched() {
    assert_eq!(last_digit("a1b2c"), Some(3));
    assert_eq!(last_digit("abc"), None);
    assert_eq!(first_dots("1...2"), Some(1));
    assert_eq!(first_dots("1.2.3"), None);
    assert_eq!(first_dots("\u{e9}..x"), Some(1));
    assert!(str_eq("ab", "ab") && !str_eq("ab", "abc") && !str_eq("ab", "aB"));
}

#[test]
fn optional_numbers_are_ignored_if_they_are_none() {
    assert_eq!(optional_u32("17"), Some(17));
    assert_eq!(optional_u32("4294967295"), Some(u32::MAX));
    assert_eq!(optional_u32("4294967296"), None);
    assert_eq!(optional_u32("-1"), None);
    assert_eq!(optional_u32(""), None);
}

#[test]
fn truth_values_are_spelled_out() {
    assert_eq!(parse_bool("true"), Some(true));
    assert_eq!(parse_bool("false"), Some(false));
    assert_eq!(parse_bool("1"), None);
    assert_eq!(parse_bool("True"), None);
}

#[test]
fn config_args_hold_paths() {
    let args = ConfigArgs { env_file: Some(".env".to_string()), output_json: None };
    assert_eq!(args.env_file.as_deref(), Some(".env"));
}
