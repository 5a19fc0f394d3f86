use mind_meld::cli::{
    decimal, log_change, log_header, format_duration_ago, format_time_ago, parse_duration, DurationError, StatusCommand,
    SECONDS_IN_DAY, SECONDS_IN_WEEK,
};

#[test]
fn durations_in_every_unit() {
    assert_eq!(parse_duration("30s").unwrap(), 30);
    assert_eq!(parse_duration("5m").unwrap(), 300);
    assert_eq!(parse_duration("1h").unwrap(), 3600);
    assert_eq!(parse_duration("1d").unwrap(), 86400);
    assert_eq!(parse_duration("2w").unwrap(), 1209600);
    assert_eq!(parse_duration("0s").unwrap(), 0);
    assert_eq!(parse_duration("+7d").unwrap(), 604800);
    assert_eq!(parse_duration("007s").unwrap(), 7);
}

#[test]
fn empty_duration_is_refused() {
    let err = parse_duration("").err().unwrap();
    assert!(matches!(err, DurationError::Empty));
    assert_eq!(err.message(), "duration cannot be empty");
}

#[test]
fn duration_without_a_number_is_refused() {
    for (text, number) in [("d", ""), ("xs", "x"), ("1.5h", "1.5"), ("-1s", "-1"), ("+s", "+"), ("1 0s", "1 0")] {
        let err = parse_duration(text).err().unwrap();
        assert!(matches!(&err, DurationError::InvalidNumber(n) if n == number), "{text}");
        assert_eq!(err.message(), format!("invalid number: {number}"));
    }
}

#[test]
fn duration_with_an_unknown_unit_is_refused() {
    let err = parse_duration("10y").err().unwrap();
    assert!(matches!(&err, DurationError::InvalidUnit(u) if u == "y"));
    assert_eq!(err.message(), "invalid duration unit: y");
    assert!(matches!(parse_duration("3é"), Err(DurationError::InvalidUnit(u)) if u == "é"));
    assert!(matches!(parse_duration("10"), Err(DurationError::InvalidUnit(u)) if u == "0"));
}

#[test]
fn duration_at_the_limit() {
    assert_eq!(parse_duration("18446744073709551615s").unwrap(), u64::MAX);
    assert!(matches!(parse_duration("18446744073709551616s"), Err(DurationError::InvalidNumber(_))));
    assert_eq!(parse_duration("307445734561825860m").unwrap(), 18446744073709551600);
    let err = parse_duration("307445734561825861m").err().unwrap();
    assert!(matches!(err, DurationError::TooLong));
    assert_eq!(err.message(), "duration is too long");
}

#[test]
fn status_shows_tracked_projects_by_default() {
    assert!(!StatusCommand::default().show_untracked);
}

#[test]
fn numbers_in_decimal_digits() {
    assert_eq!(decimal(0), "0");
    assert_eq!(decimal(7), "7");
    assert_eq!(decimal(10), "10");
    assert_eq!(decimal(1234567890), "1234567890");
    assert_eq!(decimal(u64::MAX), "18446744073709551615");
}

#[test]
fn durations_in_the_largest_unit() {
    assert_eq!(format_duration_ago(0), "0s");
    assert_eq!(format_duration_ago(59), "59s");
    assert_eq!(format_duration_ago(60), "1m");
    assert_eq!(format_duration_ago(3599), "59m");
    assert_eq!(format_duration_ago(3600), "1h");
    assert_eq!(format_duration_ago(86399), "23h");
    assert_eq!(format_duration_ago(86400), "1d");
    assert_eq!(format_duration_ago(604799), "6d");
    assert_eq!(format_duration_ago(604800), "1w");
    assert_eq!(format_duration_ago(1209600 + 5), "2w");
    assert_eq!(format_duration_ago(u64::MAX), "30500568904943w");
}

#[test]
fn written_durations_are_read_back() {
    for seconds in [0, 1, 59, 60, 3600, 5 * SECONDS_IN_DAY, 3 * SECONDS_IN_WEEK] {
        assert_eq!(parse_duration(&format_duration_ago(seconds)).unwrap(), seconds);
    }
}

#[test]
fn age_of_a_time() {
    assert_eq!(format_time_ago(1000, 1000), "0s");
    assert_eq!(format_time_ago(1000, 880), "2m");
    assert_eq!(format_time_ago(86400 * 9, 0), "1w");
    assert_eq!(format_time_ago(5, -5), "10s");
    assert_eq!(format_time_ago(i64::MAX, i64::MIN), "30500568904943w");
    assert_eq!(format_time_ago(10, 11), "(?? second time provided was later than self ??)");
}

#[test]
fn log_lines() {
    let info = mind_meld::store::CommitInfo {
        hash: "50b6dd0".to_string(),
        date: 1_000_000,
        message: "Update tracked projects".to_string(),
        changed_projects: vec![mind_meld::project::ProjectID::new(
            mind_meld::project::Program::Spike,
            "a.llsp3",
        )],
    };
    assert_eq!(
        log_header(&info, 1_000_000 + 3 * 3600 + 5, "1970-01-12 14:46"),
        "50b6dd0 3h (1970-01-12 14:46) Update tracked projects"
    );
    assert_eq!(log_change(&info.changed_projects[0]), "  +/- spike: a.llsp3");
}

#[test]
fn log_line_of_a_commit_from_the_future() {
    let info = mind_meld::store::CommitInfo {
        hash: "abc1234".to_string(),
        date: 200,
        message: "later".to_string(),
        changed_projects: vec![],
    };
    assert_eq!(
        log_header(&info, 100, "1970-01-01 00:03"),
        "abc1234 (?? second time provided was later than self ??) (1970-01-01 00:03) later"
    );
}
