use weather_signal::limits::{
    days_for_hours, hourly_window, normalize_count, normalize_days, output_format,
    duration_in_reach, parse_batch_concurrency, parse_duration, truncate_series, ArgumentError,
    OutputFormat,
};

#[test]
fn cli_parses_batch_concurrency_bounds() {
    assert_eq!(parse_batch_concurrency("1").unwrap(), 1);
    assert_eq!(parse_batch_concurrency("32").unwrap(), 32);
    assert!(parse_batch_concurrency("0").is_err());
    assert!(parse_batch_concurrency("33").is_err());
    assert!(parse_batch_concurrency("many").is_err());
}

#[test]
fn main_parses_batch_concurrency_bounds() {
    assert_eq!(parse_batch_concurrency("1").unwrap(), 1);
    assert_eq!(parse_batch_concurrency("32").unwrap(), 32);
    assert!(parse_batch_concurrency("0").is_err());
    assert!(parse_batch_concurrency("33").is_err());
    assert!(parse_batch_concurrency("many").is_err());
}

#[test]
fn concurrency_messages_tell_shape_from_range() {
    assert_eq!(
        parse_batch_concurrency("many").unwrap_err(),
        "concurrency must be an integer between 1 and 32"
    );
    assert_eq!(
        parse_batch_concurrency("33").unwrap_err(),
        "concurrency must be between 1 and 32"
    );
    assert_eq!(
        parse_batch_concurrency("-1").unwrap_err(),
        "concurrency must be an integer between 1 and 32"
    );
    assert_eq!(parse_batch_concurrency("+4").unwrap(), 4);
    assert!(parse_batch_concurrency(" 4").is_err());
    assert!(parse_batch_concurrency("").is_err());
    assert_eq!(
        parse_batch_concurrency("99999999999999999999999").unwrap_err(),
        "concurrency must be an integer between 1 and 32"
    );
}

#[test]
fn tool_days_default_and_bounds() {
    assert_eq!(normalize_days(None), Ok(7));
    assert_eq!(normalize_days(Some(1)), Ok(1));
    assert_eq!(normalize_days(Some(16)), Ok(16));
    assert_eq!(normalize_days(Some(0)), Err(ArgumentError::Days));
    assert_eq!(normalize_days(Some(17)), Err(ArgumentError::Days));
    assert_eq!(
        ArgumentError::Days.message(),
        "days must be between 1 and 16"
    );
}

#[test]
fn tool_count_default_and_bounds() {
    assert_eq!(normalize_count(None), Ok(5));
    assert_eq!(normalize_count(Some(100)), Ok(100));
    assert_eq!(normalize_count(Some(0)), Err(ArgumentError::Count));
    assert_eq!(normalize_count(Some(101)), Err(ArgumentError::Count));
    assert_eq!(
        ArgumentError::Count.message(),
        "count must be between 1 and 100"
    );
}

#[test]
fn hourly_window_fetches_enough_days() {
    assert_eq!(hourly_window(None), Ok((48, 2)));
    assert_eq!(hourly_window(Some(1)), Ok((1, 1)));
    assert_eq!(hourly_window(Some(25)), Ok((25, 2)));
    assert_eq!(hourly_window(Some(384)), Ok((384, 16)));
    assert_eq!(hourly_window(Some(0)), Err(ArgumentError::Hours));
    assert_eq!(hourly_window(Some(385)), Err(ArgumentError::Hours));
    assert_eq!(days_for_hours(24), 1);
    assert_eq!(days_for_hours(1000), 16);
    assert_eq!(
        ArgumentError::Hours.message(),
        "hours must be between 1 and 384"
    );
}

#[test]
fn table_flag_wins_over_output() {
    assert_eq!(output_format(true, OutputFormat::Csv), OutputFormat::Table);
    assert_eq!(output_format(false, OutputFormat::Csv), OutputFormat::Csv);
    assert_eq!(output_format(false, OutputFormat::Json), OutputFormat::Json);
}

#[test]
fn durations_read_as_humantime_does() {
    assert_eq!(parse_duration("30m"), Ok((1800, 0)));
    assert_eq!(parse_duration("7d"), Ok((604800, 0)));
    assert_eq!(parse_duration("32ms"), Ok((0, 32_000_000)));
    assert!(parse_duration("soon").is_err());
}

#[test]
fn duration_texts_in_reach_have_few_digits() {
    assert!(duration_in_reach("1h 30min 15s 500ms"));
    assert!(duration_in_reach("99999999999s"));
    assert!(!duration_in_reach("999999999999s"));
    assert!(!duration_in_reach("18446744073709551615s 500ms 500ms"));
    assert_eq!(parse_duration("99999999999s"), Ok((99_999_999_999, 0)));
}

#[test]
fn hourly_series_keep_their_window() {
    let mut times: Vec<String> = (0..5).map(|h| format!("T{h:02}")).collect();
    let mut columns = vec![vec![1, 2, 3, 4, 5], vec![7, 8]];
    truncate_series(&mut times, &mut columns, 3);
    assert_eq!(times, vec!["T00", "T01", "T02"]);
    assert_eq!(columns, vec![vec![1, 2, 3], vec![7, 8]]);
    truncate_series(&mut times, &mut columns, 0);
    assert!(times.is_empty() && columns.iter().all(|c| c.is_empty()));
}
