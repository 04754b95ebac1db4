use weather_signal::dates::{check_date_range, date_text, parse_date, CalendarDate, DateRangeError};
use weather_signal::paths::{config_temp_file_name, default_cache_dir, default_config_path};
use weather_signal::requests::{
    forecast_query, geocode_query, historical_query, request_url, ForecastKind,
};

fn pairs(v: &[(String, String)]) -> Vec<(&str, &str)> {
    v.iter().map(|(k, x)| (k.as_str(), x.as_str())).collect()
}

#[test]
fn geocode_query_parameters() {
    let q = geocode_query("London", Some("GB"), 1, Some(""));
    assert_eq!(
        pairs(&q),
        vec![
            ("name", "London"),
            ("count", "1"),
            ("language", "en"),
            ("format", "json"),
            ("countryCode", "GB"),
        ]
    );
    let q = geocode_query("Paris", None, 5, Some("secret"));
    assert_eq!(q.last().unwrap().0, "apikey");
    assert_eq!(q.last().unwrap().1, "secret");
    assert_eq!(q.len(), 5);
}

#[test]
fn forecast_url_matches_the_cached_form() {
    let q = forecast_query("51.5", "-0.1", 1, ForecastKind::Daily, None);
    let url = request_url("http://127.0.0.1:9/v1/forecast", &q).unwrap();
    assert_eq!(
        url,
        "http://127.0.0.1:9/v1/forecast?latitude=51.5&longitude=-0.1&forecast_days=1&timezone=auto&daily=weather_code%2Ctemperature_2m_max%2Ctemperature_2m_min%2Capparent_temperature_max%2Capparent_temperature_min%2Cprecipitation_sum%2Cprecipitation_hours%2Cprecipitation_probability_max%2Cwind_speed_10m_max%2Cwind_gusts_10m_max%2Csunshine_duration%2Cuv_index_max"
    );
    assert!(request_url("not a url", &q).is_none());
    let hourly = forecast_query("1", "2", 16, ForecastKind::Hourly, Some("k"));
    assert_eq!(hourly[4].0, "hourly");
    assert_eq!(hourly[5], ("apikey".to_string(), "k".to_string()));
}

#[test]
fn historical_query_writes_dates() {
    let start = CalendarDate { year: 2024, month: 1, day: 5 };
    let end = CalendarDate { year: 2024, month: 2, day: 1 };
    let q = historical_query("51.5", "-0.1", start, end, None);
    assert_eq!(q[2], ("start_date".to_string(), "2024-01-05".to_string()));
    assert_eq!(q[3], ("end_date".to_string(), "2024-02-01".to_string()));
    assert_eq!(q[5], ("timezone".to_string(), "auto".to_string()));
    assert_eq!(q.len(), 6);
}

#[test]
fn dates_parse_and_order() {
    let start = parse_date("2024-03-01", "start").ok().unwrap();
    assert_eq!(start, CalendarDate { year: 2024, month: 3, day: 1 });
    let error = parse_date("03/01/2024", "end").err().unwrap();
    assert_eq!(error.message(), "end date must use YYYY-MM-DD");
    assert!(parse_date("2024-02-30", "start").is_err());
    let end = parse_date("2024-02-29", "end").ok().unwrap();
    assert_eq!(check_date_range(start, end), Err(DateRangeError::EndBeforeStart));
    assert_eq!(check_date_range(end, start), Ok(()));
    assert_eq!(check_date_range(start, start), Ok(()));
    assert_eq!(
        DateRangeError::EndBeforeStart.message(),
        "end date must be on or after start date"
    );
}

#[test]
fn dates_write_like_chrono() {
    assert_eq!(date_text(CalendarDate { year: 987, month: 12, day: 31 }), "0987-12-31");
    assert_eq!(date_text(CalendarDate { year: 12345, month: 1, day: 2 }), "+12345-01-02");
    assert_eq!(date_text(CalendarDate { year: -5, month: 6, day: 7 }), "-0005-06-07");
    let d = chrono::NaiveDate::from_ymd_opt(2026, 4, 27).unwrap();
    assert_eq!(date_text(CalendarDate { year: 2026, month: 4, day: 27 }), d.to_string());
}

#[test]
fn default_paths_follow_xdg() {
    assert_eq!(
        default_config_path(Some(b"/cfg".to_vec()), Some(b"/home/u".to_vec())),
        b"/cfg/weather-signal/config.toml".to_vec()
    );
    assert_eq!(
        default_config_path(None, Some(b"/home/u/".to_vec())),
        b"/home/u/.config/weather-signal/config.toml".to_vec()
    );
    assert_eq!(
        default_cache_dir(None, None),
        b"./.cache/weather-signal".to_vec()
    );
    assert_eq!(
        default_cache_dir(Some(Vec::new()), None),
        b"weather-signal".to_vec()
    );
}

#[test]
fn config_temp_names() {
    assert_eq!(config_temp_file_name(Some("config.toml"), 12, 3), ".config.toml.12.3.tmp");
    assert_eq!(config_temp_file_name(None, 1, 0), ".config.toml.1.0.tmp");
}
