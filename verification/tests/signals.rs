use weather_signal::cache::CacheState;
use weather_signal::numeric::{parse_number, Number};
use weather_signal::signals::{
    daily_signals, demand_flags, flag_list, threshold_matches, DailyColumns, DemandFlags,
    ForecastData, SignalEnvelope, SignalError, SignalProfile, SummaryEnvelope, ThresholdArgs,
    ThresholdCriteria, ThresholdError,
};

/// A reading as the forecast gives it: the shortest text of the double.
fn num(v: f64) -> Number {
    parse_number(&format!("{}", v)).unwrap()
}

fn sample_columns() -> DailyColumns {
    DailyColumns {
        time: vec!["2026-04-27".to_string()],
        weather_code: vec![Some(61)],
        temperature_2m_max: vec![Some(num(25.0))],
        temperature_2m_min: vec![Some(num(5.0))],
        apparent_temperature_max: vec![],
        apparent_temperature_min: vec![],
        precipitation_sum: vec![Some(num(5.0))],
        precipitation_hours: vec![],
        precipitation_probability_max: vec![Some(50)],
        wind_speed_10m_max: vec![],
        wind_gusts_10m_max: vec![Some(num(40.0))],
        sunshine_duration: vec![Some(num(21600.0))],
        uv_index_max: vec![Some(num(6.0))],
    }
}

fn sample_forecast_envelope() -> ForecastData {
    ForecastData {
        source: "open-meteo".to_string(),
        cache: CacheState::Miss,
        timezone: "Europe/London".to_string(),
        daily: Some(sample_columns()),
    }
}

fn empty_columns(time: Vec<String>) -> DailyColumns {
    DailyColumns {
        time,
        weather_code: vec![],
        temperature_2m_max: vec![],
        temperature_2m_min: vec![],
        apparent_temperature_max: vec![],
        apparent_temperature_min: vec![],
        precipitation_sum: vec![],
        precipitation_hours: vec![],
        precipitation_probability_max: vec![],
        wind_speed_10m_max: vec![],
        wind_gusts_10m_max: vec![],
        sunshine_duration: vec![],
        uv_index_max: vec![],
    }
}

fn check_thresholds_match_plan() {
    let signal =
        SignalEnvelope::from_forecast(sample_forecast_envelope(), SignalProfile::Demand).unwrap();
    let flags = &signal.days[0].flags;
    assert!(flags.rain_likely);
    assert!(flags.wet_day);
    assert!(flags.heavy_rain);
    assert!(flags.warm_day);
    assert!(flags.hot_day);
    assert!(flags.cold_day);
    assert!(flags.windy_day);
    assert!(flags.sunny_day);
    assert!(flags.high_uv);
}

#[test]
fn signals_signal_thresholds_match_plan() {
    check_thresholds_match_plan();
}

#[test]
fn main_signal_thresholds_match_plan() {
    check_thresholds_match_plan();
}

fn check_matching_reasons() {
    let signal =
        SignalEnvelope::from_forecast(sample_forecast_envelope(), SignalProfile::Demand).unwrap();
    let criteria = ThresholdCriteria {
        rain_prob_gte: Some(50),
        precip_mm_gte: Some(num(10.0)),
        temp_max_gte: Some(num(25.0)),
        temp_min_lte: None,
        wind_gust_gte: Some(num(40.0)),
    };
    assert_eq!(
        criteria.match_reasons(&signal.days[0]),
        vec!["rain_prob_gte", "temp_max_gte", "wind_gust_gte"]
    );
}

#[test]
fn signals_threshold_criteria_reports_matching_reasons() {
    check_matching_reasons();
}

#[test]
fn main_threshold_criteria_reports_matching_reasons() {
    check_matching_reasons();
}

fn check_requires_a_condition() {
    let args = ThresholdArgs {
        location: "London".to_string(),
        country: None,
        days: 7,
        rain_prob_gte: None,
        precip_mm_gte: None,
        temp_max_gte: None,
        temp_min_lte: None,
        wind_gust_gte: None,
    };
    let error = ThresholdCriteria::from_args(&args).unwrap_err();
    assert!(error.message().contains("at least one threshold"));
}

#[test]
fn signals_threshold_criteria_requires_a_condition() {
    check_requires_a_condition();
}

#[test]
fn main_threshold_criteria_requires_a_condition() {
    check_requires_a_condition();
}

fn check_summary_counts() {
    let signal =
        SignalEnvelope::from_forecast(sample_forecast_envelope(), SignalProfile::Demand).unwrap();
    let summary = SummaryEnvelope::from_signal(signal);
    assert_eq!(summary.total_days, 1);
    assert_eq!(summary.risk_days, 1);
    assert_eq!(summary.warm_days, 1);
    assert_eq!(summary.hot_days, 1);
    assert_eq!(summary.wet_days, 1);
    assert_eq!(summary.windy_days, 1);
    assert_eq!(summary.sunny_days, 1);
}

#[test]
fn signals_summary_counts_signal_flags() {
    check_summary_counts();
}

#[test]
fn main_summary_counts_signal_flags() {
    check_summary_counts();
}

#[test]
fn summary_headline_and_metadata() {
    let signal =
        SignalEnvelope::from_forecast(sample_forecast_envelope(), SignalProfile::Demand).unwrap();
    assert_eq!(signal.profile, "demand");
    assert_eq!(signal.source, "open-meteo");
    assert_eq!(signal.timezone, "Europe/London");
    assert_eq!(signal.cache, CacheState::Miss);
    let summary = SummaryEnvelope::from_signal(signal);
    assert_eq!(
        summary.headline,
        "1 risk days, 1 warm days, 1 wet days, 1 windy days over 1 days"
    );
    assert_eq!(summary.days.len(), 1);
}

#[test]
fn missing_daily_series_is_refused() {
    let envelope = ForecastData {
        source: "open-meteo".to_string(),
        cache: CacheState::Hit,
        timezone: "UTC".to_string(),
        daily: None,
    };
    let error = SignalEnvelope::from_forecast(envelope, SignalProfile::Demand)
        .err()
        .unwrap();
    assert_eq!(error, SignalError::DailyMissing);
    assert_eq!(error.message(), "daily data missing");
}

#[test]
fn flags_sit_just_below_and_at_their_thresholds() {
    let below = demand_flags(
        Some(49),
        Some(num(0.99)),
        Some(num(19.9)),
        Some(num(5.1)),
        Some(num(39.99)),
        Some(num(21599.0)),
        Some(num(5.9)),
    );
    assert_eq!(
        below,
        DemandFlags {
            rain_likely: false,
            wet_day: false,
            heavy_rain: false,
            warm_day: false,
            hot_day: false,
            cold_day: false,
            windy_day: false,
            sunny_day: false,
            high_uv: false,
        }
    );
    let wet_only = demand_flags(None, Some(num(1.0)), None, None, None, None, None);
    assert!(wet_only.wet_day && !wet_only.heavy_rain);
    let nan = demand_flags(None, Some(Number::NaN), Some(Number::NaN), Some(Number::NaN), None, None, None);
    assert!(!nan.wet_day && !nan.warm_day && !nan.cold_day);
    let cold = demand_flags(None, None, None, Some(num(-3.5)), None, None, None);
    assert!(cold.cold_day);
    let inf = demand_flags(None, None, Some(Number::PosInf), Some(Number::NegInf), None, None, None);
    assert!(inf.hot_day && inf.cold_day);
}

#[test]
fn flag_list_joins_active_flags_in_order() {
    let signal =
        SignalEnvelope::from_forecast(sample_forecast_envelope(), SignalProfile::Demand).unwrap();
    assert_eq!(
        flag_list(&signal.days[0].flags),
        "rain_likely|wet_day|heavy_rain|warm_day|hot_day|cold_day|windy_day|sunny_day|high_uv"
    );
    let some = demand_flags(None, None, Some(num(21.0)), None, Some(num(45.0)), None, None);
    assert_eq!(flag_list(&some), "warm_day|windy_day");
    let none = demand_flags(None, None, None, None, None, None, None);
    assert_eq!(flag_list(&none), "");
}

#[test]
fn short_columns_read_as_missing() {
    let mut cols = empty_columns(vec!["2026-04-27".to_string(), "2026-04-28".to_string()]);
    cols.temperature_2m_max = vec![Some(num(30.0))];
    cols.precipitation_probability_max = vec![None, Some(80)];
    let days = daily_signals(&cols);
    assert_eq!(days.len(), 2);
    assert!(days[0].flags.hot_day);
    assert!(!days[0].flags.rain_likely);
    assert_eq!(days[1].temp_max_c, None);
    assert!(days[1].flags.rain_likely);
    assert_eq!(days[1].date, "2026-04-28");
    assert_eq!(days[1].precip_probability_max_pct, Some(80));
}

#[test]
fn threshold_matches_keep_only_matching_days() {
    let mut cols = empty_columns(vec![
        "2026-04-27".to_string(),
        "2026-04-28".to_string(),
        "2026-04-29".to_string(),
    ]);
    cols.temperature_2m_min = vec![Some(num(2.0)), Some(num(8.0)), Some(num(-1.5))];
    cols.wind_gusts_10m_max = vec![Some(num(10.0)), Some(num(60.0)), Some(num(12.0))];
    let days = daily_signals(&cols);
    let criteria = ThresholdCriteria {
        rain_prob_gte: None,
        precip_mm_gte: None,
        temp_max_gte: None,
        temp_min_lte: Some(num(0.0)),
        wind_gust_gte: Some(num(50.0)),
    };
    let matches = threshold_matches(&criteria, &days);
    assert_eq!(matches.len(), 2);
    assert_eq!(matches[0].date, "2026-04-28");
    assert_eq!(matches[0].reasons, vec!["wind_gust_gte"]);
    assert_eq!(matches[1].date, "2026-04-29");
    assert_eq!(matches[1].reasons, vec!["temp_min_lte"]);
    assert_eq!(matches[1].signal.date, "2026-04-29");
}

#[test]
fn criteria_keep_the_given_thresholds() {
    let args = ThresholdArgs {
        location: "London".to_string(),
        country: Some("GB".to_string()),
        days: 3,
        rain_prob_gte: Some(70),
        precip_mm_gte: None,
        temp_max_gte: None,
        temp_min_lte: None,
        wind_gust_gte: None,
    };
    let criteria = ThresholdCriteria::from_args(&args).unwrap();
    assert_eq!(criteria.rain_prob_gte, Some(70));
    assert!(!criteria.is_empty());
    assert_eq!(ThresholdError::NoThreshold.message(), "provide at least one threshold option");
}

#[test]
fn missing_readings_raise_none_of_their_flags() {
    let hot_dry = demand_flags(
        Some(90),
        None,
        Some(num(31.0)),
        None,
        Some(num(55.0)),
        None,
        Some(num(8.0)),
    );
    assert!(hot_dry.rain_likely && hot_dry.warm_day && hot_dry.hot_day);
    assert!(hot_dry.windy_day && hot_dry.high_uv);
    assert!(!hot_dry.wet_day && !hot_dry.heavy_rain && !hot_dry.cold_day && !hot_dry.sunny_day);
    let no_temperatures = demand_flags(Some(10), Some(num(7.5)), None, None, None, Some(num(30000.0)), None);
    assert!(no_temperatures.wet_day && no_temperatures.heavy_rain && no_temperatures.sunny_day);
    assert!(!no_temperatures.warm_day && !no_temperatures.hot_day && !no_temperatures.cold_day);
}

#[test]
fn loosened_thresholds_keep_every_reason() {
    let signal =
        SignalEnvelope::from_forecast(sample_forecast_envelope(), SignalProfile::Demand).unwrap();
    let strict = ThresholdCriteria {
        rain_prob_gte: Some(50),
        precip_mm_gte: Some(num(10.0)),
        temp_max_gte: Some(num(25.0)),
        temp_min_lte: None,
        wind_gust_gte: Some(num(40.0)),
    };
    let loose = ThresholdCriteria {
        rain_prob_gte: Some(10),
        precip_mm_gte: Some(num(0.0)),
        temp_max_gte: Some(num(-50.0)),
        temp_min_lte: Some(num(100.0)),
        wind_gust_gte: Some(num(40.0)),
    };
    for day in &signal.days {
        let a = strict.match_reasons(day);
        let b = loose.match_reasons(day);
        assert!(a.iter().all(|r| b.contains(r)), "{a:?} within {b:?}");
    }
    assert_eq!(strict.match_reasons(&signal.days[0]).len(), 3);
}
