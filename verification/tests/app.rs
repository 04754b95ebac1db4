use weather_signal::batch::{
    batch_item, batch_items, inputs_from_aliases, inputs_from_records, select_batch_source, BatchError,
    BatchLocationInput, BatchLocationRecord, BatchPlaces, BatchSource,
};
use weather_signal::cache::{
    cache_action, cache_file_name, cache_temp_file_name, entry_expired, CacheAction, CacheState,
    CachedEntry, MAX_DURATION_NANOS,
};
use weather_signal::requests::{validate_base_url, BaseUrlProblem};
use weather_signal::retry::{
    classify_status, is_retryable_error, parse_retry_after, retry_after, retry_delay, retry_step,
    RequestFailure, RetryStep, StatusClass,
};

#[test]
fn validates_base_url_scheme() {
    assert!(validate_base_url("https://example.com/v1/forecast", "forecast").is_ok());
    assert!(validate_base_url("http://127.0.0.1:8080/v1/forecast", "forecast").is_ok());
    assert!(validate_base_url("file:///tmp/forecast", "forecast").is_err());
}

#[test]
fn base_url_errors_name_the_endpoint() {
    let scheme = validate_base_url("ftp://example.com", "geocoding").unwrap_err();
    assert_eq!(scheme.kind, BaseUrlProblem::Scheme);
    assert_eq!(scheme.message(), "geocoding base URL must use http or https");
    let invalid = validate_base_url("not a url", "historical").unwrap_err();
    assert_eq!(invalid.kind, BaseUrlProblem::Invalid);
    assert_eq!(invalid.message(), "historical base URL is invalid");
    assert!(validate_base_url("HTTPS://EXAMPLE.COM", "forecast").is_ok());
}

#[test]
fn typed_transient_status_is_retryable() {
    let error = RequestFailure::TransientStatus {
        status: 429,
        retry_after_secs: Some(1),
    };
    assert!(is_retryable_error(&error));
    assert_eq!(retry_after(&error), Some(1));
}

#[test]
fn transport_failures_and_other_errors() {
    let timeout = RequestFailure::Transport { timeout: true, connect: false, request: false };
    assert!(is_retryable_error(&timeout));
    let neither = RequestFailure::Transport { timeout: false, connect: false, request: false };
    assert!(!is_retryable_error(&neither));
    assert!(!is_retryable_error(&RequestFailure::Other));
    assert_eq!(retry_after(&timeout), None);
}

#[test]
fn retry_steps_follow_the_policy() {
    let transient = RequestFailure::TransientStatus { status: 503, retry_after_secs: None };
    assert_eq!(retry_step(1, None), RetryStep::Done);
    assert_eq!(retry_step(1, Some(transient)), RetryStep::RetryAfterMs(150));
    assert_eq!(retry_step(2, Some(transient)), RetryStep::RetryAfterMs(300));
    assert_eq!(retry_step(3, Some(transient)), RetryStep::GiveUp(3));
    let asked = RequestFailure::TransientStatus { status: 429, retry_after_secs: Some(0) };
    assert_eq!(retry_step(1, Some(asked)), RetryStep::RetryAfterMs(0));
    assert_eq!(retry_step(1, Some(RequestFailure::Other)), RetryStep::GiveUp(1));
    assert_eq!(retry_delay(1), 150);
    assert_eq!(retry_delay(3), 600);
}

#[test]
fn retry_after_header_is_capped() {
    assert_eq!(parse_retry_after("0"), Some(0));
    assert_eq!(parse_retry_after(" 12 "), Some(12));
    assert_eq!(parse_retry_after("120"), Some(30));
    assert_eq!(parse_retry_after("Wed, 21 Oct 2015 07:28:00 GMT"), None);
    assert_eq!(parse_retry_after(""), None);
}

#[test]
fn statuses_are_classified() {
    assert_eq!(classify_status(200), StatusClass::Success);
    assert_eq!(classify_status(429), StatusClass::Transient);
    assert_eq!(classify_status(503), StatusClass::Transient);
    assert_eq!(classify_status(404), StatusClass::Failure);
    assert_eq!(classify_status(301), StatusClass::Success);
}

#[test]
fn cache_file_name_hashes_schema_and_url() {
    assert_eq!(
        cache_file_name("https://api.open-meteo.com/v1/forecast?latitude=51.5&longitude=-0.1"),
        "2fe7edbde2d0ca71578592f9637c2c407ee2f719efbf6089d3894fb20afdec0d.json"
    );
    assert_eq!(
        cache_temp_file_name(
            "https://api.open-meteo.com/v1/forecast?latitude=51.5&longitude=-0.1",
            42,
            7
        ),
        "2fe7edbde2d0ca71578592f9637c2c407ee2f719efbf6089d3894fb20afdec0d.json.tmp.42.7"
    );
    assert_ne!(cache_file_name("https://a"), cache_file_name("https://b"));
}

#[test]
fn cache_entries_expire_after_ttl() {
    assert!(!entry_expired(Some(10), 60));
    assert!(!entry_expired(Some(60), 60));
    assert!(entry_expired(Some(61), 60));
    assert!(entry_expired(None, 60));
    assert!(!entry_expired(None, MAX_DURATION_NANOS));
}

#[test]
fn poisoned_entries_are_evicted_and_refetched() {
    assert_eq!(
        cache_action(false, CachedEntry::Undecodable),
        CacheAction::Fetch { evict_first: true, state: CacheState::Miss }
    );
    assert_eq!(cache_action(false, CachedEntry::Decodable), CacheAction::ServeHit);
    assert_eq!(
        cache_action(false, CachedEntry::Absent),
        CacheAction::Fetch { evict_first: false, state: CacheState::Miss }
    );
    assert_eq!(
        cache_action(true, CachedEntry::Decodable),
        CacheAction::Fetch { evict_first: false, state: CacheState::Refresh }
    );
    assert_eq!(CacheState::Refresh.as_text(), "refresh");
    assert_eq!(CacheState::Hit.as_text(), "hit");
}

#[test]
fn batch_sources_are_exclusive() {
    assert_eq!(select_batch_source(Some(BatchPlaces::All), false), Ok(BatchSource::SavedPlaces));
    assert_eq!(select_batch_source(None, true), Ok(BatchSource::CsvInput));
    assert_eq!(select_batch_source(None, false), Err(BatchError::NoSource));
    assert_eq!(select_batch_source(Some(BatchPlaces::All), true), Err(BatchError::BothSources));
    assert_eq!(
        BatchError::NoSource.message(),
        "batch signal requires --places all or --input <csv>"
    );
}

#[test]
fn batch_records_fall_back_to_default_country() {
    let records = vec![
        BatchLocationRecord { location: "London".to_string(), country: None },
        BatchLocationRecord { location: "Paris".to_string(), country: Some("FR".to_string()) },
    ];
    let locations = inputs_from_records(&records, Some("GB")).unwrap();
    assert_eq!(locations.len(), 2);
    assert_eq!(locations[0].location, "London");
    assert_eq!(locations[0].country.as_deref(), Some("GB"));
    assert_eq!(locations[1].location, "Paris");
    assert_eq!(locations[1].country.as_deref(), Some("FR"));
    assert_eq!(inputs_from_records(&Vec::new(), None).err(), Some(BatchError::NoLocations));
}

#[test]
fn batch_aliases_have_no_country() {
    let aliases = vec!["home".to_string(), "office".to_string()];
    let inputs = inputs_from_aliases(&aliases).unwrap();
    assert_eq!(inputs[1].location, "office");
    assert_eq!(inputs[1].country, None);
    assert_eq!(inputs_from_aliases(&Vec::new()).err(), Some(BatchError::NoSavedPlaces));
    assert_eq!(BatchError::NoSavedPlaces.message(), "no saved places found");
}

#[test]
fn failed_batch_item_keeps_its_error() {
    let input = BatchLocationInput { location: "Unknown".to_string(), country: Some("GB".to_string()) };
    let item = batch_item::<u32>(input, Err("no geocoding result found".to_string()));
    assert_eq!(item.input, "Unknown");
    assert_eq!(item.country.as_deref(), Some("GB"));
    assert!(item.signal.is_none());
    assert_eq!(item.error.as_deref(), Some("no geocoding result found"));
    let ok = batch_item(BatchLocationInput { location: "London".to_string(), country: None }, Ok(7u32));
    assert_eq!(ok.signal, Some(7));
    assert!(ok.error.is_none());
}

#[test]
fn batch_keeps_one_item_per_input_in_order() {
    let inputs = vec![
        BatchLocationInput { location: "london".to_string(), country: Some("GB".to_string()) },
        BatchLocationInput { location: "nowhere".to_string(), country: None },
        BatchLocationInput { location: "paris".to_string(), country: None },
    ];
    let outcomes: Vec<Result<u32, String>> =
        vec![Ok(1), Err("no geocoding result".to_string()), Ok(3)];
    let items = batch_items(inputs, outcomes);
    assert_eq!(items.len(), 3);
    assert_eq!(items[0].input, "london");
    assert_eq!(items[0].country.as_deref(), Some("GB"));
    assert_eq!((items[0].signal, items[0].error.clone()), (Some(1), None));
    assert_eq!(items[1].signal, None);
    assert_eq!(items[1].error.as_deref(), Some("no geocoding result"));
    assert_eq!((items[2].input.as_str(), items[2].signal), ("paris", Some(3)));
}
