use weather_signal::report::{
    batch_signal_records, keys_in_order, series_records, signal_records, table_layout,
    BatchItemCells,
    BatchOutcomeCells, CacheStatusCells, DayCells, LocationCells, Sheet, SummaryCells,
    TableCells, ThresholdMatchCells,
};

fn day(date: &str) -> DayCells {
    DayCells {
        date: date.to_string(),
        temp_max_c: Some("21.40".to_string()),
        temp_min_c: None,
        precip_probability_max_pct: Some(46),
        precipitation_mm: Some("0.10".to_string()),
        wind_gust_max_kmh: Some("30.00".to_string()),
        sunshine_hours: Some("7.50".to_string()),
        flags: "warm_day|sunny_day".to_string(),
    }
}

fn strs(v: &[&str]) -> Vec<String> {
    v.iter().map(|s| s.to_string()).collect()
}

#[test]
fn signal_rows_follow_the_header() {
    let csv = signal_records(&vec![day("2026-04-27")], Sheet::Csv);
    assert_eq!(
        csv.header,
        strs(&[
            "date",
            "temp_max_c",
            "temp_min_c",
            "precip_probability_max_pct",
            "precipitation_mm",
            "wind_gust_max_kmh",
            "sunshine_hours",
            "flags"
        ])
    );
    assert_eq!(
        csv.rows,
        vec![strs(&["2026-04-27", "21.40", "", "46", "0.10", "30.00", "7.50", "warm_day|sunny_day"])]
    );
    let table = signal_records(&vec![day("a"), day("b")], Sheet::Table);
    assert_eq!(table.header[1], "Max C");
    assert_eq!(table.rows.len(), 2);
}

#[test]
fn batch_records_keep_failed_items_and_skip_empty_signals() {
    let items = vec![
        BatchItemCells {
            input: "london".to_string(),
            requested_country: Some("GB".to_string()),
            outcome: BatchOutcomeCells::Signal {
                location: "London".to_string(),
                country_code: Some("GB".to_string()),
                days: vec![day("d1"), day("d2")],
            },
        },
        BatchItemCells {
            input: "nowhere".to_string(),
            requested_country: None,
            outcome: BatchOutcomeCells::Failed { error: Some("no geocoding result".to_string()) },
        },
        BatchItemCells {
            input: "empty".to_string(),
            requested_country: None,
            outcome: BatchOutcomeCells::Signal {
                location: "Empty".to_string(),
                country_code: None,
                days: vec![],
            },
        },
    ];
    let csv = batch_signal_records(&items, Sheet::Csv);
    assert_eq!(csv.header.len(), 13);
    assert_eq!(csv.rows.len(), 3);
    assert_eq!(
        csv.rows[1],
        strs(&[
            "london", "London", "GB", "GB", "d2", "21.40", "", "46", "0.10", "30.00", "7.50",
            "warm_day|sunny_day", ""
        ])
    );
    assert_eq!(
        csv.rows[2],
        strs(&["nowhere", "", "", "", "", "", "", "", "", "", "", "", "no geocoding result"])
    );
    let table = batch_signal_records(&items, Sheet::Table);
    assert_eq!(table.header.len(), 11);
    assert!(table.rows.iter().all(|r| r.len() == 11));
    assert_eq!(table.rows[2][10], "no geocoding result");
}

#[test]
fn series_records_pad_short_columns() {
    let layout = series_records(
        &strs(&["precipitation_sum", "temperature_2m_max"]),
        &strs(&["2026-04-27", "2026-04-28"]),
        &vec![strs(&["0.1", "2"]), strs(&["20.4"])],
    );
    assert_eq!(layout.header, strs(&["time", "precipitation_sum", "temperature_2m_max"]));
    assert_eq!(
        layout.rows,
        vec![strs(&["2026-04-27", "0.1", "20.4"]), strs(&["2026-04-28", "2", ""])]
    );
}

#[test]
fn threshold_summary_cache_and_message_layouts() {
    let matches = TableCells::Threshold(vec![ThresholdMatchCells {
        date: "2026-04-27".to_string(),
        reasons: strs(&["rain_prob_gte", "temp_max_gte"]),
        day: day("2026-04-27"),
    }]);
    let t = table_layout(&matches, Sheet::Csv);
    assert_eq!(t.rows[0][1], "rain_prob_gte|temp_max_gte");
    assert_eq!(t.rows[0].len(), 8);
    let summary = TableCells::Summary(SummaryCells {
        headline: "2 risk days".to_string(),
        total_days: 7,
        risk_days: 2,
        warm_days: 3,
        hot_days: 1,
        wet_days: 2,
        windy_days: 0,
        sunny_days: 4,
    });
    let s = table_layout(&summary, Sheet::Table);
    assert_eq!(s.header, strs(&["Field", "Value"]));
    assert_eq!(s.rows[1], strs(&["total_days", "7"]));
    assert_eq!(s.rows.len(), 8);
    let cache = TableCells::CacheStatus(CacheStatusCells {
        path: "/c".to_string(),
        files: 12,
        bytes: 34567,
    });
    assert_eq!(table_layout(&cache, Sheet::Csv).rows, vec![strs(&["/c", "12", "34567"])]);
    assert_eq!(table_layout(&cache, Sheet::Table).rows[2], strs(&["Bytes", "34567"]));
    let message = table_layout(&TableCells::Message("place saved".to_string()), Sheet::Csv);
    assert_eq!(message.header, strs(&["status"]));
    assert_eq!(message.rows, vec![strs(&["place saved"])]);
    let places = TableCells::Places(vec![(
        "home".to_string(),
        LocationCells {
            name: "London".to_string(),
            country_code: Some("GB".to_string()),
            admin1: Some("England".to_string()),
            latitude: "51.5".to_string(),
            longitude: "-0.12".to_string(),
            timezone: None,
        },
    )]);
    assert_eq!(
        table_layout(&places, Sheet::Table).rows,
        vec![strs(&["home", "London", "GB", "51.5", "-0.12", ""])]
    );
}

#[test]
fn series_keys_must_ascend_like_a_map() {
    assert!(keys_in_order(&strs(&["apparent", "precipitation_sum", "temperature_2m_max"])));
    assert!(keys_in_order(&strs(&["rain", "rain_sum"])));
    assert!(!keys_in_order(&strs(&["rain_sum", "rain"])));
    assert!(!keys_in_order(&strs(&["uv", "uv"])));
    assert!(keys_in_order(&strs(&["Z", "a", "é"])));
    assert!(keys_in_order(&vec![]));
}
