use weather_signal::location::{
    plan_location, split_lat_lon, validate_coordinates, CoordinateError, LocationPlan,
};
use weather_signal::numeric::{parse_number, Number};

fn num(v: f64) -> Number {
    parse_number(&format!("{}", v)).unwrap()
}

/// Splits the text as the library does, then reads each half as a double.
fn parse_lat_lon(input: &str) -> Option<(f64, f64)> {
    let (lat, lon) = split_lat_lon(input)?;
    Some((lat.parse().ok()?, lon.parse().ok()?))
}

fn check_parses_lat_lon() {
    assert_eq!(parse_lat_lon("51.5,-0.12"), Some((51.5, -0.12)));
    assert_eq!(parse_lat_lon(" 51.5 , -0.12 "), Some((51.5, -0.12)));
    assert_eq!(parse_lat_lon("51.5"), None);
}

#[test]
fn util_parses_lat_lon() {
    check_parses_lat_lon();
}

#[test]
fn main_parses_lat_lon() {
    check_parses_lat_lon();
}

fn check_coordinate_bounds() {
    assert!(validate_coordinates(num(51.5), num(-0.12)).is_ok());
    assert!(validate_coordinates(num(91.0), num(-0.12)).is_err());
    assert!(validate_coordinates(num(51.5), num(181.0)).is_err());
    assert!(validate_coordinates(num(f64::NAN), num(-0.12)).is_err());
}

#[test]
fn util_validates_coordinate_bounds() {
    check_coordinate_bounds();
}

#[test]
fn main_validates_coordinate_bounds() {
    check_coordinate_bounds();
}

#[test]
fn coordinate_errors_in_order() {
    assert_eq!(
        validate_coordinates(num(f64::INFINITY), num(0.0)),
        Err(CoordinateError::NotFinite)
    );
    assert_eq!(validate_coordinates(num(90.0), num(-180.0)), Ok(()));
    assert_eq!(
        validate_coordinates(num(-90.000001), num(0.0)),
        Err(CoordinateError::Latitude)
    );
    assert_eq!(
        validate_coordinates(num(0.0), num(180.5)),
        Err(CoordinateError::Longitude)
    );
    assert_eq!(
        CoordinateError::Latitude.message(),
        "latitude must be between -90 and 90"
    );
}

#[test]
fn split_keeps_text_after_first_comma() {
    assert_eq!(
        split_lat_lon("a, b,c"),
        Some(("a".to_string(), "b,c".to_string()))
    );
    assert_eq!(split_lat_lon(",").unwrap(), (String::new(), String::new()));
}

#[test]
fn location_plans() {
    assert_eq!(plan_location("home", true), LocationPlan::Saved);
    assert_eq!(plan_location("London", false), LocationPlan::Geocode);
    assert_eq!(
        plan_location("51.5, -0.1", false),
        LocationPlan::Coordinates("51.5".to_string(), "-0.1".to_string())
    );
}
