//! Location inputs: saved aliases, `lat,lon` text, and coordinate bounds.

use vstd::prelude::*;
use crate::numeric::{Number, num_ge, num_le, number_ge, number_le, whole, whole_number};
use crate::text::{chars_of, string_of, strip_chars, trim};

verus! {

/// Position of the first `,` in `s`, or `s.len()` when there is none.
pub open spec fn comma_position(s: Seq<char>) -> int
    decreases s.len(),
{
    if s.len() == 0 {
        0
    } else if s[0] == ',' {
        0
    } else {
        1 + comma_position(s.drop_first())
    }
}

proof fn lemma_comma_position_at(s: Seq<char>, i: int)
    requires
        0 <= i <= s.len(),
        forall|j: int| 0 <= j < i ==> s[j] != ',',
        i < s.len() ==> s[i] == ',',
    ensures
        comma_position(s) == i,
    decreases s.len(),
{
    if s.len() > 0 && i > 0 {
        lemma_comma_position_at(s.drop_first(), i - 1);
    }
}

/// `str::split_once(',')` followed by `trim` of both halves.
pub open spec fn spec_split_lat_lon(input: Seq<char>) -> Option<(Seq<char>, Seq<char>)> {
    let k = comma_position(input);
    if k < input.len() {
        Some((trim(input.take(k)), trim(input.skip(k + 1))))
    } else {
        None
    }
}

/// Splits `lat,lon` text at its first comma into the two trimmed number
/// texts; `None` without a comma.
pub fn split_lat_lon(input: &str) -> (r: Option<(String, String)>)
    ensures
        match r {
            Some((a, b)) => spec_split_lat_lon(input@) == Some((a@, b@)),
            None => spec_split_lat_lon(input@) is None,
        },
{
    let cs = chars_of(input);
    let n = cs.len();
    let mut k: usize = 0;
    while k < n && cs[k] != ','
        invariant
            k <= n == cs@.len(),
            cs@ == input@,
            forall|j: int| 0 <= j < k ==> cs@[j] != ',',
        decreases n - k,
    {
        k = k + 1;
    }
    proof {
        lemma_comma_position_at(cs@, k as int);
    }
    if k == n {
        return None;
    }
    let mut left: Vec<char> = Vec::new();
    let mut i: usize = 0;
    while i < k
        invariant
            i <= k < n == cs@.len(),
            left@ == cs@.take(i as int),
        decreases k - i,
    {
        left.push(cs[i]);
        assert(cs@.take(i + 1) =~= cs@.take(i as int).push(cs@[i as int]));
        i = i + 1;
    }
    let mut right: Vec<char> = Vec::new();
    let mut j: usize = k + 1;
    while j < n
        invariant
            k < j <= n == cs@.len(),
            right@ == cs@.subrange(k + 1, j as int),
        decreases n - j,
    {
        right.push(cs[j]);
        assert(cs@.subrange(k + 1, j + 1) =~= cs@.subrange(k + 1, j as int).push(cs@[j as int]));
        j = j + 1;
    }
    assert(right@ =~= cs@.skip(k + 1));
    let lat = string_of(&strip_chars(&left, false));
    let lon = string_of(&strip_chars(&right, false));
    Some((lat, lon))
}

/// Why coordinates were refused.
#[derive(Clone, Copy, Debug, PartialEq, Eq, Structural)]
pub enum CoordinateError {
    NotFinite,
    Latitude,
    Longitude,
}

pub open spec fn coordinate_error_text(e: CoordinateError) -> Seq<char> {
    match e {
        CoordinateError::NotFinite => "latitude and longitude must be finite numbers"@,
        CoordinateError::Latitude => "latitude must be between -90 and 90"@,
        CoordinateError::Longitude => "longitude must be between -180 and 180"@,
    }
}

impl CoordinateError {
    pub fn message(&self) -> (r: String)
        ensures
            r@ == coordinate_error_text(*self),
    {
        match self {
            CoordinateError::NotFinite => String::from_str(
                "latitude and longitude must be finite numbers",
            ),
            CoordinateError::Latitude => String::from_str("latitude must be between -90 and 90"),
            CoordinateError::Longitude => String::from_str("longitude must be between -180 and 180"),
        }
    }
}

pub open spec fn is_finite(x: Number) -> bool {
    x is Finite
}

/// `x` lies in `[-bound, bound]`.
pub open spec fn within(x: Number, bound: int) -> bool {
    num_ge(x, whole(-bound)) && num_le(x, whole(bound))
}

/// Coordinate checks, in order: both finite, latitude within 90, longitude
/// within 180.
pub open spec fn spec_validate_coordinates(lat: Number, lon: Number) -> Result<(), CoordinateError> {
    if !is_finite(lat) || !is_finite(lon) {
        Err(CoordinateError::NotFinite)
    } else if !within(lat, 90) {
        Err(CoordinateError::Latitude)
    } else if !within(lon, 180) {
        Err(CoordinateError::Longitude)
    } else {
        Ok(())
    }
}

/// Checks a coordinate pair.
pub fn validate_coordinates(lat: Number, lon: Number) -> (r: Result<(), CoordinateError>)
    ensures
        r == spec_validate_coordinates(lat, lon),
{
    let finite_lat = match lat {
        Number::Finite(_) => true,
        _ => false,
    };
    let finite_lon = match lon {
        Number::Finite(_) => true,
        _ => false,
    };
    if !finite_lat || !finite_lon {
        return Err(CoordinateError::NotFinite);
    }
    if !(number_ge(lat, whole_number(-90)) && number_le(lat, whole_number(90))) {
        return Err(CoordinateError::Latitude);
    }
    if !(number_ge(lon, whole_number(-180)) && number_le(lon, whole_number(180))) {
        return Err(CoordinateError::Longitude);
    }
    Ok(())
}

/// How a location input is resolved.
#[derive(Debug, PartialEq, Eq)]
pub enum LocationPlan {
    /// A saved alias: use the saved place.
    Saved,
    /// `lat,lon` text: use the coordinates when both halves read as
    /// numbers, otherwise geocode the input.
    Coordinates(String, String),
    /// Geocode the input as a place name.
    Geocode,
}

/// Decides how to resolve `input`: a saved alias first, then `lat,lon`
/// text, then geocoding.
pub fn plan_location(input: &str, is_saved_alias: bool) -> (r: LocationPlan)
    ensures
        is_saved_alias ==> r == LocationPlan::Saved,
        !is_saved_alias ==> match spec_split_lat_lon(input@) {
            Some((a, b)) => r matches LocationPlan::Coordinates(x, y) && x@ == a && y@ == b,
            None => r == LocationPlan::Geocode,
        },
{
    if is_saved_alias {
        return LocationPlan::Saved;
    }
    match split_lat_lon(input) {
        Some((a, b)) => LocationPlan::Coordinates(a, b),
        None => LocationPlan::Geocode,
    }
}

/// Coordinates are accepted exactly when both are finite, the latitude lies
/// in `[-90, 90]` and the longitude in `[-180, 180]`; each refusal names the
/// first check that fails, in the order finiteness, latitude, longitude.
pub proof fn law_coordinate_bounds(lat: Number, lon: Number)
    ensures
        spec_validate_coordinates(lat, lon) is Ok <==> (lat is Finite && lon is Finite && num_ge(
            lat,
            whole(-90),
        ) && num_le(lat, whole(90)) && num_ge(lon, whole(-180)) && num_le(lon, whole(180))),
        spec_validate_coordinates(lat, lon) == Err::<(), CoordinateError>(CoordinateError::NotFinite)
            <==> !(lat is Finite && lon is Finite),
        spec_validate_coordinates(lat, lon) == Err::<(), CoordinateError>(CoordinateError::Latitude)
            <==> (lat is Finite && lon is Finite && !(num_ge(lat, whole(-90)) && num_le(
            lat,
            whole(90),
        ))),
        spec_validate_coordinates(lat, lon) == Err::<(), CoordinateError>(CoordinateError::Longitude)
            <==> (lat is Finite && lon is Finite && num_ge(lat, whole(-90)) && num_le(lat, whole(90))
            && !(num_ge(lon, whole(-180)) && num_le(lon, whole(180)))),
{
}

} // verus!
