//! Request URLs of the Open-Meteo endpoints: base URL checks, query
//! parameters, and the API key rule.

use vstd::prelude::*;
use crate::dates::{CalendarDate, date_text, spec_date_text};
use crate::numeric::{nat_text, push_nat};

verus! {

/// The scheme `url::Url::parse` finds in `input` (lower-cased by the
/// parser), or `None` where the text is not an absolute URL.
pub uninterp spec fn url_scheme_of(input: Seq<char>) -> Option<Seq<char>>;

/// `url::Url::parse` then `Url::scheme`. Claimed: the result is the named
/// [`url_scheme_of`] of the input.
#[verifier::external_body]
fn parse_url_scheme(input: &str) -> (r: Option<String>)
    ensures
        match r {
            Some(s) => url_scheme_of(input@) == Some(s@),
            None => url_scheme_of(input@) is None,
        },
{
    url::Url::parse(input).ok().map(|url| url.scheme().to_string())
}

/// Why an endpoint base URL was refused; `name` says which endpoint.
pub struct BaseUrlError {
    pub name: String,
    pub kind: BaseUrlProblem,
}

#[derive(Clone, Copy, Debug, PartialEq, Eq, Structural)]
pub enum BaseUrlProblem {
    Invalid,
    Scheme,
}

impl BaseUrlError {
    /// "<name> base URL is invalid" or "<name> base URL must use http or
    /// https".
    pub fn message(&self) -> (r: String)
        ensures
            r@ == self.name@ + (match self.kind {
                BaseUrlProblem::Invalid => " base URL is invalid"@,
                BaseUrlProblem::Scheme => " base URL must use http or https"@,
            }),
    {
        let mut m = self.name.clone();
        match self.kind {
            BaseUrlProblem::Invalid => m.append(" base URL is invalid"),
            BaseUrlProblem::Scheme => m.append(" base URL must use http or https"),
        }
        m
    }
}

/// A base URL must parse and use `http` or `https`.
pub open spec fn spec_base_url_problem(input: Seq<char>) -> Option<BaseUrlProblem> {
    match url_scheme_of(input) {
        None => Some(BaseUrlProblem::Invalid),
        Some(s) => if s == "http"@ || s == "https"@ {
            None
        } else {
            Some(BaseUrlProblem::Scheme)
        },
    }
}

/// Checks the endpoint base URL `input` of the endpoint `name`.
pub fn validate_base_url(input: &str, name: &str) -> (r: Result<(), BaseUrlError>)
    ensures
        match spec_base_url_problem(input@) {
            None => r is Ok,
            Some(p) => r matches Err(e) && e.kind == p && e.name@ == name@,
        },
{
    match parse_url_scheme(input) {
        None => Err(BaseUrlError { name: String::from_str(name), kind: BaseUrlProblem::Invalid }),
        Some(scheme) => {
            let cs = crate::text::chars_of(scheme.as_str());
            if crate::text::same_text(&cs, "http") || crate::text::same_text(&cs, "https") {
                Ok(())
            } else {
                Err(BaseUrlError { name: String::from_str(name), kind: BaseUrlProblem::Scheme })
            }
        },
    }
}

/// The text `url::Url` holds after parsing `base` and appending `pairs`,
/// form-urlencoded, to its query; `None` where `base` does not parse. It
/// names the result of that whole chain of `url` calls (`Url::parse`,
/// `query_pairs_mut().extend_pairs`, then the URL's text), which the one
/// wrapper [`url_with_query`] makes.
pub uninterp spec fn url_with_query_of(base: Seq<char>, pairs: Seq<(Seq<char>, Seq<char>)>) -> Option<Seq<char>>;

pub open spec fn pair_texts(pairs: Seq<(String, String)>) -> Seq<(Seq<char>, Seq<char>)> {
    pairs.map_values(|p: (String, String)| (p.0@, p.1@))
}

/// `url::Url::parse(base)`, then `query_pairs_mut().extend_pairs(pairs)`,
/// then the URL text. Claimed: the result is the named [`url_with_query_of`]
/// of the base and the pairs.
#[verifier::external_body]
fn url_with_query(base: &str, pairs: &Vec<(String, String)>) -> (r: Option<String>)
    ensures
        match r {
            Some(u) => url_with_query_of(base@, pair_texts(pairs@)) == Some(u@),
            None => url_with_query_of(base@, pair_texts(pairs@)) is None,
        },
{
    let mut url = url::Url::parse(base).ok()?;
    url.query_pairs_mut().extend_pairs(pairs.iter().map(|(k, v)| (k.as_str(), v.as_str())));
    Some(url.to_string())
}

/// The request URL of `base` with the query `pairs`; `None` where the base
/// URL does not parse.
pub fn request_url(base: &str, pairs: &Vec<(String, String)>) -> (r: Option<String>)
    ensures
        match r {
            Some(u) => url_with_query_of(base@, pair_texts(pairs@)) == Some(u@),
            None => url_with_query_of(base@, pair_texts(pairs@)) is None,
        },
{
    url_with_query(base, pairs)
}

fn push_pair(pairs: &mut Vec<(String, String)>, key: &str, value: String)
    ensures
        pair_texts(final(pairs)@) == pair_texts(old(pairs)@).push((key@, value@)),
{
    let ghost before = pairs@;
    pairs.push((String::from_str(key), value));
    assert(pair_texts(pairs@) =~= pair_texts(before).push((key@, value@)));
}

/// The API key is sent only when it is set and not empty.
pub open spec fn with_api_key(pairs: Seq<(Seq<char>, Seq<char>)>, api_key: Option<Seq<char>>) -> Seq<
    (Seq<char>, Seq<char>),
> {
    match api_key {
        Some(k) => if k.len() > 0 {
            pairs.push(("apikey"@, k))
        } else {
            pairs
        },
        None => pairs,
    }
}

pub open spec fn opt_text(s: Option<&str>) -> Option<Seq<char>> {
    match s {
        Some(t) => Some(t@),
        None => None,
    }
}

fn push_api_key(pairs: &mut Vec<(String, String)>, api_key: Option<&str>)
    ensures
        pair_texts(final(pairs)@) == with_api_key(pair_texts(old(pairs)@), opt_text(api_key)),
{
    match api_key {
        Some(k) => {
            if !k.is_empty() {
                push_pair(pairs, "apikey", String::from_str(k));
            }
        },
        None => {},
    }
}

fn nat_string(n: u64) -> (r: String)
    ensures
        r@ == nat_text(n as nat),
{
    let mut s = String::new();
    push_nat(&mut s, n);
    assert(s@ =~= nat_text(n as nat));
    s
}

/// The geocoding query: name, count, English results, JSON, an optional
/// country code, and the API key rule.
pub open spec fn spec_geocode_query(query: Seq<char>, country: Option<Seq<char>>, count: u16, api_key: Option<Seq<char>>) -> Seq<(Seq<char>, Seq<char>)> {
    let base = seq![
        ("name"@, query),
        ("count"@, nat_text(count as nat)),
        ("language"@, "en"@),
        ("format"@, "json"@),
    ];
    let with_country = match country {
        Some(c) => base.push(("countryCode"@, c)),
        None => base,
    };
    with_api_key(with_country, api_key)
}

/// Query parameters of a geocoding search.
pub fn geocode_query(query: &str, country: Option<&str>, count: u16, api_key: Option<&str>) -> (r: Vec<(String, String)>)
    ensures
        pair_texts(r@) == spec_geocode_query(query@, opt_text(country), count, opt_text(api_key)),
{
    let mut pairs: Vec<(String, String)> = Vec::new();
    assert(pair_texts(pairs@) =~= Seq::empty());
    push_pair(&mut pairs, "name", String::from_str(query));
    push_pair(&mut pairs, "count", nat_string(count as u64));
    push_pair(&mut pairs, "language", String::from_str("en"));
    push_pair(&mut pairs, "format", String::from_str("json"));
    let ghost base = pair_texts(pairs@);
    assert(base =~= seq![
        ("name"@, query@),
        ("count"@, nat_text(count as nat)),
        ("language"@, "en"@),
        ("format"@, "json"@),
    ]);
    match country {
        Some(c) => push_pair(&mut pairs, "countryCode", String::from_str(c)),
        None => {},
    }
    push_api_key(&mut pairs, api_key);
    pairs
}

/// Which block of forecast variables a request asks for.
#[derive(Clone, Copy, Debug, PartialEq, Eq, Structural)]
pub enum ForecastKind {
    Current,
    Daily,
    Hourly,
}

pub open spec fn current_variables() -> Seq<char> {
    "temperature_2m,relative_humidity_2m,apparent_temperature,precipitation,rain,showers,snowfall,weather_code,cloud_cover,wind_speed_10m,wind_gusts_10m"@
}

pub open spec fn hourly_variables() -> Seq<char> {
    "temperature_2m,apparent_temperature,precipitation_probability,precipitation,rain,weather_code,cloud_cover,wind_speed_10m,wind_gusts_10m,is_day"@
}

pub open spec fn daily_variables() -> Seq<char> {
    "weather_code,temperature_2m_max,temperature_2m_min,apparent_temperature_max,apparent_temperature_min,precipitation_sum,precipitation_hours,precipitation_probability_max,wind_speed_10m_max,wind_gusts_10m_max,sunshine_duration,uv_index_max"@
}

pub open spec fn historical_daily_variables() -> Seq<char> {
    "weather_code,temperature_2m_max,temperature_2m_min,apparent_temperature_max,apparent_temperature_min,precipitation_sum,rain_sum,precipitation_hours,wind_speed_10m_max,wind_gusts_10m_max,sunshine_duration"@
}

pub open spec fn kind_pair(kind: ForecastKind) -> (Seq<char>, Seq<char>) {
    match kind {
        ForecastKind::Current => ("current"@, current_variables()),
        ForecastKind::Daily => ("daily"@, daily_variables()),
        ForecastKind::Hourly => ("hourly"@, hourly_variables()),
    }
}

/// The forecast query: coordinates, horizon, local time zone, the
/// variables of the requested block, and the API key rule.
pub open spec fn spec_forecast_query(latitude: Seq<char>, longitude: Seq<char>, days: u8, kind: ForecastKind, api_key: Option<Seq<char>>) -> Seq<(Seq<char>, Seq<char>)> {
    with_api_key(
        seq![
            ("latitude"@, latitude),
            ("longitude"@, longitude),
            ("forecast_days"@, nat_text(days as nat)),
            ("timezone"@, "auto"@),
            kind_pair(kind),
        ],
        api_key,
    )
}

/// Query parameters of a forecast request. The coordinates are given as
/// the text they are sent as.
pub fn forecast_query(latitude: &str, longitude: &str, days: u8, kind: ForecastKind, api_key: Option<&str>) -> (r: Vec<(String, String)>)
    ensures
        pair_texts(r@) == spec_forecast_query(latitude@, longitude@, days, kind, opt_text(api_key)),
{
    let mut pairs: Vec<(String, String)> = Vec::new();
    assert(pair_texts(pairs@) =~= Seq::empty());
    push_pair(&mut pairs, "latitude", String::from_str(latitude));
    push_pair(&mut pairs, "longitude", String::from_str(longitude));
    push_pair(&mut pairs, "forecast_days", nat_string(days as u64));
    push_pair(&mut pairs, "timezone", String::from_str("auto"));
    match kind {
        ForecastKind::Current => push_pair(
            &mut pairs,
            "current",
            String::from_str(
                "temperature_2m,relative_humidity_2m,apparent_temperature,precipitation,rain,showers,snowfall,weather_code,cloud_cover,wind_speed_10m,wind_gusts_10m",
            ),
        ),
        ForecastKind::Daily => push_pair(
            &mut pairs,
            "daily",
            String::from_str(
                "weather_code,temperature_2m_max,temperature_2m_min,apparent_temperature_max,apparent_temperature_min,precipitation_sum,precipitation_hours,precipitation_probability_max,wind_speed_10m_max,wind_gusts_10m_max,sunshine_duration,uv_index_max",
            ),
        ),
        ForecastKind::Hourly => push_pair(
            &mut pairs,
            "hourly",
            String::from_str(
                "temperature_2m,apparent_temperature,precipitation_probability,precipitation,rain,weather_code,cloud_cover,wind_speed_10m,wind_gusts_10m,is_day",
            ),
        ),
    }
    let ghost before_key = pair_texts(pairs@);
    assert(before_key =~= seq![
        ("latitude"@, latitude@),
        ("longitude"@, longitude@),
        ("forecast_days"@, nat_text(days as nat)),
        ("timezone"@, "auto"@),
        kind_pair(kind),
    ]);
    push_api_key(&mut pairs, api_key);
    pairs
}

/// The archive query: coordinates, the date range as `chrono` writes
/// dates, the archive variables, local time zone, and the API key rule.
pub open spec fn spec_historical_query(latitude: Seq<char>, longitude: Seq<char>, start: CalendarDate, end: CalendarDate, api_key: Option<Seq<char>>) -> Seq<(Seq<char>, Seq<char>)> {
    with_api_key(
        seq![
            ("latitude"@, latitude),
            ("longitude"@, longitude),
            ("start_date"@, spec_date_text(start)),
            ("end_date"@, spec_date_text(end)),
            ("daily"@, historical_daily_variables()),
            ("timezone"@, "auto"@),
        ],
        api_key,
    )
}

/// Query parameters of a historical archive request.
pub fn historical_query(latitude: &str, longitude: &str, start: CalendarDate, end: CalendarDate, api_key: Option<&str>) -> (r: Vec<(String, String)>)
    ensures
        pair_texts(r@) == spec_historical_query(latitude@, longitude@, start, end, opt_text(api_key)),
{
    let mut pairs: Vec<(String, String)> = Vec::new();
    assert(pair_texts(pairs@) =~= Seq::empty());
    push_pair(&mut pairs, "latitude", String::from_str(latitude));
    push_pair(&mut pairs, "longitude", String::from_str(longitude));
    push_pair(&mut pairs, "start_date", date_text(start));
    push_pair(&mut pairs, "end_date", date_text(end));
    push_pair(
        &mut pairs,
        "daily",
        String::from_str(
            "weather_code,temperature_2m_max,temperature_2m_min,apparent_temperature_max,apparent_temperature_min,precipitation_sum,rain_sum,precipitation_hours,wind_speed_10m_max,wind_gusts_10m_max,sunshine_duration",
        ),
    );
    push_pair(&mut pairs, "timezone", String::from_str("auto"));
    let ghost before_key = pair_texts(pairs@);
    assert(before_key =~= seq![
        ("latitude"@, latitude@),
        ("longitude"@, longitude@),
        ("start_date"@, spec_date_text(start)),
        ("end_date"@, spec_date_text(end)),
        ("daily"@, historical_daily_variables()),
        ("timezone"@, "auto"@),
    ]);
    push_api_key(&mut pairs, api_key);
    pairs
}

/// The API key, when sent, is always the last parameter, and an empty key
/// is never sent.
pub proof fn law_api_key_is_last_and_never_empty(pairs: Seq<(Seq<char>, Seq<char>)>, api_key: Option<Seq<char>>)
    ensures
        forall|k: Seq<char>|
            api_key == Some(k) && k.len() > 0 ==> #[trigger] with_api_key(pairs, Some(k)).last()
                == ("apikey"@, k),
        (api_key is None || api_key == Some(Seq::<char>::empty())) ==> with_api_key(pairs, api_key) == pairs,
        with_api_key(pairs, api_key).take(pairs.len() as int) == pairs,
{
    assert(pairs.push(("apikey"@, Seq::<char>::empty())).take(pairs.len() as int) =~= pairs);
    if let Some(k) = api_key {
        assert(pairs.push(("apikey"@, k)).take(pairs.len() as int) =~= pairs);
    }
    assert(pairs.take(pairs.len() as int) =~= pairs);
}

} // verus!
