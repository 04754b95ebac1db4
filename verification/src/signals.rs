//! Demand signals: daily weather readings turned into demand flags,
//! threshold matches and forecast-window summaries.

use vstd::prelude::*;
use crate::cache::CacheState;
use crate::numeric::{lemma_num_ge_transitive, 
    Number, min_int, nat_text, pow10, num_ge, num_le, number_ge, number_le, push_nat, whole, whole_number,
};
use crate::text::push_char;

verus! {

// ---------------------------------------------------------------------------
// Daily readings
// ---------------------------------------------------------------------------

/// The daily forecast columns the signal rules read, one entry per day.
/// A column may be shorter than `time` (missing values) and an entry is
/// `None` where the forecast holds no number.
pub struct DailyColumns {
    pub time: Vec<String>,
    pub weather_code: Vec<Option<i64>>,
    pub temperature_2m_max: Vec<Option<Number>>,
    pub temperature_2m_min: Vec<Option<Number>>,
    pub apparent_temperature_max: Vec<Option<Number>>,
    pub apparent_temperature_min: Vec<Option<Number>>,
    pub precipitation_sum: Vec<Option<Number>>,
    pub precipitation_hours: Vec<Option<Number>>,
    pub precipitation_probability_max: Vec<Option<i64>>,
    pub wind_speed_10m_max: Vec<Option<Number>>,
    pub wind_gusts_10m_max: Vec<Option<Number>>,
    pub sunshine_duration: Vec<Option<Number>>,
    pub uv_index_max: Vec<Option<Number>>,
}

/// The value of a column on day `i`; `None` past its end.
pub open spec fn col_at<T>(col: Seq<Option<T>>, i: int) -> Option<T> {
    if 0 <= i < col.len() {
        col[i]
    } else {
        None
    }
}

fn number_at(col: &Vec<Option<Number>>, i: usize) -> (r: Option<Number>)
    ensures
        r == col_at(col@, i as int),
{
    if i < col.len() {
        col[i]
    } else {
        None
    }
}

fn integer_at(col: &Vec<Option<i64>>, i: usize) -> (r: Option<i64>)
    ensures
        r == col_at(col@, i as int),
{
    if i < col.len() {
        col[i]
    } else {
        None
    }
}

// ---------------------------------------------------------------------------
// Demand flags
// ---------------------------------------------------------------------------

/// The demand flags of one day.
#[derive(Clone, Copy, Debug, PartialEq, Eq, Structural)]
pub struct DemandFlags {
    pub rain_likely: bool,
    pub wet_day: bool,
    pub heavy_rain: bool,
    pub warm_day: bool,
    pub hot_day: bool,
    pub cold_day: bool,
    pub windy_day: bool,
    pub sunny_day: bool,
    pub high_uv: bool,
}

/// A reading is present and at least `t`.
pub open spec fn at_least(v: Option<Number>, t: Number) -> bool {
    match v {
        Some(x) => num_ge(x, t),
        None => false,
    }
}

/// A reading is present and at most `t`.
pub open spec fn at_most(v: Option<Number>, t: Number) -> bool {
    match v {
        Some(x) => num_le(x, t),
        None => false,
    }
}

/// A whole-number reading is present and at least `t`.
pub open spec fn count_at_least(v: Option<i64>, t: int) -> bool {
    match v {
        Some(x) => x >= t,
        None => false,
    }
}

/// The demand rules: rain probability >= 50 %, precipitation >= 1 mm (wet)
/// and >= 5 mm (heavy), max temperature >= 20 C (warm) and >= 25 C (hot),
/// min temperature <= 5 C (cold), gusts >= 40 km/h (windy), sunshine >= 6 h
/// (21600 s, sunny) and UV index >= 6 (high UV).
pub open spec fn spec_demand_flags(
    rain_probability: Option<i64>,
    precipitation: Option<Number>,
    temp_max: Option<Number>,
    temp_min: Option<Number>,
    wind_gust: Option<Number>,
    sunshine_seconds: Option<Number>,
    uv: Option<Number>,
) -> DemandFlags {
    DemandFlags {
        rain_likely: count_at_least(rain_probability, 50),
        wet_day: at_least(precipitation, whole(1)),
        heavy_rain: at_least(precipitation, whole(5)),
        warm_day: at_least(temp_max, whole(20)),
        hot_day: at_least(temp_max, whole(25)),
        cold_day: at_most(temp_min, whole(5)),
        windy_day: at_least(wind_gust, whole(40)),
        sunny_day: at_least(sunshine_seconds, whole(21600)),
        high_uv: at_least(uv, whole(6)),
    }
}

fn reading_at_least(v: Option<Number>, t: i64) -> (r: bool)
    ensures
        r == at_least(v, whole(t as int)),
{
    match v {
        Some(x) => number_ge(x, whole_number(t)),
        None => false,
    }
}

fn reading_at_most(v: Option<Number>, t: i64) -> (r: bool)
    ensures
        r == at_most(v, whole(t as int)),
{
    match v {
        Some(x) => number_le(x, whole_number(t)),
        None => false,
    }
}

/// Applies the demand rules to one day's readings.
pub fn demand_flags(
    rain_probability: Option<i64>,
    precipitation: Option<Number>,
    temp_max: Option<Number>,
    temp_min: Option<Number>,
    wind_gust: Option<Number>,
    sunshine_seconds: Option<Number>,
    uv: Option<Number>,
) -> (r: DemandFlags)
    ensures
        r == spec_demand_flags(
            rain_probability,
            precipitation,
            temp_max,
            temp_min,
            wind_gust,
            sunshine_seconds,
            uv,
        ),
{
    DemandFlags {
        rain_likely: match rain_probability {
            Some(v) => v >= 50,
            None => false,
        },
        wet_day: reading_at_least(precipitation, 1),
        heavy_rain: reading_at_least(precipitation, 5),
        warm_day: reading_at_least(temp_max, 20),
        hot_day: reading_at_least(temp_max, 25),
        cold_day: reading_at_most(temp_min, 5),
        windy_day: reading_at_least(wind_gust, 40),
        sunny_day: reading_at_least(sunshine_seconds, 21600),
        high_uv: reading_at_least(uv, 6),
    }
}

pub open spec fn flag_name_list(f: DemandFlags) -> Seq<Seq<char>> {
    let s0: Seq<Seq<char>> = Seq::empty();
    let s1 = if f.rain_likely { s0.push("rain_likely"@) } else { s0 };
    let s2 = if f.wet_day { s1.push("wet_day"@) } else { s1 };
    let s3 = if f.heavy_rain { s2.push("heavy_rain"@) } else { s2 };
    let s4 = if f.warm_day { s3.push("warm_day"@) } else { s3 };
    let s5 = if f.hot_day { s4.push("hot_day"@) } else { s4 };
    let s6 = if f.cold_day { s5.push("cold_day"@) } else { s5 };
    let s7 = if f.windy_day { s6.push("windy_day"@) } else { s6 };
    let s8 = if f.sunny_day { s7.push("sunny_day"@) } else { s7 };
    if f.high_uv { s8.push("high_uv"@) } else { s8 }
}

/// `names` joined with `|`.
pub open spec fn join_bar(names: Seq<Seq<char>>) -> Seq<char>
    decreases names.len(),
{
    if names.len() == 0 {
        Seq::empty()
    } else if names.len() == 1 {
        names[0]
    } else {
        join_bar(names.drop_last()) + seq!['|'] + names.last()
    }
}

fn add_flag(
    out: &mut String,
    Ghost(names): Ghost<Seq<Seq<char>>>,
    count: usize,
    name: &str,
    active: bool,
) -> (next: (usize, Ghost<Seq<Seq<char>>>))
    requires
        old(out)@ == join_bar(names),
        count == names.len() <= 9,
    ensures
        next.1@ == (if active { names.push(name@) } else { names }),
        next.0 == next.1@.len(),
        final(out)@ == join_bar(next.1@),
{
    if active {
        let ghost pushed = names.push(name@);
        assert(pushed.drop_last() =~= names);
        if count != 0 {
            push_char(out, '|');
        } else {
            assert(out@ =~= Seq::<char>::empty());
        }
        out.append(name);
        assert(out@ =~= join_bar(pushed));
        (count + 1, Ghost(pushed))
    } else {
        (count, Ghost(names))
    }
}

/// Names of the active flags, in their fixed order, joined with `|`.
pub fn flag_list(flags: &DemandFlags) -> (r: String)
    ensures
        r@ == join_bar(flag_name_list(*flags)),
{
    let mut out = String::new();
    let (c, g) = (0usize, Ghost(Seq::<Seq<char>>::empty()));
    let (c, g) = add_flag(&mut out, g, c, "rain_likely", flags.rain_likely);
    let (c, g) = add_flag(&mut out, g, c, "wet_day", flags.wet_day);
    let (c, g) = add_flag(&mut out, g, c, "heavy_rain", flags.heavy_rain);
    let (c, g) = add_flag(&mut out, g, c, "warm_day", flags.warm_day);
    let (c, g) = add_flag(&mut out, g, c, "hot_day", flags.hot_day);
    let (c, g) = add_flag(&mut out, g, c, "cold_day", flags.cold_day);
    let (c, g) = add_flag(&mut out, g, c, "windy_day", flags.windy_day);
    let (c, g) = add_flag(&mut out, g, c, "sunny_day", flags.sunny_day);
    let (c, g) = add_flag(&mut out, g, c, "high_uv", flags.high_uv);
    proof {
        assert(g@ == flag_name_list(*flags));
    }
    out
}

// ---------------------------------------------------------------------------
// Daily signals
// ---------------------------------------------------------------------------

/// One day of demand features. `sunshine_seconds` keeps the reading in the
/// unit the forecast gives; hours are that value divided by 3600.
pub struct DailySignal {
    pub date: String,
    pub temp_max_c: Option<Number>,
    pub temp_min_c: Option<Number>,
    pub apparent_temp_max_c: Option<Number>,
    pub apparent_temp_min_c: Option<Number>,
    pub precipitation_mm: Option<Number>,
    pub precip_probability_max_pct: Option<i64>,
    pub precipitation_hours: Option<Number>,
    pub wind_speed_max_kmh: Option<Number>,
    pub wind_gust_max_kmh: Option<Number>,
    pub sunshine_seconds: Option<Number>,
    pub uv_index_max: Option<Number>,
    pub weather_code: Option<i64>,
    pub flags: DemandFlags,
}

/// A [`DailySignal`] with its date as characters.
pub struct DailySignalView {
    pub date: Seq<char>,
    pub temp_max_c: Option<Number>,
    pub temp_min_c: Option<Number>,
    pub apparent_temp_max_c: Option<Number>,
    pub apparent_temp_min_c: Option<Number>,
    pub precipitation_mm: Option<Number>,
    pub precip_probability_max_pct: Option<i64>,
    pub precipitation_hours: Option<Number>,
    pub wind_speed_max_kmh: Option<Number>,
    pub wind_gust_max_kmh: Option<Number>,
    pub sunshine_seconds: Option<Number>,
    pub uv_index_max: Option<Number>,
    pub weather_code: Option<i64>,
    pub flags: DemandFlags,
}

impl View for DailySignal {
    type V = DailySignalView;

    open spec fn view(&self) -> DailySignalView {
        DailySignalView {
            date: self.date@,
            temp_max_c: self.temp_max_c,
            temp_min_c: self.temp_min_c,
            apparent_temp_max_c: self.apparent_temp_max_c,
            apparent_temp_min_c: self.apparent_temp_min_c,
            precipitation_mm: self.precipitation_mm,
            precip_probability_max_pct: self.precip_probability_max_pct,
            precipitation_hours: self.precipitation_hours,
            wind_speed_max_kmh: self.wind_speed_max_kmh,
            wind_gust_max_kmh: self.wind_gust_max_kmh,
            sunshine_seconds: self.sunshine_seconds,
            uv_index_max: self.uv_index_max,
            weather_code: self.weather_code,
            flags: self.flags,
        }
    }
}

/// The signal of day `i` of `cols`.
pub open spec fn spec_day(cols: &DailyColumns, i: int) -> DailySignalView {
    let precip = col_at(cols.precipitation_sum@, i);
    let tmax = col_at(cols.temperature_2m_max@, i);
    let tmin = col_at(cols.temperature_2m_min@, i);
    let gust = col_at(cols.wind_gusts_10m_max@, i);
    let sun = col_at(cols.sunshine_duration@, i);
    let uv = col_at(cols.uv_index_max@, i);
    let rain = col_at(cols.precipitation_probability_max@, i);
    DailySignalView {
        date: cols.time@[i]@,
        temp_max_c: tmax,
        temp_min_c: tmin,
        apparent_temp_max_c: col_at(cols.apparent_temperature_max@, i),
        apparent_temp_min_c: col_at(cols.apparent_temperature_min@, i),
        precipitation_mm: precip,
        precip_probability_max_pct: rain,
        precipitation_hours: col_at(cols.precipitation_hours@, i),
        wind_speed_max_kmh: col_at(cols.wind_speed_10m_max@, i),
        wind_gust_max_kmh: gust,
        sunshine_seconds: sun,
        uv_index_max: uv,
        weather_code: col_at(cols.weather_code@, i),
        flags: spec_demand_flags(rain, precip, tmax, tmin, gust, sun, uv),
    }
}

/// The days of `cols` are exactly `days`, in order.
pub open spec fn days_of(cols: &DailyColumns, days: Seq<DailySignal>) -> bool {
    &&& days.len() == cols.time@.len()
    &&& forall|i: int| 0 <= i < days.len() ==> (#[trigger] days[i])@ == spec_day(cols, i)
}

/// A copy of `day`.
pub fn copy_day(day: &DailySignal) -> (r: DailySignal)
    ensures
        r@ == day@,
{
    DailySignal {
        date: day.date.clone(),
        temp_max_c: day.temp_max_c,
        temp_min_c: day.temp_min_c,
        apparent_temp_max_c: day.apparent_temp_max_c,
        apparent_temp_min_c: day.apparent_temp_min_c,
        precipitation_mm: day.precipitation_mm,
        precip_probability_max_pct: day.precip_probability_max_pct,
        precipitation_hours: day.precipitation_hours,
        wind_speed_max_kmh: day.wind_speed_max_kmh,
        wind_gust_max_kmh: day.wind_gust_max_kmh,
        sunshine_seconds: day.sunshine_seconds,
        uv_index_max: day.uv_index_max,
        weather_code: day.weather_code,
        flags: day.flags,
    }
}

/// One signal per forecast day, with the demand flags applied.
pub fn daily_signals(cols: &DailyColumns) -> (days: Vec<DailySignal>)
    ensures
        days_of(cols, days@),
{
    let mut days: Vec<DailySignal> = Vec::new();
    let n = cols.time.len();
    let mut idx: usize = 0;
    while idx < n
        invariant
            idx <= n == cols.time@.len(),
            days@.len() == idx,
            forall|i: int| 0 <= i < idx ==> (#[trigger] days@[i])@ == spec_day(cols, i),
        decreases n - idx,
    {
        let precip = number_at(&cols.precipitation_sum, idx);
        let tmax = number_at(&cols.temperature_2m_max, idx);
        let tmin = number_at(&cols.temperature_2m_min, idx);
        let gust = number_at(&cols.wind_gusts_10m_max, idx);
        let sun = number_at(&cols.sunshine_duration, idx);
        let uv = number_at(&cols.uv_index_max, idx);
        let rain = integer_at(&cols.precipitation_probability_max, idx);
        let flags = demand_flags(rain, precip, tmax, tmin, gust, sun, uv);
        let day = DailySignal {
            date: cols.time[idx].clone(),
            temp_max_c: tmax,
            temp_min_c: tmin,
            apparent_temp_max_c: number_at(&cols.apparent_temperature_max, idx),
            apparent_temp_min_c: number_at(&cols.apparent_temperature_min, idx),
            precipitation_mm: precip,
            precip_probability_max_pct: rain,
            precipitation_hours: number_at(&cols.precipitation_hours, idx),
            wind_speed_max_kmh: number_at(&cols.wind_speed_10m_max, idx),
            wind_gust_max_kmh: gust,
            sunshine_seconds: sun,
            uv_index_max: uv,
            weather_code: integer_at(&cols.weather_code, idx),
            flags,
        };
        assert(day@ == spec_day(cols, idx as int));
        days.push(day);
        idx = idx + 1;
    }
    days
}

/// The signal derivation profile.
#[derive(Clone, Copy, Debug, PartialEq, Eq, Structural)]
pub enum SignalProfile {
    Demand,
}

pub open spec fn profile_name(p: SignalProfile) -> Seq<char> {
    match p {
        SignalProfile::Demand => "demand"@,
    }
}

impl SignalProfile {
    /// The profile's name as it appears in output.
    pub fn as_text(&self) -> (r: String)
        ensures
            r@ == profile_name(*self),
    {
        match self {
            SignalProfile::Demand => String::from_str("demand"),
        }
    }
}

/// What signal derivation reads of a forecast response.
pub struct ForecastData {
    pub source: String,
    pub cache: CacheState,
    pub timezone: String,
    pub daily: Option<DailyColumns>,
}

/// Daily demand signals for one location's forecast window.
pub struct SignalEnvelope {
    pub source: String,
    pub cache: CacheState,
    pub timezone: String,
    pub profile: String,
    pub days: Vec<DailySignal>,
}

/// Why a forecast could not be turned into signals.
#[derive(Clone, Copy, Debug, PartialEq, Eq, Structural)]
pub enum SignalError {
    DailyMissing,
}

impl SignalError {
    pub fn message(&self) -> (r: String)
        ensures
            r@ == "daily data missing"@,
    {
        String::from_str("daily data missing")
    }
}

impl SignalEnvelope {
    /// Derives the daily signals of a forecast; fails exactly when the
    /// forecast holds no daily series.
    pub fn from_forecast(envelope: ForecastData, profile: SignalProfile) -> (r: Result<
        SignalEnvelope,
        SignalError,
    >)
        ensures
            envelope.daily is None <==> r == Err::<SignalEnvelope, SignalError>(
                SignalError::DailyMissing,
            ),
            r matches Ok(s) ==> {
                &&& s.source@ == envelope.source@
                &&& s.cache == envelope.cache
                &&& s.timezone@ == envelope.timezone@
                &&& s.profile@ == profile_name(profile)
                &&& days_of(&envelope.daily->0, s.days@)
            },
    {
        match envelope.daily {
            None => Err(SignalError::DailyMissing),
            Some(daily) => {
                let days = daily_signals(&daily);
                Ok(SignalEnvelope {
                    source: envelope.source,
                    cache: envelope.cache,
                    timezone: envelope.timezone,
                    profile: profile.as_text(),
                    days,
                })
            },
        }
    }
}

// ---------------------------------------------------------------------------
// Summaries
// ---------------------------------------------------------------------------

/// A day counts as a risk day when rain is likely, it is wet, rain is
/// heavy, it is windy, or UV is high.
pub open spec fn is_risk_day(f: DemandFlags) -> bool {
    f.rain_likely || f.wet_day || f.heavy_rain || f.windy_day || f.high_uv
}

/// The number of days of `days` whose flags satisfy `p`.
pub open spec fn count_days(days: Seq<DailySignal>, p: spec_fn(DemandFlags) -> bool) -> nat
    decreases days.len(),
{
    if days.len() == 0 {
        0
    } else {
        count_days(days.drop_last(), p) + if p(days.last().flags) {
            1nat
        } else {
            0nat
        }
    }
}

pub open spec fn risk_pred() -> spec_fn(DemandFlags) -> bool {
    |f: DemandFlags| is_risk_day(f)
}

pub open spec fn warm_pred() -> spec_fn(DemandFlags) -> bool {
    |f: DemandFlags| f.warm_day
}

pub open spec fn hot_pred() -> spec_fn(DemandFlags) -> bool {
    |f: DemandFlags| f.hot_day
}

pub open spec fn wet_pred() -> spec_fn(DemandFlags) -> bool {
    |f: DemandFlags| f.wet_day
}

pub open spec fn windy_pred() -> spec_fn(DemandFlags) -> bool {
    |f: DemandFlags| f.windy_day
}

pub open spec fn sunny_pred() -> spec_fn(DemandFlags) -> bool {
    |f: DemandFlags| f.sunny_day
}

/// "R risk days, W warm days, E wet days, N windy days over T days".
pub open spec fn headline_text(risk: nat, warm: nat, wet: nat, windy: nat, total: nat) -> Seq<
    char,
> {
    nat_text(risk) + " risk days, "@ + nat_text(warm) + " warm days, "@ + nat_text(wet)
        + " wet days, "@ + nat_text(windy) + " windy days over "@ + nat_text(total) + " days"@
}

/// A compact overview of a forecast window.
pub struct SummaryEnvelope {
    pub source: String,
    pub cache: CacheState,
    pub timezone: String,
    pub profile: String,
    pub headline: String,
    pub total_days: usize,
    pub risk_days: usize,
    pub warm_days: usize,
    pub hot_days: usize,
    pub wet_days: usize,
    pub windy_days: usize,
    pub sunny_days: usize,
    pub days: Vec<DailySignal>,
}

impl SummaryEnvelope {
    /// Counts the flagged days of a signal and writes the headline.
    pub fn from_signal(signal: SignalEnvelope) -> (r: SummaryEnvelope)
        ensures
            r.source@ == signal.source@,
            r.cache == signal.cache,
            r.timezone@ == signal.timezone@,
            r.profile@ == signal.profile@,
            r.days@ == signal.days@,
            r.total_days == signal.days@.len(),
            r.risk_days == count_days(signal.days@, risk_pred()),
            r.warm_days == count_days(signal.days@, warm_pred()),
            r.hot_days == count_days(signal.days@, hot_pred()),
            r.wet_days == count_days(signal.days@, wet_pred()),
            r.windy_days == count_days(signal.days@, windy_pred()),
            r.sunny_days == count_days(signal.days@, sunny_pred()),
            r.headline@ == headline_text(
                r.risk_days as nat,
                r.warm_days as nat,
                r.wet_days as nat,
                r.windy_days as nat,
                r.total_days as nat,
            ),
    {
        let n = signal.days.len();
        let mut risk: usize = 0;
        let mut warm: usize = 0;
        let mut hot: usize = 0;
        let mut wet: usize = 0;
        let mut windy: usize = 0;
        let mut sunny: usize = 0;
        let mut i: usize = 0;
        while i < n
            invariant
                i <= n == signal.days@.len(),
                risk == count_days(signal.days@.take(i as int), risk_pred()),
                warm == count_days(signal.days@.take(i as int), warm_pred()),
                hot == count_days(signal.days@.take(i as int), hot_pred()),
                wet == count_days(signal.days@.take(i as int), wet_pred()),
                windy == count_days(signal.days@.take(i as int), windy_pred()),
                sunny == count_days(signal.days@.take(i as int), sunny_pred()),
                risk <= i && warm <= i && hot <= i && wet <= i && windy <= i && sunny <= i,
            decreases n - i,
        {
            let f = signal.days[i].flags;
            let ghost before = signal.days@.take(i as int);
            let ghost after = signal.days@.take(i + 1);
            assert(after.drop_last() =~= before);
            assert(after.last() == signal.days@[i as int]);
            if f.rain_likely || f.wet_day || f.heavy_rain || f.windy_day || f.high_uv {
                risk = risk + 1;
            }
            if f.warm_day {
                warm = warm + 1;
            }
            if f.hot_day {
                hot = hot + 1;
            }
            if f.wet_day {
                wet = wet + 1;
            }
            if f.windy_day {
                windy = windy + 1;
            }
            if f.sunny_day {
                sunny = sunny + 1;
            }
            i = i + 1;
        }
        assert(signal.days@.take(n as int) =~= signal.days@);
        let mut headline = String::new();
        push_nat(&mut headline, risk as u64);
        headline.append(" risk days, ");
        push_nat(&mut headline, warm as u64);
        headline.append(" warm days, ");
        push_nat(&mut headline, wet as u64);
        headline.append(" wet days, ");
        push_nat(&mut headline, windy as u64);
        headline.append(" windy days over ");
        push_nat(&mut headline, n as u64);
        headline.append(" days");
        SummaryEnvelope {
            source: signal.source,
            cache: signal.cache,
            timezone: signal.timezone,
            profile: signal.profile,
            headline,
            total_days: n,
            risk_days: risk,
            warm_days: warm,
            hot_days: hot,
            wet_days: wet,
            windy_days: windy,
            sunny_days: sunny,
            days: signal.days,
        }
    }
}

// ---------------------------------------------------------------------------
// Thresholds
// ---------------------------------------------------------------------------

/// The arguments of a threshold query.
pub struct ThresholdArgs {
    pub location: String,
    pub country: Option<String>,
    pub days: u8,
    pub rain_prob_gte: Option<i64>,
    pub precip_mm_gte: Option<Number>,
    pub temp_max_gte: Option<Number>,
    pub temp_min_lte: Option<Number>,
    pub wind_gust_gte: Option<Number>,
}

/// Decision thresholds; a day matches each threshold that is set and that
/// its reading meets.
#[derive(Clone, Copy, Debug, PartialEq, Eq, Structural)]
pub struct ThresholdCriteria {
    pub rain_prob_gte: Option<i64>,
    pub precip_mm_gte: Option<Number>,
    pub temp_max_gte: Option<Number>,
    pub temp_min_lte: Option<Number>,
    pub wind_gust_gte: Option<Number>,
}

/// Why threshold criteria could not be built.
#[derive(Clone, Copy, Debug, PartialEq, Eq, Structural)]
pub enum ThresholdError {
    NoThreshold,
}

impl ThresholdError {
    pub fn message(&self) -> (r: String)
        ensures
            r@ == "provide at least one threshold option"@,
    {
        String::from_str("provide at least one threshold option")
    }
}

/// One reason a day matched.
#[derive(Clone, Copy, Debug, PartialEq, Eq, Structural)]
pub enum ThresholdReason {
    RainProbGte,
    PrecipMmGte,
    TempMaxGte,
    TempMinLte,
    WindGustGte,
}

pub open spec fn reason_name(r: ThresholdReason) -> Seq<char> {
    match r {
        ThresholdReason::RainProbGte => "rain_prob_gte"@,
        ThresholdReason::PrecipMmGte => "precip_mm_gte"@,
        ThresholdReason::TempMaxGte => "temp_max_gte"@,
        ThresholdReason::TempMinLte => "temp_min_lte"@,
        ThresholdReason::WindGustGte => "wind_gust_gte"@,
    }
}

impl ThresholdReason {
    pub fn as_text(&self) -> (r: String)
        ensures
            r@ == reason_name(*self),
    {
        match self {
            ThresholdReason::RainProbGte => String::from_str("rain_prob_gte"),
            ThresholdReason::PrecipMmGte => String::from_str("precip_mm_gte"),
            ThresholdReason::TempMaxGte => String::from_str("temp_max_gte"),
            ThresholdReason::TempMinLte => String::from_str("temp_min_lte"),
            ThresholdReason::WindGustGte => String::from_str("wind_gust_gte"),
        }
    }
}

/// A threshold `t`, when set, is met by a present reading `v >= t`.
pub open spec fn meets_at_least(t: Option<Number>, v: Option<Number>) -> bool {
    match t {
        Some(t) => at_least(v, t),
        None => false,
    }
}

/// A threshold `t`, when set, is met by a present reading `v <= t`.
pub open spec fn meets_at_most(t: Option<Number>, v: Option<Number>) -> bool {
    match t {
        Some(t) => at_most(v, t),
        None => false,
    }
}

pub open spec fn meets_count(t: Option<i64>, v: Option<i64>) -> bool {
    match t {
        Some(t) => count_at_least(v, t as int),
        None => false,
    }
}

/// The reasons `day` matches `c`, in the fixed order rain probability,
/// precipitation, max temperature, min temperature, wind gust.
pub open spec fn spec_reasons(c: ThresholdCriteria, day: DailySignalView) -> Seq<ThresholdReason> {
    let s0: Seq<ThresholdReason> = Seq::empty();
    let s1 = if meets_count(c.rain_prob_gte, day.precip_probability_max_pct) {
        s0.push(ThresholdReason::RainProbGte)
    } else {
        s0
    };
    let s2 = if meets_at_least(c.precip_mm_gte, day.precipitation_mm) {
        s1.push(ThresholdReason::PrecipMmGte)
    } else {
        s1
    };
    let s3 = if meets_at_least(c.temp_max_gte, day.temp_max_c) {
        s2.push(ThresholdReason::TempMaxGte)
    } else {
        s2
    };
    let s4 = if meets_at_most(c.temp_min_lte, day.temp_min_c) {
        s3.push(ThresholdReason::TempMinLte)
    } else {
        s3
    };
    if meets_at_least(c.wind_gust_gte, day.wind_gust_max_kmh) {
        s4.push(ThresholdReason::WindGustGte)
    } else {
        s4
    }
}

pub open spec fn criteria_empty(c: ThresholdCriteria) -> bool {
    &&& c.rain_prob_gte is None
    &&& c.precip_mm_gte is None
    &&& c.temp_max_gte is None
    &&& c.temp_min_lte is None
    &&& c.wind_gust_gte is None
}

/// The names of `reasons`.
pub open spec fn reason_names(reasons: Seq<ThresholdReason>) -> Seq<Seq<char>> {
    reasons.map_values(|r: ThresholdReason| reason_name(r))
}

/// The views of a list of strings.
pub open spec fn texts(v: Seq<String>) -> Seq<Seq<char>> {
    v.map_values(|s: String| s@)
}

fn threshold_at_least(t: Option<Number>, v: Option<Number>) -> (r: bool)
    ensures
        r == meets_at_least(t, v),
{
    match (t, v) {
        (Some(t), Some(v)) => number_ge(v, t),
        _ => false,
    }
}

fn threshold_at_most(t: Option<Number>, v: Option<Number>) -> (r: bool)
    ensures
        r == meets_at_most(t, v),
{
    match (t, v) {
        (Some(t), Some(v)) => number_le(v, t),
        _ => false,
    }
}

impl ThresholdCriteria {
    /// The criteria of `args`; refused when no threshold is set.
    pub fn from_args(args: &ThresholdArgs) -> (r: Result<ThresholdCriteria, ThresholdError>)
        ensures
            r matches Ok(c) ==> c == (ThresholdCriteria {
                rain_prob_gte: args.rain_prob_gte,
                precip_mm_gte: args.precip_mm_gte,
                temp_max_gte: args.temp_max_gte,
                temp_min_lte: args.temp_min_lte,
                wind_gust_gte: args.wind_gust_gte,
            }),
            r is Err <==> (args.rain_prob_gte is None && args.precip_mm_gte is None
                && args.temp_max_gte is None && args.temp_min_lte is None
                && args.wind_gust_gte is None),
            r is Err ==> r == Err::<ThresholdCriteria, ThresholdError>(ThresholdError::NoThreshold),
    {
        let criteria = ThresholdCriteria {
            rain_prob_gte: args.rain_prob_gte,
            precip_mm_gte: args.precip_mm_gte,
            temp_max_gte: args.temp_max_gte,
            temp_min_lte: args.temp_min_lte,
            wind_gust_gte: args.wind_gust_gte,
        };
        if criteria.is_empty() {
            return Err(ThresholdError::NoThreshold);
        }
        Ok(criteria)
    }

    /// No threshold is set.
    pub fn is_empty(&self) -> (r: bool)
        ensures
            r == criteria_empty(*self),
    {
        self.rain_prob_gte.is_none() && self.precip_mm_gte.is_none() && self.temp_max_gte.is_none()
            && self.temp_min_lte.is_none() && self.wind_gust_gte.is_none()
    }

    /// The reasons `day` matches, in their fixed order.
    pub fn match_reason_kinds(&self, day: &DailySignal) -> (r: Vec<ThresholdReason>)
        ensures
            r@ == spec_reasons(*self, day@),
    {
        let mut reasons: Vec<ThresholdReason> = Vec::new();
        let rain = match (self.rain_prob_gte, day.precip_probability_max_pct) {
            (Some(t), Some(v)) => v >= t,
            _ => false,
        };
        if rain {
            reasons.push(ThresholdReason::RainProbGte);
        }
        if threshold_at_least(self.precip_mm_gte, day.precipitation_mm) {
            reasons.push(ThresholdReason::PrecipMmGte);
        }
        if threshold_at_least(self.temp_max_gte, day.temp_max_c) {
            reasons.push(ThresholdReason::TempMaxGte);
        }
        if threshold_at_most(self.temp_min_lte, day.temp_min_c) {
            reasons.push(ThresholdReason::TempMinLte);
        }
        if threshold_at_least(self.wind_gust_gte, day.wind_gust_max_kmh) {
            reasons.push(ThresholdReason::WindGustGte);
        }
        assert(reasons@ =~= spec_reasons(*self, day@));
        reasons
    }

    /// The names of the reasons `day` matches, in their fixed order.
    pub fn match_reasons(&self, day: &DailySignal) -> (r: Vec<String>)
        ensures
            texts(r@) == reason_names(spec_reasons(*self, day@)),
    {
        let kinds = self.match_reason_kinds(day);
        reason_texts(&kinds)
    }
}

/// The names of `kinds`, in order.
fn reason_texts(kinds: &Vec<ThresholdReason>) -> (r: Vec<String>)
    ensures
        texts(r@) == reason_names(kinds@),
{
    let mut out: Vec<String> = Vec::new();
    let mut i: usize = 0;
    while i < kinds.len()
        invariant
            i <= kinds.len(),
            texts(out@) =~= reason_names(kinds@.take(i as int)),
        decreases kinds.len() - i,
    {
        let name = kinds[i].as_text();
        let ghost before = out@;
        out.push(name);
        assert(texts(out@) =~= texts(before).push(reason_name(kinds@[i as int])));
        assert(kinds@.take(i + 1) =~= kinds@.take(i as int).push(kinds@[i as int]));
        assert(reason_names(kinds@.take(i + 1)) =~= reason_names(kinds@.take(i as int)).push(
            reason_name(kinds@[i as int]),
        ));
        i = i + 1;
    }
    assert(kinds@.take(kinds.len() as int) =~= kinds@);
    out
}

/// A day that met at least one threshold.
pub struct ThresholdMatch {
    pub date: String,
    pub reasons: Vec<String>,
    pub signal: DailySignal,
}

/// The matches of `days`: each day with at least one reason, in order,
/// with its date, its reason names and a copy of its signal.
pub open spec fn spec_matches(c: ThresholdCriteria, days: Seq<DailySignal>) -> Seq<
    (Seq<char>, Seq<Seq<char>>, DailySignalView),
>
    decreases days.len(),
{
    if days.len() == 0 {
        Seq::empty()
    } else {
        let rest = spec_matches(c, days.drop_last());
        let d = days.last()@;
        let reasons = spec_reasons(c, d);
        if reasons.len() > 0 {
            rest.push((d.date, reason_names(reasons), d))
        } else {
            rest
        }
    }
}

pub open spec fn match_view(m: ThresholdMatch) -> (Seq<char>, Seq<Seq<char>>, DailySignalView) {
    (m.date@, texts(m.reasons@), m.signal@)
}

/// The days of `days` that meet at least one threshold of `criteria`.
pub fn threshold_matches(criteria: &ThresholdCriteria, days: &Vec<DailySignal>) -> (r: Vec<
    ThresholdMatch,
>)
    ensures
        r@.map_values(|m: ThresholdMatch| match_view(m)) == spec_matches(*criteria, days@),
{
    let mut out: Vec<ThresholdMatch> = Vec::new();
    let mut i: usize = 0;
    while i < days.len()
        invariant
            i <= days.len(),
            out@.map_values(|m: ThresholdMatch| match_view(m)) =~= spec_matches(
                *criteria,
                days@.take(i as int),
            ),
        decreases days.len() - i,
    {
        let day = &days[i];
        let kinds = criteria.match_reason_kinds(day);
        let ghost prefix = days@.take(i + 1);
        assert(prefix.drop_last() =~= days@.take(i as int));
        assert(prefix.last() == days@[i as int]);
        if kinds.len() > 0 {
            let m = ThresholdMatch {
                date: day.date.clone(),
                reasons: reason_texts(&kinds),
                signal: copy_day(day),
            };
            out.push(m);
        }
        i = i + 1;
    }
    assert(days@.take(days.len() as int) =~= days@);
    out
}

// ---------------------------------------------------------------------------
// Laws
// ---------------------------------------------------------------------------

/// Meeting a higher whole-number bound implies meeting a lower one.
proof fn lemma_at_least_weaker(x: Number, a: int, b: int)
    requires
        0 <= a <= b <= 100_000,
        num_ge(x, whole(b)),
    ensures
        num_ge(x, whole(a)),
{
    if let Number::Finite(d) = x {
        let base = min_int(0, d.exponent as int);
        let p = pow10((0 - base) as nat);
        crate::numeric::lemma_pow10_positive((0 - base) as nat);
        assert(a * p <= b * p) by (nonlinear_arith)
            requires
                a <= b,
                p >= 1,
        ;
    }
}

/// Heavy rain is always a wet day and a hot day is always a warm day,
/// whatever the readings.
pub proof fn law_flag_implications(
    rain_probability: Option<i64>,
    precipitation: Option<Number>,
    temp_max: Option<Number>,
    temp_min: Option<Number>,
    wind_gust: Option<Number>,
    sunshine_seconds: Option<Number>,
    uv: Option<Number>,
)
    ensures
        ({
            let f = spec_demand_flags(
                rain_probability,
                precipitation,
                temp_max,
                temp_min,
                wind_gust,
                sunshine_seconds,
                uv,
            );
            &&& f.heavy_rain ==> f.wet_day
            &&& f.hot_day ==> f.warm_day
        }),
{
    if let Some(x) = precipitation {
        if num_ge(x, whole(5)) {
            lemma_at_least_weaker(x, 1, 5);
        }
    }
    if let Some(x) = temp_max {
        if num_ge(x, whole(25)) {
            lemma_at_least_weaker(x, 20, 25);
        }
    }
}

/// A flag is raised only on a reading: a day whose reading is missing
/// never carries the flags of that reading, whatever its other readings.
pub proof fn law_missing_readings_raise_no_flag(
    rain_probability: Option<i64>,
    precipitation: Option<Number>,
    temp_max: Option<Number>,
    temp_min: Option<Number>,
    wind_gust: Option<Number>,
    sunshine_seconds: Option<Number>,
    uv: Option<Number>,
)
    ensures
        ({
            let f = spec_demand_flags(
                rain_probability,
                precipitation,
                temp_max,
                temp_min,
                wind_gust,
                sunshine_seconds,
                uv,
            );
            &&& rain_probability is None ==> !f.rain_likely
            &&& precipitation is None ==> !f.wet_day && !f.heavy_rain
            &&& temp_max is None ==> !f.warm_day && !f.hot_day
            &&& temp_min is None ==> !f.cold_day
            &&& wind_gust is None ==> !f.windy_day
            &&& sunshine_seconds is None ==> !f.sunny_day
            &&& uv is None ==> !f.high_uv
        }),
{
}

proof fn lemma_count_at_most_len(days: Seq<DailySignal>, p: spec_fn(DemandFlags) -> bool)
    ensures
        count_days(days, p) <= days.len(),
    decreases days.len(),
{
    if days.len() > 0 {
        lemma_count_at_most_len(days.drop_last(), p);
    }
}

proof fn lemma_count_monotone(
    days: Seq<DailySignal>,
    p: spec_fn(DemandFlags) -> bool,
    q: spec_fn(DemandFlags) -> bool,
)
    requires
        forall|i: int| 0 <= i < days.len() ==> p((#[trigger] days[i]).flags) ==> q(days[i].flags),
    ensures
        count_days(days, p) <= count_days(days, q),
    decreases days.len(),
{
    if days.len() > 0 {
        let rest = days.drop_last();
        assert forall|i: int| 0 <= i < rest.len() && p((#[trigger] rest[i]).flags) implies q(
            rest[i].flags,
        ) by {
            assert(rest[i] == days[i]);
        }
        lemma_count_monotone(rest, p, q);
        assert(days.last() == days[days.len() - 1]);
    }
}

/// Over the days of any forecast: no count exceeds the number of days,
/// hot days never outnumber warm days, and every wet or windy day is a
/// risk day.
pub proof fn law_summary_counts(cols: &DailyColumns, days: Seq<DailySignal>)
    requires
        days_of(cols, days),
    ensures
        count_days(days, risk_pred()) <= days.len(),
        count_days(days, warm_pred()) <= days.len(),
        count_days(days, hot_pred()) <= days.len(),
        count_days(days, wet_pred()) <= days.len(),
        count_days(days, windy_pred()) <= days.len(),
        count_days(days, sunny_pred()) <= days.len(),
        count_days(days, hot_pred()) <= count_days(days, warm_pred()),
        count_days(days, wet_pred()) <= count_days(days, risk_pred()),
        count_days(days, windy_pred()) <= count_days(days, risk_pred()),
{
    lemma_count_at_most_len(days, risk_pred());
    lemma_count_at_most_len(days, warm_pred());
    lemma_count_at_most_len(days, hot_pred());
    lemma_count_at_most_len(days, wet_pred());
    lemma_count_at_most_len(days, windy_pred());
    lemma_count_at_most_len(days, sunny_pred());
    assert forall|i: int| 0 <= i < days.len() && hot_pred()((#[trigger] days[i]).flags) implies warm_pred()(
        days[i].flags,
    ) by {
        let d = spec_day(cols, i);
        assert(days[i]@ == d);
        law_flag_implications(
            col_at(cols.precipitation_probability_max@, i),
            col_at(cols.precipitation_sum@, i),
            col_at(cols.temperature_2m_max@, i),
            col_at(cols.temperature_2m_min@, i),
            col_at(cols.wind_gusts_10m_max@, i),
            col_at(cols.sunshine_duration@, i),
            col_at(cols.uv_index_max@, i),
        );
    }
    lemma_count_monotone(days, hot_pred(), warm_pred());
    lemma_count_monotone(days, wet_pred(), risk_pred());
    lemma_count_monotone(days, windy_pred(), risk_pred());
}

/// Criteria without any threshold give no reason on any day.
pub proof fn law_empty_criteria_match_nothing(c: ThresholdCriteria, day: DailySignalView)
    requires
        criteria_empty(c),
    ensures
        spec_reasons(c, day).len() == 0,
{
}

/// A day has a reason exactly when one of the set thresholds is met, and a
/// reason appears at most once.
pub proof fn law_reasons_are_met_thresholds(c: ThresholdCriteria, day: DailySignalView)
    ensures
        spec_reasons(c, day).len() > 0 <==> (meets_count(c.rain_prob_gte, day.precip_probability_max_pct)
            || meets_at_least(c.precip_mm_gte, day.precipitation_mm) || meets_at_least(
            c.temp_max_gte,
            day.temp_max_c,
        ) || meets_at_most(c.temp_min_lte, day.temp_min_c) || meets_at_least(
            c.wind_gust_gte,
            day.wind_gust_max_kmh,
        )),
        spec_reasons(c, day).len() <= 5,
        spec_reasons(c, day).no_duplicates(),
{
    let r = spec_reasons(c, day);
    assert forall|i: int, j: int| 0 <= i < r.len() && 0 <= j < r.len() && i != j implies r[i]
        != r[j] by {
        // Each reason is pushed after all reasons that precede it in the fixed order.
        let s0: Seq<ThresholdReason> = Seq::empty();
        let s1 = if meets_count(c.rain_prob_gte, day.precip_probability_max_pct) {
            s0.push(ThresholdReason::RainProbGte)
        } else {
            s0
        };
        let s2 = if meets_at_least(c.precip_mm_gte, day.precipitation_mm) {
            s1.push(ThresholdReason::PrecipMmGte)
        } else {
            s1
        };
        let s3 = if meets_at_least(c.temp_max_gte, day.temp_max_c) {
            s2.push(ThresholdReason::TempMaxGte)
        } else {
            s2
        };
        let s4 = if meets_at_most(c.temp_min_lte, day.temp_min_c) {
            s3.push(ThresholdReason::TempMinLte)
        } else {
            s3
        };
        assert(forall|k: int| 0 <= k < s1.len() ==> s1[k] == ThresholdReason::RainProbGte);
        assert(forall|k: int|
            0 <= k < s2.len() ==> s2[k] == ThresholdReason::RainProbGte || s2[k]
                == ThresholdReason::PrecipMmGte);
        assert(s1.no_duplicates());
        assert(s2.no_duplicates());
        assert(s3.no_duplicates());
        assert(s4.no_duplicates());
    }
}

/// `c2` loosens `c1`: every threshold `c1` sets, `c2` sets too, at the
/// same or an easier value (no higher for the `*_gte` thresholds, no lower
/// for `temp_min_lte`); `c2` may set more.
pub open spec fn loosens(c1: ThresholdCriteria, c2: ThresholdCriteria) -> bool {
    &&& (c1.rain_prob_gte matches Some(t1) ==> (c2.rain_prob_gte matches Some(t2) && t2 <= t1))
    &&& (c1.precip_mm_gte matches Some(t1) ==> (c2.precip_mm_gte matches Some(t2) && num_ge(t1, t2)))
    &&& (c1.temp_max_gte matches Some(t1) ==> (c2.temp_max_gte matches Some(t2) && num_ge(t1, t2)))
    &&& (c1.temp_min_lte matches Some(t1) ==> (c2.temp_min_lte matches Some(t2) && num_ge(t2, t1)))
    &&& (c1.wind_gust_gte matches Some(t1) ==> (c2.wind_gust_gte matches Some(t2) && num_ge(t1, t2)))
}

proof fn lemma_loosened_at_least(t1: Option<Number>, t2: Option<Number>, v: Option<Number>)
    requires
        t1 matches Some(a) ==> (t2 matches Some(b) && num_ge(a, b)),
        meets_at_least(t1, v),
    ensures
        meets_at_least(t2, v),
{
    lemma_num_ge_transitive(v->0, t1->0, t2->0);
}

/// `a` is `b` with some entries left out, the rest in the same order.
pub open spec fn ordered_sublist(a: Seq<ThresholdReason>, b: Seq<ThresholdReason>) -> bool
    decreases b.len(),
{
    if a.len() == 0 {
        true
    } else if b.len() == 0 {
        false
    } else {
        (a.last() == b.last() && ordered_sublist(a.drop_last(), b.drop_last())) || ordered_sublist(
            a,
            b.drop_last(),
        )
    }
}

proof fn lemma_sublist_step(a: Seq<ThresholdReason>, b: Seq<ThresholdReason>, x: ThresholdReason, both: bool)
    requires
        ordered_sublist(a, b),
    ensures
        ordered_sublist(if both { a.push(x) } else { a }, b.push(x)),
{
    assert(b.push(x).drop_last() =~= b);
    if both {
        assert(a.push(x).drop_last() =~= a);
    }
}

/// Loosening thresholds only adds reasons: the reasons a day has under
/// `c1` are an ordered sublist of its reasons under a loosened `c2`, so
/// every one of them is kept and none comes out of order.
pub proof fn law_loosening_only_adds_reasons(c1: ThresholdCriteria, c2: ThresholdCriteria, day: DailySignalView)
    requires
        loosens(c1, c2),
    ensures
        ordered_sublist(spec_reasons(c1, day), spec_reasons(c2, day)),
        forall|k: ThresholdReason| spec_reasons(c1, day).contains(k) ==> spec_reasons(c2, day).contains(k),
        spec_reasons(c1, day).len() <= spec_reasons(c2, day).len(),
{
    if meets_at_least(c1.precip_mm_gte, day.precipitation_mm) {
        lemma_loosened_at_least(c1.precip_mm_gte, c2.precip_mm_gte, day.precipitation_mm);
    }
    if meets_at_least(c1.temp_max_gte, day.temp_max_c) {
        lemma_loosened_at_least(c1.temp_max_gte, c2.temp_max_gte, day.temp_max_c);
    }
    if meets_at_least(c1.wind_gust_gte, day.wind_gust_max_kmh) {
        lemma_loosened_at_least(c1.wind_gust_gte, c2.wind_gust_gte, day.wind_gust_max_kmh);
    }
    if meets_at_most(c1.temp_min_lte, day.temp_min_c) {
        lemma_num_ge_transitive(c2.temp_min_lte->0, c1.temp_min_lte->0, day.temp_min_c->0);
    }
    lemma_reason_membership(c1, day);
    lemma_reason_membership(c2, day);
    let r1 = spec_reasons(c1, day);
    let r2 = spec_reasons(c2, day);
    assert forall|k: ThresholdReason| r1.contains(k) implies r2.contains(k) by {
        assert(reason_met(c1, day, k));
        match k {
            ThresholdReason::RainProbGte => {
                assert(meets_count(c2.rain_prob_gte, day.precip_probability_max_pct));
            },
            _ => {},
        }
        assert(reason_met(c2, day, k));
    }
    // The two lists are built by the same five steps; where `c1` adds a
    // reason, `c2` adds it too.
    let b1 = meets_count(c1.rain_prob_gte, day.precip_probability_max_pct);
    let b2 = meets_at_least(c1.precip_mm_gte, day.precipitation_mm);
    let b3 = meets_at_least(c1.temp_max_gte, day.temp_max_c);
    let b4 = meets_at_most(c1.temp_min_lte, day.temp_min_c);
    let b5 = meets_at_least(c1.wind_gust_gte, day.wind_gust_max_kmh);
    let d1 = meets_count(c2.rain_prob_gte, day.precip_probability_max_pct);
    let d2 = meets_at_least(c2.precip_mm_gte, day.precipitation_mm);
    let d3 = meets_at_least(c2.temp_max_gte, day.temp_max_c);
    let d4 = meets_at_most(c2.temp_min_lte, day.temp_min_c);
    let d5 = meets_at_least(c2.wind_gust_gte, day.wind_gust_max_kmh);
    assert(b1 ==> d1);
    let e: Seq<ThresholdReason> = Seq::empty();
    let s1 = if b1 { e.push(ThresholdReason::RainProbGte) } else { e };
    let t1 = if d1 { e.push(ThresholdReason::RainProbGte) } else { e };
    let s2 = if b2 { s1.push(ThresholdReason::PrecipMmGte) } else { s1 };
    let t2 = if d2 { t1.push(ThresholdReason::PrecipMmGte) } else { t1 };
    let s3 = if b3 { s2.push(ThresholdReason::TempMaxGte) } else { s2 };
    let t3 = if d3 { t2.push(ThresholdReason::TempMaxGte) } else { t2 };
    let s4 = if b4 { s3.push(ThresholdReason::TempMinLte) } else { s3 };
    let t4 = if d4 { t3.push(ThresholdReason::TempMinLte) } else { t3 };
    let s5 = if b5 { s4.push(ThresholdReason::WindGustGte) } else { s4 };
    let t5 = if d5 { t4.push(ThresholdReason::WindGustGte) } else { t4 };
    assert(ordered_sublist(e, e));
    if d1 {
        lemma_sublist_step(e, e, ThresholdReason::RainProbGte, b1);
    }
    assert(ordered_sublist(s1, t1));
    if d2 {
        lemma_sublist_step(s1, t1, ThresholdReason::PrecipMmGte, b2);
    }
    assert(ordered_sublist(s2, t2));
    if d3 {
        lemma_sublist_step(s2, t2, ThresholdReason::TempMaxGte, b3);
    }
    assert(ordered_sublist(s3, t3));
    if d4 {
        lemma_sublist_step(s3, t3, ThresholdReason::TempMinLte, b4);
    }
    assert(ordered_sublist(s4, t4));
    if d5 {
        lemma_sublist_step(s4, t4, ThresholdReason::WindGustGte, b5);
    }
    assert(s5 == spec_reasons(c1, day));
    assert(t5 == spec_reasons(c2, day));
}

/// The threshold behind reason `k` is set and met by `day`.
pub open spec fn reason_met(c: ThresholdCriteria, day: DailySignalView, k: ThresholdReason) -> bool {
    match k {
        ThresholdReason::RainProbGte => meets_count(c.rain_prob_gte, day.precip_probability_max_pct),
        ThresholdReason::PrecipMmGte => meets_at_least(c.precip_mm_gte, day.precipitation_mm),
        ThresholdReason::TempMaxGte => meets_at_least(c.temp_max_gte, day.temp_max_c),
        ThresholdReason::TempMinLte => meets_at_most(c.temp_min_lte, day.temp_min_c),
        ThresholdReason::WindGustGte => meets_at_least(c.wind_gust_gte, day.wind_gust_max_kmh),
    }
}

proof fn lemma_push_contains(s: Seq<ThresholdReason>, x: ThresholdReason, k: ThresholdReason)
    ensures
        s.push(x).contains(k) <==> (s.contains(k) || x == k),
{
    if s.push(x).contains(k) {
        let i = choose|i: int| 0 <= i < s.push(x).len() && s.push(x)[i] == k;
        if i < s.len() {
            assert(s[i] == k);
        }
    }
    if s.contains(k) {
        let i = choose|i: int| 0 <= i < s.len() && s[i] == k;
        assert(s.push(x)[i] == k);
    }
    if x == k {
        assert(s.push(x)[s.len() as int] == k);
    }
}

proof fn lemma_reason_membership(c: ThresholdCriteria, day: DailySignalView)
    ensures
        forall|k: ThresholdReason| spec_reasons(c, day).contains(k) <==> reason_met(c, day, k),
{
    let s0: Seq<ThresholdReason> = Seq::empty();
    let s1 = if meets_count(c.rain_prob_gte, day.precip_probability_max_pct) {
        s0.push(ThresholdReason::RainProbGte)
    } else {
        s0
    };
    let s2 = if meets_at_least(c.precip_mm_gte, day.precipitation_mm) {
        s1.push(ThresholdReason::PrecipMmGte)
    } else {
        s1
    };
    let s3 = if meets_at_least(c.temp_max_gte, day.temp_max_c) {
        s2.push(ThresholdReason::TempMaxGte)
    } else {
        s2
    };
    let s4 = if meets_at_most(c.temp_min_lte, day.temp_min_c) {
        s3.push(ThresholdReason::TempMinLte)
    } else {
        s3
    };
    assert forall|k: ThresholdReason| spec_reasons(c, day).contains(k) <==> reason_met(c, day, k) by {
        assert(!s0.contains(k));
        lemma_push_contains(s0, ThresholdReason::RainProbGte, k);
        lemma_push_contains(s1, ThresholdReason::PrecipMmGte, k);
        lemma_push_contains(s2, ThresholdReason::TempMaxGte, k);
        lemma_push_contains(s3, ThresholdReason::TempMinLte, k);
        lemma_push_contains(s4, ThresholdReason::WindGustGte, k);
    }
}

proof fn lemma_matches_len(c: ThresholdCriteria, days: Seq<DailySignal>)
    ensures
        spec_matches(c, days).len() <= days.len(),
        forall|k: int|
            0 <= k < spec_matches(c, days).len() ==> (#[trigger] spec_matches(c, days)[k]).1.len()
                > 0,
    decreases days.len(),
{
    if days.len() > 0 {
        lemma_matches_len(c, days.drop_last());
    }
}

/// A threshold query never returns more matches than days, and every
/// match carries at least one reason.
pub proof fn law_matches_have_reasons(c: ThresholdCriteria, days: Seq<DailySignal>)
    ensures
        spec_matches(c, days).len() <= days.len(),
        forall|k: int|
            0 <= k < spec_matches(c, days).len() ==> (#[trigger] spec_matches(c, days)[k]).1.len()
                > 0,
{
    lemma_matches_len(c, days);
}

/// Each day's signal carries that day's readings, every one from its own
/// column (missing past the column's end), and its flags follow the demand
/// rules applied to those readings.
pub proof fn law_daily_signal_readings(cols: &DailyColumns, days: Seq<DailySignal>, i: int)
    requires
        days_of(cols, days),
        0 <= i < days.len(),
    ensures
        ({
            let d = days[i];
            let prob = col_at(cols.precipitation_probability_max@, i);
            let precip = col_at(cols.precipitation_sum@, i);
            let tmax = col_at(cols.temperature_2m_max@, i);
            let tmin = col_at(cols.temperature_2m_min@, i);
            let gust = col_at(cols.wind_gusts_10m_max@, i);
            let sun = col_at(cols.sunshine_duration@, i);
            let uv = col_at(cols.uv_index_max@, i);
            &&& d.date@ == cols.time@[i]@
            &&& d.temp_max_c == tmax
            &&& d.temp_min_c == tmin
            &&& d.apparent_temp_max_c == col_at(cols.apparent_temperature_max@, i)
            &&& d.apparent_temp_min_c == col_at(cols.apparent_temperature_min@, i)
            &&& d.precipitation_mm == precip
            &&& d.precip_probability_max_pct == prob
            &&& d.precipitation_hours == col_at(cols.precipitation_hours@, i)
            &&& d.wind_speed_max_kmh == col_at(cols.wind_speed_10m_max@, i)
            &&& d.wind_gust_max_kmh == gust
            &&& d.sunshine_seconds == sun
            &&& d.uv_index_max == uv
            &&& d.weather_code == col_at(cols.weather_code@, i)
            &&& d.flags.rain_likely == (prob matches Some(p) && p >= 50)
            &&& d.flags.wet_day == (precip matches Some(x) && num_ge(x, whole(1)))
            &&& d.flags.heavy_rain == (precip matches Some(x) && num_ge(x, whole(5)))
            &&& d.flags.warm_day == (tmax matches Some(x) && num_ge(x, whole(20)))
            &&& d.flags.hot_day == (tmax matches Some(x) && num_ge(x, whole(25)))
            &&& d.flags.cold_day == (tmin matches Some(x) && num_le(x, whole(5)))
            &&& d.flags.windy_day == (gust matches Some(x) && num_ge(x, whole(40)))
            &&& d.flags.sunny_day == (sun matches Some(x) && num_ge(x, whole(21600)))
            &&& d.flags.high_uv == (uv matches Some(x) && num_ge(x, whole(6)))
        }),
{
    assert(days[i]@ == spec_day(cols, i));
}

proof fn lemma_count_same(days: Seq<DailySignal>, p: spec_fn(DemandFlags) -> bool, q: spec_fn(DemandFlags) -> bool)
    requires
        forall|f: DemandFlags| #[trigger] p(f) == q(f),
    ensures
        count_days(days, p) == count_days(days, q),
    decreases days.len(),
{
    if days.len() > 0 {
        lemma_count_same(days.drop_last(), p, q);
        assert(p(days.last().flags) == q(days.last().flags));
    }
}

/// A risk day is a day with rain likely, a wet day, heavy rain, a windy day
/// or high UV: the summary's risk count is the number of such days, so no
/// count of one of those flags exceeds it.
pub proof fn law_risk_days_are_flagged_days(days: Seq<DailySignal>)
    ensures
        count_days(days, risk_pred()) == count_days(
            days,
            |f: DemandFlags| f.rain_likely || f.wet_day || f.heavy_rain || f.windy_day || f.high_uv,
        ),
        count_days(days, |f: DemandFlags| f.high_uv) <= count_days(days, risk_pred()),
        count_days(days, |f: DemandFlags| f.rain_likely) <= count_days(days, risk_pred()),
        count_days(days, |f: DemandFlags| f.heavy_rain) <= count_days(days, risk_pred()),
        count_days(days, |f: DemandFlags| f.wet_day) <= count_days(days, risk_pred()),
        count_days(days, |f: DemandFlags| f.windy_day) <= count_days(days, risk_pred()),
{
    let any = |f: DemandFlags| f.rain_likely || f.wet_day || f.heavy_rain || f.windy_day || f.high_uv;
    assert forall|f: DemandFlags| #[trigger] risk_pred()(f) == any(f) by {}
    lemma_count_same(days, risk_pred(), any);
    lemma_count_monotone(days, |f: DemandFlags| f.high_uv, risk_pred());
    lemma_count_monotone(days, |f: DemandFlags| f.rain_likely, risk_pred());
    lemma_count_monotone(days, |f: DemandFlags| f.heavy_rain, risk_pred());
    lemma_count_monotone(days, |f: DemandFlags| f.wet_day, risk_pred());
    lemma_count_monotone(days, |f: DemandFlags| f.windy_day, risk_pred());
}

/// The days of `days` that meet at least one threshold of `c`, counted.
pub open spec fn days_meeting(c: ThresholdCriteria, days: Seq<DailySignal>) -> nat
    decreases days.len(),
{
    if days.len() == 0 {
        0
    } else {
        days_meeting(c, days.drop_last()) + if spec_reasons(c, days.last()@).len() > 0 {
            1nat
        } else {
            0nat
        }
    }
}

/// The match a day makes: its date, its reason names and its signal.
pub open spec fn match_of(c: ThresholdCriteria, d: DailySignalView) -> (Seq<char>, Seq<Seq<char>>, DailySignalView) {
    (d.date, reason_names(spec_reasons(c, d)), d)
}

proof fn lemma_matches_complete(c: ThresholdCriteria, days: Seq<DailySignal>, i: int)
    requires
        0 <= i < days.len(),
        spec_reasons(c, days[i]@).len() > 0,
    ensures
        exists|k: int| 0 <= k < spec_matches(c, days).len() && #[trigger] spec_matches(c, days)[k] == match_of(c, days[i]@),
    decreases days.len(),
{
    let rest = spec_matches(c, days.drop_last());
    if i == days.len() - 1 {
        assert(spec_matches(c, days)[rest.len() as int] == match_of(c, days[i]@));
    } else {
        assert(days.drop_last()[i] == days[i]);
        lemma_matches_complete(c, days.drop_last(), i);
        let k = choose|k: int| 0 <= k < rest.len() && #[trigger] rest[k] == match_of(c, days[i]@);
        assert(spec_matches(c, days)[k] == rest[k]);
    }
}

proof fn lemma_matches_sound(c: ThresholdCriteria, days: Seq<DailySignal>, k: int)
    requires
        0 <= k < spec_matches(c, days).len(),
    ensures
        exists|i: int| 0 <= i < days.len() && spec_reasons(c, (#[trigger] days[i])@).len() > 0 && spec_matches(c, days)[k] == match_of(c, days[i]@),
    decreases days.len(),
{
    let rest = spec_matches(c, days.drop_last());
    if k == rest.len() {
        let i = days.len() - 1;
        assert(days[i] == days.last());
    } else {
        lemma_matches_sound(c, days.drop_last(), k);
        let i = choose|i: int| 0 <= i < days.drop_last().len() && spec_reasons(c, (#[trigger] days.drop_last()[i])@).len() > 0 && rest[k] == match_of(c, days.drop_last()[i]@);
        assert(days[i] == days.drop_last()[i]);
    }
}

proof fn lemma_matches_count(c: ThresholdCriteria, days: Seq<DailySignal>)
    ensures
        spec_matches(c, days).len() == days_meeting(c, days),
    decreases days.len(),
{
    if days.len() > 0 {
        lemma_matches_count(c, days.drop_last());
    }
}

/// The matches are exactly the days that meet a threshold: every such day,
/// the first one included, appears with its date, reasons and signal;
/// every match is such a day; and there are as many matches as such days.
pub proof fn law_matches_are_the_days_meeting_a_threshold(c: ThresholdCriteria, days: Seq<DailySignal>)
    ensures
        forall|i: int|
            0 <= i < days.len() && spec_reasons(c, (#[trigger] days[i])@).len() > 0 ==> exists|k: int|
                0 <= k < spec_matches(c, days).len() && #[trigger] spec_matches(c, days)[k]
                    == match_of(c, days[i]@),
        forall|k: int|
            0 <= k < spec_matches(c, days).len() ==> exists|i: int|
                0 <= i < days.len() && spec_reasons(c, (#[trigger] days[i])@).len() > 0
                    && #[trigger] spec_matches(c, days)[k] == match_of(c, days[i]@),
        spec_matches(c, days).len() == days_meeting(c, days),
{
    assert forall|i: int| 0 <= i < days.len() && spec_reasons(c, (#[trigger] days[i])@).len() > 0 implies exists|k: int|
        0 <= k < spec_matches(c, days).len() && #[trigger] spec_matches(c, days)[k] == match_of(c, days[i]@) by {
        lemma_matches_complete(c, days, i);
    }
    assert forall|k: int| 0 <= k < spec_matches(c, days).len() implies exists|i: int|
        0 <= i < days.len() && spec_reasons(c, (#[trigger] days[i])@).len() > 0
            && #[trigger] spec_matches(c, days)[k] == match_of(c, days[i]@) by {
        lemma_matches_sound(c, days, k);
    }
    lemma_matches_count(c, days);
}

/// Each summary count counts the days carrying its flag: warm, hot, wet,
/// windy and sunny days are the days whose signal has that flag set.
pub proof fn law_summary_counts_count_their_flag(days: Seq<DailySignal>)
    ensures
        count_days(days, warm_pred()) == count_days(days, |f: DemandFlags| f.warm_day),
        count_days(days, hot_pred()) == count_days(days, |f: DemandFlags| f.hot_day),
        count_days(days, wet_pred()) == count_days(days, |f: DemandFlags| f.wet_day),
        count_days(days, windy_pred()) == count_days(days, |f: DemandFlags| f.windy_day),
        count_days(days, sunny_pred()) == count_days(days, |f: DemandFlags| f.sunny_day),
        days.len() > 0 ==> count_days(days, warm_pred()) == count_days(days.drop_last(), warm_pred())
            + (if days.last().flags.warm_day { 1int } else { 0int }),
{
    lemma_count_same(days, warm_pred(), |f: DemandFlags| f.warm_day);
    lemma_count_same(days, hot_pred(), |f: DemandFlags| f.hot_day);
    lemma_count_same(days, wet_pred(), |f: DemandFlags| f.wet_day);
    lemma_count_same(days, windy_pred(), |f: DemandFlags| f.windy_day);
    lemma_count_same(days, sunny_pred(), |f: DemandFlags| f.sunny_day);
}

} // verus!
