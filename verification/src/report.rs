//! The rows of table and CSV output: which header each command shows,
//! which fields each record holds and in what order, one record per
//! location, day, match or item. Numbers that are doubles arrive already
//! written as text; whole numbers are written here.

use vstd::prelude::*;
use crate::numeric::{int_text, nat_text, push_int, push_nat};
use crate::signals::{join_bar, texts};

verus! {

/// The two row-shaped outputs: a table for people, CSV for tools.
#[derive(Clone, Copy, Debug, PartialEq, Eq, Structural)]
pub enum Sheet {
    Table,
    Csv,
}

/// A header and its records.
pub struct Layout {
    pub header: Vec<String>,
    pub rows: Vec<Vec<String>>,
}

pub open spec fn records_view(rows: Seq<Vec<String>>) -> Seq<Seq<Seq<char>>> {
    rows.map_values(|r: Vec<String>| texts(r@))
}

pub open spec fn layout_view(l: Layout) -> (Seq<Seq<char>>, Seq<Seq<Seq<char>>>) {
    (texts(l.header@), records_view(l.rows@))
}

/// The text of an optional field: empty when it is missing.
pub open spec fn or_empty(o: Option<String>) -> Seq<char> {
    match o {
        Some(s) => s@,
        None => Seq::empty(),
    }
}

/// An optional whole number in decimal: empty when it is missing.
pub open spec fn int_or_empty(o: Option<i64>) -> Seq<char> {
    match o {
        Some(i) => int_text(i as int),
        None => Seq::empty(),
    }
}

fn push_text(v: &mut Vec<String>, s: &str)
    ensures
        texts(final(v)@) == texts(old(v)@).push(s@),
{
    let ghost before = v@;
    v.push(String::from_str(s));
    assert(texts(v@) =~= texts(before).push(s@));
}

fn push_copy(v: &mut Vec<String>, s: &String)
    ensures
        texts(final(v)@) == texts(old(v)@).push(s@),
{
    let ghost before = v@;
    v.push(s.clone());
    assert(texts(v@) =~= texts(before).push(s@));
}

fn push_owned(v: &mut Vec<String>, s: String)
    ensures
        texts(final(v)@) == texts(old(v)@).push(s@),
{
    let ghost before = v@;
    let ghost t = s@;
    v.push(s);
    assert(texts(v@) =~= texts(before).push(t));
}

fn push_row(rows: &mut Vec<Vec<String>>, row: Vec<String>)
    ensures
        records_view(final(rows)@) == records_view(old(rows)@).push(texts(row@)),
{
    let ghost before = rows@;
    let ghost t = texts(row@);
    rows.push(row);
    assert(records_view(rows@) =~= records_view(before).push(t));
}

fn text_or_empty(o: &Option<String>) -> (r: String)
    ensures
        r@ == or_empty(*o),
{
    match o {
        Some(s) => s.clone(),
        None => String::new(),
    }
}

fn int_text_or_empty(o: Option<i64>) -> (r: String)
    ensures
        r@ == int_or_empty(o),
{
    let mut out = String::new();
    match o {
        Some(i) => {
            push_int(&mut out, i);
            assert(out@ =~= int_text(i as int));
        },
        None => {},
    }
    out
}

fn nat_string(n: u64) -> (r: String)
    ensures
        r@ == nat_text(n as nat),
{
    let mut out = String::new();
    push_nat(&mut out, n);
    assert(out@ =~= nat_text(n as nat));
    out
}

fn empty_texts() -> (r: Vec<String>)
    ensures
        texts(r@) == Seq::<Seq<char>>::empty(),
{
    let r: Vec<String> = Vec::new();
    assert(texts(r@) =~= Seq::<Seq<char>>::empty());
    r
}

fn empty_rows() -> (r: Vec<Vec<String>>)
    ensures
        records_view(r@) == Seq::<Seq<Seq<char>>>::empty(),
{
    let r: Vec<Vec<String>> = Vec::new();
    assert(records_view(r@) =~= Seq::<Seq<Seq<char>>>::empty());
    r
}

// ---------------------------------------------------------------------------
// What each output shows
// ---------------------------------------------------------------------------

/// A location as its fields are shown; coordinates arrive as text.
pub struct LocationCells {
    pub name: String,
    pub country_code: Option<String>,
    pub admin1: Option<String>,
    pub latitude: String,
    pub longitude: String,
    pub timezone: Option<String>,
}

/// One day of signals; its double readings arrive as text, `None` when
/// missing.
pub struct DayCells {
    pub date: String,
    pub temp_max_c: Option<String>,
    pub temp_min_c: Option<String>,
    pub precip_probability_max_pct: Option<i64>,
    pub precipitation_mm: Option<String>,
    pub wind_gust_max_kmh: Option<String>,
    pub sunshine_hours: Option<String>,
    pub flags: String,
}

/// How one batch location ended: its resolved place and days, or the
/// error that stopped it.
pub enum BatchOutcomeCells {
    Signal { location: String, country_code: Option<String>, days: Vec<DayCells> },
    Failed { error: Option<String> },
}

/// One batch location with its requested country hint.
pub struct BatchItemCells {
    pub input: String,
    pub requested_country: Option<String>,
    pub outcome: BatchOutcomeCells,
}

/// One threshold match: its date, its reasons and the day's readings.
pub struct ThresholdMatchCells {
    pub date: String,
    pub reasons: Vec<String>,
    pub day: DayCells,
}

/// The counts of a summary with its headline.
pub struct SummaryCells {
    pub headline: String,
    pub total_days: u64,
    pub risk_days: u64,
    pub warm_days: u64,
    pub hot_days: u64,
    pub wet_days: u64,
    pub windy_days: u64,
    pub sunny_days: u64,
}

/// Where the cache lives and what it holds.
pub struct CacheStatusCells {
    pub path: String,
    pub files: u64,
    pub bytes: u64,
}

/// The row-shaped content of each command.
pub enum TableCells {
    Geocode(Vec<LocationCells>),
    Places(Vec<(String, LocationCells)>),
    Current(Vec<(String, String)>),
    Series { keys: Vec<String>, times: Vec<String>, cells: Vec<Vec<String>> },
    Signal(Vec<DayCells>),
    BatchSignal(Vec<BatchItemCells>),
    Threshold(Vec<ThresholdMatchCells>),
    Summary(SummaryCells),
    CacheStatus(CacheStatusCells),
    Message(String),
}

// ---------------------------------------------------------------------------
// Headers and records
// ---------------------------------------------------------------------------

pub open spec fn geocode_header(sheet: Sheet) -> Seq<Seq<char>> {
    match sheet {
        Sheet::Table => seq!["Name"@, "Country"@, "Admin"@, "Lat"@, "Lon"@, "Timezone"@],
        Sheet::Csv => seq![
            "name"@,
            "country_code"@,
            "admin1"@,
            "latitude"@,
            "longitude"@,
            "timezone"@,
        ],
    }
}

pub open spec fn places_header(sheet: Sheet) -> Seq<Seq<char>> {
    match sheet {
        Sheet::Table => seq!["Alias"@, "Name"@, "Country"@, "Lat"@, "Lon"@, "Timezone"@],
        Sheet::Csv => seq![
            "alias"@,
            "name"@,
            "country_code"@,
            "latitude"@,
            "longitude"@,
            "timezone"@,
        ],
    }
}

/// The two-column header of field/value outputs.
pub open spec fn field_header(sheet: Sheet) -> Seq<Seq<char>> {
    match sheet {
        Sheet::Table => seq!["Field"@, "Value"@],
        Sheet::Csv => seq!["field"@, "value"@],
    }
}

pub open spec fn signal_header(sheet: Sheet) -> Seq<Seq<char>> {
    match sheet {
        Sheet::Table => seq![
            "Date"@,
            "Max C"@,
            "Min C"@,
            "Rain %"@,
            "Rain mm"@,
            "Wind Gust"@,
            "Sun h"@,
            "Flags"@,
        ],
        Sheet::Csv => seq![
            "date"@,
            "temp_max_c"@,
            "temp_min_c"@,
            "precip_probability_max_pct"@,
            "precipitation_mm"@,
            "wind_gust_max_kmh"@,
            "sunshine_hours"@,
            "flags"@,
        ],
    }
}

pub open spec fn batch_header(sheet: Sheet) -> Seq<Seq<char>> {
    match sheet {
        Sheet::Table => seq![
            "Input"@,
            "Location"@,
            "Country Code"@,
            "Requested Country"@,
            "Date"@,
            "Max C"@,
            "Min C"@,
            "Rain %"@,
            "Rain mm"@,
            "Flags"@,
            "Error"@,
        ],
        Sheet::Csv => seq![
            "input"@,
            "location"@,
            "country_code"@,
            "requested_country"@,
            "date"@,
            "temp_max_c"@,
            "temp_min_c"@,
            "precip_probability_max_pct"@,
            "precipitation_mm"@,
            "wind_gust_max_kmh"@,
            "sunshine_hours"@,
            "flags"@,
            "error"@,
        ],
    }
}

pub open spec fn threshold_header(sheet: Sheet) -> Seq<Seq<char>> {
    match sheet {
        Sheet::Table => seq![
            "Date"@,
            "Reasons"@,
            "Max C"@,
            "Min C"@,
            "Rain %"@,
            "Rain mm"@,
            "Wind Gust"@,
            "Flags"@,
        ],
        Sheet::Csv => seq![
            "date"@,
            "reasons"@,
            "temp_max_c"@,
            "temp_min_c"@,
            "precip_probability_max_pct"@,
            "precipitation_mm"@,
            "wind_gust_max_kmh"@,
            "flags"@,
        ],
    }
}

pub open spec fn message_header(sheet: Sheet) -> Seq<Seq<char>> {
    match sheet {
        Sheet::Table => seq!["Status"@],
        Sheet::Csv => seq!["status"@],
    }
}

pub open spec fn location_row(l: LocationCells) -> Seq<Seq<char>> {
    seq![
        l.name@,
        or_empty(l.country_code),
        or_empty(l.admin1),
        l.latitude@,
        l.longitude@,
        or_empty(l.timezone),
    ]
}

pub open spec fn place_row(alias: String, l: LocationCells) -> Seq<Seq<char>> {
    seq![
        alias@,
        l.name@,
        or_empty(l.country_code),
        l.latitude@,
        l.longitude@,
        or_empty(l.timezone),
    ]
}

pub open spec fn signal_row(d: DayCells) -> Seq<Seq<char>> {
    seq![
        d.date@,
        or_empty(d.temp_max_c),
        or_empty(d.temp_min_c),
        int_or_empty(d.precip_probability_max_pct),
        or_empty(d.precipitation_mm),
        or_empty(d.wind_gust_max_kmh),
        or_empty(d.sunshine_hours),
        d.flags@,
    ]
}

pub open spec fn threshold_row(m: ThresholdMatchCells) -> Seq<Seq<char>> {
    seq![
        m.date@,
        join_bar(texts(m.reasons@)),
        or_empty(m.day.temp_max_c),
        or_empty(m.day.temp_min_c),
        int_or_empty(m.day.precip_probability_max_pct),
        or_empty(m.day.precipitation_mm),
        or_empty(m.day.wind_gust_max_kmh),
        m.day.flags@,
    ]
}

/// A day of a resolved batch location.
pub open spec fn batch_day_row(
    input: String,
    requested: Option<String>,
    location: String,
    country_code: Option<String>,
    d: DayCells,
    sheet: Sheet,
) -> Seq<Seq<char>> {
    match sheet {
        Sheet::Table => seq![
            input@,
            location@,
            or_empty(country_code),
            or_empty(requested),
            d.date@,
            or_empty(d.temp_max_c),
            or_empty(d.temp_min_c),
            int_or_empty(d.precip_probability_max_pct),
            or_empty(d.precipitation_mm),
            d.flags@,
            Seq::empty(),
        ],
        Sheet::Csv => seq![
            input@,
            location@,
            or_empty(country_code),
            or_empty(requested),
            d.date@,
            or_empty(d.temp_max_c),
            or_empty(d.temp_min_c),
            int_or_empty(d.precip_probability_max_pct),
            or_empty(d.precipitation_mm),
            or_empty(d.wind_gust_max_kmh),
            or_empty(d.sunshine_hours),
            d.flags@,
            Seq::empty(),
        ],
    }
}

/// The record of a batch location that failed: its input, its requested
/// country and the error, the other fields empty.
pub open spec fn batch_failed_row(input: String, requested: Option<String>, error: Option<String>, sheet: Sheet) -> Seq<Seq<char>> {
    let e = Seq::<char>::empty();
    match sheet {
        Sheet::Table => seq![input@, e, e, or_empty(requested), e, e, e, e, e, e, or_empty(error)],
        Sheet::Csv => seq![
            input@,
            e,
            e,
            or_empty(requested),
            e,
            e,
            e,
            e,
            e,
            e,
            e,
            e,
            or_empty(error),
        ],
    }
}

/// The records of one batch location: one per day of its signal, or one
/// for its error.
pub open spec fn batch_item_rows(item: BatchItemCells, sheet: Sheet) -> Seq<Seq<Seq<char>>> {
    match item.outcome {
        BatchOutcomeCells::Signal { location, country_code, days } => days@.map_values(
            |d: DayCells| batch_day_row(item.input, item.requested_country, location, country_code, d, sheet),
        ),
        BatchOutcomeCells::Failed { error } => seq![
            batch_failed_row(item.input, item.requested_country, error, sheet),
        ],
    }
}

/// The records of a batch, location by location in the given order.
pub open spec fn batch_rows(items: Seq<BatchItemCells>, sheet: Sheet) -> Seq<Seq<Seq<char>>>
    decreases items.len(),
{
    if items.len() == 0 {
        Seq::empty()
    } else {
        batch_rows(items.drop_last(), sheet) + batch_item_rows(items.last(), sheet)
    }
}

/// `a` comes strictly before `b` in the order of `String`: character by
/// character, a proper prefix first.
pub open spec fn text_lt(a: Seq<char>, b: Seq<char>) -> bool
    decreases a.len(),
{
    if a.len() == 0 {
        b.len() > 0
    } else if b.len() == 0 {
        false
    } else if a[0] != b[0] {
        (a[0] as int) < (b[0] as int)
    } else {
        text_lt(a.drop_first(), b.drop_first())
    }
}

/// The series keys in ascending order without repeats, as a map of
/// columns by name holds them.
pub open spec fn keys_ascending(keys: Seq<String>) -> bool {
    forall|i: int, j: int| 0 <= i < j < keys.len() ==> text_lt(#[trigger] keys[i]@, #[trigger] keys[j]@)
}

/// The cell of series column `j` at time `i`: empty past the end of the
/// column.
pub open spec fn series_cell(cells: Seq<Vec<String>>, j: int, i: int) -> Seq<char> {
    if j < cells.len() && i < cells[j]@.len() {
        cells[j]@[i]@
    } else {
        Seq::empty()
    }
}

/// A series as records: a `time` column, then one column per key; one
/// record per time.
pub open spec fn spec_series_records(keys: Seq<String>, times: Seq<String>, cells: Seq<Vec<String>>) -> (
    Seq<Seq<char>>,
    Seq<Seq<Seq<char>>>,
) {
    (seq!["time"@] + texts(keys), Seq::new(times.len(), |i: int| series_row(keys.len(), times, cells, i)))
}

/// The record of time `i`: the time, then the cell of each key.
pub open spec fn series_row(width: nat, times: Seq<String>, cells: Seq<Vec<String>>, i: int) -> Seq<Seq<char>> {
    seq![times[i]@] + Seq::new(width, |j: int| series_cell(cells, j, i))
}

pub open spec fn summary_rows(s: SummaryCells) -> Seq<Seq<Seq<char>>> {
    seq![
        seq!["headline"@, s.headline@],
        seq!["total_days"@, nat_text(s.total_days as nat)],
        seq!["risk_days"@, nat_text(s.risk_days as nat)],
        seq!["warm_days"@, nat_text(s.warm_days as nat)],
        seq!["hot_days"@, nat_text(s.hot_days as nat)],
        seq!["wet_days"@, nat_text(s.wet_days as nat)],
        seq!["windy_days"@, nat_text(s.windy_days as nat)],
        seq!["sunny_days"@, nat_text(s.sunny_days as nat)],
    ]
}

/// The cache status: three field/value rows in a table, one record of
/// three fields in CSV.
pub open spec fn cache_layout(c: CacheStatusCells, sheet: Sheet) -> (Seq<Seq<char>>, Seq<Seq<Seq<char>>>) {
    match sheet {
        Sheet::Table => (
            field_header(sheet),
            seq![
                seq!["Path"@, c.path@],
                seq!["Files"@, nat_text(c.files as nat)],
                seq!["Bytes"@, nat_text(c.bytes as nat)],
            ],
        ),
        Sheet::Csv => (
            seq!["path"@, "files"@, "bytes"@],
            seq![seq![c.path@, nat_text(c.files as nat), nat_text(c.bytes as nat)]],
        ),
    }
}

/// The header and records of each output.
pub open spec fn spec_table_layout(data: TableCells, sheet: Sheet) -> (Seq<Seq<char>>, Seq<Seq<Seq<char>>>) {
    match data {
        TableCells::Geocode(ls) => (geocode_header(sheet), ls@.map_values(|l: LocationCells| location_row(l))),
        TableCells::Places(ps) => (
            places_header(sheet),
            ps@.map_values(|p: (String, LocationCells)| place_row(p.0, p.1)),
        ),
        TableCells::Current(fs) => (
            field_header(sheet),
            fs@.map_values(|f: (String, String)| seq![f.0@, f.1@]),
        ),
        TableCells::Series { keys, times, cells } => spec_series_records(keys@, times@, cells@),
        TableCells::Signal(days) => (signal_header(sheet), days@.map_values(|d: DayCells| signal_row(d))),
        TableCells::BatchSignal(items) => (batch_header(sheet), batch_rows(items@, sheet)),
        TableCells::Threshold(ms) => (
            threshold_header(sheet),
            ms@.map_values(|m: ThresholdMatchCells| threshold_row(m)),
        ),
        TableCells::Summary(s) => (field_header(sheet), summary_rows(s)),
        TableCells::CacheStatus(c) => cache_layout(c, sheet),
        TableCells::Message(m) => (message_header(sheet), seq![seq![m@]]),
    }
}

fn text_list(names: &[&str]) -> (r: Vec<String>)
    ensures
        texts(r@) == names@.map_values(|s: &str| s@),
{
    let mut out: Vec<String> = Vec::new();
    let mut i: usize = 0;
    while i < names.len()
        invariant
            i <= names@.len(),
            texts(out@) == names@.take(i as int).map_values(|s: &str| s@),
        decreases names.len() - i,
    {
        push_text(&mut out, names[i]);
        assert(names@.take(i + 1).map_values(|s: &str| s@) =~= names@.take(i as int).map_values(
            |s: &str| s@,
        ).push(names@[i as int]@));
        i = i + 1;
    }
    assert(names@.take(names@.len() as int) =~= names@);
    out
}

fn message_header_texts(sheet: Sheet) -> (r: Vec<String>)
    ensures
        texts(r@) == message_header(sheet),
{
    match sheet {
        Sheet::Table => {
            let r = text_list(&["Status"]);
            assert(texts(r@) =~= message_header(sheet));
            r
        },
        Sheet::Csv => {
            let r = text_list(&["status"]);
            assert(texts(r@) =~= message_header(sheet));
            r
        },
    }
}

fn geocode_header_texts(sheet: Sheet) -> (r: Vec<String>)
    ensures
        texts(r@) == geocode_header(sheet),
{
    match sheet {
        Sheet::Table => {
            let r = text_list(&["Name", "Country", "Admin", "Lat", "Lon", "Timezone"]);
            assert(texts(r@) =~= geocode_header(sheet));
            r
        },
        Sheet::Csv => {
            let r = text_list(&["name", "country_code", "admin1", "latitude", "longitude", "timezone"]);
            assert(texts(r@) =~= geocode_header(sheet));
            r
        },
    }
}

fn places_header_texts(sheet: Sheet) -> (r: Vec<String>)
    ensures
        texts(r@) == places_header(sheet),
{
    match sheet {
        Sheet::Table => {
            let r = text_list(&["Alias", "Name", "Country", "Lat", "Lon", "Timezone"]);
            assert(texts(r@) =~= places_header(sheet));
            r
        },
        Sheet::Csv => {
            let r = text_list(&["alias", "name", "country_code", "latitude", "longitude", "timezone"]);
            assert(texts(r@) =~= places_header(sheet));
            r
        },
    }
}

fn field_header_texts(sheet: Sheet) -> (r: Vec<String>)
    ensures
        texts(r@) == field_header(sheet),
{
    match sheet {
        Sheet::Table => {
            let r = text_list(&["Field", "Value"]);
            assert(texts(r@) =~= field_header(sheet));
            r
        },
        Sheet::Csv => {
            let r = text_list(&["field", "value"]);
            assert(texts(r@) =~= field_header(sheet));
            r
        },
    }
}

fn signal_header_texts(sheet: Sheet) -> (r: Vec<String>)
    ensures
        texts(r@) == signal_header(sheet),
{
    match sheet {
        Sheet::Table => {
            let r = text_list(&["Date", "Max C", "Min C", "Rain %", "Rain mm", "Wind Gust", "Sun h", "Flags"]);
            assert(texts(r@) =~= signal_header(sheet));
            r
        },
        Sheet::Csv => {
            let r = text_list(&["date", "temp_max_c", "temp_min_c", "precip_probability_max_pct", "precipitation_mm", "wind_gust_max_kmh", "sunshine_hours", "flags"]);
            assert(texts(r@) =~= signal_header(sheet));
            r
        },
    }
}

fn batch_header_texts(sheet: Sheet) -> (r: Vec<String>)
    ensures
        texts(r@) == batch_header(sheet),
{
    match sheet {
        Sheet::Table => {
            let r = text_list(&["Input", "Location", "Country Code", "Requested Country", "Date", "Max C", "Min C", "Rain %", "Rain mm", "Flags", "Error"]);
            assert(texts(r@) =~= batch_header(sheet));
            r
        },
        Sheet::Csv => {
            let r = text_list(&["input", "location", "country_code", "requested_country", "date", "temp_max_c", "temp_min_c", "precip_probability_max_pct", "precipitation_mm", "wind_gust_max_kmh", "sunshine_hours", "flags", "error"]);
            assert(texts(r@) =~= batch_header(sheet));
            r
        },
    }
}

fn threshold_header_texts(sheet: Sheet) -> (r: Vec<String>)
    ensures
        texts(r@) == threshold_header(sheet),
{
    match sheet {
        Sheet::Table => {
            let r = text_list(&["Date", "Reasons", "Max C", "Min C", "Rain %", "Rain mm", "Wind Gust", "Flags"]);
            assert(texts(r@) =~= threshold_header(sheet));
            r
        },
        Sheet::Csv => {
            let r = text_list(&["date", "reasons", "temp_max_c", "temp_min_c", "precip_probability_max_pct", "precipitation_mm", "wind_gust_max_kmh", "flags"]);
            assert(texts(r@) =~= threshold_header(sheet));
            r
        },
    }
}

fn location_record(l: &LocationCells) -> (r: Vec<String>)
    ensures
        texts(r@) == location_row(*l),
{
    let mut r: Vec<String> = Vec::new();
    push_copy(&mut r, &l.name);
    push_owned(&mut r, text_or_empty(&l.country_code));
    push_owned(&mut r, text_or_empty(&l.admin1));
    push_copy(&mut r, &l.latitude);
    push_copy(&mut r, &l.longitude);
    push_owned(&mut r, text_or_empty(&l.timezone));
    assert(texts(r@) =~= location_row(*l));
    r
}

fn place_record(alias: &String, l: &LocationCells) -> (r: Vec<String>)
    ensures
        texts(r@) == place_row(*alias, *l),
{
    let mut r: Vec<String> = Vec::new();
    push_copy(&mut r, alias);
    push_copy(&mut r, &l.name);
    push_owned(&mut r, text_or_empty(&l.country_code));
    push_copy(&mut r, &l.latitude);
    push_copy(&mut r, &l.longitude);
    push_owned(&mut r, text_or_empty(&l.timezone));
    assert(texts(r@) =~= place_row(*alias, *l));
    r
}

fn signal_record(d: &DayCells) -> (r: Vec<String>)
    ensures
        texts(r@) == signal_row(*d),
{
    let mut r: Vec<String> = Vec::new();
    push_copy(&mut r, &d.date);
    push_owned(&mut r, text_or_empty(&d.temp_max_c));
    push_owned(&mut r, text_or_empty(&d.temp_min_c));
    push_owned(&mut r, int_text_or_empty(d.precip_probability_max_pct));
    push_owned(&mut r, text_or_empty(&d.precipitation_mm));
    push_owned(&mut r, text_or_empty(&d.wind_gust_max_kmh));
    push_owned(&mut r, text_or_empty(&d.sunshine_hours));
    push_copy(&mut r, &d.flags);
    assert(texts(r@) =~= signal_row(*d));
    r
}

/// The reasons joined with `|`.
fn join_reasons(reasons: &Vec<String>) -> (r: String)
    ensures
        r@ == join_bar(texts(reasons@)),
{
    let mut out = String::new();
    let mut i: usize = 0;
    while i < reasons.len()
        invariant
            i <= reasons@.len(),
            out@ == join_bar(texts(reasons@).take(i as int)),
        decreases reasons.len() - i,
    {
        let ghost t = texts(reasons@);
        assert(t.take(i + 1).drop_last() =~= t.take(i as int));
        assert(t.take(i + 1).last() == reasons@[i as int]@);
        if i > 0 {
            out.append("|");
        }
        out.append(reasons[i].as_str());
        proof {
            reveal_strlit("|");
            if i == 0 {
                assert(t.take(1) =~= seq![reasons@[0]@]);
            }
        }
        assert(out@ =~= join_bar(t.take(i + 1)));
        i = i + 1;
    }
    assert(texts(reasons@).take(reasons@.len() as int) =~= texts(reasons@));
    out
}

fn threshold_record(m: &ThresholdMatchCells) -> (r: Vec<String>)
    ensures
        texts(r@) == threshold_row(*m),
{
    let mut r: Vec<String> = Vec::new();
    push_copy(&mut r, &m.date);
    push_owned(&mut r, join_reasons(&m.reasons));
    push_owned(&mut r, text_or_empty(&m.day.temp_max_c));
    push_owned(&mut r, text_or_empty(&m.day.temp_min_c));
    push_owned(&mut r, int_text_or_empty(m.day.precip_probability_max_pct));
    push_owned(&mut r, text_or_empty(&m.day.precipitation_mm));
    push_owned(&mut r, text_or_empty(&m.day.wind_gust_max_kmh));
    push_copy(&mut r, &m.day.flags);
    assert(texts(r@) =~= threshold_row(*m));
    r
}

fn batch_day_record(
    input: &String,
    requested: &Option<String>,
    location: &String,
    country_code: &Option<String>,
    d: &DayCells,
    sheet: Sheet,
) -> (r: Vec<String>)
    ensures
        texts(r@) == batch_day_row(*input, *requested, *location, *country_code, *d, sheet),
{
    let mut r: Vec<String> = Vec::new();
    push_copy(&mut r, input);
    push_copy(&mut r, location);
    push_owned(&mut r, text_or_empty(country_code));
    push_owned(&mut r, text_or_empty(requested));
    push_copy(&mut r, &d.date);
    push_owned(&mut r, text_or_empty(&d.temp_max_c));
    push_owned(&mut r, text_or_empty(&d.temp_min_c));
    push_owned(&mut r, int_text_or_empty(d.precip_probability_max_pct));
    push_owned(&mut r, text_or_empty(&d.precipitation_mm));
    match sheet {
        Sheet::Table => {},
        Sheet::Csv => {
            push_owned(&mut r, text_or_empty(&d.wind_gust_max_kmh));
            push_owned(&mut r, text_or_empty(&d.sunshine_hours));
        },
    }
    push_copy(&mut r, &d.flags);
    push_owned(&mut r, String::new());
    assert(texts(r@) =~= batch_day_row(*input, *requested, *location, *country_code, *d, sheet));
    r
}

fn batch_failed_record(input: &String, requested: &Option<String>, error: &Option<String>, sheet: Sheet) -> (r: Vec<String>)
    ensures
        texts(r@) == batch_failed_row(*input, *requested, *error, sheet),
{
    let mut r: Vec<String> = Vec::new();
    push_copy(&mut r, input);
    push_owned(&mut r, String::new());
    push_owned(&mut r, String::new());
    push_owned(&mut r, text_or_empty(requested));
    let blanks: usize = match sheet {
        Sheet::Table => 6,
        Sheet::Csv => 8,
    };
    let mut k: usize = 0;
    while k < blanks
        invariant
            k <= blanks,
            blanks == (if sheet == Sheet::Table { 6usize } else { 8usize }),
            texts(r@) == seq![input@, Seq::<char>::empty(), Seq::<char>::empty(), or_empty(*requested)]
                + Seq::new(k as nat, |_j: int| Seq::<char>::empty()),
        decreases blanks - k,
    {
        let ghost before = texts(r@);
        push_owned(&mut r, String::new());
        assert(Seq::new((k + 1) as nat, |_j: int| Seq::<char>::empty()) =~= Seq::new(
            k as nat,
            |_j: int| Seq::<char>::empty(),
        ).push(Seq::<char>::empty()));
        assert(texts(r@) =~= seq![input@, Seq::<char>::empty(), Seq::<char>::empty(), or_empty(*requested)]
            + Seq::new((k + 1) as nat, |_j: int| Seq::<char>::empty()));
        k = k + 1;
    }
    push_owned(&mut r, text_or_empty(error));
    assert(texts(r@) =~= batch_failed_row(*input, *requested, *error, sheet));
    r
}

fn location_records(xs: &Vec<LocationCells>) -> (r: Vec<Vec<String>>)
    ensures
        records_view(r@) == xs@.map_values(|l: LocationCells| location_row(l)),
{
    let mut rows = empty_rows();
    let mut i: usize = 0;
    while i < xs.len()
        invariant
            i <= xs@.len(),
            records_view(rows@) == xs@.take(i as int).map_values(|l: LocationCells| location_row(l)),
        decreases xs.len() - i,
    {
        let x = &xs[i];
        let row = location_record(x);
        push_row(&mut rows, row);
        assert(xs@.take(i + 1).map_values(|l: LocationCells| location_row(l)) =~= xs@.take(i as int).map_values(
            |l: LocationCells| location_row(l),
        ).push(records_view(rows@).last()));
        i = i + 1;
    }
    assert(xs@.take(xs@.len() as int) =~= xs@);
    rows
}

fn place_records(xs: &Vec<(String, LocationCells)>) -> (r: Vec<Vec<String>>)
    ensures
        records_view(r@) == xs@.map_values(|p: (String, LocationCells)| place_row(p.0, p.1)),
{
    let mut rows = empty_rows();
    let mut i: usize = 0;
    while i < xs.len()
        invariant
            i <= xs@.len(),
            records_view(rows@) == xs@.take(i as int).map_values(|p: (String, LocationCells)| place_row(p.0, p.1)),
        decreases xs.len() - i,
    {
        let x = &xs[i];
        let row = place_record(&x.0, &x.1);
        push_row(&mut rows, row);
        assert(xs@.take(i + 1).map_values(|p: (String, LocationCells)| place_row(p.0, p.1)) =~= xs@.take(i as int).map_values(
            |p: (String, LocationCells)| place_row(p.0, p.1),
        ).push(records_view(rows@).last()));
        i = i + 1;
    }
    assert(xs@.take(xs@.len() as int) =~= xs@);
    rows
}

fn field_records(xs: &Vec<(String, String)>) -> (r: Vec<Vec<String>>)
    ensures
        records_view(r@) == xs@.map_values(|f: (String, String)| seq![f.0@, f.1@]),
{
    let mut rows = empty_rows();
    let mut i: usize = 0;
    while i < xs.len()
        invariant
            i <= xs@.len(),
            records_view(rows@) == xs@.take(i as int).map_values(|f: (String, String)| seq![f.0@, f.1@]),
        decreases xs.len() - i,
    {
        let x = &xs[i];
        let row = field_record(&x.0, &x.1);
        push_row(&mut rows, row);
        assert(xs@.take(i + 1).map_values(|f: (String, String)| seq![f.0@, f.1@]) =~= xs@.take(i as int).map_values(
            |f: (String, String)| seq![f.0@, f.1@],
        ).push(records_view(rows@).last()));
        i = i + 1;
    }
    assert(xs@.take(xs@.len() as int) =~= xs@);
    rows
}

fn day_records(xs: &Vec<DayCells>) -> (r: Vec<Vec<String>>)
    ensures
        records_view(r@) == xs@.map_values(|d: DayCells| signal_row(d)),
{
    let mut rows = empty_rows();
    let mut i: usize = 0;
    while i < xs.len()
        invariant
            i <= xs@.len(),
            records_view(rows@) == xs@.take(i as int).map_values(|d: DayCells| signal_row(d)),
        decreases xs.len() - i,
    {
        let x = &xs[i];
        let row = signal_record(x);
        push_row(&mut rows, row);
        assert(xs@.take(i + 1).map_values(|d: DayCells| signal_row(d)) =~= xs@.take(i as int).map_values(
            |d: DayCells| signal_row(d),
        ).push(records_view(rows@).last()));
        i = i + 1;
    }
    assert(xs@.take(xs@.len() as int) =~= xs@);
    rows
}

fn threshold_records(xs: &Vec<ThresholdMatchCells>) -> (r: Vec<Vec<String>>)
    ensures
        records_view(r@) == xs@.map_values(|m: ThresholdMatchCells| threshold_row(m)),
{
    let mut rows = empty_rows();
    let mut i: usize = 0;
    while i < xs.len()
        invariant
            i <= xs@.len(),
            records_view(rows@) == xs@.take(i as int).map_values(|m: ThresholdMatchCells| threshold_row(m)),
        decreases xs.len() - i,
    {
        let x = &xs[i];
        let row = threshold_record(x);
        push_row(&mut rows, row);
        assert(xs@.take(i + 1).map_values(|m: ThresholdMatchCells| threshold_row(m)) =~= xs@.take(i as int).map_values(
            |m: ThresholdMatchCells| threshold_row(m),
        ).push(records_view(rows@).last()));
        i = i + 1;
    }
    assert(xs@.take(xs@.len() as int) =~= xs@);
    rows
}

fn field_record(a: &String, b: &String) -> (r: Vec<String>)
    ensures
        texts(r@) == seq![a@, b@],
{
    let mut r: Vec<String> = Vec::new();
    push_copy(&mut r, a);
    push_copy(&mut r, b);
    assert(texts(r@) =~= seq![a@, b@]);
    r
}

fn field_record_text(a: &str, b: String) -> (r: Vec<String>)
    ensures
        texts(r@) == seq![a@, b@],
{
    let ghost bv = b@;
    let mut r: Vec<String> = Vec::new();
    push_text(&mut r, a);
    push_owned(&mut r, b);
    assert(texts(r@) =~= seq![a@, bv]);
    r
}

/// Appends the records of one batch location.
fn push_item_records(rows: &mut Vec<Vec<String>>, item: &BatchItemCells, sheet: Sheet)
    ensures
        records_view(final(rows)@) == records_view(old(rows)@) + batch_item_rows(*item, sheet),
{
    match &item.outcome {
        BatchOutcomeCells::Signal { location, country_code, days } => {
            let ghost start = records_view(rows@);
            let ghost f = |d: DayCells|
                batch_day_row(item.input, item.requested_country, *location, *country_code, d, sheet);
            let mut k: usize = 0;
            while k < days.len()
                invariant
                    k <= days@.len(),
                    records_view(rows@) == start + days@.take(k as int).map_values(f),
                    f == (|d: DayCells|
                        batch_day_row(item.input, item.requested_country, *location, *country_code, d, sheet)),
                decreases days.len() - k,
            {
                let row = batch_day_record(
                    &item.input,
                    &item.requested_country,
                    location,
                    country_code,
                    &days[k],
                    sheet,
                );
                push_row(rows, row);
                assert(days@.take(k + 1).map_values(f) =~= days@.take(k as int).map_values(f).push(
                    f(days@[k as int]),
                ));
                assert(records_view(rows@) =~= start + days@.take(k + 1).map_values(f));
                k = k + 1;
            }
            assert(days@.take(days@.len() as int) =~= days@);
        },
        BatchOutcomeCells::Failed { error } => {
            let row = batch_failed_record(&item.input, &item.requested_country, error, sheet);
            let ghost before = records_view(rows@);
            push_row(rows, row);
            assert(records_view(rows@) =~= before + batch_item_rows(*item, sheet));
        },
    }
}

fn batch_records(items: &Vec<BatchItemCells>, sheet: Sheet) -> (r: Vec<Vec<String>>)
    ensures
        records_view(r@) == batch_rows(items@, sheet),
{
    let mut rows = empty_rows();
    let mut i: usize = 0;
    while i < items.len()
        invariant
            i <= items@.len(),
            records_view(rows@) == batch_rows(items@.take(i as int), sheet),
        decreases items.len() - i,
    {
        push_item_records(&mut rows, &items[i], sheet);
        assert(items@.take(i + 1).drop_last() =~= items@.take(i as int));
        i = i + 1;
    }
    assert(items@.take(items@.len() as int) =~= items@);
    rows
}

/// A series as a header and records: `time` and the keys, then one record
/// per time with the cell of each key, empty where a column is short.
pub fn series_records(keys: &Vec<String>, times: &Vec<String>, cells: &Vec<Vec<String>>) -> (r: Layout)
    requires
        keys_ascending(keys@),
    ensures
        layout_view(r) == spec_series_records(keys@, times@, cells@),
{
    let mut header: Vec<String> = Vec::new();
    push_text(&mut header, "time");
    let mut j: usize = 0;
    while j < keys.len()
        invariant
            j <= keys@.len(),
            texts(header@) == seq!["time"@] + texts(keys@.take(j as int)),
        decreases keys.len() - j,
    {
        push_copy(&mut header, &keys[j]);
        assert(texts(keys@.take(j + 1)) =~= texts(keys@.take(j as int)).push(keys@[j as int]@));
        j = j + 1;
    }
    assert(keys@.take(keys@.len() as int) =~= keys@);
    let ghost width = keys@.len();
    let mut rows = empty_rows();
    let mut i: usize = 0;
    while i < times.len()
        invariant
            i <= times@.len(),
            width == keys@.len(),
            records_view(rows@) == Seq::new(i as nat, |ii: int| series_row(width, times@, cells@, ii)),
        decreases times.len() - i,
    {
        let mut row: Vec<String> = Vec::new();
        push_copy(&mut row, &times[i]);
        let mut k: usize = 0;
        while k < keys.len()
            invariant
                i < times@.len(),
                k <= keys@.len() == width,
                texts(row@) == seq![times@[i as int]@] + Seq::new(
                    k as nat,
                    |jj: int| series_cell(cells@, jj, i as int),
                ),
            decreases keys.len() - k,
        {
            let cell = if k < cells.len() && i < cells[k].len() {
                cells[k][i].clone()
            } else {
                String::new()
            };
            push_owned(&mut row, cell);
            assert(Seq::new((k + 1) as nat, |jj: int| series_cell(cells@, jj, i as int)) =~= Seq::new(
                k as nat,
                |jj: int| series_cell(cells@, jj, i as int),
            ).push(series_cell(cells@, k as int, i as int)));
            k = k + 1;
        }
        assert(texts(row@) =~= series_row(width, times@, cells@, i as int));
        push_row(&mut rows, row);
        assert(Seq::new((i + 1) as nat, |ii: int| series_row(width, times@, cells@, ii)) =~= Seq::new(
            i as nat,
            |ii: int| series_row(width, times@, cells@, ii),
        ).push(series_row(width, times@, cells@, i as int)));
        i = i + 1;
    }
    Layout { header, rows }
}

fn summary_records(c: &SummaryCells) -> (r: Vec<Vec<String>>)
    ensures
        records_view(r@) == summary_rows(*c),
{
    let mut rows = empty_rows();
    push_row(&mut rows, field_record_text("headline", c.headline.clone()));
    push_row(&mut rows, field_record_text("total_days", nat_string(c.total_days)));
    push_row(&mut rows, field_record_text("risk_days", nat_string(c.risk_days)));
    push_row(&mut rows, field_record_text("warm_days", nat_string(c.warm_days)));
    push_row(&mut rows, field_record_text("hot_days", nat_string(c.hot_days)));
    push_row(&mut rows, field_record_text("wet_days", nat_string(c.wet_days)));
    push_row(&mut rows, field_record_text("windy_days", nat_string(c.windy_days)));
    push_row(&mut rows, field_record_text("sunny_days", nat_string(c.sunny_days)));
    assert(records_view(rows@) =~= summary_rows(*c));
    rows
}

fn cache_records(c: &CacheStatusCells, sheet: Sheet) -> (r: Layout)
    ensures
        layout_view(r) == cache_layout(*c, sheet),
{
    let mut rows = empty_rows();
    match sheet {
        Sheet::Table => {
            let header = field_header_texts(sheet);
            push_row(&mut rows, field_record_text("Path", c.path.clone()));
            push_row(&mut rows, field_record_text("Files", nat_string(c.files)));
            push_row(&mut rows, field_record_text("Bytes", nat_string(c.bytes)));
            assert(records_view(rows@) =~= cache_layout(*c, sheet).1);
            Layout { header, rows }
        },
        Sheet::Csv => {
            let header = text_list(&["path", "files", "bytes"]);
            let mut row: Vec<String> = Vec::new();
            push_copy(&mut row, &c.path);
            push_owned(&mut row, nat_string(c.files));
            push_owned(&mut row, nat_string(c.bytes));
            assert(texts(row@) =~= seq![c.path@, nat_text(c.files as nat), nat_text(c.bytes as nat)]);
            push_row(&mut rows, row);
            assert(texts(header@) =~= cache_layout(*c, sheet).0);
            assert(records_view(rows@) =~= cache_layout(*c, sheet).1);
            Layout { header, rows }
        },
    }
}

/// The daily signals as a header and one record per day.
pub fn signal_records(days: &Vec<DayCells>, sheet: Sheet) -> (r: Layout)
    ensures
        layout_view(r) == (signal_header(sheet), days@.map_values(|d: DayCells| signal_row(d))),
{
    Layout { header: signal_header_texts(sheet), rows: day_records(days) }
}

/// A batch as a header and its records: one per day of each resolved
/// location, one per failed location, in the order of the items.
pub fn batch_signal_records(items: &Vec<BatchItemCells>, sheet: Sheet) -> (r: Layout)
    ensures
        layout_view(r) == (batch_header(sheet), batch_rows(items@, sheet)),
{
    Layout { header: batch_header_texts(sheet), rows: batch_records(items, sheet) }
}

/// The header and records a command shows as a table or as CSV.
pub fn table_layout(data: &TableCells, sheet: Sheet) -> (r: Layout)
    requires
        data matches TableCells::Series { keys, .. } ==> keys_ascending(keys@),
    ensures
        layout_view(r) == spec_table_layout(*data, sheet),
{
    match data {
        TableCells::Geocode(ls) => Layout {
            header: geocode_header_texts(sheet),
            rows: location_records(ls),
        },
        TableCells::Places(ps) => Layout { header: places_header_texts(sheet), rows: place_records(ps) },
        TableCells::Current(fs) => Layout { header: field_header_texts(sheet), rows: field_records(fs) },
        TableCells::Series { keys, times, cells } => series_records(keys, times, cells),
        TableCells::Signal(days) => signal_records(days, sheet),
        TableCells::BatchSignal(items) => batch_signal_records(items, sheet),
        TableCells::Threshold(ms) => Layout {
            header: threshold_header_texts(sheet),
            rows: threshold_records(ms),
        },
        TableCells::Summary(c) => Layout { header: field_header_texts(sheet), rows: summary_records(c) },
        TableCells::CacheStatus(c) => cache_records(c, sheet),
        TableCells::Message(m) => {
            let mut rows = empty_rows();
            let mut row: Vec<String> = Vec::new();
            push_copy(&mut row, m);
            assert(texts(row@) =~= seq![m@]);
            push_row(&mut rows, row);
            assert(records_view(rows@) =~= seq![seq![m@]]);
            Layout { header: message_header_texts(sheet), rows }
        },
    }
}

fn text_less(a: &Vec<char>, b: &Vec<char>) -> (r: bool)
    ensures
        r == text_lt(a@, b@),
{
    let mut k: usize = 0;
    assert(a@.skip(0) =~= a@);
    assert(b@.skip(0) =~= b@);
    while k < a.len() && k < b.len()
        invariant
            k <= a@.len(),
            k <= b@.len(),
            text_lt(a@.skip(k as int), b@.skip(k as int)) == text_lt(a@, b@),
        decreases a.len() - k,
    {
        assert(a@.skip(k as int)[0] == a@[k as int]);
        assert(b@.skip(k as int)[0] == b@[k as int]);
        if a[k] != b[k] {
            return a[k] < b[k];
        }
        assert(a@.skip(k as int).drop_first() =~= a@.skip(k + 1));
        assert(b@.skip(k as int).drop_first() =~= b@.skip(k + 1));
        k = k + 1;
    }
    assert(a@.skip(0) =~= a@);
    k == a.len() && k < b.len()
}

/// Whether series keys are ascending without repeats, as
/// [`series_records`] requires.
pub fn keys_in_order(keys: &Vec<String>) -> (r: bool)
    ensures
        r == keys_ascending(keys@),
{
    let n = keys.len();
    let mut i: usize = 0;
    while i < n
        invariant
            i <= n == keys@.len(),
            forall|x: int, y: int| 0 <= x < i && x < y < n ==> text_lt(#[trigger] keys@[x]@, #[trigger] keys@[y]@),
        decreases n - i,
    {
        let a = crate::text::chars_of(keys[i].as_str());
        let mut j: usize = i + 1;
        while j < n
            invariant
                i < j <= n,
                n == keys@.len(),
                a@ == keys@[i as int]@,
                forall|x: int, y: int| 0 <= x < i && x < y < n ==> text_lt(#[trigger] keys@[x]@, #[trigger] keys@[y]@),
                forall|y: int| i < y < j ==> text_lt(keys@[i as int]@, #[trigger] keys@[y]@),
            decreases n - j,
        {
            let b = crate::text::chars_of(keys[j].as_str());
            if !text_less(&a, &b) {
                return false;
            }
            j = j + 1;
        }
        i = i + 1;
    }
    true
}

} // verus!
