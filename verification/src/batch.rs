//! Batch signal inputs: which locations a batch covers and how each
//! location's outcome is reported.

use vstd::prelude::*;

verus! {

/// `--places` values.
#[derive(Clone, Copy, Debug, PartialEq, Eq, Structural)]
pub enum BatchPlaces {
    All,
}

/// Where the batch locations come from.
#[derive(Clone, Copy, Debug, PartialEq, Eq, Structural)]
pub enum BatchSource {
    SavedPlaces,
    CsvInput,
}

/// Why a batch could not start.
#[derive(Clone, Copy, Debug, PartialEq, Eq, Structural)]
pub enum BatchError {
    NoSavedPlaces,
    NoSource,
    BothSources,
    NoLocations,
}

pub open spec fn batch_error_text(e: BatchError) -> Seq<char> {
    match e {
        BatchError::NoSavedPlaces => "no saved places found"@,
        BatchError::NoSource => "batch signal requires --places all or --input <csv>"@,
        BatchError::BothSources => "use either --places all or --input, not both"@,
        BatchError::NoLocations => "batch input has no locations"@,
    }
}

impl BatchError {
    pub fn message(&self) -> (r: String)
        ensures
            r@ == batch_error_text(*self),
    {
        match self {
            BatchError::NoSavedPlaces => String::from_str("no saved places found"),
            BatchError::NoSource => String::from_str(
                "batch signal requires --places all or --input <csv>",
            ),
            BatchError::BothSources => String::from_str(
                "use either --places all or --input, not both",
            ),
            BatchError::NoLocations => String::from_str("batch input has no locations"),
        }
    }
}

/// Exactly one of `--places all` and `--input` must be given.
pub fn select_batch_source(places: Option<BatchPlaces>, has_input: bool) -> (r: Result<
    BatchSource,
    BatchError,
>)
    ensures
        (places is Some && !has_input) <==> r == Ok::<BatchSource, BatchError>(
            BatchSource::SavedPlaces,
        ),
        (places is None && has_input) <==> r == Ok::<BatchSource, BatchError>(
            BatchSource::CsvInput,
        ),
        (places is None && !has_input) <==> r == Err::<BatchSource, BatchError>(
            BatchError::NoSource,
        ),
        (places is Some && has_input) <==> r == Err::<BatchSource, BatchError>(
            BatchError::BothSources,
        ),
{
    match (places, has_input) {
        (Some(BatchPlaces::All), false) => Ok(BatchSource::SavedPlaces),
        (None, true) => Ok(BatchSource::CsvInput),
        (None, false) => Err(BatchError::NoSource),
        (Some(_), true) => Err(BatchError::BothSources),
    }
}

/// One location of a batch, with its requested country hint.
pub struct BatchLocationInput {
    pub location: String,
    pub country: Option<String>,
}

/// One row of a batch CSV: a `location` column and an optional `country`.
pub struct BatchLocationRecord {
    pub location: String,
    pub country: Option<String>,
}

pub open spec fn opt_view(s: Option<String>) -> Option<Seq<char>> {
    match s {
        Some(t) => Some(t@),
        None => None,
    }
}

pub open spec fn input_view(i: BatchLocationInput) -> (Seq<char>, Option<Seq<char>>) {
    (i.location@, opt_view(i.country))
}

/// The inputs of `--places all`: every saved alias, in the given order,
/// without a country hint; refused when there is none.
pub fn inputs_from_aliases(aliases: &Vec<String>) -> (r: Result<Vec<BatchLocationInput>, BatchError>)
    ensures
        aliases@.len() == 0 <==> r == Err::<Vec<BatchLocationInput>, BatchError>(
            BatchError::NoSavedPlaces,
        ),
        aliases@.len() > 0 ==> r is Ok,
        r matches Ok(v) ==> v@.map_values(|i: BatchLocationInput| input_view(i))
            == aliases@.map_values(|a: String| (a@, None::<Seq<char>>)),
{
    if aliases.len() == 0 {
        return Err(BatchError::NoSavedPlaces);
    }
    let mut out: Vec<BatchLocationInput> = Vec::new();
    let mut i: usize = 0;
    while i < aliases.len()
        invariant
            i <= aliases@.len(),
            out@.map_values(|i: BatchLocationInput| input_view(i)) =~= aliases@.take(
                i as int,
            ).map_values(|a: String| (a@, None::<Seq<char>>)),
        decreases aliases.len() - i,
    {
        let item = BatchLocationInput { location: aliases[i].clone(), country: None };
        let ghost iv = input_view(item);
        let ghost before = out@;
        out.push(item);
        assert(out@.map_values(|i: BatchLocationInput| input_view(i)) =~= before.map_values(
            |i: BatchLocationInput| input_view(i),
        ).push(iv));
        assert(aliases@.take(i + 1) =~= aliases@.take(i as int).push(aliases@[i as int]));
        assert(aliases@.take(i + 1).map_values(|a: String| (a@, None::<Seq<char>>))
            =~= aliases@.take(i as int).map_values(|a: String| (a@, None::<Seq<char>>)).push(iv));
        i = i + 1;
    }
    assert(aliases@.take(aliases@.len() as int) =~= aliases@);
    Ok(out)
}

/// A row's own country wins; an empty cell falls back to the default.
pub open spec fn record_input(r: BatchLocationRecord, default_country: Option<Seq<char>>) -> (
    Seq<char>,
    Option<Seq<char>>,
) {
    (
        r.location@,
        match r.country {
            Some(c) => Some(c@),
            None => default_country,
        },
    )
}

pub open spec fn opt_str(s: Option<&str>) -> Option<Seq<char>> {
    match s {
        Some(t) => Some(t@),
        None => None,
    }
}

/// The inputs of a batch CSV, in row order, each row's country falling
/// back to `default_country`; refused when the file has no rows.
pub fn inputs_from_records(records: &Vec<BatchLocationRecord>, default_country: Option<&str>) -> (r: Result<
    Vec<BatchLocationInput>,
    BatchError,
>)
    ensures
        records@.len() == 0 <==> r == Err::<Vec<BatchLocationInput>, BatchError>(
            BatchError::NoLocations,
        ),
        records@.len() > 0 ==> r is Ok,
        r matches Ok(v) ==> v@.map_values(|i: BatchLocationInput| input_view(i))
            == records@.map_values(
            |rec: BatchLocationRecord| record_input(rec, opt_str(default_country)),
        ),
{
    if records.len() == 0 {
        return Err(BatchError::NoLocations);
    }
    let ghost dc = opt_str(default_country);
    let mut out: Vec<BatchLocationInput> = Vec::new();
    let mut i: usize = 0;
    while i < records.len()
        invariant
            i <= records@.len(),
            dc == opt_str(default_country),
            out@.map_values(|i: BatchLocationInput| input_view(i)) =~= records@.take(
                i as int,
            ).map_values(|rec: BatchLocationRecord| record_input(rec, dc)),
        decreases records.len() - i,
    {
        let rec = &records[i];
        let country = match &rec.country {
            Some(c) => Some(c.clone()),
            None => match default_country {
                Some(d) => Some(String::from_str(d)),
                None => None,
            },
        };
        let item = BatchLocationInput { location: rec.location.clone(), country };
        let ghost iv = input_view(item);
        assert(iv == record_input(records@[i as int], dc));
        let ghost before = out@;
        out.push(item);
        assert(out@.map_values(|i: BatchLocationInput| input_view(i)) =~= before.map_values(
            |i: BatchLocationInput| input_view(i),
        ).push(iv));
        assert(records@.take(i + 1) =~= records@.take(i as int).push(records@[i as int]));
        assert(records@.take(i + 1).map_values(|rec: BatchLocationRecord| record_input(rec, dc))
            =~= records@.take(i as int).map_values(
            |rec: BatchLocationRecord| record_input(rec, dc),
        ).push(iv));
        i = i + 1;
    }
    assert(records@.take(records@.len() as int) =~= records@);
    Ok(out)
}

/// The outcome of one batch location: its signal, or the message of the
/// error that stopped it. A failed location does not affect the others.
pub struct BatchSignalItem<T> {
    pub input: String,
    pub country: Option<String>,
    pub signal: Option<T>,
    pub error: Option<String>,
}

/// Reports one location's outcome.
pub fn batch_item<T>(input: BatchLocationInput, outcome: Result<T, String>) -> (r: BatchSignalItem<T>)
    ensures
        r.input@ == input.location@,
        opt_view(r.country) == opt_view(input.country),
        r.signal is Some <==> outcome is Ok,
        r.error is Some <==> outcome is Err,
        outcome matches Ok(s) ==> r.signal == Some(s),
        outcome matches Err(e) ==> opt_view(r.error) == Some(e@),
{
    match outcome {
        Ok(signal) => BatchSignalItem {
            input: input.location,
            country: input.country,
            signal: Some(signal),
            error: None,
        },
        Err(error) => BatchSignalItem {
            input: input.location,
            country: input.country,
            signal: None,
            error: Some(error),
        },
    }
}

/// The outcome of `input` as a batch item sees it.
pub open spec fn item_of<T>(item: BatchSignalItem<T>, input: BatchLocationInput, outcome: Result<T, String>) -> bool {
    &&& item.input@ == input.location@
    &&& opt_view(item.country) == opt_view(input.country)
    &&& (item.signal is Some <==> outcome is Ok)
    &&& (item.error is Some <==> outcome is Err)
    &&& (outcome matches Ok(s) ==> item.signal == Some(s))
    &&& (outcome matches Err(e) ==> opt_view(item.error) == Some(e@))
}

/// Assembles a batch: one item per input, in the order of the inputs, each
/// with the outcome at the same place. A failed location never takes the
/// place of another.
pub fn batch_items<T>(inputs: Vec<BatchLocationInput>, outcomes: Vec<Result<T, String>>) -> (r: Vec<
    BatchSignalItem<T>,
>)
    requires
        inputs@.len() == outcomes@.len(),
    ensures
        r@.len() == inputs@.len(),
        forall|i: int| 0 <= i < r@.len() ==> item_of(#[trigger] r@[i], inputs@[i], outcomes@[i]),
{
    let ghost ins = inputs@;
    let ghost outs = outcomes@;
    let mut inputs = inputs;
    let mut outcomes = outcomes;
    let n = inputs.len();
    let mut items: Vec<BatchSignalItem<T>> = Vec::new();
    let mut i: usize = 0;
    while i < n
        invariant
            i <= n == ins.len() == outs.len(),
            inputs@ == ins.skip(i as int),
            outcomes@ == outs.skip(i as int),
            items@.len() == i,
            forall|j: int| 0 <= j < i ==> item_of(#[trigger] items@[j], ins[j], outs[j]),
        decreases n - i,
    {
        assert(inputs@[0] == ins[i as int]);
        assert(outcomes@[0] == outs[i as int]);
        let input = inputs.remove(0);
        let outcome = outcomes.remove(0);
        let item = batch_item(input, outcome);
        items.push(item);
        assert(inputs@ =~= ins.skip(i + 1));
        assert(outcomes@ =~= outs.skip(i + 1));
        i = i + 1;
    }
    items
}

} // verus!
