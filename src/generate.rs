use vstd::prelude::*;
use vstd::arithmetic::div_mod::lemma_mod_bound;
use crate::record::{
    Date, WeatherRecord, days_in_month, valid_date, valid_record, max_day, csv_line, header_text,
    csv_header, FIRST_YEAR, LAST_YEAR, MIN_TEMPERATURE_TENTHS, MAX_TEMPERATURE_TENTHS,
    MIN_PRESSURE_TENTHS, MAX_PRESSURE_TENTHS,
};
use crate::source::{DrawSource, ScriptState, clamp, scripted_pick, scripted_step};
use crate::station::{StationType, station_at};
use crate::text::{decimal, zero_padded};

verus! {

pub const MIN_RECORDS: i64 = 10;
pub const MAX_RECORDS: i64 = 20;

/// The date that a scripted source in state `st` yields, and the state
/// after it: year, month, then a day within the month.
pub open spec fn date_model(st: ScriptState) -> (Date, ScriptState) {
    let year = scripted_pick(st, FIRST_YEAR as int, LAST_YEAR as int);
    let s1 = scripted_step(st);
    let month = scripted_pick(s1, 1, 12);
    let s2 = scripted_step(s1);
    let day = scripted_pick(s2, 1, days_in_month(month));
    let s3 = scripted_step(s2);
    (Date { year: year as u16, month: month as u8, day: day as u8 }, s3)
}

/// The record that a scripted source in state `st` yields, and the state
/// after it: station, temperature, pressure, then the date.
pub open spec fn record_model(st: ScriptState) -> (WeatherRecord, ScriptState) {
    let index = scripted_pick(st, 0, 4);
    let s1 = scripted_step(st);
    let temperature = scripted_pick(s1, MIN_TEMPERATURE_TENTHS as int, MAX_TEMPERATURE_TENTHS as int);
    let s2 = scripted_step(s1);
    let pressure = scripted_pick(s2, MIN_PRESSURE_TENTHS as int, MAX_PRESSURE_TENTHS as int);
    let s3 = scripted_step(s2);
    let (date, s4) = date_model(s3);
    (
        WeatherRecord {
            date,
            station: station_at(index),
            temperature_tenths: temperature as i32,
            pressure_tenths: pressure as i32,
        },
        s4,
    )
}

/// The first `n` records that a scripted source in state `st` yields, and
/// the state after them.
pub open spec fn records_model(st: ScriptState, n: nat) -> (Seq<WeatherRecord>, ScriptState)
    decreases n,
{
    if n == 0 {
        (Seq::empty(), st)
    } else {
        let (rs, s) = records_model(st, (n - 1) as nat);
        let (r, s2) = record_model(s);
        (rs.push(r), s2)
    }
}

/// The dataset that a scripted source in state `st` yields: a count, then
/// that many records.
pub open spec fn dataset_model(st: ScriptState) -> Seq<WeatherRecord> {
    let n = scripted_pick(st, MIN_RECORDS as int, MAX_RECORDS as int);
    records_model(scripted_step(st), n as nat).0
}

/// Two runs driven by scripts in the same state yield the same records, and
/// so the same text line for line: nothing but the script decides the
/// output.
pub proof fn lemma_scripted_runs_agree(a: ScriptState, b: ScriptState)
    requires
        a == b,
    ensures
        dataset_model(a) == dataset_model(b),
        forall|i: int|
            0 <= i < dataset_model(a).len() ==> csv_line(#[trigger] dataset_model(a)[i]) == csv_line(
                dataset_model(b)[i],
            ),
{
}

/// Draws a date of the years 2020 to 2025; February always has 28 days.
pub fn generate_random_date(src: &mut DrawSource) -> (r: Date)
    requires
        old(src).wf(),
    ensures
        final(src).wf(),
        final(src).is_scripted() == old(src).is_scripted(),
        valid_date(r),
        old(src).is_scripted() ==> (r, final(src).state()) == date_model(old(src).state()),
{
    let year = src.draw(FIRST_YEAR as i64, LAST_YEAR as i64);
    let month = src.draw(1, 12);
    let last = max_day(month as u8);
    let day = src.draw(1, last as i64);
    Date { year: year as u16, month: month as u8, day: day as u8 }
}

/// Draws one record: a station, a temperature and a pressure in tenths, and
/// a date.
pub fn generate_weather_record(src: &mut DrawSource) -> (r: WeatherRecord)
    requires
        old(src).wf(),
    ensures
        final(src).wf(),
        final(src).is_scripted() == old(src).is_scripted(),
        valid_record(r),
        old(src).is_scripted() ==> (r, final(src).state()) == record_model(old(src).state()),
{
    let stations = StationType::all();
    let index = src.draw(0, 4);
    let station = stations[index as usize];
    let temperature = src.draw(MIN_TEMPERATURE_TENTHS as i64, MAX_TEMPERATURE_TENTHS as i64);
    let pressure = src.draw(MIN_PRESSURE_TENTHS as i64, MAX_PRESSURE_TENTHS as i64);
    let date = generate_random_date(src);
    WeatherRecord {
        date,
        station,
        temperature_tenths: temperature as i32,
        pressure_tenths: pressure as i32,
    }
}

/// Draws a count of 10 to 20, then that many records, in order.
pub fn generate_dataset(src: &mut DrawSource) -> (r: Vec<WeatherRecord>)
    requires
        old(src).wf(),
    ensures
        final(src).wf(),
        final(src).is_scripted() == old(src).is_scripted(),
        MIN_RECORDS <= r.len() <= MAX_RECORDS,
        forall|i: int| 0 <= i < r.len() ==> valid_record(#[trigger] r@[i]),
        old(src).is_scripted() ==> r@ == dataset_model(old(src).state()),
{
    let ghost start = scripted_step(old(src).state());
    let n = src.draw(MIN_RECORDS, MAX_RECORDS);
    let mut records: Vec<WeatherRecord> = Vec::new();
    let mut i: i64 = 0;
    while i < n
        invariant
            0 <= i <= n <= MAX_RECORDS,
            src.wf(),
            src.is_scripted() == old(src).is_scripted(),
            records.len() == i,
            forall|j: int| 0 <= j < records.len() ==> valid_record(#[trigger] records@[j]),
            src.is_scripted() ==> records@ == records_model(start, i as nat).0 && src.state()
                == records_model(start, i as nat).1,
        decreases n - i,
    {
        let rec = generate_weather_record(src);
        records.push(rec);
        i = i + 1;
    }
    records
}

/// The full CSV text of a dataset, one line per element: the header, then
/// one line per record in order.
pub fn csv_lines(records: &Vec<WeatherRecord>) -> (r: Vec<String>)
    ensures
        r.len() == records.len() + 1,
        r@[0]@ == header_text(),
        forall|i: int| 0 <= i < records.len() ==> (#[trigger] r@[i + 1])@ == csv_line(records@[i]),
{
    let mut lines: Vec<String> = Vec::new();
    lines.push(csv_header());
    let mut i: usize = 0;
    while i < records.len()
        invariant
            i <= records.len(),
            lines.len() == i + 1,
            lines@[0]@ == header_text(),
            forall|j: int| 0 <= j < i ==> (#[trigger] lines@[j + 1])@ == csv_line(records@[j]),
        decreases records.len() - i,
    {
        lines.push(records[i].to_csv_line());
        i = i + 1;
    }
    lines
}

/// A script whose values all equal `v`, at a valid position.
pub open spec fn constant_script(st: ScriptState, v: i64) -> bool {
    &&& 0 <= st.pos < st.values.len()
    &&& forall|i: int| 0 <= i < st.values.len() ==> st.values[i] == v
}

/// The record that a script made of `v` alone yields.
pub open spec fn constant_record(v: i64) -> WeatherRecord {
    record_model(ScriptState { values: seq![v], pos: 0 }).0
}

proof fn lemma_constant_step(st: ScriptState, v: i64)
    requires
        constant_script(st, v),
    ensures
        constant_script(scripted_step(st), v),
        forall|lo: int, hi: int| #[trigger] scripted_pick(st, lo, hi) == clamp(v as int, lo, hi),
{
    lemma_mod_bound(st.pos + 1, st.values.len() as int);
}

proof fn lemma_constant_record(st: ScriptState, v: i64)
    requires
        constant_script(st, v),
    ensures
        record_model(st).0 == constant_record(v),
        constant_script(record_model(st).1, v),
{
    let one = ScriptState { values: seq![v], pos: 0 };
    lemma_constant_step(st, v);
    let a1 = scripted_step(st);
    lemma_constant_step(a1, v);
    let a2 = scripted_step(a1);
    lemma_constant_step(a2, v);
    let a3 = scripted_step(a2);
    lemma_constant_step(a3, v);
    let a4 = scripted_step(a3);
    lemma_constant_step(a4, v);
    let a5 = scripted_step(a4);
    lemma_constant_step(a5, v);
    lemma_constant_step(one, v);
    let b1 = scripted_step(one);
    lemma_constant_step(b1, v);
    let b2 = scripted_step(b1);
    lemma_constant_step(b2, v);
    let b3 = scripted_step(b2);
    lemma_constant_step(b3, v);
    let b4 = scripted_step(b3);
    lemma_constant_step(b4, v);
    let b5 = scripted_step(b4);
    lemma_constant_step(b5, v);
}

proof fn lemma_constant_records(st: ScriptState, v: i64, n: nat)
    requires
        constant_script(st, v),
    ensures
        records_model(st, n).0 == Seq::new(n, |i: int| constant_record(v)),
        constant_script(records_model(st, n).1, v),
    decreases n,
{
    if n > 0 {
        lemma_constant_records(st, v, (n - 1) as nat);
        lemma_constant_record(records_model(st, (n - 1) as nat).1, v);
        assert(records_model(st, n).0 =~= Seq::new(n, |i: int| constant_record(v)));
    }
}

/// A script that only ever answers the lowest value of each range yields
/// ten records, each `2020-01-01,StationA,-10.0,980.0`.
pub proof fn lemma_lowest_script(st: ScriptState)
    requires
        constant_script(st, i64::MIN),
    ensures
        dataset_model(st) == Seq::new(10, |i: int| constant_record(i64::MIN)),
        csv_line(constant_record(i64::MIN)) == "2020-01-01,StationA,-10.0,980.0"@,
{
    lemma_constant_step(st, i64::MIN);
    lemma_constant_records(scripted_step(st), i64::MIN, 10);
    let one = ScriptState { values: seq![i64::MIN], pos: 0 };
    lemma_constant_record(one, i64::MIN);
    assert(constant_record(i64::MIN) == (WeatherRecord {
        date: Date { year: 2020, month: 1, day: 1 },
        station: StationType::StationA,
        temperature_tenths: -100i32,
        pressure_tenths: 9800,
    }));
    assert(decimal(2) == seq!['2']);
    assert(decimal(20) == seq!['2', '0']);
    assert(decimal(202) == seq!['2', '0', '2']);
    assert(decimal(2020) =~= seq!['2', '0', '2', '0']);
    assert(decimal(1) == seq!['1']);
    assert(zero_padded(1, 2) =~= seq!['0', '1']);
    assert(decimal(10) == seq!['1', '0']);
    assert(decimal(9) == seq!['9']);
    assert(decimal(98) =~= seq!['9', '8']);
    assert(decimal(980) =~= seq!['9', '8', '0']);
    reveal_strlit("StationA");
    reveal_strlit("2020-01-01,StationA,-10.0,980.0");
    assert(csv_line(constant_record(i64::MIN)) =~= "2020-01-01,StationA,-10.0,980.0"@);
}

/// A script that only ever answers the highest value of each range yields
/// twenty records, each `2025-12-31,StationE,40.0,1050.0`.
pub proof fn lemma_highest_script(st: ScriptState)
    requires
        constant_script(st, i64::MAX),
    ensures
        dataset_model(st) == Seq::new(20, |i: int| constant_record(i64::MAX)),
        csv_line(constant_record(i64::MAX)) == "2025-12-31,StationE,40.0,1050.0"@,
{
    lemma_constant_step(st, i64::MAX);
    lemma_constant_records(scripted_step(st), i64::MAX, 20);
    let one = ScriptState { values: seq![i64::MAX], pos: 0 };
    lemma_constant_record(one, i64::MAX);
    assert(constant_record(i64::MAX) == (WeatherRecord {
        date: Date { year: 2025, month: 12, day: 31 },
        station: StationType::StationE,
        temperature_tenths: 400,
        pressure_tenths: 10500,
    }));
    assert(decimal(2) == seq!['2']);
    assert(decimal(20) == seq!['2', '0']);
    assert(decimal(202) == seq!['2', '0', '2']);
    assert(decimal(2025) =~= seq!['2', '0', '2', '5']);
    assert(decimal(1) == seq!['1']);
    assert(decimal(12) =~= seq!['1', '2']);
    assert(decimal(3) == seq!['3']);
    assert(decimal(31) =~= seq!['3', '1']);
    assert(decimal(4) == seq!['4']);
    assert(decimal(40) =~= seq!['4', '0']);
    assert(decimal(10) =~= seq!['1', '0']);
    assert(decimal(105) =~= seq!['1', '0', '5']);
    assert(decimal(1050) =~= seq!['1', '0', '5', '0']);
    reveal_strlit("StationE");
    reveal_strlit("2025-12-31,StationE,40.0,1050.0");
    assert(csv_line(constant_record(i64::MAX)) =~= "2025-12-31,StationE,40.0,1050.0"@);
}

} // verus!
