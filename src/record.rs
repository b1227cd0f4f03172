use vstd::prelude::*;
use crate::station::{StationType, station_name};
use crate::text::{zero_padded, tenths_text, push_zero_padded, push_tenths};

verus! {

/// A calendar date as year, month and day.
#[derive(Copy, Clone, Debug, PartialEq, Eq, Structural)]
pub struct Date {
    pub year: u16,
    pub month: u8,
    pub day: u8,
}

/// One weather observation. Temperature (degrees Celsius) and pressure (hPa)
/// are held in tenths, so `-105` stands for `-10.5`.
#[derive(Copy, Clone, Debug, PartialEq, Eq, Structural)]
pub struct WeatherRecord {
    pub date: Date,
    pub station: StationType,
    pub temperature_tenths: i32,
    pub pressure_tenths: i32,
}

pub const FIRST_YEAR: u16 = 2020;
pub const LAST_YEAR: u16 = 2025;
pub const MIN_TEMPERATURE_TENTHS: i32 = -100;
pub const MAX_TEMPERATURE_TENTHS: i32 = 400;
pub const MIN_PRESSURE_TENTHS: i32 = 9800;
pub const MAX_PRESSURE_TENTHS: i32 = 10500;

/// The number of days of a month in the simplified calendar, which gives
/// February 28 days in every year. Values outside `1..=12` get 30.
pub open spec fn days_in_month(month: int) -> int {
    if month == 1 || month == 3 || month == 5 || month == 7 || month == 8 || month == 10
        || month == 12 {
        31
    } else if month == 4 || month == 6 || month == 9 || month == 11 {
        30
    } else if month == 2 {
        28
    } else {
        30
    }
}

/// A date that the generator can produce.
pub open spec fn valid_date(d: Date) -> bool {
    &&& FIRST_YEAR <= d.year <= LAST_YEAR
    &&& 1 <= d.month <= 12
    &&& 1 <= d.day <= days_in_month(d.month as int)
}

/// A record that the generator can produce.
pub open spec fn valid_record(r: WeatherRecord) -> bool {
    &&& valid_date(r.date)
    &&& MIN_TEMPERATURE_TENTHS <= r.temperature_tenths <= MAX_TEMPERATURE_TENTHS
    &&& MIN_PRESSURE_TENTHS <= r.pressure_tenths <= MAX_PRESSURE_TENTHS
}

/// `YYYY-MM-DD`, each part zero-padded.
pub open spec fn date_text(d: Date) -> Seq<char> {
    zero_padded(d.year as nat, 4) + seq!['-'] + zero_padded(d.month as nat, 2) + seq!['-']
        + zero_padded(d.day as nat, 2)
}

/// `date,station,temperature,pressure`, the two measures with one
/// fractional digit.
pub open spec fn csv_line(r: WeatherRecord) -> Seq<char> {
    date_text(r.date) + seq![','] + station_name(r.station) + seq![','] + tenths_text(
        r.temperature_tenths as int,
    ) + seq![','] + tenths_text(r.pressure_tenths as int)
}

/// The header line of the CSV output.
pub open spec fn header_text() -> Seq<char> {
    "Date,Station,Temperature,Pressure"@
}

/// The last day of `month` in the simplified calendar.
pub fn max_day(month: u8) -> (r: u8)
    ensures
        r as int == days_in_month(month as int),
{
    match month {
        1 | 3 | 5 | 7 | 8 | 10 | 12 => 31,
        4 | 6 | 9 | 11 => 30,
        2 => 28,
        _ => 30,
    }
}

/// The header line of the CSV output.
pub fn csv_header() -> (r: String)
    ensures
        r@ == header_text(),
{
    String::from_str("Date,Station,Temperature,Pressure")
}

/// The simplified calendar has no 29 February, not even in the leap year
/// 2024.
pub proof fn lemma_no_leap_day(d: Date)
    requires
        valid_date(d),
    ensures
        !(d.month == 2 && d.day > 28),
{
}

/// Rendering keeps no state: the same record always gives the same line.
pub proof fn lemma_csv_line_repeatable(a: WeatherRecord, b: WeatherRecord)
    requires
        a == b,
    ensures
        csv_line(a) == csv_line(b),
{
}

impl Date {
    /// The date as `YYYY-MM-DD`.
    pub fn to_text(&self) -> (r: String)
        ensures
            r@ == date_text(*self),
    {
        let mut s = String::new();
        self.push_text(&mut s);
        proof {
            assert(s@ =~= date_text(*self));
        }
        s
    }

    fn push_text(&self, s: &mut String)
        ensures
            final(s)@ == old(s)@ + date_text(*self),
    {
        proof {
            reveal_strlit("-");
        }
        let ghost before = s@;
        push_zero_padded(s, self.year as u64, 4);
        s.append("-");
        push_zero_padded(s, self.month as u64, 2);
        s.append("-");
        push_zero_padded(s, self.day as u64, 2);
        assert(s@ =~= before + date_text(*self));
    }
}

impl WeatherRecord {
    /// The record as one CSV line, without a line break.
    pub fn to_csv_line(&self) -> (r: String)
        ensures
            r@ == csv_line(*self),
    {
        proof {
            reveal_strlit(",");
        }
        let mut s = String::new();
        self.date.push_text(&mut s);
        s.append(",");
        let name = self.station.to_string();
        s.append(name.as_str());
        s.append(",");
        push_tenths(&mut s, self.temperature_tenths);
        s.append(",");
        push_tenths(&mut s, self.pressure_tenths);
        assert(s@ =~= csv_line(*self));
        s
    }
}

} // verus!
