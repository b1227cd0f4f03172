use vstd::prelude::*;
use crate::record::{WeatherRecord, Date, valid_record, valid_date, csv_line, date_text};
use crate::station::{StationType, station_name};
use crate::text::{digit_char, decimal, zeros, zero_padded, tenths_text};

verus! {

pub open spec fn is_digit(c: char) -> bool {
    '0' <= c <= '9'
}

/// One or more decimal digits.
pub open spec fn digit_run(s: Seq<char>) -> bool {
    &&& s.len() >= 1
    &&& forall|i: int| 0 <= i < s.len() ==> is_digit(#[trigger] s[i])
}

/// Four digits, `-`, two digits, `-`, two digits.
pub open spec fn date_shaped(s: Seq<char>) -> bool {
    &&& s.len() == 10
    &&& digit_run(s.subrange(0, 4))
    &&& s[4] == '-'
    &&& digit_run(s.subrange(5, 7))
    &&& s[7] == '-'
    &&& digit_run(s.subrange(8, 10))
}

/// `Station` followed by one letter of `A` to `E`.
pub open spec fn station_shaped(s: Seq<char>) -> bool {
    &&& s.len() == 8
    &&& s.subrange(0, 7) == "Station"@
    &&& 'A' <= s[7] <= 'E'
}

/// Digits, a point, and one digit.
pub open spec fn unsigned_tenths_shaped(s: Seq<char>) -> bool {
    &&& s.len() >= 3
    &&& digit_run(s.subrange(0, s.len() - 2))
    &&& s[s.len() - 2] == '.'
    &&& is_digit(s[s.len() - 1])
}

/// An optional `-`, digits, a point, and one digit.
pub open spec fn signed_tenths_shaped(s: Seq<char>) -> bool {
    unsigned_tenths_shaped(s) || (s.len() >= 1 && s[0] == '-' && unsigned_tenths_shaped(
        s.subrange(1, s.len() as int),
    ))
}

/// A data line of the form `dddd-dd-dd,StationX,[-]d+.d,d+.d`.
pub open spec fn line_shaped(line: Seq<char>) -> bool {
    exists|d: Seq<char>, st: Seq<char>, t: Seq<char>, p: Seq<char>|
        line == d + seq![','] + st + seq![','] + t + seq![','] + p && date_shaped(d)
            && station_shaped(st) && signed_tenths_shaped(t) && unsigned_tenths_shaped(p)
}

proof fn lemma_decimal_digits(n: nat)
    ensures
        digit_run(decimal(n)),
    decreases n,
{
    if n >= 10 {
        lemma_decimal_digits(n / 10);
    }
}

proof fn lemma_decimal_len(n: nat)
    ensures
        n < 10 ==> decimal(n).len() == 1,
        10 <= n < 100 ==> decimal(n).len() == 2,
        100 <= n < 1000 ==> decimal(n).len() == 3,
        1000 <= n < 10000 ==> decimal(n).len() == 4,
    decreases n,
{
    if n >= 10 {
        lemma_decimal_len(n / 10);
    }
}

proof fn lemma_padded_digits(n: nat, width: nat)
    requires
        n < 10000,
        width == 2 ==> n < 100,
        width == 4 ==> n >= 1000,
        width == 2 || width == 4,
    ensures
        zero_padded(n, width).len() == width,
        digit_run(zero_padded(n, width)),
{
    lemma_decimal_len(n);
    lemma_decimal_digits(n);
    let d = decimal(n);
    if d.len() < width {
        let z = zeros((width - d.len()) as nat);
        let s = z + d;
        assert forall|i: int| 0 <= i < s.len() implies is_digit(#[trigger] s[i]) by {
            if i >= z.len() {
                assert(s[i] == d[i - z.len()]);
            }
        }
    }
}

proof fn lemma_date_shaped(d: Date)
    requires
        valid_date(d),
    ensures
        date_shaped(date_text(d)),
{
    lemma_padded_digits(d.year as nat, 4);
    lemma_padded_digits(d.month as nat, 2);
    lemma_padded_digits(d.day as nat, 2);
    let y = zero_padded(d.year as nat, 4);
    let m = zero_padded(d.month as nat, 2);
    let dd = zero_padded(d.day as nat, 2);
    let s = date_text(d);
    assert(s.subrange(0, 4) =~= y);
    assert(s.subrange(5, 7) =~= m);
    assert(s.subrange(8, 10) =~= dd);
}

proof fn lemma_station_shaped(s: StationType)
    ensures
        station_shaped(station_name(s)),
{
    reveal_strlit("Station");
    reveal_strlit("StationA");
    reveal_strlit("StationB");
    reveal_strlit("StationC");
    reveal_strlit("StationD");
    reveal_strlit("StationE");
    assert(station_name(s).subrange(0, 7) =~= "Station"@);
}

proof fn lemma_unsigned_shaped(q: nat, f: int)
    ensures
        unsigned_tenths_shaped(decimal(q) + seq!['.', digit_char(f)]),
{
    lemma_decimal_digits(q);
    let s = decimal(q) + seq!['.', digit_char(f)];
    assert(s.subrange(0, s.len() - 2) =~= decimal(q));
}

proof fn lemma_tenths_shaped(t: int)
    ensures
        signed_tenths_shaped(tenths_text(t)),
        t >= 0 ==> unsigned_tenths_shaped(tenths_text(t)),
{
    let a = if t < 0 {
        -t
    } else {
        t
    };
    let u = decimal((a / 10) as nat) + seq!['.', digit_char(a % 10)];
    lemma_unsigned_shaped((a / 10) as nat, a % 10);
    let s = tenths_text(t);
    if t < 0 {
        assert(s.subrange(1, s.len() as int) =~= u);
    } else {
        assert(s =~= u);
    }
}

/// Every record that the generator can produce renders as a line of the form
/// `dddd-dd-dd,StationX,[-]d+.d,d+.d`, with `X` one of `A` to `E`.
pub proof fn lemma_csv_line_shaped(r: WeatherRecord)
    requires
        valid_record(r),
    ensures
        line_shaped(csv_line(r)),
{
    lemma_date_shaped(r.date);
    lemma_station_shaped(r.station);
    lemma_tenths_shaped(r.temperature_tenths as int);
    lemma_tenths_shaped(r.pressure_tenths as int);
    let d = date_text(r.date);
    let st = station_name(r.station);
    let t = tenths_text(r.temperature_tenths as int);
    let p = tenths_text(r.pressure_tenths as int);
    assert(csv_line(r) == d + seq![','] + st + seq![','] + t + seq![','] + p);
}

} // verus!
