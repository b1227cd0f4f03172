use weather_report::generate::{csv_lines, generate_dataset, generate_random_date, generate_weather_record};
use weather_report::record::{csv_header, max_day, Date, WeatherRecord};
use weather_report::source::DrawSource;
use weather_report::station::StationType;

fn scripted(values: Vec<i64>) -> DrawSource {
    DrawSource::scripted(values).expect("a non-empty script")
}

fn is_digits(s: &str) -> bool {
    !s.is_empty() && s.chars().all(|c| c.is_ascii_digit())
}

fn is_unsigned_tenths(s: &str) -> bool {
    match s.split_once('.') {
        Some((whole, frac)) => is_digits(whole) && frac.len() == 1 && is_digits(frac),
        None => false,
    }
}

fn is_data_line(line: &str) -> bool {
    let parts: Vec<&str> = line.split(',').collect();
    if parts.len() != 4 {
        return false;
    }
    let date: Vec<&str> = parts[0].split('-').collect();
    let date_ok = date.len() == 3
        && date[0].len() == 4
        && date[1].len() == 2
        && date[2].len() == 2
        && date.iter().all(|p| is_digits(p));
    let station_ok = matches!(
        parts[1],
        "StationA" | "StationB" | "StationC" | "StationD" | "StationE"
    );
    let temp = parts[2].strip_prefix('-').unwrap_or(parts[2]);
    date_ok && station_ok && is_unsigned_tenths(temp) && is_unsigned_tenths(parts[3])
}

fn record(year: u16, month: u8, day: u8, station: StationType, t: i32, p: i32) -> WeatherRecord {
    WeatherRecord {
        date: Date { year, month, day },
        station,
        temperature_tenths: t,
        pressure_tenths: p,
    }
}

#[test]
fn station_names() {
    assert_eq!(StationType::StationA.to_string(), "StationA");
    assert_eq!(StationType::StationB.to_string(), "StationB");
    assert_eq!(StationType::StationC.to_string(), "StationC");
    assert_eq!(StationType::StationD.to_string(), "StationD");
    assert_eq!(StationType::StationE.to_string(), "StationE");
}

#[test]
fn all_stations_in_order() {
    assert_eq!(
        StationType::all(),
        [
            StationType::StationA,
            StationType::StationB,
            StationType::StationC,
            StationType::StationD,
            StationType::StationE,
        ]
    );
}

#[test]
fn month_lengths() {
    let expected = [31, 28, 31, 30, 31, 30, 31, 31, 30, 31, 30, 31];
    for (i, &days) in expected.iter().enumerate() {
        assert_eq!(max_day(i as u8 + 1), days);
    }
    assert_eq!(max_day(0), 30);
    assert_eq!(max_day(13), 30);
}

#[test]
fn date_is_zero_padded() {
    assert_eq!(Date { year: 2020, month: 1, day: 1 }.to_text(), "2020-01-01");
    assert_eq!(Date { year: 2024, month: 11, day: 9 }.to_text(), "2024-11-09");
    assert_eq!(Date { year: 7, month: 3, day: 15 }.to_text(), "0007-03-15");
}

#[test]
fn csv_line_formats() {
    let low = record(2020, 1, 1, StationType::StationA, -100, 9800);
    assert_eq!(low.to_csv_line(), "2020-01-01,StationA,-10.0,980.0");
    let high = record(2025, 12, 31, StationType::StationE, 400, 10500);
    assert_eq!(high.to_csv_line(), "2025-12-31,StationE,40.0,1050.0");
    let mid = record(2023, 6, 5, StationType::StationC, -5, 10132);
    assert_eq!(mid.to_csv_line(), "2023-06-05,StationC,-0.5,1013.2");
    let zero = record(2021, 10, 30, StationType::StationB, 0, 9999);
    assert_eq!(zero.to_csv_line(), "2021-10-30,StationB,0.0,999.9");
    let plain = record(2022, 2, 28, StationType::StationD, 237, 10000);
    assert_eq!(plain.to_csv_line(), "2022-02-28,StationD,23.7,1000.0");
}

#[test]
fn csv_line_repeatable() {
    let r = record(2022, 7, 14, StationType::StationD, 123, 10045);
    let first = r.to_csv_line();
    let second = r.to_csv_line();
    assert_eq!(first, second);
    assert_eq!(first, "2022-07-14,StationD,12.3,1004.5");
}

#[test]
fn header_line() {
    assert_eq!(csv_header(), "Date,Station,Temperature,Pressure");
}

#[test]
fn empty_script_is_refused() {
    assert!(DrawSource::scripted(Vec::new()).is_none());
    assert!(DrawSource::scripted(vec![0]).is_some());
}

#[test]
fn scripted_draws_are_clamped_and_cycle() {
    let mut src = scripted(vec![5, -3, 100]);
    assert_eq!(src.draw(0, 10), 5);
    assert_eq!(src.draw(0, 10), 0);
    assert_eq!(src.draw(0, 10), 10);
    assert_eq!(src.draw(0, 10), 5);
    assert_eq!(src.draw(-7, -7), -7);
}

#[test]
fn scripted_date_and_record() {
    let mut src = scripted(vec![2023, 4, 17]);
    assert_eq!(generate_random_date(&mut src), Date { year: 2023, month: 4, day: 17 });
    let mut src = scripted(vec![2, 251, 10010, 2021, 9, 30]);
    let r = generate_weather_record(&mut src);
    assert_eq!(r, record(2021, 9, 30, StationType::StationC, 251, 10010));
    assert_eq!(r.to_csv_line(), "2021-09-30,StationC,25.1,1001.0");
}

#[test]
fn no_leap_day_even_in_leap_year() {
    let mut src = scripted(vec![2024, 2, 29]);
    let d = generate_random_date(&mut src);
    assert_eq!(d, Date { year: 2024, month: 2, day: 28 });
    let mut src = scripted(vec![2024, 4, 31]);
    assert_eq!(generate_random_date(&mut src).day, 30);
}

#[test]
fn minimum_source_gives_ten_lowest_lines() {
    let mut src = scripted(vec![i64::MIN]);
    let records = generate_dataset(&mut src);
    let lines = csv_lines(&records);
    assert_eq!(lines.len(), 11);
    assert_eq!(lines[0], "Date,Station,Temperature,Pressure");
    for line in &lines[1..] {
        assert_eq!(line, "2020-01-01,StationA,-10.0,980.0");
    }
}

#[test]
fn maximum_source_gives_twenty_highest_lines() {
    let mut src = scripted(vec![i64::MAX]);
    let records = generate_dataset(&mut src);
    let lines = csv_lines(&records);
    assert_eq!(lines.len(), 21);
    assert_eq!(lines[0], "Date,Station,Temperature,Pressure");
    for line in &lines[1..] {
        assert_eq!(line, "2025-12-31,StationE,40.0,1050.0");
    }
}

#[test]
fn same_script_same_output() {
    let script = vec![13, 3, -42, 10321, 2022, 8, 19, 0, 400, 9800, 2025, 2, 30];
    let a = csv_lines(&generate_dataset(&mut scripted(script.clone())));
    let b = csv_lines(&generate_dataset(&mut scripted(script)));
    assert_eq!(a, b);
    assert_eq!(a.len(), 14);
    assert_eq!(a[1], "2022-08-19,StationD,-4.2,1032.1");
    assert_eq!(a[2], "2025-02-28,StationA,40.0,980.0");
}

#[test]
fn random_runs_stay_in_range() {
    for _ in 0..50 {
        let mut src = DrawSource::random();
        let records = generate_dataset(&mut src);
        assert!((10..=20).contains(&records.len()));
        for r in &records {
            assert!((2020..=2025).contains(&r.date.year));
            assert!((1..=12).contains(&r.date.month));
            assert!(r.date.day >= 1 && r.date.day <= max_day(r.date.month));
            assert!(!(r.date.month == 2 && r.date.day > 28));
            assert!((-100..=400).contains(&r.temperature_tenths));
            assert!((9800..=10500).contains(&r.pressure_tenths));
        }
        let lines = csv_lines(&records);
        assert_eq!(lines.len(), records.len() + 1);
        for line in &lines[1..] {
            assert!(is_data_line(line), "{}", line);
        }
    }
}

#[test]
fn random_draws_cover_the_range() {
    let mut src = DrawSource::random();
    let mut seen = [false; 5];
    for _ in 0..500 {
        let v = src.draw(0, 4);
        assert!((0..=4).contains(&v));
        seen[v as usize] = true;
    }
    assert!(seen.iter().all(|&s| s));
}
