use chrono::{Datelike, Duration, NaiveDate, NaiveTime, Timelike};
use plaud_timestamp::calendar::{Date, TimeOfDay};
use plaud_timestamp::cli::parse_hms;
use plaud_timestamp::sort_key::{extract_nested_day_directory, FileSortKey};
use plaud_timestamp::transcript::apply_offset;

const YEARS: [i32; 15] = [
    -262143, -100000, -10000, -9999, -1000, -1, 0, 1, 999, 1000, 2024, 9999, 10000, 99999, 262142,
];

#[test]
fn dates_are_written_as_chrono_writes_them() {
    for year in YEARS {
        for (month, day) in [(1, 1), (2, 28), (7, 4), (10, 31), (12, 31)] {
            let date = Date::from_ymd_opt(year, month, day).unwrap();
            let naive = NaiveDate::from_ymd_opt(year, month, day).unwrap();
            assert_eq!(date.format_dashed(), naive.format("%Y-%m-%d").to_string());
            assert_eq!(date.format_compact(), naive.format("%Y%m%d").to_string());
        }
    }
}

#[test]
fn times_are_written_as_chrono_writes_them() {
    let mut secs = 0;
    while secs < 86400 {
        let time = TimeOfDay::from_num_seconds_from_midnight_opt(secs).unwrap();
        let naive = NaiveTime::from_num_seconds_from_midnight_opt(secs, 0).unwrap();
        assert_eq!(time.format_clock(), naive.format("%H:%M:%S").to_string());
        assert_eq!(time.format_compact(), naive.format("%H%M%S").to_string());
        assert_eq!(
            (time.hour(), time.minute(), time.second()),
            (naive.hour(), naive.minute(), naive.second())
        );
        secs += 271;
    }
}

#[test]
fn well_shaped_times_are_read_as_chrono_reads_them() {
    for hour in 0..30 {
        for minute in [0, 1, 9, 10, 30, 59, 60, 61, 99] {
            for second in [0, 1, 9, 10, 30, 59, 61, 99] {
                let text = format!("{:02}:{:02}:{:02}", hour, minute, second);
                let ours = parse_hms(&text).ok().map(|t| t.num_seconds_from_midnight());
                let theirs = NaiveTime::parse_from_str(&text, "%H:%M:%S")
                    .ok()
                    .map(|t| t.num_seconds_from_midnight());
                assert_eq!(ours, theirs, "{}", text);
            }
        }
    }
}

#[test]
fn dates_exist_where_chrono_has_them() {
    for year in [-262144, -262143, -401, -400, -100, -4, -1, 0, 1, 1900, 2000, 2023, 2024, 2100, 262142, 262143] {
        for month in 0..14 {
            for day in [0, 1, 27, 28, 29, 30, 31, 32] {
                let ours = Date::from_ymd_opt(year, month, day).map(|d| (d.year(), d.month(), d.day()));
                let theirs = NaiveDate::from_ymd_opt(year, month, day)
                    .map(|d| (d.year(), d.month(), d.day()));
                assert_eq!(ours, theirs, "{}-{}-{}", year, month, day);
            }
        }
    }
}

#[test]
fn offsets_are_added_as_chrono_adds_them() {
    let dates = [
        (2024, 12, 25),
        (2024, 12, 31),
        (2024, 2, 28),
        (2024, 2, 29),
        (2023, 2, 28),
        (1900, 2, 28),
        (2000, 2, 28),
        (2025, 4, 30),
        (-1, 12, 31),
        (9999, 12, 31),
        (262142, 12, 30),
    ];
    let seconds = [0u32, 1, 3600, 43199, 43200, 43201, 86398, 86399];
    for (year, month, day) in dates {
        let date = Date::from_ymd_opt(year, month, day).unwrap();
        let naive = NaiveDate::from_ymd_opt(year, month, day).unwrap();
        for start in seconds {
            for offset in seconds {
                let ours = apply_offset(
                    TimeOfDay::from_num_seconds_from_midnight_opt(start).unwrap(),
                    date,
                    TimeOfDay::from_num_seconds_from_midnight_opt(offset).unwrap(),
                );
                let theirs = naive
                    .and_time(NaiveTime::from_num_seconds_from_midnight_opt(start, 0).unwrap())
                    + Duration::seconds(offset as i64);
                assert_eq!(
                    (
                        ours.date().year(),
                        ours.date().month(),
                        ours.date().day(),
                        ours.time().num_seconds_from_midnight()
                    ),
                    (
                        theirs.year(),
                        theirs.month(),
                        theirs.day(),
                        theirs.time().num_seconds_from_midnight()
                    )
                );
            }
        }
    }
}

#[test]
fn dates_in_names_are_read_as_chrono_reads_them() {
    for year in [0, 1, 999, 1900, 2000, 2023, 2024, 9999] {
        for month in [0, 1, 2, 4, 12, 13, 99] {
            for day in [0, 1, 28, 29, 30, 31, 32, 99] {
                let compact = format!("{:04}{:02}{:02}", year, month, day);
                let theirs = NaiveDate::parse_from_str(&compact, "%Y%m%d")
                    .ok()
                    .map(|d| (d.year(), d.month(), d.day()));
                let ours = FileSortKey::from_path(&format!("{}_000000_000000.txt", compact))
                    .ok()
                    .map(|key| key.date.unwrap())
                    .map(|d| (d.year(), d.month(), d.day()));
                assert_eq!(ours, theirs, "{}", compact);

                let dashed = format!("{:04}-{:02}-{:02}", year, month, day);
                let theirs = NaiveDate::parse_from_str(&dashed, "%Y-%m-%d")
                    .ok()
                    .map(|d| (d.year(), d.month(), d.day()));
                let ours = extract_nested_day_directory(&format!("x/{}/a.txt", dashed))
                    .map(|found| found.1)
                    .map(|d| (d.year(), d.month(), d.day()));
                assert_eq!(ours, theirs, "{}", dashed);

                let nested = format!("{:04}/{:02}/{:02}/a.txt", year, month, day);
                let ours = extract_nested_day_directory(&nested)
                    .map(|found| found.1)
                    .map(|d| (d.year(), d.month(), d.day()));
                assert_eq!(ours, theirs, "{}", nested);
            }
        }
    }
}

#[test]
fn times_in_names_are_read_as_chrono_takes_them() {
    for hour in [0, 1, 23, 24, 99] {
        for minute in [0, 59, 60, 99] {
            for second in [0, 59, 60, 99] {
                let theirs = NaiveTime::from_hms_opt(hour, minute, second)
                    .map(|t| t.num_seconds_from_midnight());
                let name = format!("{:02}{:02}{:02}-000000.txt", hour, minute, second);
                let ours = FileSortKey::from_path(&name)
                    .ok()
                    .map(|key| key.start.num_seconds_from_midnight());
                assert_eq!(ours, theirs, "{}", name);
            }
        }
    }
}
