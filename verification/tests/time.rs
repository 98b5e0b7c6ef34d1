use audio_switcher::bluetooth::time::RawTime;
use audio_switcher::bluetooth::Time;
use chrono::NaiveDate;

fn record(year: u16, month: u16, day: u16, hour: u16, minute: u16, second: u16) -> RawTime {
    RawTime { year, month, day_of_week: 0, day, hour, minute, second, milliseconds: 0 }
}

#[test]
fn a_valid_record_keeps_its_fields() {
    let time: Time = record(2023, 4, 30, 23, 59, 58).to_time().unwrap();
    assert_eq!(time.year(), 2023);
    assert_eq!(time.month(), 4);
    assert_eq!(time.day(), 30);
    assert_eq!(time.hour(), 23);
    assert_eq!(time.minute(), 59);
    assert_eq!(time.second(), 58);
}

#[test]
fn day_of_week_and_milliseconds_play_no_part() {
    let plain = record(2024, 1, 2, 3, 4, 5);
    let other = RawTime { day_of_week: 9, milliseconds: 999, ..plain };
    assert_eq!(plain.to_time(), other.to_time());
    assert!(other.to_time().is_some());
}

#[test]
fn a_zeroed_record_names_no_time() {
    assert_eq!(record(0, 0, 0, 0, 0, 0).to_time(), None);
}

#[test]
fn month_must_be_from_one_to_twelve() {
    assert!(record(2023, 0, 1, 0, 0, 0).to_time().is_none());
    assert!(record(2023, 1, 1, 0, 0, 0).to_time().is_some());
    assert!(record(2023, 12, 1, 0, 0, 0).to_time().is_some());
    assert!(record(2023, 13, 1, 0, 0, 0).to_time().is_none());
    assert!(record(2023, 65535, 1, 0, 0, 0).to_time().is_none());
}

#[test]
fn day_must_exist_in_its_month() {
    assert!(record(2023, 1, 0, 0, 0, 0).to_time().is_none());
    assert!(record(2023, 1, 31, 0, 0, 0).to_time().is_some());
    assert!(record(2023, 1, 32, 0, 0, 0).to_time().is_none());
    assert!(record(2023, 4, 30, 0, 0, 0).to_time().is_some());
    assert!(record(2023, 4, 31, 0, 0, 0).to_time().is_none());
    assert!(record(2023, 6, 31, 0, 0, 0).to_time().is_none());
    assert!(record(2023, 9, 31, 0, 0, 0).to_time().is_none());
    assert!(record(2023, 11, 31, 0, 0, 0).to_time().is_none());
    assert!(record(2023, 12, 31, 0, 0, 0).to_time().is_some());
    assert!(record(2023, 12, 65535, 0, 0, 0).to_time().is_none());
}

#[test]
fn february_follows_the_leap_years() {
    assert!(record(2023, 2, 28, 0, 0, 0).to_time().is_some());
    assert!(record(2023, 2, 29, 0, 0, 0).to_time().is_none());
    assert!(record(2024, 2, 29, 0, 0, 0).to_time().is_some());
    assert!(record(2024, 2, 30, 0, 0, 0).to_time().is_none());
    assert!(record(1900, 2, 29, 0, 0, 0).to_time().is_none());
    assert!(record(2000, 2, 29, 0, 0, 0).to_time().is_some());
    assert!(record(2100, 2, 29, 0, 0, 0).to_time().is_none());
    assert!(record(0, 2, 29, 0, 0, 0).to_time().is_some());
}

#[test]
fn every_year_of_a_record_is_in_range() {
    assert!(record(0, 1, 1, 0, 0, 0).to_time().is_some());
    assert!(record(1601, 1, 1, 0, 0, 0).to_time().is_some());
    assert!(record(30827, 12, 31, 0, 0, 0).to_time().is_some());
    assert_eq!(record(65535, 12, 31, 23, 59, 59).to_time().unwrap().year(), 65535);
}

#[test]
fn time_of_day_must_be_valid() {
    assert!(record(2023, 1, 1, 23, 59, 59).to_time().is_some());
    assert!(record(2023, 1, 1, 24, 0, 0).to_time().is_none());
    assert!(record(2023, 1, 1, 0, 60, 0).to_time().is_none());
    assert!(record(2023, 1, 1, 0, 0, 60).to_time().is_none());
    assert!(record(2023, 1, 1, 65535, 0, 0).to_time().is_none());
}

#[test]
fn records_agree_with_chrono_on_what_exists() {
    let years: [u16; 12] = [0, 1, 4, 100, 400, 1600, 1900, 2000, 2023, 2024, 2100, 65535];
    for year in years {
        for month in 0..=14u16 {
            for day in 0..=33u16 {
                let ours = record(year, month, day, 12, 0, 0).to_time();
                let theirs = NaiveDate::from_ymd_opt(year.into(), month.into(), day.into());
                assert_eq!(ours.is_some(), theirs.is_some());
            }
        }
    }
    for hour in 0..=25u16 {
        for minute in [0u16, 1, 59, 60, 61] {
            for second in [0u16, 1, 59, 60, 61] {
                let ours = record(2023, 6, 15, hour, minute, second).to_time();
                let theirs = NaiveDate::from_ymd_opt(2023, 6, 15)
                    .unwrap()
                    .and_hms_opt(hour.into(), minute.into(), second.into());
                assert_eq!(ours.is_some(), theirs.is_some());
            }
        }
    }
}

#[test]
fn chrono_value_names_the_same_second() {
    let time = record(2024, 2, 29, 13, 14, 15).to_time().unwrap();
    let expected = NaiveDate::from_ymd_opt(2024, 2, 29).unwrap().and_hms_opt(13, 14, 15).unwrap();
    assert_eq!(time.to_naive_date_time(), expected);
    assert_ne!(
        time.to_naive_date_time(),
        NaiveDate::from_ymd_opt(2024, 2, 29).unwrap().and_hms_opt(13, 14, 16).unwrap()
    );
}

#[test]
fn chrono_value_of_the_last_second_of_a_record() {
    let time = record(65535, 12, 31, 23, 59, 59).to_time().unwrap();
    let expected =
        NaiveDate::from_ymd_opt(65535, 12, 31).unwrap().and_hms_opt(23, 59, 59).unwrap();
    assert_eq!(time.to_naive_date_time(), expected);
}
