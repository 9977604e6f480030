//! The chrono wrappers: conversions and the `i32` lanes they lower to.

use chrono::{Datelike, NaiveDate, NaiveDateTime, NaiveTime, Timelike};
use lower_ir_utils::datetime::lanes_from_parts;
use lower_ir_utils::{JitNaiveDate, JitNaiveDateTime, JitNaiveTime};

#[test]
fn from_conversions_round_trip() {
    let d = NaiveDate::from_ymd_opt(2026, 5, 21).unwrap();
    let w: JitNaiveDate = d.into();
    let d2: NaiveDate = w.into();
    assert_eq!(d, d2);

    let t = NaiveTime::from_hms_nano_opt(12, 34, 56, 789).unwrap();
    let w: JitNaiveTime = t.into();
    let t2: NaiveTime = w.into();
    assert_eq!(t, t2);

    let dt = d.and_time(t);
    let w: JitNaiveDateTime = dt.into();
    let dt2: NaiveDateTime = w.into();
    assert_eq!(dt, dt2);
}

// The date lowers to its days from CE, and chrono rebuilds the date from
// that lane.
#[test]
fn lowers_naive_date_to_i32_days_from_ce() {
    let date = NaiveDate::from_ymd_opt(2026, 5, 21).unwrap();
    let expected_days = date.num_days_from_ce();
    let got = JitNaiveDate(date).scalars();
    assert_eq!(got, vec![expected_days]);
    assert_eq!(NaiveDate::from_num_days_from_ce_opt(got[0]).unwrap(), date);
}

// An earlier single-`i64` `secs * 1_000_000_000 + nano` encoding mapped the
// last nanosecond of a leap second onto the start of the next second; the
// two-lane form keeps them apart.
#[test]
fn leap_second_does_not_collide_with_next_second() {
    let leap = (59u32, 1_000_000_000u32);
    let next = (60u32, 0u32);
    assert_ne!(leap, next);
    assert_ne!(lanes_from_parts(leap.0, leap.1), lanes_from_parts(next.0, next.1));

    let old = |(s, n): (u32, u32)| s as i64 * 1_000_000_000 + n as i64;
    assert_eq!(old(leap), old(next));
}

#[test]
fn date_of_known_day_is_739757() {
    let date = NaiveDate::from_ymd_opt(2026, 5, 21).unwrap();
    assert_eq!(JitNaiveDate(date).scalars(), vec![739_757]);
    let first = NaiveDate::from_ymd_opt(1, 1, 1).unwrap();
    assert_eq!(JitNaiveDate(first).scalars(), vec![1]);
}

#[test]
fn time_lowers_to_seconds_then_nanoseconds() {
    let t = NaiveTime::from_hms_nano_opt(12, 34, 56, 789_000_001).unwrap();
    assert_eq!(JitNaiveTime(t).scalars(), vec![45_296, 789_000_001]);
    assert_eq!(
        NaiveTime::from_num_seconds_from_midnight_opt(45_296, 789_000_001).unwrap(),
        t
    );
}

#[test]
fn leap_second_time_keeps_its_nanoseconds() {
    let leap = NaiveTime::from_hms_milli_opt(23, 59, 59, 1_000).unwrap();
    assert_eq!(JitNaiveTime(leap).scalars(), vec![86_399, 1_000_000_000]);
}

#[test]
fn date_time_lowers_to_three_lanes() {
    let date = NaiveDate::from_ymd_opt(2026, 5, 21).unwrap();
    let time = NaiveTime::from_hms_nano_opt(12, 34, 56, 789).unwrap();
    let dt = NaiveDateTime::new(date, time);
    let lanes = JitNaiveDateTime(dt).scalars();
    assert_eq!(lanes, vec![date.num_days_from_ce(), time.num_seconds_from_midnight() as i32, 789]);
    assert_eq!(lanes, vec![739_757, 45_296, 789]);
}

#[test]
fn lanes_from_parts_carries_both_values() {
    assert_eq!(lanes_from_parts(0, 0), vec![0, 0]);
    assert_eq!(lanes_from_parts(86_399, 1_999_999_999), vec![86_399, 1_999_999_999]);
}
