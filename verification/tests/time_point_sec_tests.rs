use std::cmp::Ordering;

use antelope::Microseconds;
use antelope::TimePointSec;

#[test]
fn time_point_sec_test_new() {
    let time_point = TimePointSec::new();
    assert_eq!(time_point.utc_seconds, 0);
}

#[test]
fn test_maximum() {
    let time_point = TimePointSec::maximum();
    assert_eq!(time_point.utc_seconds, 0xffffffff);
}

#[test]
fn test_min() {
    let time_point = TimePointSec::min();
    assert_eq!(time_point.utc_seconds, 0);
}

#[test]
fn time_point_sec_test_partial_eq() {
    let time_point1 = TimePointSec { utc_seconds: 123 };
    let time_point2 = TimePointSec { utc_seconds: 123 };
    let time_point3 = TimePointSec { utc_seconds: 456 };

    assert_eq!(time_point1, time_point2);
    assert_ne!(time_point1, time_point3);
}

#[test]
fn time_point_sec_test_partial_ord() {
    let time_point1 = TimePointSec { utc_seconds: 123 };
    let time_point2 = TimePointSec { utc_seconds: 456 };
    let time_point3 = TimePointSec { utc_seconds: 789 };

    assert!(time_point1 < time_point2);
    assert!(time_point2 > time_point1);
    assert!(time_point3 > time_point2);
}

#[test]
fn time_point_sec_test_eq() {
    let time_point1 = TimePointSec { utc_seconds: 123 };
    let time_point2 = TimePointSec { utc_seconds: 123 };
    let time_point3 = TimePointSec { utc_seconds: 456 };

    assert_eq!(time_point1.eq(&time_point2), true);
    assert_eq!(time_point1.eq(&time_point3), false);
}

#[test]
fn test_cmp() {
    let time_point1 = TimePointSec { utc_seconds: 123 };
    let time_point2 = TimePointSec { utc_seconds: 456 };
    let time_point3 = TimePointSec { utc_seconds: 789 };

    assert_eq!(time_point1.cmp(&time_point2), Ordering::Less);
    assert_eq!(time_point2.cmp(&time_point1), Ordering::Greater);
    assert_eq!(time_point2.cmp(&time_point3), Ordering::Less);
}

#[test]
fn test_iso_string() {
    assert_eq!(TimePointSec::from_iso_string("1970-01-01T00:00:00").unwrap().sec_since_epoch(), 0);
    assert_eq!(
        TimePointSec::from_iso_string("1998-06-15T08:13:12").unwrap().sec_since_epoch(),
        897898392
    );
    assert_eq!(
        TimePointSec::from_iso_string("2020-01-01T00:00:00").unwrap().sec_since_epoch(),
        1577836800
    );
    assert_eq!(
        TimePointSec::from_iso_string("2038-01-19T03:14:07").unwrap().sec_since_epoch(),
        2147483647
    );
    assert_eq!(
        TimePointSec::from_iso_string("1998-06-15T08:13:12").unwrap().to_string(),
        "1998-06-15T08:13:12"
    );
    assert_eq!(
        TimePointSec::from_iso_string("2038-01-19T03:14:07").unwrap().to_string(),
        "2038-01-19T03:14:07"
    );
}

#[test]
fn test_iso_string_rejects_bad_input() {
    assert!(TimePointSec::from_iso_string("invalid_string").is_none());
    assert!(TimePointSec::from_iso_string("2010-13-81T00:00:00").is_none());
    assert!(TimePointSec::from_iso_string("1969-12-31T23:59:59").is_none());
}

#[test]
fn time_point_sec_test_add_assign_self() {
    let mut tp1 = TimePointSec::from(100u32);
    let tp2 = TimePointSec::from(50u32);
    tp1 = tp1.add(tp2);
    assert_eq!(tp1.sec_since_epoch(), 150);
}

#[test]
fn test_add_assign_ms() {
    let mut tp = TimePointSec::from(100);
    let elapsed = Microseconds::from(50_000_000);
    tp = tp + elapsed;
    assert_eq!(tp.sec_since_epoch(), 150);
}

#[test]
fn test_add_assign_u32() {
    let mut tp1 = TimePointSec::from(100);
    tp1 = tp1 + 50u32;
    assert_eq!(tp1.sec_since_epoch(), 150);
}

#[test]
fn time_point_sec_test_sub_assign_self() {
    let mut tp1 = TimePointSec::from(100u32);
    let tp2 = TimePointSec::from(50u32);
    tp1 = tp1.sub(tp2);
    assert_eq!(tp1.sec_since_epoch(), 50);
}

#[test]
fn test_sub_assign_ms() {
    let mut tp = TimePointSec::from(100);
    let elapsed = Microseconds::from(50_000_000);
    tp = tp - elapsed;
    assert_eq!(tp.sec_since_epoch(), 50);
}

#[test]
fn test_sub_assign_u32() {
    let mut tp1 = TimePointSec::from(100);
    tp1 = tp1 - 50u32;
    assert_eq!(tp1.sec_since_epoch(), 50);
}

#[test]
fn test_add_s() {
    let tp1 = TimePointSec::from(100);
    let tp2 = tp1 + 50;
    assert_eq!(tp2.sec_since_epoch(), 150);
}

#[test]
fn time_point_sec_test_add_ms() {
    let tp1 = TimePointSec::from(100);
    let tp2 = tp1 + Microseconds::from(50_000_000);
    assert_eq!(tp2.sec_since_epoch(), 150);
}

#[test]
fn test_sub_self() {
    let tp1 = TimePointSec::from(100);
    let tp2 = TimePointSec::from(50);
    assert_eq!((tp1 - tp2).sec_since_epoch(), 50);
}

#[test]
fn test_sub_s() {
    let tp1 = TimePointSec::from(100);
    assert_eq!((tp1 - 50).sec_since_epoch(), 50);
}

#[test]
fn time_point_sec_test_sub_ms() {
    let tp1 = TimePointSec::from(100);
    assert_eq!((tp1 - Microseconds::from(50_000_000)).sec_since_epoch(), 50);
}
