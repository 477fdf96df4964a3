use antelope::days;
use antelope::hours;
use antelope::minutes;
use antelope::seconds;
use antelope::Microseconds;

#[test]
fn test_microseconds_creation() {
    let micro = Microseconds::from(100);
    assert_eq!(micro.count(), 100);

    let micro = Microseconds::from(-100);
    assert_eq!(micro.count(), -100);
}

#[test]
fn test_microseconds_equality() {
    let micro1 = Microseconds::from(100);
    let micro2 = Microseconds::from(100);
    assert_eq!(micro1, micro2);
}

#[test]
fn test_microseconds_inequality() {
    let micro1 = Microseconds::from(100);
    let micro2 = Microseconds::from(200);
    assert_ne!(micro1, micro2);

    let micro1 = Microseconds::from(-100);
    let micro2 = Microseconds::from(100);
    assert_ne!(micro1, micro2);
}

#[test]
fn test_microseconds_addition() {
    let micro1 = Microseconds::from(100);
    let micro2 = Microseconds::from(200);
    let result = micro1 + micro2;
    assert_eq!(result.count(), 300);
}

#[test]
fn test_microseconds_subtraction() {
    let micro1 = Microseconds::from(100);
    let micro2 = Microseconds::from(200);
    let result = micro2 - micro1;
    assert_eq!(result.count(), 100);
}

#[test]
fn test_microseconds_comparison() {
    let micro1 = Microseconds::from(100);
    let micro2 = Microseconds::from(200);
    assert!(micro1 < micro2);
    assert!(micro2 > micro1);
    assert!(micro1 <= micro2);
    assert!(micro2 >= micro1);
}

#[test]
fn test_microseconds_addition_assignment() {
    let mut micro1 = Microseconds::from(100);
    let micro2 = Microseconds::from(200);
    micro1 = micro1 + micro2;
    assert_eq!(micro1.count(), 300);
}

#[test]
fn test_microseconds_subtraction_assignment() {
    let micro1 = Microseconds::from(100);
    let mut micro2 = Microseconds::from(200);
    micro2 = micro2 - micro1;
    assert_eq!(micro2.count(), 100);
}

#[test]
fn test_microseconds_to_seconds() {
    let micro = Microseconds::from(1000000);
    assert_eq!(micro.to_seconds(), 1);
}

#[test]
fn test_microseconds_time_functions() {
    let days_micro = days(1);
    let hours_micro = hours(1);
    let minutes_micro = minutes(1);
    let seconds_micro = seconds(1);

    assert_eq!(days_micro.count(), 86400000000);
    assert_eq!(hours_micro.count(), 3600000000);
    assert_eq!(minutes_micro.count(), 60000000);
    assert_eq!(seconds_micro.count(), 1000000);
}

#[test]
fn test_microseconds_maximum() {
    assert_eq!(Microseconds::maximum().count(), i64::MAX);
    assert_eq!(Microseconds::new().count(), 0);
    let n: i64 = Microseconds::from(42).into();
    assert_eq!(n, 42);
}
