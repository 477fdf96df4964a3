use antelope::check;

#[test]
fn test_check_true() {
    check(true, "This should not panic")
}
