use tdlib_rs::retry::parse_retry_after;

#[test]
fn plain_demand_is_read() {
    assert_eq!(parse_retry_after("retry after 5"), Some(5));
}

#[test]
fn demand_inside_longer_reason() {
    assert_eq!(
        parse_retry_after("Too many requests: retry after 30"),
        Some(30)
    );
}

#[test]
fn leftmost_demand_wins() {
    assert_eq!(parse_retry_after("retry after 3 then retry after 9"), Some(3));
}

#[test]
fn digits_with_leading_zeros() {
    assert_eq!(parse_retry_after("xxretry after 007yy"), Some(7));
}

#[test]
fn marker_without_digits_is_no_demand() {
    assert_eq!(parse_retry_after("retry after"), None);
    assert_eq!(parse_retry_after("retry after "), None);
    assert_eq!(parse_retry_after("retry after x"), None);
}

#[test]
fn near_misses_are_no_demand() {
    assert_eq!(parse_retry_after(""), None);
    assert_eq!(parse_retry_after("retry  after 5"), None);
    assert_eq!(parse_retry_after("Retry after 5"), None);
}

#[test]
fn largest_interval_that_fits() {
    assert_eq!(
        parse_retry_after("retry after 18446744073709551615"),
        Some(u64::MAX)
    );
}

#[test]
fn oversized_interval_is_not_handled() {
    assert_eq!(parse_retry_after("retry after 18446744073709551616"), None);
}
