use hexpix::dims::parse_dimension;
use hexpix::error::GenError;

#[test]
fn one_is_accepted() {
    assert_eq!(parse_dimension("1").unwrap(), 1);
}

#[test]
fn zero_is_rejected() {
    assert_eq!(parse_dimension("0").unwrap_err(), GenError::RangeOrFormat);
}

#[test]
fn non_numeric_is_rejected() {
    assert_eq!(parse_dimension("abc").unwrap_err(), GenError::RangeOrFormat);
    assert_eq!(parse_dimension("12a").unwrap_err(), GenError::RangeOrFormat);
}

#[test]
fn empty_is_rejected() {
    assert_eq!(parse_dimension("").unwrap_err(), GenError::RangeOrFormat);
}

#[test]
fn sign_and_whitespace_are_rejected() {
    assert_eq!(parse_dimension("-3").unwrap_err(), GenError::RangeOrFormat);
    assert_eq!(parse_dimension("+3").unwrap_err(), GenError::RangeOrFormat);
    assert_eq!(parse_dimension(" 1").unwrap_err(), GenError::RangeOrFormat);
}

#[test]
fn leading_zeros_are_read_in_base_ten() {
    assert_eq!(parse_dimension("007").unwrap(), 7);
    assert_eq!(parse_dimension("0000000001").unwrap(), 1);
}

#[test]
fn largest_u32_is_accepted() {
    assert_eq!(parse_dimension("4294967295").unwrap(), u32::MAX);
}

#[test]
fn values_past_u32_are_rejected() {
    assert_eq!(parse_dimension("4294967296").unwrap_err(), GenError::RangeOrFormat);
    assert_eq!(
        parse_dimension("99999999999999999999").unwrap_err(),
        GenError::RangeOrFormat
    );
}
