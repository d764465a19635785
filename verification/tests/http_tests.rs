//! Byte ranges, size discovery and decimal text.

use phenics::error::ErrorKind;
use phenics::http::{content_range_size, size_from_headers, Range};
use phenics::num_str::{parse_u64, u64_to_dec};

#[test]
fn range_header_renders_both_bounds() {
    let range = Range::new(Some(5000), Some(7000));
    assert_eq!(range.as_header(), "bytes=5000-7000");
}

#[test]
fn range_header_open_end_leaves_it_empty() {
    let range = Range::new_from(0);
    assert_eq!(range.as_header(), "bytes=0-");
}

#[test]
fn range_header_missing_from_renders_zero() {
    let range = Range::new(None, Some(9));
    assert_eq!(range.as_header(), "bytes=0-9");
}

#[test]
fn range_header_everything() {
    let range = Range::new(None, None);
    assert_eq!(range.as_header(), "bytes=0-");
    assert!(!range.is_not_everything());
    assert!(Range::new_from(1).is_not_everything());
}

#[test]
fn content_range_total_size_is_parsed() {
    let size = content_range_size("bytes 0-499/10000").unwrap();
    assert_eq!(size, Some(10000));
}

#[test]
fn content_range_star_means_unknown() {
    let size = content_range_size("bytes 0-499/*").unwrap();
    assert_eq!(size, None);
    let padded = content_range_size("bytes 0-1/ * ").unwrap();
    assert_eq!(padded, None);
}

#[test]
fn content_range_without_slash_is_a_header_error() {
    let error = content_range_size("oops").unwrap_err();
    assert_eq!(error.kind, ErrorKind::HeaderParse);
}

#[test]
fn content_range_bad_number_is_a_parse_error() {
    let error = content_range_size("bytes 0-1/12x3").unwrap_err();
    assert_eq!(error.kind, ErrorKind::ParseInt);
}

#[test]
fn size_falls_back_to_content_length() {
    assert_eq!(size_from_headers(&None, Some(55)).unwrap(), Some(55));
    assert_eq!(size_from_headers(&None, None).unwrap(), None);
    let header = Some(String::from("bytes 5000-7000/10000"));
    assert_eq!(size_from_headers(&header, Some(55)).unwrap(), Some(10000));
}

#[test]
fn parse_u64_round_trips() {
    assert_eq!(parse_u64("0").unwrap(), 0);
    assert_eq!(parse_u64("18446744073709551615").unwrap(), u64::MAX);
    assert_eq!(u64_to_dec(0), "0");
    assert_eq!(u64_to_dec(1234567890), "1234567890");
    assert_eq!(u64_to_dec(u64::MAX), "18446744073709551615");
}

#[test]
fn parse_u64_rejects_bad_text() {
    assert_eq!(parse_u64("").unwrap_err().kind, ErrorKind::ParseInt);
    assert_eq!(parse_u64("12a").unwrap_err().kind, ErrorKind::ParseInt);
    assert_eq!(
        parse_u64("18446744073709551616").unwrap_err().kind,
        ErrorKind::ParseInt
    );
    assert_eq!(parse_u64("-1").unwrap_err().kind, ErrorKind::ParseInt);
}
