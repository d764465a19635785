//! Regions, loci and the sampling window stream.

use phenics::error::ErrorKind;
use phenics::locus::Locus;
use phenics::region::parse;
use phenics::region_iter::RegionIterGen;

#[test]
fn region_text_parses_to_inclusive_bounds() {
    let region = parse("chr1:100-200").unwrap();
    assert_eq!(region.name, "chr1");
    assert_eq!(region.start, 100);
    assert_eq!(region.end, Some(200));
}

#[test]
fn region_text_after_a_second_colon_is_ignored() {
    let region = parse("chr2:5-9:junk").unwrap();
    assert_eq!(region.name, "chr2");
    assert_eq!(region.start, 5);
    assert_eq!(region.end, Some(9));
}

#[test]
fn region_text_errors() {
    assert_eq!(parse("chr1").unwrap_err().kind, ErrorKind::Phenics);
    assert_eq!(parse("chr1:100").unwrap_err().kind, ErrorKind::Phenics);
    assert_eq!(parse("chr1:abc-2").unwrap_err().kind, ErrorKind::ParseInt);
    assert_eq!(parse("chr1:0-5").unwrap_err().kind, ErrorKind::Phenics);
    assert_eq!(parse("chr1:5-0").unwrap_err().kind, ErrorKind::Phenics);
    let message = parse("nope").unwrap_err().message;
    assert_eq!(message, "Cannot parse 'nope' as a region.");
}

#[test]
fn locus_renders_chromosome_and_position() {
    let locus = Locus::new(String::from("chr1"), 123);
    assert_eq!(locus.render(), "chr1:123");
}

#[test]
fn unit_step_windows_are_deterministic() {
    // With step_size_max = 1 every random draw is 0, so the stream is
    // deterministic: back-to-back windows of exactly 1000 positions.
    let gen = RegionIterGen::new(1000, 1);
    let mut iter = gen.new_region_iter(String::from("chr7"));
    let first = iter.next().unwrap();
    assert_eq!(first.name, "chr7");
    assert_eq!(first.start, 1);
    assert_eq!(first.end, Some(1000));
    let second = iter.next().unwrap();
    assert_eq!(second.start, 1001);
    assert_eq!(second.end, Some(2000));
}

#[test]
fn windows_advance_strictly_with_bounded_gaps() {
    let gen = RegionIterGen::new(500, 50);
    let mut iter = gen.new_region_iter(String::from("chrX"));
    let mut cursor: u64 = 1;
    for _ in 0..20 {
        let region = iter.next().unwrap();
        assert!(region.start >= cursor);
        assert!(region.start < cursor + 50);
        assert_eq!(region.end, Some(region.start + 500 - 1));
        cursor = region.start + 500;
    }
}
