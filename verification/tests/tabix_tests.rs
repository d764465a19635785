//! The region query engine: chunk math, index lookups, scanning, progress.

use noodles::csi::binning_index::index::reference_sequence::Bin;
use noodles::csi::binning_index::index::{Header, ReferenceSequence};
use phenics::error::ErrorKind;
use phenics::region::Region;
use phenics::tabix::{
    chrom_ordinal, chunk_byte_ranges, index_chrom_names, index_from_bytes, plan_region_query,
    scan_chunk_positions, Chunk, RegionScanner, ScanAction, StatusReporter, VirtualOffset,
};

#[test]
fn virtual_offset_packs_into_upper_and_lower_bits() {
    let offset = VirtualOffset {
        compressed: 57,
        uncompressed: 6086,
    };
    assert_eq!(offset.packed(), 3741638);
    let zero = VirtualOffset {
        compressed: 0,
        uncompressed: 0,
    };
    assert_eq!(zero.packed(), 0);
}

#[test]
fn chunk_byte_range_spans_the_compressed_blocks() {
    let chunk = Chunk::from_parts(100, 5, 200, 0);
    let range = chunk.byte_range();
    assert_eq!(range.from, Some(100));
    assert_eq!(range.to, Some(199));
}

#[test]
fn chunk_ranges_reject_an_end_before_any_block() {
    let good = Chunk::from_parts(0, 0, 64, 0);
    let bad = Chunk::from_parts(0, 0, 0, 7);
    let ranges = chunk_byte_ranges(&vec![good]).unwrap();
    assert_eq!(ranges.len(), 1);
    assert_eq!(ranges[0].from, Some(0));
    assert_eq!(ranges[0].to, Some(63));
    let error = chunk_byte_ranges(&vec![good, bad]).unwrap_err();
    assert_eq!(error.kind, ErrorKind::Decode);
}

#[test]
fn scanner_forwards_skips_and_stops() {
    let region = Region {
        name: String::from("chr1"),
        start: 100,
        end: Some(200),
    };
    let mut scanner = RegionScanner::new(&region);
    assert_eq!(scanner.on_record(50), ScanAction::Skip);
    assert_eq!(scanner.on_record(100), ScanAction::Forward);
    assert_eq!(scanner.on_record(200), ScanAction::Forward);
    assert_eq!(scanner.on_record(201), ScanAction::Stop);
    assert_eq!(scanner.n_matched, 2);
}

#[test]
fn open_ended_scan_never_stops() {
    let region = Region {
        name: String::from("chr1"),
        start: 10,
        end: None,
    };
    let mut scanner = RegionScanner::new(&region);
    assert_eq!(scanner.on_record(1_000_000_000), ScanAction::Forward);
    assert_eq!(scanner.on_record(5), ScanAction::Skip);
    assert_eq!(scanner.n_matched, 1);
}

#[test]
fn scan_stops_early_and_reads_no_further_records() {
    // A counting stub decoder: the scanner must examine exactly the
    // records up to and including the first one past the interval.
    let region = Region {
        name: String::from("chr1"),
        start: 100,
        end: Some(200),
    };
    let mut scanner = RegionScanner::new(&region);
    let positions = vec![50, 150, 180, 250, 300, 400];
    let scanned = scanner.scan_positions(&positions);
    assert_eq!(scanned, 4);
    assert_eq!(scanner.n_matched, 2);
}

#[test]
fn scan_without_overshoot_reads_everything() {
    let region = Region {
        name: String::from("chr1"),
        start: 1,
        end: Some(1000),
    };
    let mut scanner = RegionScanner::new(&region);
    let positions = vec![10, 20, 30];
    let scanned = scanner.scan_positions(&positions);
    assert_eq!(scanned, 3);
    assert_eq!(scanner.n_matched, 3);
}

/// A small tabix index over two chromosomes, with one chunk on `chr1`.
fn synthetic_index_bytes() -> Vec<u8> {
    let header = Header::builder()
        .set_reference_sequence_names(["chr1".into(), "chr2".into()].into_iter().collect())
        .build();
    let chunk = noodles::csi::binning_index::index::reference_sequence::bin::Chunk::new(
        noodles::bgzf::VirtualPosition::from(64 << 16),
        noodles::bgzf::VirtualPosition::from(128 << 16),
    );
    // The root bin intersects every query interval.
    let bins = [(0usize, Bin::new(vec![chunk]))].into_iter().collect();
    let with_chunk = ReferenceSequence::new(bins, Vec::new(), None);
    let empty = ReferenceSequence::new(Default::default(), Vec::new(), None);
    let index = noodles::tabix::Index::builder()
        .set_header(header)
        .set_reference_sequences(vec![with_chunk, empty])
        .build();
    let mut writer = noodles::tabix::io::Writer::new(Vec::new());
    writer.write_index(&index).unwrap();
    writer.into_inner().finish().unwrap()
}

#[test]
fn index_names_come_back_in_order() {
    let bytes = synthetic_index_bytes();
    let index = index_from_bytes(&bytes).unwrap();
    let names = index_chrom_names(&index);
    assert_eq!(names, vec!["chr1", "chr2"]);
    assert_eq!(chrom_ordinal(&names, "chr2"), Some(1));
    assert_eq!(chrom_ordinal(&names, "chrX"), None);
}

#[test]
fn absent_chromosome_yields_an_empty_plan_and_no_error() {
    let bytes = synthetic_index_bytes();
    let index = index_from_bytes(&bytes).unwrap();
    let region = Region {
        name: String::from("chrX"),
        start: 1,
        end: Some(1000),
    };
    let chunks = plan_region_query(&index, &region).unwrap();
    assert_eq!(chunks.len(), 0);
}

#[test]
fn present_chromosome_yields_its_chunks() {
    let bytes = synthetic_index_bytes();
    let index = index_from_bytes(&bytes).unwrap();
    let region = Region {
        name: String::from("chr1"),
        start: 1,
        end: Some(1000),
    };
    let chunks = plan_region_query(&index, &region).unwrap();
    assert_eq!(chunks.len(), 1);
    assert_eq!(chunks[0].start.compressed, 64);
    assert_eq!(chunks[0].start.uncompressed, 0);
    assert_eq!(chunks[0].end.compressed, 128);
    let ranges = chunk_byte_ranges(&chunks).unwrap();
    assert_eq!(ranges[0].from, Some(64));
    assert_eq!(ranges[0].to, Some(127));
}

fn index_bytes_with_bin(bin_id: usize) -> Vec<u8> {
    let header = Header::builder()
        .set_reference_sequence_names(["chr1".into()].into_iter().collect())
        .build();
    let chunk = noodles::csi::binning_index::index::reference_sequence::bin::Chunk::new(
        noodles::bgzf::VirtualPosition::from(64 << 16),
        noodles::bgzf::VirtualPosition::from(128 << 16),
    );
    let bins = [(bin_id, Bin::new(vec![chunk]))].into_iter().collect();
    let reference = ReferenceSequence::new(bins, Vec::new(), None);
    let index = noodles::tabix::Index::builder()
        .set_header(header)
        .set_reference_sequences(vec![reference])
        .build();
    let mut writer = noodles::tabix::io::Writer::new(Vec::new());
    writer.write_index(&index).unwrap();
    writer.into_inner().finish().unwrap()
}

#[test]
fn out_of_range_bin_ids_are_rejected_at_parse() {
    // The largest valid bin ID of the binning scheme is 37448; querying a
    // larger one would reach past the scheme's bin table.
    let bytes = index_bytes_with_bin(37449);
    let error = index_from_bytes(&bytes).unwrap_err();
    assert_eq!(error.kind, ErrorKind::IO);
    assert_eq!(error.message, "invalid bin ID in index");
    let larger = index_bytes_with_bin(40000);
    assert!(index_from_bytes(&larger).is_err());
}

#[test]
fn largest_valid_bin_id_is_accepted_and_queried() {
    let bytes = index_bytes_with_bin(37448);
    let index = index_from_bytes(&bytes).unwrap();
    let region = Region {
        name: String::from("chr1"),
        start: 1,
        end: Some(1000),
    };
    // The query must return, not panic; whether the bin intersects the
    // interval is the index's business.
    let _ = plan_region_query(&index, &region).unwrap();
}

#[test]
fn metadata_does_not_trip_the_bin_id_guard() {
    // Metadata travels as a pseudo-bin with an ID above the maximum; the
    // reader keeps it apart from the bin table, and the guard must too.
    let header = Header::builder()
        .set_reference_sequence_names(["chr1".into()].into_iter().collect())
        .build();
    let metadata = noodles::csi::binning_index::index::reference_sequence::Metadata::new(
        noodles::bgzf::VirtualPosition::from(0),
        noodles::bgzf::VirtualPosition::from(64 << 16),
        5,
        3,
    );
    let reference = ReferenceSequence::new(Default::default(), Vec::new(), Some(metadata));
    let index = noodles::tabix::Index::builder()
        .set_header(header)
        .set_reference_sequences(vec![reference])
        .build();
    let mut writer = noodles::tabix::io::Writer::new(Vec::new());
    writer.write_index(&index).unwrap();
    let bytes = writer.into_inner().finish().unwrap();
    assert!(index_from_bytes(&bytes).is_ok());
}

#[test]
fn plan_scan_counts_across_chunks_with_early_exits() {
    let region = Region {
        name: String::from("chr1"),
        start: 100,
        end: Some(200),
    };
    let chunks = vec![vec![50, 150, 180, 250, 300], vec![150, 190], vec![500]];
    let matched = scan_chunk_positions(&region, &chunks);
    assert_eq!(matched, 4);
}

#[test]
fn empty_plan_matches_nothing() {
    let region = Region {
        name: String::from("chrX"),
        start: 1,
        end: None,
    };
    let matched = scan_chunk_positions(&region, &Vec::new());
    assert_eq!(matched, 0);
}

#[test]
fn reporter_stays_quiet_before_either_threshold() {
    let mut reporter = StatusReporter::new();
    for _ in 0..100 {
        reporter.count_record();
        assert!(reporter.report_maybe(0).is_none());
    }
    assert_eq!(reporter.n_records, 100);
}

#[test]
fn reporter_prints_once_when_the_count_crosses() {
    let mut reporter = StatusReporter::new();
    for _ in 0..101 {
        reporter.count_record();
    }
    let line = reporter.report_maybe(0).unwrap();
    assert_eq!(line, "After 0 seconds, read 101 records");
    // Crossing reported once: the next record does not print again.
    reporter.count_record();
    assert!(reporter.report_maybe(0).is_none());
}

#[test]
fn reporter_prints_after_ten_elapsed_seconds() {
    let mut reporter = StatusReporter::new();
    assert!(reporter.report_maybe(10).is_none());
    let line = reporter.report_maybe(11).unwrap();
    assert_eq!(line, "After 11 seconds, read 0 records");
    assert!(reporter.report_maybe(11).is_none());
}
