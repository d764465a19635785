//! The remote ranged byte cursor and object locators.

use phenics::error::ErrorKind;
use phenics::gcs::{add_u64_i64, GcsObject, GcsReader, SeekWhence};
use phenics::http::Range;

#[test]
fn locator_splits_into_bucket_and_object() {
    let parsed = GcsObject::parse_url("gs://my-bucket/dir/file.vcf.gz").unwrap();
    assert_eq!(parsed.bucket, "my-bucket");
    assert_eq!(parsed.object, "dir/file.vcf.gz");
}

#[test]
fn locator_without_object_is_rejected() {
    let error = GcsObject::parse_url("gs://bucketonly").unwrap_err();
    assert_eq!(error.kind, ErrorKind::Phenics);
    assert_eq!(error.message, "Cannot parse `gs://bucketonly` as a GCS URL.");
    assert!(GcsObject::parse_url("http://host/x").is_err());
}

#[test]
fn api_url_percent_encodes_the_parts() {
    let object = GcsObject {
        bucket: String::from("b c"),
        object: String::from("o/j~1"),
    };
    assert_eq!(
        object.as_api_url(),
        "https://storage.googleapis.com/storage/v1/b/b%20c/o/o%2Fj~1?alt=media"
    );
}

#[test]
fn plain_urls_pass_through() {
    let url = GcsReader::get_url("https://example.org/data.vcf.gz").unwrap();
    assert_eq!(url, "https://example.org/data.vcf.gz");
    let api = GcsReader::get_url("gs://b/o").unwrap();
    assert_eq!(api, "https://storage.googleapis.com/storage/v1/b/b/o/o?alt=media");
}

#[test]
fn signed_offsets_add_both_ways() {
    assert_eq!(add_u64_i64(10, -3), 7);
    assert_eq!(add_u64_i64(10, 5), 15);
    assert_eq!(add_u64_i64(10, 0), 10);
}

fn opened_reader(from: u64, to: u64, meta: &str) -> GcsReader {
    let range = Range::new(Some(from), Some(to));
    let mut reader = GcsReader::new(String::from("https://example.org/o"), &range);
    reader
        .accept_response(206, &Some(String::from(meta)), None)
        .unwrap();
    reader
}

#[test]
fn ranged_object_drains_to_exact_length_and_position() {
    // A 10,000-byte object served in three chunks for the range 5000-7000.
    let mut reader = opened_reader(5000, 7000, "bytes 5000-7000/10000");
    assert_eq!(reader.size, Some(10000));
    assert_eq!(reader.pos, 5000);

    let chunks = vec![vec![7u8; 1000], vec![8u8; 1000], vec![9u8; 1]];
    let mut total = 0usize;
    let mut fed = chunks.into_iter();
    loop {
        if reader.needs_chunk() {
            reader.accept_chunk(fed.next());
            continue;
        }
        let out = reader.read_from_window(512);
        if out.is_empty() {
            break;
        }
        total += out.len();
    }
    assert_eq!(total, 2001);
    assert_eq!(reader.pos, 5000 + 2001);
}

#[test]
fn read_yields_window_bytes_in_order() {
    let mut reader = opened_reader(0, 9, "bytes 0-9/10");
    reader.accept_chunk(Some(vec![1, 2, 3, 4, 5]));
    let first = reader.read_from_window(3);
    assert_eq!(first, vec![1, 2, 3]);
    let second = reader.read_from_window(16);
    assert_eq!(second, vec![4, 5]);
    assert_eq!(reader.pos, 5);
}

#[test]
fn seek_from_end_needs_a_known_size() {
    let range = Range::new_from(0);
    let mut reader = GcsReader::new(String::from("u"), &range);
    // Size unknown: no Content-Range, no Content-Length.
    reader.accept_response(200, &None, None).unwrap();
    let error = reader.resolve_seek(&SeekWhence::End(0)).unwrap_err();
    assert_eq!(error.kind, ErrorKind::SeekUnsupported);
    assert_eq!(
        error.message,
        "Cannot seek from end, because size is not known"
    );

    // Size known: End(0) resolves to the size itself.
    let sized = opened_reader(0, 9999, "bytes 0-9999/10000");
    assert_eq!(sized.resolve_seek(&SeekWhence::End(0)).unwrap(), 10000);
    assert_eq!(sized.resolve_seek(&SeekWhence::End(-1)).unwrap(), 9999);
    assert_eq!(sized.resolve_seek(&SeekWhence::Start(77)).unwrap(), 77);
}

#[test]
fn seek_current_moves_relative_to_position() {
    let mut reader = opened_reader(100, 200, "bytes 100-200/1000");
    reader.accept_chunk(Some(vec![0; 10]));
    let _ = reader.read_from_window(10);
    assert_eq!(reader.pos, 110);
    assert_eq!(reader.resolve_seek(&SeekWhence::Current(-10)).unwrap(), 100);
    assert_eq!(reader.resolve_seek(&SeekWhence::Current(5)).unwrap(), 115);
}

#[test]
fn seek_reopens_like_a_fresh_connect() {
    // Seek to 5000 on a cursor opened at 0..=7000, then give both cursors
    // the same response: their observable states must agree.
    let mut sought = opened_reader(0, 7000, "bytes 0-7000/10000");
    let target = sought.resolve_seek(&SeekWhence::Start(5000)).unwrap();
    let reopen_range = sought.begin_reopen(target);
    assert_eq!(reopen_range.from, Some(5000));
    assert_eq!(reopen_range.to, Some(7000));
    sought
        .accept_response(206, &Some(String::from("bytes 5000-7000/10000")), None)
        .unwrap();

    let fresh = opened_reader(5000, 7000, "bytes 5000-7000/10000");
    assert_eq!(sought.pos, fresh.pos);
    assert_eq!(sought.size, fresh.size);
    assert_eq!(sought.to, fresh.to);
    assert_eq!(sought.needs_chunk(), fresh.needs_chunk());

    // And the same served bytes yield the same reads.
    let mut sought = sought;
    let mut fresh = fresh;
    sought.accept_chunk(Some(vec![42; 8]));
    fresh.accept_chunk(Some(vec![42; 8]));
    assert_eq!(sought.read_from_window(6), fresh.read_from_window(6));
    assert_eq!(sought.pos, fresh.pos);
}

#[test]
fn non_success_status_is_a_remote_fetch_error() {
    let range = Range::new_from(0);
    let mut reader = GcsReader::new(String::from("https://example.org/o"), &range);
    let error = reader.accept_response(404, &None, None).unwrap_err();
    assert_eq!(error.kind, ErrorKind::RemoteFetch);
    assert_eq!(error.message, "404 (https://example.org/o)");
}

#[test]
fn malformed_content_range_fails_the_open() {
    let range = Range::new_from(0);
    let mut reader = GcsReader::new(String::from("u"), &range);
    let error = reader
        .accept_response(200, &Some(String::from("oops")), None)
        .unwrap_err();
    assert_eq!(error.kind, ErrorKind::HeaderParse);
}
