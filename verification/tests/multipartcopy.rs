use cobalt_aws::s3::completed_part::CompletedPart;
use cobalt_aws::s3::multipartcopy::{
    byte_ranges, check_multipart, completed_part, copy_source, copy_strategy, part_copies, part_count,
    source_size_from_content_length, upload_id_or_error, ByteRange, ByteRangeError, CopyPartResult,
    CopyStrategy, PartSize, PartSizeError, S3MultipartCopierError, SourceSize, SourceSizeError,
    DEFAULT_COPY_PART_SIZE, MAX_PART_SIZE, MAX_SOURCE_SIZE, MIN_PART_SIZE, MIN_SOURCE_SIZE,
};
use cobalt_aws::s3::S3Object;

const MIB: i64 = 1024 * 1024;

fn source(v: i64) -> SourceSize {
    SourceSize::try_from(v).unwrap()
}

fn part(v: i64) -> PartSize {
    PartSize::try_from(v).unwrap()
}

fn part_sizes() -> Vec<i64> {
    vec![MIN_PART_SIZE, MIN_PART_SIZE + 1, 7 * MIB + 3, 50 * MIB, 1_000_000_007, MAX_PART_SIZE]
}

fn source_sizes() -> Vec<i64> {
    vec![
        1,
        2,
        10,
        MIN_PART_SIZE - 1,
        MIN_PART_SIZE,
        MIN_PART_SIZE + 1,
        3 * MIN_PART_SIZE,
        3 * MIN_PART_SIZE + 1,
        1_000_000_000,
        9_999_999_999,
        MAX_SOURCE_SIZE,
    ]
}

#[test]
fn test_part_count_valid() {
    for &p in &part_sizes() {
        for &s in &source_sizes() {
            let count = part_count(&source(s), &part(p)).unwrap();
            assert!(count >= 0, "Expected count greater than 0");
            let expected_count = ((s as f64) / (p as f64)).ceil() as i64;
            assert_eq!(count, expected_count);
        }
    }
}

#[test]
fn test_part_count_small_source() {
    for &p in &part_sizes() {
        for s in 1..=10 {
            assert_eq!(part_count(&source(s), &part(p)).unwrap(), 1, "Expected a part count of 1");
        }
    }
}

#[test]
fn test_part_count_large_source() {
    for &p in &part_sizes() {
        let count = part_count(&source(MAX_SOURCE_SIZE), &part(p)).unwrap();
        let expected_count = ((MAX_SOURCE_SIZE as f64) / (p as f64)).ceil() as i64;
        assert_eq!(count, expected_count);
    }
    assert_eq!(part_count(&source(MAX_SOURCE_SIZE), &part(MIN_PART_SIZE)).unwrap(), 1_048_576);
}

#[test]
fn test_part_count_error_on_zero_source_size() {
    for &p in &part_sizes() {
        let result = part_count(&source(0), &part(p));
        assert_eq!(result, Err(S3MultipartCopierError::MultipartCopySourceSizeZero));
    }
}

#[test]
fn test_source_size_within_limits() {
    for v in [MIN_SOURCE_SIZE, 1, 12345, MAX_SOURCE_SIZE - 1, MAX_SOURCE_SIZE] {
        assert_eq!(SourceSize::try_from(v).unwrap().value(), v);
    }
}

#[test]
fn test_source_size_too_small() {
    for v in [i64::MIN, -12345, MIN_SOURCE_SIZE - 1] {
        assert_eq!(SourceSize::try_from(v).unwrap_err(), SourceSizeError::TooSmall(v));
    }
}

#[test]
fn test_source_size_too_large() {
    for v in [MAX_SOURCE_SIZE + 1, i64::MAX] {
        assert_eq!(SourceSize::try_from(v).unwrap_err(), SourceSizeError::TooLarge(v));
    }
}

#[test]
fn test_copy_part_size_within_limits() {
    for v in [MIN_PART_SIZE, MIN_PART_SIZE + 1, 50 * MIB, MAX_PART_SIZE] {
        assert_eq!(PartSize::try_from(v).unwrap().value(), v);
    }
}

#[test]
fn test_copy_part_size_too_small() {
    for v in [i64::MIN, 0, MIN_PART_SIZE - 1] {
        assert_eq!(PartSize::try_from(v).unwrap_err(), PartSizeError::TooSmall(v));
    }
}

#[test]
fn test_copy_part_size_too_large() {
    for v in [MAX_PART_SIZE + 1, i64::MAX] {
        assert_eq!(PartSize::try_from(v).unwrap_err(), PartSizeError::TooLarge(v));
    }
}

#[test]
fn default_part_size_is_fifty_mib() {
    assert_eq!(PartSize::default().value(), 50 * MIB);
    assert_eq!(DEFAULT_COPY_PART_SIZE, 50 * MIB);
}

#[test]
fn valid_byte_range() {
    for (start, end) in [(0, 0), (0, 499), (500, 999), (7, i64::MAX - 1)] {
        let range = ByteRange::try_from((start, end)).unwrap();
        assert_eq!(range.start(), start);
        assert_eq!(range.end(), end);
    }
    let range = ByteRange::try_from((10, 9));
    assert_eq!(range.unwrap_err(), ByteRangeError::InvalidRange(10, 9));
}

#[test]
fn invalid_negative_start_byte_range() {
    for (start, end) in [(i64::MIN, 0), (-1, 5), (-1, -5)] {
        assert_eq!(ByteRange::try_from((start, end)).unwrap_err(), ByteRangeError::NegativeStart(start));
    }
}

#[test]
fn byte_range_as_string() {
    assert_eq!(ByteRange::try_from((0, 499)).unwrap().as_string(), "bytes=0-499");
    assert_eq!(ByteRange::try_from((500, 999)).unwrap().as_string(), "bytes=500-999");
}

fn check_partition(s: i64, p: i64) {
    let ranges = byte_ranges(&source(s), &part(p));
    let mut expected_start = 0;
    for (i, item) in ranges.iter().enumerate() {
        let (number, range) = item.as_ref().unwrap();
        assert_eq!(*number as usize, i + 1);
        assert_eq!(range.start(), expected_start);
        assert!(range.end() >= range.start());
        assert!(range.end() < s);
        assert!(range.end() - range.start() < p);
        expected_start = range.end() + 1;
    }
    assert_eq!(expected_start, s);
    assert_eq!(ranges.len() as i64, part_count(&source(s), &part(p)).unwrap());
}

#[test]
fn test_byte_ranges_valid() {
    for &p in &part_sizes() {
        for &s in &source_sizes() {
            if s / p < 20_000 {
                check_partition(s, p);
            }
        }
    }
}

#[test]
fn test_byte_ranges_zero_source_size() {
    for &p in &part_sizes() {
        let result = byte_ranges(&source(0), &part(p));
        assert_eq!(result.len(), 1);
        assert_eq!(
            result[0].as_ref().err().unwrap(),
            &S3MultipartCopierError::MultipartCopySourceSizeZero
        );
    }
}

#[test]
fn test_byte_ranges_large_source() {
    for &p in &[50 * MIB, 1_000_000_007, MAX_PART_SIZE] {
        for s in [1_000_000_000, 4_294_967_297, 9_999_999_999] {
            check_partition(s, p);
        }
    }
}

#[test]
fn byte_ranges_of_twelve_mib() {
    let ranges = byte_ranges(&source(12 * MIB), &part(5 * MIB));
    let got: Vec<(i64, i64, i64)> = ranges
        .iter()
        .map(|r| {
            let (n, b) = r.as_ref().unwrap();
            (*n, b.start(), b.end())
        })
        .collect();
    assert_eq!(
        got,
        vec![(1, 0, 5 * MIB - 1), (2, 5 * MIB, 10 * MIB - 1), (3, 10 * MIB, 12 * MIB - 1)]
    );
}

#[test]
fn part_copies_state_their_ranges() {
    let copies = part_copies(&source(12 * MIB), &part(5 * MIB)).unwrap();
    assert_eq!(copies.len(), 3);
    assert_eq!(copies[0].part_number, 1);
    assert_eq!(copies[0].copy_source_range, "bytes=0-5242879");
    assert_eq!(copies[2].part_number, 3);
    assert_eq!(copies[2].copy_source_range, "bytes=10485760-12582911");
    assert_eq!(copies[2].byte_range.end(), 12 * MIB - 1);
    assert_eq!(
        part_copies(&source(0), &part(5 * MIB)).unwrap_err(),
        S3MultipartCopierError::MultipartCopySourceSizeZero
    );
}

#[test]
fn copy_strategy_by_size() {
    assert_eq!(copy_strategy(&source(0), &part(MIN_PART_SIZE)), CopyStrategy::Atomic);
    assert_eq!(copy_strategy(&source(MIN_PART_SIZE), &part(MIN_PART_SIZE)), CopyStrategy::Atomic);
    assert_eq!(copy_strategy(&source(MIN_PART_SIZE + 1), &part(MIN_PART_SIZE)), CopyStrategy::Multipart);
}

#[test]
fn check_multipart_refuses_small_sources() {
    assert_eq!(
        check_multipart(&source(10), &part(MIN_PART_SIZE)),
        Err(S3MultipartCopierError::PartSizeGreaterThanSource { part_size: MIN_PART_SIZE, source_size: 10 })
    );
    assert_eq!(check_multipart(&source(MIN_PART_SIZE), &part(MIN_PART_SIZE)), Ok(()));
}

#[test]
fn source_size_from_head() {
    assert_eq!(
        source_size_from_content_length(None).unwrap_err(),
        S3MultipartCopierError::MissingContentLength
    );
    assert_eq!(
        source_size_from_content_length(Some(-1)).unwrap_err(),
        S3MultipartCopierError::SourceSize(SourceSizeError::TooSmall(-1))
    );
    assert_eq!(
        source_size_from_content_length(Some(MAX_SOURCE_SIZE + 1)).unwrap_err(),
        S3MultipartCopierError::SourceSize(SourceSizeError::TooLarge(MAX_SOURCE_SIZE + 1))
    );
    assert_eq!(source_size_from_content_length(Some(42)).unwrap().value(), 42);
}

#[test]
fn copy_source_joins_bucket_and_key() {
    assert_eq!(copy_source(&S3Object::new("b", "/dir/k")), "b/dir/k");
}

#[test]
fn upload_id_and_completed_part() {
    assert_eq!(upload_id_or_error(Some("id".into())), Ok("id".to_string()));
    assert_eq!(upload_id_or_error(None), Err(S3MultipartCopierError::MissingUploadId));
    assert_eq!(
        completed_part(3, Some(CopyPartResult { e_tag: Some("t".into()) })),
        Ok(CompletedPart { e_tag: Some("t".into()), part_number: 3 })
    );
    assert_eq!(completed_part(3, None), Err(S3MultipartCopierError::MissingCopyPartResult));
}

#[test]
fn test_zero_size_multipart_copy() {
    // An empty source is no larger than a part: it is copied in one request.
    let part_size = part(5 * MIB);
    assert_eq!(copy_strategy(&source(0), &part_size), CopyStrategy::Atomic);
    assert_eq!(
        part_copies(&source(0), &part_size).unwrap_err(),
        S3MultipartCopierError::MultipartCopySourceSizeZero
    );
}
