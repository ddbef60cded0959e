use cobalt_aws::s3::async_multipart_put_object::{
    upload_id_or_error, CloseStep, FlushStep, MultipartUploadError, MultipartUploadState, PartUploadOutcome,
    UploadPhase, WriteStep, DEFAULT_MAX_UPLOADING_PARTS, MAX_PART_SIZE, MIN_PART_SIZE,
};
use cobalt_aws::s3::completed_part::CompletedPart;
use std::collections::BTreeMap;

const MIB: usize = 1024 * 1024;
const GIB: usize = 1024 * MIB;

#[test]
fn test_part_size_too_small() {
    assert!(MultipartUploadState::new(0_usize, None).is_err())
}

#[test]
fn test_part_size_too_big() {
    assert!(MultipartUploadState::new(5 * GIB + 1, None).is_err())
}

#[test]
fn test_max_uploading_parts_is_zero() {
    assert!(MultipartUploadState::new(5 * MIB, Some(0)).is_err())
}

#[test]
fn new_errors_and_messages() {
    let e = MultipartUploadState::new(MIN_PART_SIZE - 1, None).err().unwrap();
    assert_eq!(e, MultipartUploadError::PartSizeTooSmall(MIN_PART_SIZE - 1));
    assert_eq!(e.message(), "part_size was 5242879, can not be less than 5242880");
    let e = MultipartUploadState::new(MAX_PART_SIZE as usize + 1, Some(1)).err().unwrap();
    assert_eq!(e.message(), "part_size was 5368709121, can not be more than 5368709120");
    let e = MultipartUploadState::new(MIN_PART_SIZE, Some(0)).err().unwrap();
    assert_eq!(e, MultipartUploadError::ZeroUploadingParts);
    assert_eq!(e.message(), "Max uploading parts must not be 0");
    let st = MultipartUploadState::new(MAX_PART_SIZE as usize, None).unwrap();
    assert_eq!(st.phase(), UploadPhase::Writing);
    assert_eq!(DEFAULT_MAX_UPLOADING_PARTS, 100);
}

#[test]
fn upload_id_is_required() {
    assert_eq!(upload_id_or_error(Some("u".into())), Ok("u".to_string()));
    assert_eq!(upload_id_or_error(None), Err(MultipartUploadError::MissingUploadId));
    assert_eq!(MultipartUploadError::MissingUploadId.message(), "Expected Upload Id");
}

fn data(len: usize) -> Vec<u8> {
    (0..len).map(|i| (i * 31 % 251) as u8).collect()
}

fn uploaded(number: i32) -> PartUploadOutcome {
    PartUploadOutcome::Uploaded { part_number: number, e_tag: Some(format!("etag-{number}")) }
}

/// Drives a writer as its caller would, with every part upload succeeding by
/// the next step; returns the bytes of each part by number and the parts the
/// upload is completed with.
fn upload_all(bytes: &[u8], chunk: usize, max: Option<usize>) -> (BTreeMap<i32, Vec<u8>>, Vec<CompletedPart>) {
    let mut st = MultipartUploadState::new(MIN_PART_SIZE, max).unwrap();
    let mut parts: BTreeMap<i32, Vec<u8>> = BTreeMap::new();
    let mut polled: Vec<PartUploadOutcome> = Vec::new();
    let mut off = 0;
    while off < bytes.len() {
        let end = usize::min(off + chunk, bytes.len());
        match st.write(&polled, &bytes[off..end]) {
            WriteStep::Accepted { accepted, parts: new_parts } => {
                assert!(accepted > 0);
                polled = new_parts.iter().map(|p| uploaded(p.part_number)).collect();
                for p in new_parts {
                    assert!(parts.insert(p.part_number, p.bytes).is_none());
                }
                off += accepted;
            }
            _ => panic!("write was not accepted"),
        }
        // Parts finish out of order: hand the outcomes over reversed.
        polled.reverse();
    }
    loop {
        match st.close(&polled) {
            CloseStep::LastPart(last) => {
                polled = Vec::new();
                if let Some(p) = last {
                    polled.push(uploaded(p.part_number));
                    assert!(parts.insert(p.part_number, p.bytes).is_none());
                }
                match st.recheck(&polled) {
                    CloseStep::Waiting { wake } => assert!(wake),
                    _ => panic!("expected to wait"),
                }
                polled = Vec::new();
            }
            CloseStep::Waiting { .. } => polled = Vec::new(),
            CloseStep::Complete(done) => {
                assert_eq!(st.phase(), UploadPhase::Completing);
                assert!(matches!(st.close(&Vec::new()), CloseStep::AwaitCompletion));
                st.completion_finished();
                assert_eq!(st.phase(), UploadPhase::Closed);
                return (parts, done);
            }
            _ => panic!("unexpected close step"),
        }
    }
}

fn check_upload(len: usize, chunk: usize, max: Option<usize>) {
    let bytes = data(len);
    let (parts, done) = upload_all(&bytes, chunk, max);
    let numbers: Vec<i32> = done.iter().map(|p| p.part_number).collect();
    let expected: Vec<i32> = (1..=parts.len() as i32).collect();
    assert_eq!(numbers, expected);
    for p in &done {
        assert_eq!(p.e_tag, Some(format!("etag-{}", p.part_number)));
    }
    let joined: Vec<u8> = parts.values().flatten().copied().collect();
    assert_eq!(joined, bytes);
    for (n, p) in &parts {
        if (*n as usize) < parts.len() {
            assert_eq!(p.len(), MIN_PART_SIZE);
        }
    }
}

#[test]
fn test_put_single_part() {
    let buffer_len = MIB;
    let (parts, _) = upload_all(&vec![0; buffer_len], buffer_len, None);
    let body: Vec<u8> = parts.values().flatten().copied().collect();
    assert_eq!(body.len(), buffer_len);
}

#[test]
fn test_put_10mb() {
    let buffer_len = 10 * MIB;
    let (parts, _) = upload_all(&vec![0; buffer_len], buffer_len, None);
    let body: Vec<u8> = parts.values().flatten().copied().collect();
    assert_eq!(body.len(), buffer_len);
    assert_eq!(parts.len(), 2);
}

#[test]
fn test_put_14mb() {
    let buffer_len = 14 * MIB;
    let (parts, _) = upload_all(&vec![0; buffer_len], buffer_len, None);
    let body: Vec<u8> = parts.values().flatten().copied().collect();
    assert_eq!(body.len(), buffer_len);
    assert_eq!(parts.len(), 3);
}

#[test]
fn test_put_flush() {
    let buffer_len = MIB;
    let mut st = MultipartUploadState::new(5 * MIB, Some(1)).unwrap();
    assert!(matches!(st.write(&Vec::new(), &vec![0; buffer_len]), WriteStep::Accepted { accepted, .. } if accepted == buffer_len));
    assert_eq!(st.flush(&Vec::new()), FlushStep::Flushed);
    let last = match st.close(&Vec::new()) {
        CloseStep::LastPart(Some(p)) => p,
        _ => panic!("expected the last part"),
    };
    assert_eq!(last.bytes.len(), buffer_len);
    assert!(matches!(st.recheck(&vec![uploaded(last.part_number)]), CloseStep::Waiting { wake: true }));
    assert!(matches!(st.close(&Vec::new()), CloseStep::Complete(parts) if parts.len() == 1));
}

#[test]
fn test_put_double_close() {
    let buffer_len = 100_usize;
    let mut st = MultipartUploadState::new(5 * MIB, Some(1)).unwrap();
    assert!(matches!(st.write(&Vec::new(), &vec![0; buffer_len]), WriteStep::Accepted { .. }));
    assert!(matches!(st.close(&Vec::new()), CloseStep::LastPart(Some(_))));
    assert!(matches!(st.close(&vec![uploaded(1)]), CloseStep::Waiting { wake: true }));
    assert!(matches!(st.close(&Vec::new()), CloseStep::Complete(_)));
    assert!(matches!(st.close(&Vec::new()), CloseStep::AwaitCompletion));
    st.completion_finished();
    assert!(matches!(st.close(&Vec::new()), CloseStep::Refused(_)));
}

#[test]
fn test_put_write_after_close() {
    let buffer_len = 100_usize;
    let mut st = MultipartUploadState::new(5 * MIB, Some(1)).unwrap();
    assert!(matches!(st.write(&Vec::new(), &vec![0; buffer_len]), WriteStep::Accepted { .. }));
    assert!(matches!(st.close(&Vec::new()), CloseStep::LastPart(Some(_))));
    assert!(matches!(st.close(&vec![uploaded(1)]), CloseStep::Waiting { wake: true }));
    assert!(matches!(st.close(&Vec::new()), CloseStep::Complete(_)));
    st.completion_finished();
    assert!(matches!(st.write(&Vec::new(), &vec![0; buffer_len]), WriteStep::Refused(_)));
}

#[test]
fn upload_of_fourteen_mib_in_parts() {
    check_upload(14 * MIB, 3 * MIB + 17, None);
}

#[test]
fn upload_of_exactly_two_parts() {
    check_upload(10 * MIB, 10 * MIB, None);
}

#[test]
fn upload_of_a_single_small_part() {
    let bytes = data(1000);
    let (parts, done) = upload_all(&bytes, 1000, None);
    assert_eq!(parts.len(), 1);
    assert_eq!(parts[&1], bytes);
    assert_eq!(done, vec![CompletedPart { e_tag: Some("etag-1".into()), part_number: 1 }]);
}

#[test]
fn upload_with_one_part_at_a_time() {
    check_upload(12 * MIB + 5, 7 * MIB, Some(1));
}

#[test]
fn empty_upload_completes_with_no_parts() {
    let (parts, done) = upload_all(&[], 1, None);
    assert!(parts.is_empty());
    assert!(done.is_empty());
}

#[test]
fn write_takes_only_what_fits() {
    let mut st = MultipartUploadState::new(MIN_PART_SIZE, Some(1)).unwrap();
    let bytes = data(12 * MIB);
    match st.write(&Vec::new(), &bytes) {
        WriteStep::Accepted { accepted, parts } => {
            assert_eq!(accepted, MIN_PART_SIZE);
            assert_eq!(parts.len(), 1);
            assert_eq!(parts[0].part_number, 1);
            assert_eq!(parts[0].bytes, bytes[..MIN_PART_SIZE].to_vec());
        }
        _ => panic!("write was not accepted"),
    }
    // The one part is still uploading: nothing fits, and the writer keeps its state.
    assert!(matches!(st.write(&Vec::new(), &bytes), WriteStep::Full { wake: false }));
    assert_eq!(st.phase(), UploadPhase::Writing);
    assert_eq!(st.next_part_number(), 2);
    // Once the part has uploaded, the next write goes on where the first stopped.
    match st.write(&vec![uploaded(1)], &bytes[MIN_PART_SIZE..]) {
        WriteStep::Accepted { accepted, parts } => {
            assert_eq!(accepted, MIN_PART_SIZE);
            assert_eq!(parts.len(), 1);
            assert_eq!(parts[0].part_number, 2);
            assert_eq!(parts[0].bytes, bytes[MIN_PART_SIZE..2 * MIN_PART_SIZE].to_vec());
        }
        _ => panic!("write was not accepted"),
    }
}

#[test]
fn failed_part_stops_the_writer() {
    let mut st = MultipartUploadState::new(MIN_PART_SIZE, None).unwrap();
    let bytes = data(11 * MIB);
    assert!(matches!(st.write(&Vec::new(), &bytes), WriteStep::Accepted { .. }));
    let polled = vec![uploaded(1), PartUploadOutcome::Failed { part_number: 2 }];
    assert!(matches!(st.write(&polled, &bytes), WriteStep::Failed(1)));
    assert_eq!(st.phase(), UploadPhase::Invalid);
    // Every later step is refused.
    match st.write(&Vec::new(), &bytes) {
        WriteStep::Refused(e) => {
            assert_eq!(e, MultipartUploadError::WriteWithStateNone);
            assert_eq!(e.message(), "Attempted to .write() when state is None");
        }
        _ => panic!("expected a refusal"),
    }
    assert_eq!(st.flush(&Vec::new()), FlushStep::Refused(MultipartUploadError::WriteWithStateNone));
    match st.close(&Vec::new()) {
        CloseStep::Refused(e) => assert_eq!(e.message(), "Attempted to .close() writer with state None"),
        _ => panic!("expected a refusal"),
    }
}

#[test]
fn flush_waits_for_uploads() {
    let mut st = MultipartUploadState::new(MIN_PART_SIZE, None).unwrap();
    let bytes = data(6 * MIB);
    assert!(matches!(st.write(&Vec::new(), &bytes), WriteStep::Accepted { .. }));
    assert_eq!(st.flush(&Vec::new()), FlushStep::Pending);
    assert_eq!(st.flush(&vec![uploaded(1)]), FlushStep::Flushed);
    assert_eq!(st.flush(&Vec::new()), FlushStep::Flushed);
    assert_eq!(st.phase(), UploadPhase::Writing);
    assert_eq!(
        st.flush(&vec![PartUploadOutcome::Failed { part_number: 9 }]),
        FlushStep::Failed(0)
    );
}

#[test]
fn finish_write_reports_first_failure() {
    let mut st = MultipartUploadState::new(MIN_PART_SIZE, None).unwrap();
    assert!(matches!(st.write(&Vec::new(), &data(6 * MIB)), WriteStep::Accepted { .. }));
    assert_eq!(st.finish_write(&vec![uploaded(1)]), None);
    assert_eq!(st.phase(), UploadPhase::Writing);
    let polled = vec![
        PartUploadOutcome::Failed { part_number: 5 },
        PartUploadOutcome::Failed { part_number: 6 },
    ];
    assert_eq!(st.finish_write(&polled), Some(0));
    assert_eq!(st.phase(), UploadPhase::Invalid);
}

#[test]
fn closing_twice_and_writing_after_close() {
    let bytes = data(100);
    let mut st = MultipartUploadState::new(MIN_PART_SIZE, None).unwrap();
    assert!(matches!(st.write(&Vec::new(), &bytes), WriteStep::Accepted { .. }));
    let last = match st.close(&Vec::new()) {
        CloseStep::LastPart(Some(p)) => p,
        _ => panic!("expected the last part"),
    };
    assert_eq!(last.part_number, 1);
    assert_eq!(last.bytes, bytes);
    match st.flush(&Vec::new()) {
        FlushStep::Refused(e) => assert_eq!(e.message(), "Attempted to .flush() writer after .close()."),
        _ => panic!("expected a refusal"),
    }
    assert!(matches!(st.close(&vec![uploaded(1)]), CloseStep::Waiting { wake: true }));
    assert!(matches!(st.close(&Vec::new()), CloseStep::Complete(_)));
    st.completion_finished();
    match st.close(&Vec::new()) {
        CloseStep::Refused(e) => {
            assert_eq!(e, MultipartUploadError::CloseAfterClose);
            assert_eq!(e.message(), "Attempted to .close() writer after .close().");
        }
        _ => panic!("expected a refusal"),
    }
    let mut st = MultipartUploadState::new(MIN_PART_SIZE, None).unwrap();
    assert!(matches!(st.close(&Vec::new()), CloseStep::LastPart(None)));
    match st.write(&Vec::new(), &bytes) {
        WriteStep::Refused(e) => assert_eq!(e.message(), "Attempted to .write() after .close()."),
        _ => panic!("expected a refusal"),
    }
}

#[test]
fn close_stalls_when_uploads_fill_the_limit() {
    let mut st = MultipartUploadState::new(MIN_PART_SIZE, Some(1)).unwrap();
    assert!(matches!(st.write(&Vec::new(), &data(MIN_PART_SIZE)), WriteStep::Accepted { .. }));
    assert!(matches!(st.close(&Vec::new()), CloseStep::Stalled));
    assert_eq!(st.phase(), UploadPhase::Writing);
    // Once the part has uploaded, closing goes on.
    assert!(matches!(st.close(&vec![uploaded(1)]), CloseStep::LastPart(None)));
    assert!(matches!(st.close(&Vec::new()), CloseStep::Complete(parts) if parts.len() == 1));
}
