use cobalt_aws::s3::async_put_object::{PutCloseStep, PutObjectError, PutObjectState, PutPhase};

#[test]
fn test_write() {
    let mut st = PutObjectState::new();
    assert_eq!(st.write(b"File contents"), Ok(13));
    assert_eq!(st.flush(), Ok(()));
    match st.close() {
        PutCloseStep::Upload(body) => assert_eq!(body, b"File contents".to_vec()),
        _ => panic!("expected the body"),
    }
    assert_eq!(st.phase(), PutPhase::Closing);
    assert!(matches!(st.close(), PutCloseStep::AwaitUpload));
    st.upload_finished();
    assert_eq!(st.phase(), PutPhase::Closed);
}

#[test]
fn steps_after_close_are_refused() {
    let mut st = PutObjectState::new();
    assert!(matches!(st.close(), PutCloseStep::Upload(b) if b.is_empty()));
    assert_eq!(st.write(b"x"), Err(PutObjectError::BadWrite));
    assert_eq!(st.flush(), Err(PutObjectError::BadFlush));
    st.upload_finished();
    match st.close() {
        PutCloseStep::Refused(e) => {
            assert_eq!(e, PutObjectError::BadClose);
            assert_eq!(e.message(), "bad poll_close");
        }
        _ => panic!("expected a refusal"),
    }
    assert_eq!(PutObjectError::BadWrite.message(), "bad poll_write");
    assert_eq!(PutObjectError::BadFlush.message(), "bad poll_flush");
}

#[test]
fn body_is_every_write_in_order() {
    let mut st = PutObjectState::new();
    assert_eq!(st.write(b"File "), Ok(5));
    assert_eq!(st.write(b""), Ok(0));
    assert_eq!(st.write(b"contents"), Ok(8));
    assert!(matches!(st.close(), PutCloseStep::Upload(body) if body == b"File contents".to_vec()));
}
