use cobalt_aws::lambda::{record_body, RecordError};

#[test]
fn record_body_requires_a_body() {
    assert_eq!(record_body(&Some("{}".to_string())), Ok("{}".to_string()));
    let e = record_body(&None).unwrap_err();
    assert_eq!(e, RecordError::MissingBody);
    assert_eq!(e.message(), "No SqsMessage body");
}

#[test]
fn record_error_messages() {
    assert_eq!(
        RecordError::InvalidBody("x".into()).message(),
        "Error parsing body into message: x"
    );
    assert_eq!(
        RecordError::HandlerFailed("y".into()).message(),
        "Error running message handler y"
    );
}
