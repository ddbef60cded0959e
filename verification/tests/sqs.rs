use cobalt_aws::sqs::{
    concurrency_limit, queue_url_or_error, BatchEntry, MessageBatcher, SQSQueueName, SQSQueueNameError,
    SendMessagesError, BATCH_SIZE, MAX_QUEUE_NAME_LENGTH,
};

#[test]
fn queue_name_accepts_valid_names() {
    for s in ["a", "test-queue", "Queue_1", &"x".repeat(80)] {
        let name: SQSQueueName = s.parse().unwrap();
        assert_eq!(name.as_str(), s);
        assert_eq!(name.to_string(), s);
    }
}

#[test]
fn queue_name_too_short() {
    let e = SQSQueueName::parse("").unwrap_err();
    assert_eq!(e, SQSQueueNameError::TooShort);
    assert_eq!(e.message(), "Min length is 1");
}

#[test]
fn queue_name_too_long() {
    let e = SQSQueueName::parse(&"x".repeat(MAX_QUEUE_NAME_LENGTH + 1)).unwrap_err();
    assert_eq!(e, SQSQueueNameError::TooLong);
    assert_eq!(e.message(), "Max length is 80 characters");
    // The length is counted in bytes: 41 two-byte characters are too long.
    assert_eq!(SQSQueueName::parse(&"é".repeat(41)).unwrap_err(), SQSQueueNameError::TooLong);
}

#[test]
fn queue_name_invalid_characters() {
    for s in ["a b", "queue.fifo", "é", "a/b"] {
        let e = SQSQueueName::parse(s).unwrap_err();
        assert_eq!(e, SQSQueueNameError::InvalidCharacters);
    }
    assert_eq!(
        SQSQueueNameError::InvalidCharacters.message(),
        "The following characters are accepted: alphanumeric characters, hyphens (-), and underscores (_)"
    );
}

#[test]
fn queue_name_from_string_is_unchecked() {
    let name = SQSQueueName::from(String::from("not valid!"));
    assert_eq!(name.as_str(), "not valid!");
}

#[test]
fn test_zero_concurrency() {
    let e = concurrency_limit(Some(0)).unwrap_err();
    assert_eq!(e, SendMessagesError::ZeroConcurrency);
    assert!(e.message().contains("Zero concurrency not allowed."));
}

#[test]
fn concurrency_defaults_to_one() {
    assert_eq!(concurrency_limit(None), Ok(1));
    assert_eq!(concurrency_limit(Some(4)), Ok(4));
}

#[test]
fn missing_queue_url_names_the_queue() {
    let name = SQSQueueName::parse("test-queue").unwrap();
    let e = queue_url_or_error(None, &name).unwrap_err();
    assert_eq!(e, SendMessagesError::MissingQueueUrl("test-queue".into()));
    assert_eq!(e.message(), "Failed to get queue URL for test-queue");
    assert_eq!(queue_url_or_error(Some("http://q".into()), &name), Ok("http://q".to_string()));
}

fn batch_all(n: usize) -> Vec<Vec<BatchEntry>> {
    let mut batcher = MessageBatcher::new();
    let mut batches = Vec::new();
    for i in 0..n {
        if let Some(b) = batcher.push(format!("{i}")) {
            batches.push(b);
        }
    }
    assert_eq!(batcher.taken(), n);
    if let Some(b) = batcher.finish() {
        batches.push(b);
    }
    batches
}

fn check_batches(n: usize) {
    let batches = batch_all(n);
    let sizes: Vec<usize> = batches.iter().map(|b| b.len()).collect();
    let mut expected = vec![BATCH_SIZE; n / BATCH_SIZE];
    if n % BATCH_SIZE != 0 {
        expected.push(n % BATCH_SIZE);
    }
    assert_eq!(sizes, expected);
    let entries: Vec<&BatchEntry> = batches.iter().flatten().collect();
    assert_eq!(entries.len(), n);
    for (i, e) in entries.iter().enumerate() {
        assert_eq!(e.id, format!("{i}"));
        assert_eq!(e.message_body, format!("{i}"));
    }
}

#[test]
fn test_less_than_batch_size() {
    check_batches(5);
}

#[test]
fn test_more_than_batch_size() {
    check_batches(25);
}

#[test]
fn test_concurrent() {
    check_batches(105);
}

#[test]
fn batches_of_exact_multiples_and_none() {
    check_batches(0);
    check_batches(10);
    check_batches(20);
    assert!(batch_all(0).is_empty());
}
