use vstd::prelude::*;
use vstd::string::*;

verus! {

/// Why a record of an SQS event could not be processed.
#[derive(Debug, PartialEq, Eq, Clone)]
pub enum RecordError {
    /// The record has no body.
    MissingBody,
    /// The body does not deserialize into a message; holds the body.
    InvalidBody(String),
    /// The message handler failed on the message; holds the body.
    HandlerFailed(String),
}

impl RecordError {
    /// The error's message.
    pub fn message(&self) -> (r: String)
        ensures
            r@ == match *self {
                RecordError::MissingBody => "No SqsMessage body"@,
                RecordError::InvalidBody(body) => "Error parsing body into message: "@ + body@,
                RecordError::HandlerFailed(body) => "Error running message handler "@ + body@,
            },
    {
        match self {
            RecordError::MissingBody => String::from_str("No SqsMessage body"),
            RecordError::InvalidBody(body) => {
                let mut r = String::from_str("Error parsing body into message: ");
                r.append(body.as_str());
                r
            },
            RecordError::HandlerFailed(body) => {
                let mut r = String::from_str("Error running message handler ");
                r.append(body.as_str());
                r
            },
        }
    }
}

/// The body of an SQS record; a record without one is an error.
pub fn record_body(body: &Option<String>) -> (r: Result<String, RecordError>)
    ensures
        match *body {
            Some(b) => r == Ok::<String, RecordError>(b),
            None => r == Err::<String, _>(RecordError::MissingBody),
        },
{
    match body {
        Some(b) => Ok(b.clone()),
        None => Err(RecordError::MissingBody),
    }
}

} // verus!
