//! Helpers for programs that run on AWS: S3 object addresses, SQS queue names
//! and message batching, LocalStack endpoints, and the planning logic behind
//! S3 multipart copies and streaming uploads.

pub mod lambda;
pub mod localstack;
pub mod s3;
pub mod sqs;
pub mod text;
