//! S3 object addresses and the logic of copies and uploads to S3.

pub mod s3_object;

pub use s3_object::S3Object;
pub mod multipartcopy;
pub mod completed_part;
pub mod async_multipart_put_object;
pub mod async_put_object;
