[package]
name = "cobalt_aws"
version = "0.15.1"
edition = "2021"
publish = false

[dependencies]
url = "2"
http = "1"
anyhow = "1"
async-trait = "0.1"
aws-config = "1"
aws_lambda_events = { version = "0.15", default-features = false, features = ["sqs"] }
aws-sdk-athena = "1"
aws-sdk-s3 = "1"
aws-sdk-sqs = "1"
aws-smithy-runtime-api = "1"
aws-types = "1"
bytesize = "1"
clap = { version = "4", features = ["derive", "env"] }
conv = "0.3"
derive_more = { version = "1", features = ["display", "from", "into", "as_ref"] }
either = "1"
futures = "0.3"
lambda_runtime = "0.13"
serde = { version = "1", features = ["derive"] }
serde_json = "1"
thiserror = "1"
tracing = "0.1"
tracing-subscriber = { version = "0.3", features = ["env-filter", "json"] }
typed-builder = "0.20"
