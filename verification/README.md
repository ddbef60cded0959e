# cobalt_aws

Helpers for programs that run on AWS, with their logic verified by Verus.

- `src/` is the verified library:
  - `localstack`: the LocalStack endpoint from `LOCALSTACK_HOSTNAME` and `EDGE_PORT`.
  - `s3::s3_object`: S3 object addresses and `s3://bucket/key` URLs.
  - `s3::multipartcopy`: part sizes, byte ranges and the plan of a multipart copy.
  - `s3::completed_part`: ordering of completed parts (a stable sort).
  - `s3::async_multipart_put_object`, `s3::async_put_object`: the decisions
    of the streaming S3 writers, as state machines driven by their caller.
  - `sqs`: queue names, and batching of messages for `SendMessageBatch`.
  - `lambda`: the per-record decisions of an SQS-triggered Lambda.
- `app/` is the unverified shell: the AWS SDK requests, `AsyncWrite`
  impls that drive the state machines, the Lambda runtime, environment
  variables, and serde/thiserror forms of the library's types.
- `tests/` runs the library on concrete values.

Calls into the `url` and `http` crates are made in `src/` through small
trusted wrappers whose contracts are stated in their doc comments.
