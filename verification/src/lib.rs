//! Verified core of an `atproto` feed-generator backend: the `at://` URI
//! model, the binary firehose codec (DAG-CBOR envelope and CAR block
//! archive), the per-commit indexing logic, the subscription session state
//! machine, and the ranked feed query it serves.

pub mod algos;
pub mod atproto_subscription;
pub mod car;
pub mod data;
pub mod cbor;
pub mod lexicon;
pub mod strutil;
pub mod subscription;
