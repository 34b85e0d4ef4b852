//! Decision core of a concurrent multipart file upload.
//!
//! A local file is cut into fixed-size byte ranges, each range is sent to its
//! own destination with a PUT request, and the upload succeeds only if every
//! range arrives. This crate holds everything that is decided along the way:
//! the backoff curve, the byte ranges, how a response becomes an outcome, when
//! a failed chunk is retried, and how many chunks may be in flight or backing
//! off at once. It performs no I/O. A driver feeds it events and carries out
//! the actions it answers with.

pub mod backoff;
pub mod engine;
pub mod failure;
pub mod headers;
pub mod laws;
pub mod model;
pub mod permits;
pub mod plan;
pub mod retry;
pub mod transfer;

pub use backoff::exponential_backoff;
