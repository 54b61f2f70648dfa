//! Batch ingestion of large geographic datasets: a region tree is resolved
//! into an ordered download list, each item is streamed through a fixed-size
//! re-chunking engine into a multipart object-store upload, and a readiness
//! sentinel is written only when every item of the batch has been committed.

pub mod batch;
pub mod chunker;
pub mod config;
pub mod dispatch;
pub mod errors;
pub mod region;
pub mod resolver;
pub mod session;
pub mod storage;
pub mod text;
pub mod urls;

