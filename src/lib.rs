//! Transfer engine of a small command-line HTTP client: header preparation,
//! redirect handling, strategy selection, byte-range partitioning and
//! progress accounting.
pub mod error;
pub mod headers;
pub mod length;
pub mod plan;
pub mod progress;
pub mod redirect;
pub mod request;
pub mod segment;
pub mod sink;
pub mod transfer;
