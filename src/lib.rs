//! Capture ingestion: turns stored packet-capture files and the output of a
//! capturing child process into timestamped frames for downstream decoding.

pub mod bytes;
pub mod error;
pub mod format;
pub mod importer;
pub mod stream;
