//! Write-ahead log (WAL).
//!
//! File layout:
//!
//! ```text
//! | magic (4) | version (1) | flags (1) | reserved (2) |
//! | len (4)   | crc32 (4)   | payload (len)            |
//! | ...                                              |
//! ```

pub mod checksum;
pub mod codec;
pub mod entry;
pub mod error;
pub mod format;
pub mod laws;
pub mod options;
pub mod plain;
pub mod reader;
pub mod replay;
pub mod test_store;
pub mod writer;
