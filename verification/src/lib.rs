//! Verified core of the TrenchDB storage engine: the write-ahead-log
//! format, its codec and replay, the table store the log is replayed into,
//! and the state machines of the event loops.

pub mod api;
pub mod assoc;
pub mod config;
pub mod echo;
pub mod events;
pub mod index;
pub mod ewal;
pub mod metadata;
pub mod metrics;
pub mod queue;
pub mod rec;
pub mod text;
pub mod walmanager;
pub mod wal;
