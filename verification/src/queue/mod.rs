//! The storage-layer event loop kernel: a single-threaded loop with a FIFO
//! task queue, a lifecycle, and a record of runtime events.

pub mod dispatcher;
pub mod event;
pub mod event_loop;
pub mod event_queue;
pub mod lifecycle;
pub mod panic_boundary;
pub mod state;

pub use event_loop::EventLoop;
pub use state::State;
