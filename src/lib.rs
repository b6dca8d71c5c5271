//! Server-side core of a line-oriented chat relay: name negotiation against a
//! bounded client registry, message framing, a FIFO broadcast relay and the
//! job queue that feeds a fixed pool of workers.
pub mod config;
pub mod protocol;
pub mod registry;
pub mod relay;
pub mod session;
pub mod pool;
