//! Verified core of a market-data WebSocket client: frame classification,
//! the session lifecycle state machine, the subscription registry, and
//! timestamped fan-out to bounded consumer queues. Transport I/O lives
//! outside the library and feeds the controller plain frames.

pub mod dispatch;
pub mod types;
pub mod registry;
pub mod decimal;
pub mod json;
pub mod classify;
pub mod session;
pub mod laws;
pub mod sign;
pub mod frames;
