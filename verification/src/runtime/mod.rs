//! Durable, transport-neutral state machine for the V1 meeting protocol.
pub mod apply;
pub mod decimal;
pub mod digest;
pub mod engine;
pub mod memory;
pub mod range_set;
pub mod session;
pub mod snapshot;
