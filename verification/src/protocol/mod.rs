//! Public, transport-neutral V1 meeting protocol: wire values and the
//! message-level validation that needs no session state.
pub mod types;
pub mod validate;
