//! Messages exchanged by the driver's tasks.
pub mod message;
