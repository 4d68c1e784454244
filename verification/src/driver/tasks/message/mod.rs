//! Messages sent to the driver's mixer.
pub mod mixer;

pub use mixer::MixerMessage;
