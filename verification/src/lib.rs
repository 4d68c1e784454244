//! Verified framing, timing and seek logic for the DCA and raw-PCM audio
//! containers used by the voice driver, with the driver's mixing modes and
//! mixer messages.
pub mod constants;
pub mod driver;
pub mod input;
