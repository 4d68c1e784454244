//! Audio input handling.
pub mod codecs;
