//! Containers and codecs: DCA, raw PCM and Opus.
pub mod dca;
pub mod format;
pub mod opus;
pub mod raw;
