//! Parts of the voice driver.
pub mod mix_mode;
pub mod tasks;

pub use mix_mode::MixMode;
