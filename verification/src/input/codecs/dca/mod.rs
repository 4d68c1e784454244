//! The [DCA\[0/1\]](https://github.com/bwmarrin/dca) container of Opus frames.
pub mod metadata;
pub mod reader;
pub mod seek_accel;

pub use metadata::DcaMetadata;
pub use reader::DcaReader;
pub use seek_accel::SeekAccel;
