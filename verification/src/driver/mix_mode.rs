//! Mixing modes of the driver.
use vstd::prelude::*;
use crate::constants::{MONO_FRAME_SIZE, STEREO_FRAME_SIZE};

verus! {

/// Mixing behaviour for sent audio sources processed within the driver.
///
/// This has no impact on Opus packet passthrough, which will pass packets
/// irrespective of their channel count.
#[derive(Clone, Copy, Debug, PartialEq, Eq, Structural)]
pub enum MixMode {
    /// Audio sources will be downmixed into a mono buffer.
    Mono,
    /// Audio sources will be mixed into into a stereo buffer, where mono sources
    /// will be duplicated into both channels.
    Stereo,
}

impl MixMode {
    /// Number of output channels of this mode.
    pub open spec fn spec_channels(self) -> nat {
        match self {
            MixMode::Mono => 1,
            MixMode::Stereo => 2,
        }
    }

    /// Number of interleaved samples in one 20 ms frame of this mode.
    pub fn sample_count_in_frame(self) -> (n: usize)
        ensures
            n == self.spec_channels() * MONO_FRAME_SIZE,
            self == MixMode::Mono ==> n == MONO_FRAME_SIZE,
            self == MixMode::Stereo ==> n == STEREO_FRAME_SIZE,
    {
        match self {
            MixMode::Mono => MONO_FRAME_SIZE,
            MixMode::Stereo => STEREO_FRAME_SIZE,
        }
    }

    /// Number of output channels of this mode.
    pub fn channels(self) -> (n: usize)
        ensures
            n == self.spec_channels(),
    {
        match self {
            MixMode::Mono => 1,
            MixMode::Stereo => 2,
        }
    }
}

/// A frame of a mixing mode holds one mono frame's worth of samples per channel.
pub proof fn lemma_frame_holds_mono_frame_per_channel(mode: MixMode)
    ensures
        mode.spec_channels() * MONO_FRAME_SIZE == (if mode == MixMode::Mono { MONO_FRAME_SIZE } else { STEREO_FRAME_SIZE }),
        1 <= mode.spec_channels() <= 2,
{
}

} // verus!
