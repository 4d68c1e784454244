//! Audio constants shared by the driver and the codecs.
use vstd::prelude::*;

verus! {

/// Sample rate of audio handled by the driver, in Hz.
pub const SAMPLE_RATE_RAW: usize = 48_000;

/// Number of audio frames sent per second.
pub const AUDIO_FRAME_RATE: usize = 50;

/// Number of samples in one mono audio frame (20 ms at 48 kHz).
pub const MONO_FRAME_SIZE: usize = 960;

/// Number of samples in one interleaved stereo audio frame.
pub const STEREO_FRAME_SIZE: usize = 1920;

/// Proof that the frame sizes agree with the sample rate and frame rate:
/// one frame per channel holds a fiftieth of a second of samples.
pub proof fn lemma_frame_sizes()
    ensures
        MONO_FRAME_SIZE * AUDIO_FRAME_RATE == SAMPLE_RATE_RAW,
        STEREO_FRAME_SIZE == 2 * MONO_FRAME_SIZE,
{
}

} // verus!
