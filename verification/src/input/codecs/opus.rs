//! Decisions of the Opus decoder: which packets it accepts, how its output buffer
//! grows, and how decoded stereo samples are split into channels.
//!
//! The decoder decodes into an interleaved stereo buffer. When a packet decodes to
//! more samples than the buffer holds, the buffer is doubled and decoding retried,
//! up to the largest length the Opus library takes.
use vstd::prelude::*;

verus! {

/// The largest packet, and the largest output buffer, the Opus library takes.
pub const OPUS_MAX_LEN: usize = 0x7fff_ffff;

/// Number of interleaved channels the decoder produces.
pub const DECODED_CHANNELS: usize = 2;

/// Why a packet could not be decoded.
#[derive(Debug, Clone, Copy, PartialEq, Eq, Structural)]
pub enum OpusDecodeError {
    /// The packet is longer than the Opus library takes.
    PacketTooLarge,
    /// The packet's frame does not fit even the largest output buffer.
    FrameTooBig,
}

/// Checks that a packet of `len` bytes can be handed to the Opus library.
pub fn check_packet_len(len: usize) -> (r: Result<(), OpusDecodeError>)
    ensures
        len <= OPUS_MAX_LEN ==> r is Ok,
        len > OPUS_MAX_LEN ==> r == Err::<(), OpusDecodeError>(OpusDecodeError::PacketTooLarge),
{
    if len > OPUS_MAX_LEN {
        Err(OpusDecodeError::PacketTooLarge)
    } else {
        Ok(())
    }
}

/// The length to grow an output buffer of `len` samples to, after it proved too
/// small: twice as long, but no longer than the Opus library takes. Refused when it
/// cannot grow any further.
pub fn grown_buffer_len(len: usize) -> (r: Result<usize, OpusDecodeError>)
    requires
        len * 2 <= usize::MAX,
    ensures
        ({
            let target = if len * 2 <= OPUS_MAX_LEN { len * 2 } else { OPUS_MAX_LEN as int };
            if target == len {
                r == Err::<usize, OpusDecodeError>(OpusDecodeError::FrameTooBig)
            } else {
                r == Ok::<usize, OpusDecodeError>(target as usize)
            }
        }),
{
    let doubled = len * 2;
    let new_size = if doubled <= OPUS_MAX_LEN { doubled } else { OPUS_MAX_LEN };
    if new_size == len {
        Err(OpusDecodeError::FrameTooBig)
    } else {
        Ok(new_size)
    }
}

/// The samples of channel `ch` in the first `frames` frames of an interleaved
/// stereo buffer, as far as the buffer holds whole frames.
pub fn stereo_channel<T: Copy>(raw: &[T], ch: usize, frames: usize) -> (out: Vec<T>)
    requires
        ch < DECODED_CHANNELS,
    ensures
        out@.len() == if frames <= raw@.len() / 2 { frames as int } else { (raw@.len() / 2) as int },
        forall|k: int| 0 <= k < out@.len() ==> #[trigger] out@[k] == raw@[2 * k + ch],
{
    let whole = raw.len() / 2;
    let n = if frames <= whole { frames } else { whole };
    let mut out: Vec<T> = Vec::new();
    let mut k: usize = 0;
    while k < n
        invariant
            n <= raw.len() / 2,
            raw.len() == raw@.len(),
            k <= n,
            ch < 2,
            out@.len() == k,
            forall|j: int| 0 <= j < k ==> #[trigger] out@[j] == raw@[2 * j + ch],
        decreases n - k,
    {
        assert(2 * k + 1 < raw.len());
        out.push(raw[2 * k + ch]);
        k = k + 1;
    }
    out
}

} // verus!
