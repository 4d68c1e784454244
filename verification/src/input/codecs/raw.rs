//! A simple container for raw `f32` PCM audio of unknown duration.
//!
//! Contained files have a simple header:
//! * the 8-byte signature `b"SbirdRaw"`,
//! * the sample rate, as a little-endian `u32`,
//! * the channel count, as a little-endian `u32`.
//!
//! The remainder of the file is interleaved little-endian `f32` samples.
//!
//! The reader here makes every decision about a stream; reading the bytes and
//! moving in the stream is up to its caller.
use vstd::prelude::*;

use crate::input::codecs::format::{Packet, SeekError, SeekedTo};

verus! {

/// Length of the header in bytes: signature, sample rate and channel count.
pub const RAW_HEADER_LEN: u64 = 16;

/// Size of one sample in bytes.
pub const SAMPLE_BYTES: usize = 4;

/// Id of the one track of a raw stream.
pub const RAW_TRACK_ID: u32 = 0;

/// Number of packets per second of audio: each packet holds 20 ms.
pub const PACKETS_PER_SECOND: u32 = 50;

/// The signature that opens a raw stream: `SbirdRaw`.
pub open spec fn raw_signature() -> Seq<u8> {
    seq![0x53u8, 0x62u8, 0x69u8, 0x72u8, 0x64u8, 0x52u8, 0x61u8, 0x77u8]
}

/// Why a raw stream was refused.
#[derive(Debug, Clone, Copy, PartialEq, Eq, Structural)]
pub enum RawError {
    /// The stream does not open with the signature.
    IllegalMagic,
    /// The channel count is neither 1 (mono) nor 2 (stereo).
    UnsupportedChannelLayout,
}

/// Checks the first eight bytes of a stream against the signature.
pub fn check_magic(magic: [u8; 8]) -> (r: Result<(), RawError>)
    ensures
        r is Ok <==> magic@ == raw_signature(),
        r is Err ==> r == Err::<(), RawError>(RawError::IllegalMagic),
{
    let sig: [u8; 8] = [0x53u8, 0x62u8, 0x69u8, 0x72u8, 0x64u8, 0x52u8, 0x61u8, 0x77u8];
    let mut i: usize = 0;
    while i < 8
        invariant
            i <= 8,
            sig@ == raw_signature(),
            forall|j: int| 0 <= j < i ==> magic@[j] == sig@[j],
        decreases 8 - i,
    {
        if magic[i] != sig[i] {
            return Err(RawError::IllegalMagic);
        }
        i = i + 1;
    }
    assert(magic@ =~= raw_signature());
    Ok(())
}

/// Byte position of the frame at timestamp `ts` in a stream of `channels` channels.
pub open spec fn spec_frame_pos(ts: int, channels: int) -> int {
    RAW_HEADER_LEN + SAMPLE_BYTES * (ts * channels)
}

/// The state of a raw stream being read: its format and the timestamp of the next
/// frame.
pub struct RawReader {
    sample_rate: u32,
    channels: u32,
    curr_ts: i64,
}

impl RawReader {
    /// Samples per second.
    pub closed spec fn spec_sample_rate(&self) -> u32 {
        self.sample_rate
    }

    /// Number of interleaved channels.
    pub closed spec fn spec_channels(&self) -> u32 {
        self.channels
    }

    /// Timestamp of the next frame to be read.
    pub closed spec fn spec_curr_ts(&self) -> int {
        self.curr_ts as int
    }

    /// Well-formedness: a positive sample rate, one or two channels, and a
    /// timestamp that is not negative.
    pub open spec fn wf(&self) -> bool {
        &&& self.spec_sample_rate() > 0
        &&& (self.spec_channels() == 1 || self.spec_channels() == 2)
        &&& self.spec_curr_ts() >= 0
    }

    /// Bytes in one frame: one sample per channel.
    pub open spec fn spec_frame_bytes(&self) -> int {
        SAMPLE_BYTES * self.spec_channels()
    }

    /// A reader at the start of the samples of a stream whose header gives
    /// `sample_rate` and `n_chans`; only mono and stereo are accepted.
    pub fn from_header(sample_rate: u32, n_chans: u32) -> (r: Result<RawReader, RawError>)
        requires
            (n_chans == 1 || n_chans == 2) ==> sample_rate > 0,
        ensures
            (n_chans == 1 || n_chans == 2) ==> (r matches Ok(rd) && {
                &&& rd.wf()
                &&& rd.spec_sample_rate() == sample_rate
                &&& rd.spec_channels() == n_chans
                &&& rd.spec_curr_ts() == 0
            }),
            !(n_chans == 1 || n_chans == 2) ==> r == Err::<RawReader, RawError>(
                RawError::UnsupportedChannelLayout,
            ),
    {
        if n_chans != 1 && n_chans != 2 {
            return Err(RawError::UnsupportedChannelLayout);
        }
        Ok(RawReader { sample_rate, channels: n_chans, curr_ts: 0 })
    }

    /// Samples per second.
    pub fn sample_rate(&self) -> (r: u32)
        ensures
            r == self.spec_sample_rate(),
    {
        self.sample_rate
    }

    /// Number of interleaved channels.
    pub fn channels(&self) -> (r: u32)
        ensures
            r == self.spec_channels(),
    {
        self.channels
    }

    /// Timestamp of the next frame to be read.
    pub fn curr_ts(&self) -> (r: i64)
        ensures
            r == self.spec_curr_ts(),
    {
        self.curr_ts
    }

    /// Most frames in one packet: 20 ms of audio.
    pub fn max_frames_per_packet(&self) -> (r: u64)
        ensures
            r == self.spec_sample_rate() / PACKETS_PER_SECOND,
    {
        (self.sample_rate / PACKETS_PER_SECOND) as u64
    }

    /// Number of bytes to read for the next packet: 20 ms of frames.
    pub fn packet_read_len(&self) -> (r: usize)
        requires
            self.wf(),
        ensures
            r == (self.spec_sample_rate() / PACKETS_PER_SECOND) * self.spec_frame_bytes(),
    {
        let frames = (self.sample_rate / PACKETS_PER_SECOND) as usize;
        let frame_bytes = SAMPLE_BYTES * (self.channels as usize);
        assert(frames * frame_bytes <= 85_899_345 * 8) by (nonlinear_arith)
            requires
                frames <= 85_899_345,
                frame_bytes <= 8,
        ;
        frames * frame_bytes
    }

    /// Turns the bytes read for a packet into the next packet: it starts at the
    /// current timestamp and holds every whole frame of `buf`.
    pub fn accept_block(&mut self, buf: Vec<u8>) -> (p: Packet)
        requires
            old(self).wf(),
            old(self).spec_curr_ts() + (buf@.len() as int) / old(self).spec_frame_bytes() <= i64::MAX,
        ensures
            final(self).wf(),
            final(self).spec_sample_rate() == old(self).spec_sample_rate(),
            final(self).spec_channels() == old(self).spec_channels(),
            p.track_id == RAW_TRACK_ID,
            p.ts == old(self).spec_curr_ts(),
            p.dur == (buf@.len() as int) / old(self).spec_frame_bytes(),
            p.data == buf,
            final(self).spec_curr_ts() == old(self).spec_curr_ts() + p.dur,
    {
        let frame_bytes = SAMPLE_BYTES * (self.channels as usize);
        let sample_ct = (buf.len() / frame_bytes) as u64;
        let out = Packet { track_id: RAW_TRACK_ID, ts: self.curr_ts, dur: sample_ct, data: buf };
        self.curr_ts = self.curr_ts + (sample_ct as i64);
        out
    }

    /// Decides how to seek to timestamp `ts`: refused when it lies behind the current
    /// frame in a source that cannot move backwards; otherwise the byte position of
    /// its frame.
    pub fn plan_seek(&self, ts: i64, can_backseek: bool) -> (r: Result<u64, SeekError>)
        requires
            self.wf(),
            ts >= 0 || !can_backseek,
            ts >= 0 && !(self.spec_curr_ts() > ts && !can_backseek) ==> spec_frame_pos(
                ts as int,
                self.spec_channels() as int,
            ) <= u64::MAX,
        ensures
            self.spec_curr_ts() > ts && !can_backseek ==> r == Err::<u64, SeekError>(SeekError::ForwardOnly),
            !(self.spec_curr_ts() > ts && !can_backseek) ==> r == Ok::<u64, SeekError>(
                spec_frame_pos(ts as int, self.spec_channels() as int) as u64,
            ),
    {
        let backseek_needed = self.curr_ts > ts;
        if backseek_needed && !can_backseek {
            return Err(SeekError::ForwardOnly);
        }
        let chans = self.channels as u64;
        let t = ts as u64;
        assert(t * chans <= t * 2) by (nonlinear_arith)
            requires
                chans <= 2,
        ;
        Ok(RAW_HEADER_LEN + (SAMPLE_BYTES as u64) * (t * chans))
    }

    /// Notes that the source now stands at the frame of timestamp `ts`, as a seek
    /// asked, and reports the seek.
    pub fn finish_seek(&mut self, ts: i64) -> (r: SeekedTo)
        requires
            old(self).wf(),
            ts >= 0,
        ensures
            final(self).wf(),
            final(self).spec_sample_rate() == old(self).spec_sample_rate(),
            final(self).spec_channels() == old(self).spec_channels(),
            final(self).spec_curr_ts() == ts,
            r == (SeekedTo { track_id: RAW_TRACK_ID, required_ts: ts, actual_ts: ts }),
    {
        self.curr_ts = ts;
        SeekedTo { track_id: RAW_TRACK_ID, required_ts: ts, actual_ts: ts }
    }
}

/// Reading keeps the byte position and the timestamp in step: when the source
/// stands at the frame of the current timestamp and a packet of whole frames is
/// read, it stands at the frame of the timestamp that follows the packet.
pub proof fn lemma_reading_tracks_position(before: RawReader, after: RawReader, p: Packet)
    requires
        before.wf(),
        after.spec_channels() == before.spec_channels(),
        p.dur == (p.data@.len() as int) / before.spec_frame_bytes(),
        after.spec_curr_ts() == before.spec_curr_ts() + p.dur,
        (p.data@.len() as int) % before.spec_frame_bytes() == 0,
    ensures
        spec_frame_pos(before.spec_curr_ts(), before.spec_channels() as int) + p.data@.len()
            == spec_frame_pos(after.spec_curr_ts(), after.spec_channels() as int),
{
    let fb = before.spec_frame_bytes();
    let len = p.data@.len() as int;
    let c = before.spec_channels() as int;
    let ts = before.spec_curr_ts();
    assert(len == fb * (len / fb)) by (nonlinear_arith)
        requires
            fb > 0,
            len % fb == 0,
    ;
    assert(SAMPLE_BYTES * (ts * c) + len == SAMPLE_BYTES * ((ts + len / fb) * c)) by (nonlinear_arith)
        requires
            fb == SAMPLE_BYTES * c,
            len == fb * (len / fb),
    ;
}

/// A seek lands exactly where asked: once the source stands at the byte position
/// of timestamp `ts`, the next packet read starts at `ts`.
pub proof fn lemma_seek_then_read_starts_at_target(sought: RawReader, after_read: RawReader, ts: i64, p: Packet)
    requires
        sought.wf(),
        sought.spec_curr_ts() == ts,
        p.ts == sought.spec_curr_ts(),
        p.dur == (p.data@.len() as int) / sought.spec_frame_bytes(),
        after_read.spec_curr_ts() == sought.spec_curr_ts() + p.dur,
    ensures
        p.ts == ts,
        after_read.spec_curr_ts() == ts + p.dur,
        (p.data@.len() as int) % sought.spec_frame_bytes() == 0 ==> spec_frame_pos(ts as int, sought.spec_channels() as int)
            + p.data@.len() == spec_frame_pos(after_read.spec_curr_ts(), sought.spec_channels() as int),
{
    if (p.data@.len() as int) % sought.spec_frame_bytes() == 0 {
        let fb = sought.spec_frame_bytes();
        let len = p.data@.len() as int;
        let c = sought.spec_channels() as int;
        assert(len == fb * (len / fb)) by (nonlinear_arith)
            requires
                fb > 0,
                len % fb == 0,
        ;
        assert(SAMPLE_BYTES * (ts * c) + len == SAMPLE_BYTES * ((ts + len / fb) * c)) by (nonlinear_arith)
            requires
                fb == SAMPLE_BYTES * c,
                len == fb * (len / fb),
        ;
    }
}

/// Frames follow the header back to back: the frame of timestamp 0 starts right
/// after the 16-byte header, and each later frame one frame's bytes (4 per channel)
/// further on.
pub proof fn lemma_frame_positions(ts: int, channels: int)
    requires
        ts >= 0,
        channels >= 1,
    ensures
        spec_frame_pos(0, channels) == 16,
        spec_frame_pos(ts + 1, channels) == spec_frame_pos(ts, channels) + 4 * channels,
        spec_frame_pos(ts, channels) >= 16,
{
    assert((ts + 1) * channels == ts * channels + channels) by (nonlinear_arith);
    assert(ts * channels >= 0) by (nonlinear_arith)
        requires
            ts >= 0,
            channels >= 1,
    ;
    assert(0 * channels == 0) by (nonlinear_arith);
}

} // verus!
