//! Framing, timing and seeking of a DCA stream.
//!
//! A DCA0 stream is a sequence of frames, each a little-endian `i16` length followed
//! by that many bytes of one Opus packet. A DCA1 stream puts before them the magic
//! `DCA1`, a little-endian `u32` length and a JSON metadata block of that length.
//!
//! The reader here makes every decision about a stream; reading the bytes and
//! moving in the stream is up to its caller.
use vstd::prelude::*;

use super::metadata::{metadata_tags, spec_metadata_tags, tags_match, DcaMetadata, DcaTag};
use super::seek_accel::{is_seek_entry, lemma_seek_entry_is_latest, lemma_update_keeps_order, sorted_by_ts, SeekAccel};
use crate::input::codecs::format::{Packet, SeekError, SeekedTo};

verus! {

/// Sample rate of the Opus audio in a DCA stream, in Hz.
pub const DCA_SAMPLE_RATE: u32 = 48_000;

/// Id of the one track of a DCA stream.
pub const DCA_TRACK_ID: u32 = 0;

/// The most samples an Opus packet can hold at 48 kHz: 120 ms of audio.
pub const MAX_OPUS_PACKET_SAMPLES: u64 = 5760;

/// The largest packet, in bytes, that is handed to the Opus library.
pub const MAX_OPUS_PACKET_LEN: usize = 0x7fff_ffff;

/// Why a DCA stream was refused.
#[derive(Debug, Clone, Copy, PartialEq, Eq, Structural)]
pub enum DcaError {
    /// The stream starts with `DCA` and a version other than 1.
    UnsupportedVersion,
    /// The metadata block of a DCA1 stream is shorter than two bytes.
    MissingMetadata,
    /// The metadata block of a DCA1 stream is not valid JSON of the expected shape.
    MalformedMetadata,
    /// A frame header gave a negative length.
    NegativeFrameLength,
    /// A frame was empty, or too large for the Opus library.
    InvalidPacketSize,
    /// The sample count of a frame's Opus packet could not be read.
    UnreadableSampleCount,
}

/// The layout a DCA stream announces in its first four bytes.
#[derive(Debug, Clone, Copy, PartialEq, Eq, Structural)]
pub enum DcaVersion {
    /// No magic: the stream is a bare sequence of frames, starting at its first byte.
    Dca0,
    /// The magic `DCA1`: a metadata block follows.
    Dca1,
}

/// Whether four bytes begin with `DCA`.
pub open spec fn starts_with_dca(magic: Seq<u8>) -> bool {
    magic[0] == 0x44u8 && magic[1] == 0x43u8 && magic[2] == 0x41u8
}

/// What the first four bytes of a stream announce: `DCA1`, another `DCA` version
/// (refused), or no magic at all.
pub open spec fn spec_classify_magic(magic: Seq<u8>) -> Result<DcaVersion, DcaError> {
    if starts_with_dca(magic) && magic[3] == 0x31u8 {
        Ok(DcaVersion::Dca1)
    } else if starts_with_dca(magic) {
        Err(DcaError::UnsupportedVersion)
    } else {
        Ok(DcaVersion::Dca0)
    }
}

/// Reads the version of a DCA stream from its first four bytes. With `Dca0`, the
/// four bytes belong to the first frame and must be read again.
pub fn classify_magic(magic: [u8; 4]) -> (r: Result<DcaVersion, DcaError>)
    ensures
        r == spec_classify_magic(magic@),
{
    let is_dca = magic[0] == 0x44u8 && magic[1] == 0x43u8 && magic[2] == 0x41u8;
    if is_dca && magic[3] == 0x31u8 {
        Ok(DcaVersion::Dca1)
    } else if is_dca {
        Err(DcaError::UnsupportedVersion)
    } else {
        Ok(DcaVersion::Dca0)
    }
}

/// Checks the length field of a DCA1 metadata block. The field is read as a signed
/// 32-bit value, and the block must hold at least two bytes.
pub fn metadata_block_len(size: u32) -> (r: Result<usize, DcaError>)
    ensures
        2 <= size <= 0x7fff_ffff ==> r == Ok::<usize, DcaError>(size as usize),
        !(2 <= size <= 0x7fff_ffff) ==> r == Err::<usize, DcaError>(DcaError::MissingMetadata),
{
    if size < 2 || size > 0x7fff_ffff {
        Err(DcaError::MissingMetadata)
    } else {
        Ok(size as usize)
    }
}

/// Reads the length of a frame from its two-byte header, taken as a little-endian
/// signed 16-bit value: a negative length is refused.
pub fn frame_length(header: u16) -> (r: Result<usize, DcaError>)
    ensures
        header < 0x8000 ==> r == Ok::<usize, DcaError>(header as usize),
        header >= 0x8000 ==> r == Err::<usize, DcaError>(DcaError::NegativeFrameLength),
{
    if header >= 0x8000 {
        Err(DcaError::NegativeFrameLength)
    } else {
        Ok(header as usize)
    }
}

/// Number of frames in an Opus packet, from the code in the low bits of its first
/// byte: one, two, or (code 3) the count in the low six bits of the second byte.
/// `None` for an empty packet, or a code-3 packet without a second byte.
pub open spec fn opus_frame_count(packet: Seq<u8>) -> Option<int> {
    if packet.len() == 0 {
        None
    } else if packet[0] & 3u8 == 0u8 {
        Some(1)
    } else if packet[0] & 3u8 != 3u8 {
        Some(2)
    } else if packet.len() < 2 {
        None
    } else {
        Some((packet[1] & 0x3fu8) as int)
    }
}

/// Samples per frame at 48 kHz of an Opus packet with first byte `toc`: from its
/// mode (CELT, hybrid or SILK) and frame-size bits.
pub open spec fn opus_samples_per_frame_48k(toc: u8) -> int {
    let size = (toc >> 3u8) & 3u8;
    if toc & 0x80u8 != 0u8 {
        if size == 0u8 { 120 } else if size == 1u8 { 240 } else if size == 2u8 { 480 } else { 960 }
    } else if toc & 0x60u8 == 0x60u8 {
        if toc & 0x08u8 != 0u8 { 960 } else { 480 }
    } else {
        if size == 3u8 { 2880 } else if size == 0u8 { 480 } else if size == 1u8 { 960 } else { 1920 }
    }
}

/// Number of samples at 48 kHz in an Opus packet: frames times samples per frame,
/// refused (`None`) where the packet is malformed or would hold more than 120 ms.
pub open spec fn opus_packet_samples_48k(packet: Seq<u8>) -> Option<usize> {
    match opus_frame_count(packet) {
        None => None,
        Some(count) => {
            let n = count * opus_samples_per_frame_48k(packet[0]);
            if n * 25 <= 48_000 * 3 {
                Some(n as usize)
            } else {
                None
            }
        },
    }
}

/// Reads the number of samples in an Opus packet with opus2's
/// `packet::get_nb_samples`.
///
/// Trusted: at 48 kHz, the result is what that function's source computes (frame
/// count times samples per frame, refused beyond 120 ms or for a malformed packet);
/// at any rate, no count exceeds 120 ms and an empty packet is refused. The
/// computation at other rates is left unstated.
#[verifier::external_body]
fn packet_sample_count(packet: &[u8], sample_rate: u32) -> (r: Option<usize>)
    ensures
        sample_rate == 48_000 ==> r == opus_packet_samples_48k(packet@),
        r matches Some(n) ==> n * 25 <= sample_rate * 3,
        packet@.len() == 0 ==> r is None,
{
    opus2::packet::get_nb_samples(packet, sample_rate).ok()
}

/// The outcome of one step of a seek, given the next packet read, or `None` when
/// no further packet could be read.
#[derive(Debug, Clone, Copy, PartialEq, Eq)]
pub enum SeekStep {
    /// The packet does not hold the target: read on.
    Continue,
    /// The seek is over: landed on a packet, or refused.
    Done(Result<SeekedTo, SeekError>),
}

/// What to do for a seek: the target timestamp, the index entry from which to read
/// forward, and whether the source must first be moved to that entry.
#[derive(Debug, Clone, Copy, PartialEq, Eq)]
pub struct SeekPlan {
    /// The timestamp sought.
    pub ts: i64,
    /// Timestamp and byte position of the index entry to start from.
    pub entry: (i64, u64),
    /// Whether the source must be moved to `entry` before reading on.
    pub jump: bool,
}

/// The state of a DCA stream being read: its tags, its seek index, the timestamp of
/// the next frame, the end of the stream once met, and a packet held back by a seek.
pub struct DcaReader {
    tags: Option<Vec<DcaTag>>,
    seek_accel: SeekAccel,
    curr_ts: i64,
    max_ts: Option<i64>,
    held_packet: Option<Packet>,
}

impl DcaReader {
    /// The tags of the stream's metadata block, if it has one.
    pub closed spec fn spec_tags(&self) -> Option<Seq<DcaTag>> {
        match self.tags {
            Some(t) => Some(t@),
            None => None,
        }
    }

    /// The seek index.
    pub closed spec fn spec_seek_accel(&self) -> SeekAccel {
        self.seek_accel
    }

    /// Timestamp of the next frame to be read.
    pub closed spec fn spec_curr_ts(&self) -> int {
        self.curr_ts as int
    }

    /// Timestamp of the end of the stream, once it has been reached.
    pub closed spec fn spec_max_ts(&self) -> Option<i64> {
        self.max_ts
    }

    /// The packet to be returned before any further frame is read.
    pub closed spec fn spec_held_packet(&self) -> Option<Packet> {
        self.held_packet
    }

    /// Well-formedness: the index is well formed, no timestamp is negative, the index
    /// is ordered when its fill period outlasts the longest Opus packet, and a held
    /// packet ends where the next frame starts.
    pub open spec fn wf(&self) -> bool {
        &&& self.spec_seek_accel().wf()
        &&& self.spec_curr_ts() >= 0
        &&& self.spec_max_ts() matches Some(m) ==> m >= 0
        &&& self.spec_seek_accel().step() >= MAX_OPUS_PACKET_SAMPLES ==> self.index_ordered()
        &&& self.spec_held_packet() matches Some(p) ==> self.is_last_packet(p)
    }

    /// Whether `p` is a packet of this stream that ends at the current timestamp.
    pub open spec fn is_last_packet(&self, p: Packet) -> bool {
        p.track_id == DCA_TRACK_ID && p.ts + p.dur == self.spec_curr_ts()
    }

    /// The seek index is ordered by timestamp, its newest entry lies before the fill
    /// point, and the current timestamp lies less than one fill period past it.
    ///
    /// This holds whenever the fill period is at least as long as the longest Opus
    /// packet, so that no packet can step over a whole period.
    pub open spec fn index_ordered(&self) -> bool {
        let accel = self.spec_seek_accel();
        &&& sorted_by_ts(accel.offsets())
        &&& accel.offsets().last().0 < accel.next_ts()
        &&& self.spec_curr_ts() < accel.next_ts() + accel.step()
    }

    /// Whether `self` is `before` after reading, as packet `p`, the frame at byte
    /// `frame_pos`: the packet starts at the timestamp where `before` stood, the
    /// timestamp moves past the packet, and the frame is recorded in the seek index
    /// where due. Nothing else changes.
    pub open spec fn frame_accepted(&self, before: DcaReader, frame_pos: u64, p: Packet) -> bool {
        &&& p.track_id == DCA_TRACK_ID
        &&& p.ts == before.spec_curr_ts()
        &&& self.spec_curr_ts() == before.spec_curr_ts() + p.dur
        &&& self.spec_seek_accel().updated_from(before.spec_seek_accel(), before.spec_curr_ts(), frame_pos)
        &&& self.spec_max_ts() == before.spec_max_ts()
        &&& self.spec_held_packet() == before.spec_held_packet()
        &&& self.spec_tags() == before.spec_tags()
    }

    /// Why a seek to timestamp `ts` is refused, if it is: it lies past the known end
    /// of the stream, or behind the current frame in a source that cannot move
    /// backwards.
    pub open spec fn seek_refusal(&self, ts: int, can_backseek: bool) -> Option<SeekError> {
        if self.spec_max_ts() matches Some(m) && ts > m {
            Some(SeekError::OutOfRange)
        } else if self.spec_curr_ts() > ts && !can_backseek {
            Some(SeekError::ForwardOnly)
        } else {
            None
        }
    }

    /// Whether `self` is `before` after a seek to `ts` met packet `pkt` holding `ts`:
    /// the packet is held back, to be returned next. Nothing else changes.
    pub open spec fn seek_landed(&self, before: DcaReader, pkt: Packet, ts: int) -> bool {
        &&& pkt.spec_covers(ts)
        &&& self.spec_held_packet() == Some(pkt)
        &&& self.spec_curr_ts() == before.spec_curr_ts()
        &&& self.spec_max_ts() == before.spec_max_ts()
        &&& self.spec_seek_accel() == before.spec_seek_accel()
        &&& self.spec_tags() == before.spec_tags()
    }

    /// A reader at the start of the frames, which begin at byte `first_frame_pos`, with
    /// the tags of `metadata` where the stream has a metadata block.
    pub fn new(metadata: Option<DcaMetadata>, fill_period_ms: u16, first_frame_pos: u64) -> (r: Self)
        ensures
            r.wf(),
            r.spec_curr_ts() == 0,
            r.spec_max_ts() is None,
            r.spec_held_packet() is None,
            r.spec_seek_accel().offsets() == seq![(0i64, first_frame_pos)],
            r.spec_seek_accel().step() == fill_period_ms * 48,
            r.spec_seek_accel().next_ts() == fill_period_ms * 48,
            metadata is None ==> r.spec_tags() is None,
            metadata matches Some(m) ==> r.spec_tags() matches Some(t) && tags_match(
                t,
                spec_metadata_tags(m),
            ),
    {
        let tags = match metadata {
            Some(m) => Some(metadata_tags(m)),
            None => None,
        };
        DcaReader {
            tags,
            seek_accel: SeekAccel::new(fill_period_ms, first_frame_pos),
            curr_ts: 0,
            max_ts: None,
            held_packet: None,
        }
    }

    /// The tags of the stream's metadata block, if it has one.
    pub fn tags(&self) -> (r: Option<&Vec<DcaTag>>)
        ensures
            match r {
                Some(t) => self.spec_tags() == Some(t@),
                None => self.spec_tags() is None,
            },
    {
        match &self.tags {
            Some(t) => Some(t),
            None => None,
        }
    }

    /// Timestamp of the next frame to be read.
    pub fn curr_ts(&self) -> (r: i64)
        ensures
            r == self.spec_curr_ts(),
    {
        self.curr_ts
    }

    /// Timestamp of the end of the stream, once it has been reached.
    pub fn max_ts(&self) -> (r: Option<i64>)
        ensures
            r == self.spec_max_ts(),
    {
        self.max_ts
    }

    /// Whether the timestamps can move past one more frame without overflowing:
    /// the condition under which a frame is accepted.
    pub open spec fn spec_can_advance(&self) -> bool {
        &&& self.spec_curr_ts() + MAX_OPUS_PACKET_SAMPLES <= i64::MAX
        &&& self.spec_curr_ts() >= self.spec_seek_accel().next_ts() ==> self.spec_seek_accel().next_ts()
            + self.spec_seek_accel().step() <= i64::MAX
    }

    /// Whether the timestamps can move past one more frame without overflowing.
    pub fn can_advance(&self) -> (r: bool)
        requires
            self.wf(),
        ensures
            r == self.spec_can_advance(),
            self.spec_curr_ts() + MAX_OPUS_PACKET_SAMPLES <= i64::MAX && self.spec_seek_accel().next_ts()
                + self.spec_seek_accel().step() <= i64::MAX ==> r,
            r ==> self.spec_curr_ts() + MAX_OPUS_PACKET_SAMPLES <= i64::MAX,
    {
        let fill_point = self.seek_accel.fill_point();
        let step = self.seek_accel.fill_step();
        let ts_ok = self.curr_ts <= i64::MAX - (MAX_OPUS_PACKET_SAMPLES as i64);
        let fill_ok = self.curr_ts < fill_point || (step <= i64::MAX as u64 && fill_point <= i64::MAX - (step as i64));
        ts_ok && fill_ok
    }

    /// Takes the packet held back by a seek, which is the next one to return.
    pub fn take_held_packet(&mut self) -> (r: Option<Packet>)
        requires
            old(self).wf(),
        ensures
            final(self).wf(),
            r == old(self).spec_held_packet(),
            r matches Some(p) ==> old(self).is_last_packet(p),
            final(self).spec_held_packet() is None,
            final(self).spec_curr_ts() == old(self).spec_curr_ts(),
            final(self).spec_max_ts() == old(self).spec_max_ts(),
            final(self).spec_seek_accel() == old(self).spec_seek_accel(),
            final(self).spec_tags() == old(self).spec_tags(),
    {
        self.held_packet.take()
    }

    /// Notes that no further frame header could be read: the stream ends at the
    /// current timestamp.
    pub fn end_of_stream(&mut self)
        requires
            old(self).wf(),
        ensures
            final(self).wf(),
            final(self).spec_max_ts() == Some(old(self).spec_curr_ts() as i64),
            final(self).spec_curr_ts() == old(self).spec_curr_ts(),
            final(self).spec_held_packet() == old(self).spec_held_packet(),
            final(self).spec_seek_accel() == old(self).spec_seek_accel(),
            final(self).spec_tags() == old(self).spec_tags(),
    {
        self.max_ts = Some(self.curr_ts);
    }

    /// Turns the bytes of the frame that starts at byte `frame_pos` into the next
    /// packet: it starts at the current timestamp and lasts as many samples as its Opus
    /// packet holds. The frame is recorded in the seek index where due.
    pub fn accept_frame(&mut self, frame_pos: u64, buf: Vec<u8>) -> (r: Result<Packet, DcaError>)
        requires
            old(self).wf(),
            old(self).spec_can_advance(),
            old(self).spec_held_packet() is None,
        ensures
            final(self).wf(),
            (buf@.len() == 0 || buf@.len() > MAX_OPUS_PACKET_LEN) ==> {
                &&& r == Err::<Packet, DcaError>(DcaError::InvalidPacketSize)
                &&& *final(self) == *old(self)
            },
            !(buf@.len() == 0 || buf@.len() > MAX_OPUS_PACKET_LEN) ==> old(self).counted_frame_taken(
                *final(self),
                frame_pos,
                buf,
                opus_packet_samples_48k(buf@),
                r,
            ),
    {
        if buf.len() == 0 || buf.len() > MAX_OPUS_PACKET_LEN {
            return Err(DcaError::InvalidPacketSize);
        }
        let sample_count = packet_sample_count(buf.as_slice(), DCA_SAMPLE_RATE);
        self.accept_counted_frame(frame_pos, buf, sample_count)
    }

    /// Whether `after` and `r` are what taking frame `buf` at byte `frame_pos` with
    /// Opus sample count `sample_count` gives from `self`: refused when the count is
    /// unknown; otherwise the packet starts at the current timestamp and lasts that
    /// many samples, as `frame_accepted` says.
    pub open spec fn counted_frame_taken(
        &self,
        after: DcaReader,
        frame_pos: u64,
        buf: Vec<u8>,
        sample_count: Option<usize>,
        r: Result<Packet, DcaError>,
    ) -> bool {
        match sample_count {
            None => r == Err::<Packet, DcaError>(DcaError::UnreadableSampleCount) && after == *self,
            Some(n) => r matches Ok(p) && p.dur == n && p.data == buf && after.frame_accepted(
                *self,
                frame_pos,
                p,
            ),
        }
    }

    /// Takes the frame `buf` at byte `frame_pos`, whose Opus packet holds
    /// `sample_count` samples (`None` where the count could not be read), as the next
    /// packet.
    pub fn accept_counted_frame(&mut self, frame_pos: u64, buf: Vec<u8>, sample_count: Option<usize>) -> (r: Result<Packet, DcaError>)
        requires
            old(self).wf(),
            old(self).spec_can_advance(),
            old(self).spec_held_packet() is None,
            sample_count matches Some(n) ==> n <= MAX_OPUS_PACKET_SAMPLES,
        ensures
            final(self).wf(),
            old(self).counted_frame_taken(*final(self), frame_pos, buf, sample_count, r),
    {
        let sample_ct = match sample_count {
            Some(n) => n as u64,
            None => {
                return Err(DcaError::UnreadableSampleCount);
            },
        };
        let out = Packet { track_id: DCA_TRACK_ID, ts: self.curr_ts, dur: sample_ct, data: buf };
        let ghost before = self.seek_accel;
        self.seek_accel.update(self.curr_ts, frame_pos);
        proof {
            if before.step() >= MAX_OPUS_PACKET_SAMPLES {
                if self.curr_ts >= before.next_ts() {
                    lemma_update_keeps_order(before, self.seek_accel, self.curr_ts as int, frame_pos);
                }
            }
        }
        self.curr_ts = self.curr_ts + (sample_ct as i64);
        Ok(out)
    }

    /// Decides how to seek to timestamp `ts`: refused past the known end of the
    /// stream, or backwards in a source that cannot move backwards; otherwise the plan
    /// starts from the seek index's entry for `ts`, and moves the source there when the
    /// seek goes backwards or the entry lies ahead of the source's position
    /// `source_pos`.
    pub fn plan_seek(&self, ts: i64, can_backseek: bool, source_pos: u64) -> (r: Result<SeekPlan, SeekError>)
        requires
            self.wf(),
            ts >= 0 || !can_backseek,
        ensures
            match self.seek_refusal(ts as int, can_backseek) {
                Some(e) => r == Err::<SeekPlan, SeekError>(e),
                None => r matches Ok(plan) && {
                    &&& plan.ts == ts
                    &&& exists|i: int| is_seek_entry(self.spec_seek_accel().offsets(), i, ts as int)
                        && plan.entry == self.spec_seek_accel().offsets()[i]
                    &&& plan.entry.0 >= 0
                    &&& self.spec_seek_accel().offsets().contains(plan.entry)
                    &&& self.spec_seek_accel().step() >= MAX_OPUS_PACKET_SAMPLES ==> forall|j: int|
                        0 <= j < self.spec_seek_accel().offsets().len()
                            && #[trigger] self.spec_seek_accel().offsets()[j].0 <= ts
                            ==> self.spec_seek_accel().offsets()[j].0 <= plan.entry.0
                    &&& plan.jump == (self.spec_curr_ts() > ts || plan.entry.1 > source_pos)
                },
            },
            self.spec_curr_ts() <= ts && (self.spec_max_ts() matches Some(m) ==> ts <= m) ==> r is Ok,
            can_backseek && (self.spec_max_ts() matches Some(m) ==> ts <= m) ==> r is Ok,
            r == Err::<SeekPlan, SeekError>(SeekError::ForwardOnly) ==> self.spec_curr_ts() > ts && !can_backseek,
            r == Err::<SeekPlan, SeekError>(SeekError::OutOfRange) ==> (self.spec_max_ts() matches Some(m)
                && ts > m),
            r matches Ok(plan) ==> plan.ts == ts && plan.entry.0 <= ts && (self.spec_curr_ts() > ts ==> plan.jump),
    {
        match self.max_ts {
            Some(max_ts) => {
                if ts > max_ts {
                    return Err(SeekError::OutOfRange);
                }
            },
            None => {},
        }
        let backseek_needed = self.curr_ts > ts;
        if backseek_needed && !can_backseek {
            return Err(SeekError::ForwardOnly);
        }
        let entry = self.seek_accel.get_seek_pos(ts);
        let jump = backseek_needed || entry.1 > source_pos;
        proof {
            let offsets = self.spec_seek_accel().offsets();
            let i = choose|i: int| is_seek_entry(offsets, i, ts as int) && entry == offsets[i];
            assert(offsets[i].0 >= 0);
            assert(offsets.contains(entry));
            if self.spec_seek_accel().step() >= MAX_OPUS_PACKET_SAMPLES {
                lemma_seek_entry_is_latest(offsets, i, ts as int);
                assert forall|j: int| 0 <= j < offsets.len() && #[trigger] offsets[j].0 <= ts implies offsets[j].0
                    <= entry.0 by {
                    if j > i {
                        assert(offsets[j].0 > ts);
                    }
                }
            }
        }
        Ok(SeekPlan { ts, entry, jump })
    }

    /// Notes that the source now stands at the indexed frame `entry`, where a seek
    /// plan moved it. A packet held back by an earlier seek lies elsewhere in the
    /// stream, so it is dropped.
    pub fn jump_to_entry(&mut self, entry: (i64, u64))
        requires
            old(self).wf(),
            old(self).spec_seek_accel().offsets().contains(entry),
        ensures
            final(self).wf(),
            final(self).spec_curr_ts() == entry.0,
            final(self).spec_max_ts() == old(self).spec_max_ts(),
            final(self).spec_held_packet() is None,
            final(self).spec_seek_accel() == old(self).spec_seek_accel(),
            final(self).spec_tags() == old(self).spec_tags(),
    {
        proof {
            let offsets = self.spec_seek_accel().offsets();
            let i = choose|i: int| 0 <= i < offsets.len() && offsets[i] == entry;
            assert(offsets[i].0 >= 0);
            if self.spec_seek_accel().step() >= MAX_OPUS_PACKET_SAMPLES {
                assert(offsets[i].0 <= offsets[offsets.len() - 1].0);
            }
        }
        self.curr_ts = entry.0;
        self.held_packet = None;
    }

    /// One step of a seek to `ts`, given the next packet read (`None` once no packet
    /// can be read): the seek ends on the packet that holds `ts`, which is then held
    /// back to be returned next; other packets are passed over; and a seek that runs
    /// out of packets is refused as out of range.
    pub fn seek_step(&mut self, next: Option<Packet>, ts: i64) -> (r: SeekStep)
        requires
            old(self).wf(),
            old(self).spec_held_packet() is None,
            next matches Some(p) ==> old(self).is_last_packet(p),
        ensures
            final(self).wf(),
            match next {
                None => r == SeekStep::Done(Err(SeekError::OutOfRange)) && *final(self) == *old(self),
                Some(pkt) => if pkt.spec_covers(ts as int) {
                    &&& r == SeekStep::Done(
                        Ok(SeekedTo { track_id: DCA_TRACK_ID, required_ts: ts, actual_ts: pkt.ts }),
                    )
                    &&& final(self).seek_landed(*old(self), pkt, ts as int)
                } else {
                    r == SeekStep::Continue && *final(self) == *old(self)
                },
            },
    {
        match next {
            None => SeekStep::Done(Err(SeekError::OutOfRange)),
            Some(pkt) => {
                if pkt.covers(ts) {
                    let seeked = SeekedTo { track_id: DCA_TRACK_ID, required_ts: ts, actual_ts: pkt.ts };
                    self.held_packet = Some(pkt);
                    SeekStep::Done(Ok(seeked))
                } else {
                    SeekStep::Continue
                }
            },
        }
    }
}

/// Once the end of the stream has been met, every seek past it is refused as out
/// of range, and every seek up to it backwards is allowed where the source can
/// move backwards.
pub proof fn lemma_seek_past_end_refused(r0: DcaReader, r1: DcaReader, ts: int, can_backseek: bool)
    requires
        r1.spec_max_ts() == Some(r0.spec_curr_ts() as i64),
        r1.spec_curr_ts() == r0.spec_curr_ts(),
    ensures
        ts > r0.spec_curr_ts() ==> r1.seek_refusal(ts, can_backseek) == Some(SeekError::OutOfRange),
        ts <= r0.spec_curr_ts() && can_backseek ==> r1.seek_refusal(ts, can_backseek) is None,
{
}

/// With a fill period of at least 120 ms (the longest Opus packet), the seek index
/// stays ordered by timestamp, so every seek starts from the latest indexed frame at
/// or before its target.
pub proof fn lemma_long_fill_period_keeps_index_ordered(r: DcaReader)
    requires
        r.wf(),
        r.spec_seek_accel().step() >= MAX_OPUS_PACKET_SAMPLES,
    ensures
        sorted_by_ts(r.spec_seek_accel().offsets()),
{
}

/// A run of frames read one after another gives packets without gaps: each
/// packet starts where the one before it ended, the first starts where the reader
/// stood, and the reader stands at the end of the last one.
pub proof fn lemma_packet_run_is_contiguous(states: Seq<DcaReader>, positions: Seq<u64>, packets: Seq<Packet>)
    requires
        is_frame_run(states, positions, packets),
    ensures
        packets.len() > 0 ==> packets[0].ts == states[0].spec_curr_ts(),
        forall|i: int| 0 < i < packets.len() ==> #[trigger] packets[i].ts == packets[i - 1].ts + packets[i - 1].dur,
        packets.len() > 0 ==> states.last().spec_curr_ts() == packets.last().ts + packets.last().dur,
{
    if packets.len() > 0 {
        assert(states[1].frame_accepted(states[0], positions[0], packets[0]));
        let n = packets.len() - 1;
        assert(states[n + 1].frame_accepted(states[n], positions[n], packets[n]));
    }
    assert forall|i: int| 0 < i < packets.len() implies #[trigger] packets[i].ts == packets[i - 1].ts
        + packets[i - 1].dur by {
        assert(states[i].frame_accepted(states[i - 1], positions[i - 1], packets[i - 1]));
        assert(states[i + 1].frame_accepted(states[i], positions[i], packets[i]));
    }
}

/// After a seek lands on a packet, that packet is the next one returned, it holds
/// the timestamp sought, and the packet read after it starts where it ends.
pub proof fn lemma_seek_then_read(
    r0: DcaReader,
    r1: DcaReader,
    r2: DcaReader,
    r3: DcaReader,
    pkt: Packet,
    ts: i64,
    seeked: SeekedTo,
    next: Option<Packet>,
    pos: u64,
    following: Packet,
)
    requires
        r1.wf(),
        r1.seek_landed(r0, pkt, ts as int),
        seeked == (SeekedTo { track_id: DCA_TRACK_ID, required_ts: ts, actual_ts: pkt.ts }),
        next == r1.spec_held_packet(),
        r2.spec_curr_ts() == r1.spec_curr_ts(),
        r3.frame_accepted(r2, pos, following),
    ensures
        next == Some(pkt),
        pkt.ts == seeked.actual_ts,
        seeked.actual_ts <= seeked.required_ts < pkt.ts + pkt.dur,
        seeked.track_id == DCA_TRACK_ID,
        following.ts == pkt.ts + pkt.dur,
{
}

/// Whether `states` and `packets` are a run of frames read one after another: each
/// state is the one before it after accepting the frame at `positions[i]` as
/// `packets[i]`.
pub open spec fn is_frame_run(states: Seq<DcaReader>, positions: Seq<u64>, packets: Seq<Packet>) -> bool {
    &&& states.len() == packets.len() + 1
    &&& positions.len() == packets.len()
    &&& forall|i: int|
        #![trigger packets[i]]
        0 <= i < packets.len() ==> states[i + 1].frame_accepted(states[i], positions[i], packets[i])
}

proof fn lemma_frame_runs_agree_prefix(
    first: Seq<DcaReader>,
    second: Seq<DcaReader>,
    positions: Seq<u64>,
    first_pkts: Seq<Packet>,
    second_pkts: Seq<Packet>,
    k: int,
)
    requires
        is_frame_run(first, positions, first_pkts),
        is_frame_run(second, positions, second_pkts),
        first_pkts.len() == second_pkts.len(),
        first[0].spec_curr_ts() == second[0].spec_curr_ts(),
        forall|i: int|
            #![trigger first_pkts[i], second_pkts[i]]
            0 <= i < first_pkts.len() ==> first_pkts[i].data == second_pkts[i].data && first_pkts[i].dur
                == second_pkts[i].dur,
        0 <= k <= first_pkts.len(),
    ensures
        first[k].spec_curr_ts() == second[k].spec_curr_ts(),
        forall|i: int| 0 <= i < k ==> #[trigger] first_pkts[i] == second_pkts[i],
    decreases k,
{
    if k > 0 {
        lemma_frame_runs_agree_prefix(first, second, positions, first_pkts, second_pkts, k - 1);
        let j = k - 1;
        assert(first[j + 1].frame_accepted(first[j], positions[j], first_pkts[j]));
        assert(second[j + 1].frame_accepted(second[j], positions[j], second_pkts[j]));
        assert(first_pkts[j].data == second_pkts[j].data && first_pkts[j].dur == second_pkts[j].dur);
    }
}

/// Seeking twice to one timestamp gives what seeking once gives.
///
/// The first seek to `ts` read the run `first` (ending with the packet `held`, which
/// holds `ts`) and left the reader `landed` at the end of that packet, past `ts`: so a
/// second seek to `ts` moves the source back (and `jump_to_entry` drops the held
/// packet). Read from the same timestamp over the same frames, the second seek meets
/// the same packets, so every seek step gives the same outcome and it lands on the
/// same packet; and the frames read after each landing, the same again, give the
/// same packets.
pub proof fn lemma_second_seek_replays_first(
    landed: DcaReader,
    held: Packet,
    ts: int,
    first: Seq<DcaReader>,
    second: Seq<DcaReader>,
    positions: Seq<u64>,
    first_pkts: Seq<Packet>,
    second_pkts: Seq<Packet>,
    first_after: Seq<DcaReader>,
    second_after: Seq<DcaReader>,
    positions_after: Seq<u64>,
    first_after_pkts: Seq<Packet>,
    second_after_pkts: Seq<Packet>,
)
    requires
        landed.wf(),
        landed.spec_held_packet() == Some(held),
        held.spec_covers(ts),
        is_frame_run(first, positions, first_pkts),
        is_frame_run(second, positions, second_pkts),
        first_pkts.len() > 0,
        held == first_pkts.last(),
        landed.spec_curr_ts() == first.last().spec_curr_ts(),
        first_pkts.len() == second_pkts.len(),
        first[0].spec_curr_ts() == second[0].spec_curr_ts(),
        forall|i: int|
            #![trigger first_pkts[i], second_pkts[i]]
            0 <= i < first_pkts.len() ==> first_pkts[i].data == second_pkts[i].data && first_pkts[i].dur
                == second_pkts[i].dur,
        is_frame_run(first_after, positions_after, first_after_pkts),
        is_frame_run(second_after, positions_after, second_after_pkts),
        first_after_pkts.len() == second_after_pkts.len(),
        first_after[0].spec_curr_ts() == first.last().spec_curr_ts(),
        second_after[0].spec_curr_ts() == second.last().spec_curr_ts(),
        forall|i: int|
            #![trigger first_after_pkts[i], second_after_pkts[i]]
            0 <= i < first_after_pkts.len() ==> first_after_pkts[i].data == second_after_pkts[i].data
                && first_after_pkts[i].dur == second_after_pkts[i].dur,
    ensures
        landed.spec_curr_ts() > ts,
        landed.seek_refusal(ts, true) != Some(SeekError::ForwardOnly),
        first_pkts == second_pkts,
        second_pkts.last() == held,
        forall|i: int| 0 <= i < first_pkts.len() ==> (#[trigger] first_pkts[i]).spec_covers(ts)
            == second_pkts[i].spec_covers(ts),
        first_after_pkts == second_after_pkts,
{
    lemma_frame_runs_agree_prefix(first, second, positions, first_pkts, second_pkts, first_pkts.len() as int);
    assert(first_pkts =~= second_pkts);
    lemma_frame_runs_agree_prefix(
        first_after,
        second_after,
        positions_after,
        first_after_pkts,
        second_after_pkts,
        first_after_pkts.len() as int,
    );
    assert(first_after_pkts =~= second_after_pkts);
}

/// A seek is refused only for one of its two reasons: a seek to a timestamp at or
/// after the current one and not past a known end is never refused, whether or not
/// the source can move backwards; a seek is refused as forward-only only when it
/// goes backwards in a source that cannot; and as out of range only when it goes
/// past a known end.
pub proof fn lemma_seek_refused_only_for_cause(r: DcaReader, ts: int, can_backseek: bool)
    ensures
        r.spec_curr_ts() <= ts && (r.spec_max_ts() matches Some(m) ==> ts <= m) ==> r.seek_refusal(
            ts,
            can_backseek,
        ) is None,
        can_backseek && (r.spec_max_ts() matches Some(m) ==> ts <= m) ==> r.seek_refusal(ts, can_backseek) is None,
        r.seek_refusal(ts, can_backseek) == Some(SeekError::ForwardOnly) ==> r.spec_curr_ts() > ts && !can_backseek,
        r.seek_refusal(ts, can_backseek) == Some(SeekError::OutOfRange) ==> (r.spec_max_ts() matches Some(m)
            && ts > m),
        !can_backseek && r.spec_curr_ts() > ts && (r.spec_max_ts() matches Some(m) ==> ts <= m) ==> r.seek_refusal(
            ts,
            can_backseek,
        ) == Some(SeekError::ForwardOnly),
{
}

/// The reader takes frames for as long as its timestamps cannot overflow: reaching
/// a fill point of the seek index is no reason to stop.
pub proof fn lemma_frames_taken_until_overflow(r: DcaReader)
    ensures
        r.spec_curr_ts() + MAX_OPUS_PACKET_SAMPLES <= i64::MAX && r.spec_seek_accel().next_ts()
            + r.spec_seek_accel().step() <= i64::MAX ==> r.spec_can_advance(),
        r.spec_can_advance() ==> r.spec_curr_ts() + MAX_OPUS_PACKET_SAMPLES <= i64::MAX,
{
}

/// The magic of a stream decides its layout: exactly `DCA1` announces a metadata
/// block, `DCA` followed by anything else is refused, and a stream whose first three
/// bytes are not `DCA` is a bare sequence of frames.
pub proof fn lemma_magic_layout(magic: Seq<u8>)
    requires
        magic.len() == 4,
    ensures
        (magic[0] == 0x44 && magic[1] == 0x43 && magic[2] == 0x41 && magic[3] == 0x31) ==> spec_classify_magic(magic)
            == Ok::<DcaVersion, DcaError>(DcaVersion::Dca1),
        (magic[0] == 0x44 && magic[1] == 0x43 && magic[2] == 0x41 && magic[3] != 0x31) ==> spec_classify_magic(magic)
            == Err::<DcaVersion, DcaError>(DcaError::UnsupportedVersion),
        !(magic[0] == 0x44 && magic[1] == 0x43 && magic[2] == 0x41) ==> spec_classify_magic(magic) == Ok::<
            DcaVersion,
            DcaError,
        >(DcaVersion::Dca0),
{
}

/// An Opus packet never holds more than 120 ms at 48 kHz; an empty one, or one that
/// announces more frames than it carries bytes for, holds no readable count; and a
/// single-frame packet holds one frame's worth of samples.
pub proof fn lemma_opus_sample_count_bounds(packet: Seq<u8>)
    ensures
        opus_packet_samples_48k(packet) matches Some(n) ==> n <= MAX_OPUS_PACKET_SAMPLES,
        packet.len() == 0 ==> opus_packet_samples_48k(packet) is None,
        packet.len() == 1 && packet[0] & 3u8 == 3u8 ==> opus_packet_samples_48k(packet) is None,
        packet.len() >= 1 && packet[0] & 3u8 == 0u8 ==> opus_packet_samples_48k(packet) == Some(
            opus_samples_per_frame_48k(packet[0]) as usize,
        ),
        packet.len() >= 1 ==> 120 <= opus_samples_per_frame_48k(packet[0]) <= 2880,
{
}

} // verus!
