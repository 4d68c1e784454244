use songbird::input::codecs::dca::metadata::{
    metadata_tags, DcaInfo, DcaMetadata, DcaTagKind, Info, Opus, Origin, Tool,
};
use songbird::input::codecs::dca::reader::{
    classify_magic, frame_length, metadata_block_len, DcaError, DcaReader, DcaVersion, SeekStep,
};
use songbird::input::codecs::dca::SeekAccel;
use songbird::input::codecs::format::{resolve_target, Packet, SeekError, SeekTarget, SeekedTo};
use songbird::input::codecs::opus::{
    check_packet_len, grown_buffer_len, stereo_channel, OpusDecodeError,
};
use songbird::input::codecs::raw::{check_magic, RawError, RawReader};

fn meta(info: Option<Info>, origin: Option<Origin>) -> DcaMetadata {
    DcaMetadata {
        dca: DcaInfo {
            version: 1,
            tool: Tool { name: "dca-rs".into(), version: "1.0".into(), url: None, author: None },
        },
        opus: Opus {
            mode: "voip".into(),
            sample_rate: 48000,
            frame_size: 960,
            abr: None,
            vbr: true,
            channels: 2,
        },
        info,
        origin,
    }
}

// One CELT fullband 20 ms frame: 960 samples at 48 kHz.
const FRAME_20MS: [u8; 3] = [0xF8, 0xFF, 0xFE];
// Three CELT fullband 20 ms frames (code 3 packet): 2880 samples.
const FRAMES_60MS: [u8; 4] = [0xFB, 0x03, 0x01, 0x02];

#[test]
fn dca_magic_versions() {
    assert_eq!(classify_magic(*b"DCA1"), Ok(DcaVersion::Dca1));
    assert_eq!(classify_magic(*b"DCA0"), Err(DcaError::UnsupportedVersion));
    assert_eq!(classify_magic(*b"DCA2"), Err(DcaError::UnsupportedVersion));
    assert_eq!(classify_magic([0x10, 0x00, 0xF8, 0xFF]), Ok(DcaVersion::Dca0));
    assert_eq!(classify_magic(*b"DC A"), Ok(DcaVersion::Dca0));
}

#[test]
fn dca_metadata_block_len() {
    assert_eq!(metadata_block_len(0), Err(DcaError::MissingMetadata));
    assert_eq!(metadata_block_len(1), Err(DcaError::MissingMetadata));
    assert_eq!(metadata_block_len(2), Ok(2));
    assert_eq!(metadata_block_len(1234), Ok(1234));
    assert_eq!(metadata_block_len(0x7fff_ffff), Ok(0x7fff_ffff));
    assert_eq!(metadata_block_len(0x8000_0000), Err(DcaError::MissingMetadata));
    assert_eq!(metadata_block_len(u32::MAX), Err(DcaError::MissingMetadata));
}

#[test]
fn dca_frame_length_sign() {
    assert_eq!(frame_length(0), Ok(0));
    assert_eq!(frame_length(3), Ok(3));
    assert_eq!(frame_length(0x7fff), Ok(0x7fff));
    assert_eq!(frame_length(0x8000), Err(DcaError::NegativeFrameLength));
    assert_eq!(frame_length(0xffff), Err(DcaError::NegativeFrameLength));
}

#[test]
fn dca_metadata_tags_in_order() {
    let info = Info {
        title: Some("Song".into()),
        artist: Some("Band".into()),
        album: None,
        genre: Some("Rock".into()),
        cover: Some("cover.png".into()),
        comments: Some("hi".into()),
    };
    let origin = Origin {
        source: Some("file".into()),
        abr: None,
        channels: Some(2),
        encoding: None,
        url: Some("https://example.com/a".into()),
    };
    let tags = metadata_tags(meta(Some(info), Some(origin)));
    let got: Vec<(DcaTagKind, String)> = tags.into_iter().map(|t| (t.kind, t.value)).collect();
    assert_eq!(
        got,
        vec![
            (DcaTagKind::Title, "Song".to_string()),
            (DcaTagKind::Artist, "Band".to_string()),
            (DcaTagKind::Genre, "Rock".to_string()),
            (DcaTagKind::Comments, "hi".to_string()),
            (DcaTagKind::Url, "https://example.com/a".to_string()),
        ]
    );
    assert!(metadata_tags(meta(None, None)).is_empty());
}

#[test]
fn dca_tag_raw_keys() {
    assert_eq!(DcaTagKind::Title.raw_key(), "title");
    assert_eq!(DcaTagKind::Album.raw_key(), "album");
    assert_eq!(DcaTagKind::Artist.raw_key(), "artist");
    assert_eq!(DcaTagKind::Genre.raw_key(), "genre");
    assert_eq!(DcaTagKind::Comments.raw_key(), "comments");
    assert_eq!(DcaTagKind::Url.raw_key(), "url");
}

#[test]
fn seek_accel_records_every_fill_period() {
    // 1000 ms: one entry per 48000 samples.
    let mut accel = SeekAccel::new(1000, 12);
    assert_eq!(accel.get_seek_pos(0), (0, 12));
    assert_eq!(accel.get_seek_pos(47_999), (0, 12));
    accel.update(47_040, 500);
    assert_eq!(accel.get_seek_pos(50_000), (0, 12));
    accel.update(48_000, 600);
    accel.update(48_960, 700);
    accel.update(96_960, 900);
    assert_eq!(accel.get_seek_pos(47_999), (0, 12));
    assert_eq!(accel.get_seek_pos(48_000), (48_000, 600));
    assert_eq!(accel.get_seek_pos(96_959), (48_000, 600));
    assert_eq!(accel.get_seek_pos(96_960), (96_960, 900));
    assert_eq!(accel.get_seek_pos(1_000_000), (96_960, 900));
}

#[test]
fn seek_accel_zero_period_records_all() {
    let mut accel = SeekAccel::new(0, 0);
    accel.update(0, 10);
    accel.update(960, 20);
    accel.update(1920, 30);
    assert_eq!(accel.get_seek_pos(0), (0, 10));
    assert_eq!(accel.get_seek_pos(1000), (960, 20));
    assert_eq!(accel.get_seek_pos(5000), (1920, 30));
}

#[test]
fn dca_frames_are_contiguous() {
    let mut reader = DcaReader::new(None, 1000, 0);
    assert!(reader.tags().is_none());
    let p1 = reader.accept_frame(0, FRAME_20MS.to_vec()).unwrap();
    assert_eq!((p1.track_id, p1.ts, p1.dur), (0, 0, 960));
    assert_eq!(p1.data, FRAME_20MS.to_vec());
    let p2 = reader.accept_frame(5, FRAMES_60MS.to_vec()).unwrap();
    assert_eq!((p2.ts, p2.dur), (960, 2880));
    assert_eq!(reader.curr_ts(), 3840);
    assert!(reader.can_advance());
}

#[test]
fn dca_frame_errors() {
    let mut reader = DcaReader::new(None, 1000, 0);
    assert_eq!(reader.accept_frame(0, vec![]), Err(DcaError::InvalidPacketSize));
    // A code-3 packet needs a frame count byte.
    assert_eq!(reader.accept_frame(0, vec![0xFB]), Err(DcaError::UnreadableSampleCount));
    assert_eq!(reader.curr_ts(), 0);
}

#[test]
fn dca_tags_from_metadata() {
    let info = Info {
        title: Some("T".into()),
        artist: None,
        album: Some("A".into()),
        genre: None,
        cover: None,
        comments: None,
    };
    let reader = DcaReader::new(Some(meta(Some(info), None)), 1000, 40);
    let tags = reader.tags().unwrap();
    assert_eq!(tags.len(), 2);
    assert_eq!((tags[0].kind, tags[0].value.as_str()), (DcaTagKind::Title, "T"));
    assert_eq!((tags[1].kind, tags[1].value.as_str()), (DcaTagKind::Album, "A"));
    let empty = DcaReader::new(Some(meta(None, None)), 1000, 40);
    assert_eq!(empty.tags().map(|t| t.len()), Some(0));
}

#[test]
fn dca_seek_past_end_refused() {
    let mut reader = DcaReader::new(None, 1000, 0);
    reader.accept_frame(0, FRAME_20MS.to_vec()).unwrap();
    reader.end_of_stream();
    assert_eq!(reader.max_ts(), Some(960));
    assert_eq!(reader.plan_seek(961, true, 5), Err(SeekError::OutOfRange));
    let plan = reader.plan_seek(960, true, 5).unwrap();
    assert_eq!(plan.ts, 960);
    assert!(!plan.jump);
}

#[test]
fn dca_seek_backwards() {
    let mut reader = DcaReader::new(None, 1000, 8);
    reader.accept_frame(8, FRAME_20MS.to_vec()).unwrap();
    assert_eq!(reader.plan_seek(100, false, 13), Err(SeekError::ForwardOnly));
    let plan = reader.plan_seek(100, true, 13).unwrap();
    assert_eq!(plan.entry, (0, 8));
    assert!(plan.jump);
    reader.jump_to_entry(plan.entry);
    assert_eq!(reader.curr_ts(), 0);
}

#[test]
fn dca_seek_forward_jumps_ahead() {
    let mut reader = DcaReader::new(None, 10, 0);
    // 10 ms period: an entry every 480 samples.
    for i in 0..5u64 {
        reader.accept_frame(i * 5, FRAME_20MS.to_vec()).unwrap();
    }
    reader.jump_to_entry((0, 0));
    let plan = reader.plan_seek(3000, true, 0).unwrap();
    assert_eq!(plan.entry, (2880, 15));
    assert!(plan.jump);
    let stay = reader.plan_seek(3000, true, 20).unwrap();
    assert!(!stay.jump);
}

#[test]
fn seek_time_to_timestamp() {
    assert_eq!(resolve_target(SeekTarget::Time { seconds: 2, nanos: 500_000_000 }, 48000), Some(120_000));
    // 30 us at 48 kHz is 1.44 ticks: rounded down.
    assert_eq!(resolve_target(SeekTarget::Time { seconds: 0, nanos: 30_000 }, 48000), Some(1));
    assert_eq!(resolve_target(SeekTarget::Time { seconds: -1, nanos: 500_000_000 }, 48000), Some(-24_000));
    assert_eq!(resolve_target(SeekTarget::Time { seconds: 1, nanos: 0 }, 44100), Some(44_100));
    assert_eq!(resolve_target(SeekTarget::TimeStamp(-7), 48000), Some(-7));
    assert_eq!(resolve_target(SeekTarget::Time { seconds: i64::MAX / 1000, nanos: 0 }, 48000), None);
    assert_eq!(resolve_target(SeekTarget::Time { seconds: 0, nanos: 1_000_000_000 }, 48000), None);
}

#[test]
fn dca_seek_holds_covering_packet() {
    let mut reader = DcaReader::new(None, 1000, 0);
    let p1 = reader.accept_frame(0, FRAME_20MS.to_vec()).unwrap();
    assert_eq!(reader.seek_step(Some(p1), 1000), SeekStep::Continue);
    assert!(reader.take_held_packet().is_none());
    let p2 = reader.accept_frame(5, FRAME_20MS.to_vec()).unwrap();
    let got = reader.seek_step(Some(p2.clone()), 1000);
    assert_eq!(
        got,
        SeekStep::Done(Ok(SeekedTo { track_id: 0, required_ts: 1000, actual_ts: 960 }))
    );
    assert_eq!(reader.take_held_packet(), Some(p2));
    assert_eq!(reader.take_held_packet(), None);
    assert_eq!(reader.seek_step(None, 5000), SeekStep::Done(Err(SeekError::OutOfRange)));
}

#[test]
fn dca_jump_drops_held_packet() {
    let mut reader = DcaReader::new(None, 1000, 0);
    let p1 = reader.accept_frame(0, FRAME_20MS.to_vec()).unwrap();
    assert!(matches!(reader.seek_step(Some(p1), 100), SeekStep::Done(Ok(_))));
    let plan = reader.plan_seek(100, true, 5).unwrap();
    assert!(plan.jump);
    reader.jump_to_entry(plan.entry);
    assert_eq!(reader.take_held_packet(), None);
    assert_eq!(reader.curr_ts(), 0);
}

#[test]
fn dca_counted_frame() {
    let mut reader = DcaReader::new(None, 1000, 0);
    assert_eq!(
        reader.accept_counted_frame(0, vec![1, 2, 3], None),
        Err(DcaError::UnreadableSampleCount)
    );
    assert_eq!(reader.curr_ts(), 0);
    let p = reader.accept_counted_frame(0, vec![1, 2, 3], Some(480)).unwrap();
    assert_eq!((p.ts, p.dur), (0, 480));
    assert_eq!(reader.curr_ts(), 480);
}

#[test]
fn dca_opus_sample_counts() {
    let mut reader = DcaReader::new(None, 1000, 0);
    // SILK 10 ms, one frame.
    assert_eq!(reader.accept_frame(0, vec![0x00, 0x11]).unwrap().dur, 480);
    // SILK 60 ms, two frames: 120 ms.
    assert_eq!(reader.accept_frame(0, vec![0x19, 0x11]).unwrap().dur, 5760);
    // Hybrid 20 ms.
    assert_eq!(reader.accept_frame(0, vec![0x68, 0x11]).unwrap().dur, 960);
    // CELT 2.5 ms.
    assert_eq!(reader.accept_frame(0, vec![0x80, 0x11]).unwrap().dur, 120);
    // SILK 60 ms, three frames: over 120 ms, refused.
    assert_eq!(reader.accept_frame(0, vec![0x1B, 0x03]), Err(DcaError::UnreadableSampleCount));
    assert_eq!(reader.curr_ts(), 480 + 5760 + 960 + 120);
}

/// A DCA0 stream in memory, read and sought the way a format reader does.
struct MemDca {
    bytes: Vec<u8>,
    pos: usize,
    reader: DcaReader,
}

impl MemDca {
    fn new(frames: usize) -> MemDca {
        let mut bytes = Vec::new();
        for _ in 0..frames {
            bytes.extend_from_slice(&(FRAME_20MS.len() as u16).to_le_bytes());
            bytes.extend_from_slice(&FRAME_20MS);
        }
        MemDca { bytes, pos: 0, reader: DcaReader::new(None, 1000, 0) }
    }

    fn next_packet(&mut self) -> Option<Packet> {
        if let Some(p) = self.reader.take_held_packet() {
            return Some(p);
        }
        let frame_pos = self.pos as u64;
        if self.pos + 2 > self.bytes.len() {
            self.reader.end_of_stream();
            return None;
        }
        let header = u16::from_le_bytes([self.bytes[self.pos], self.bytes[self.pos + 1]]);
        self.pos += 2;
        let len = frame_length(header).ok()?;
        if self.pos + len > self.bytes.len() {
            return None;
        }
        let buf = self.bytes[self.pos..self.pos + len].to_vec();
        self.pos += len;
        self.reader.accept_frame(frame_pos, buf).ok()
    }

    fn seek(&mut self, ts: i64) -> Result<SeekedTo, SeekError> {
        let plan = self.reader.plan_seek(ts, true, self.pos as u64)?;
        if plan.jump {
            self.pos = plan.entry.1 as usize;
            self.reader.jump_to_entry(plan.entry);
        }
        loop {
            let next = self.next_packet();
            match self.reader.seek_step(next, ts) {
                SeekStep::Continue => {},
                SeekStep::Done(r) => return r,
            }
        }
    }

    fn packets(&mut self, n: usize) -> Vec<(i64, u64)> {
        (0..n).filter_map(|_| self.next_packet()).map(|p| (p.ts, p.dur)).collect()
    }
}

#[test]
fn dca_repeated_seek_same_target() {
    let mut fresh = MemDca::new(100);
    let once = fresh.seek(30_000).unwrap();
    assert_eq!(once, SeekedTo { track_id: 0, required_ts: 30_000, actual_ts: 29_760 });
    let expected = fresh.packets(5);
    assert_eq!(expected[0], (29_760, 960));
    for w in expected.windows(2) {
        assert_eq!(w[1].0, w[0].0 + w[0].1 as i64);
    }

    let mut played = MemDca::new(100);
    played.packets(60);
    assert_eq!(played.seek(30_000), Ok(once));
    assert_eq!(played.seek(30_000), Ok(once));
    assert_eq!(played.packets(5), expected);
}

#[test]
fn dca_seek_after_end() {
    let mut s = MemDca::new(10);
    assert_eq!(s.packets(20).len(), 10);
    assert_eq!(s.reader.max_ts(), Some(9600));
    assert_eq!(s.seek(9601), Err(SeekError::OutOfRange));
    assert_eq!(s.seek(9600), Err(SeekError::OutOfRange));
    let got = s.seek(2000).unwrap();
    assert_eq!(got.actual_ts, 1920);
    assert_eq!(s.packets(2), vec![(1920, 960), (2880, 960)]);
}

#[test]
fn packet_covers_span() {
    let p = Packet { track_id: 0, ts: 960, dur: 960, data: vec![] };
    assert!(!p.covers(959));
    assert!(p.covers(960));
    assert!(p.covers(1919));
    assert!(!p.covers(1920));
    let empty = Packet { track_id: 0, ts: 5, dur: 0, data: vec![] };
    assert!(!empty.covers(5));
}

#[test]
fn raw_signature() {
    assert_eq!(check_magic(*b"SbirdRaw"), Ok(()));
    assert_eq!(check_magic(*b"SbirdRAW"), Err(RawError::IllegalMagic));
    assert_eq!(check_magic([0; 8]), Err(RawError::IllegalMagic));
}

#[test]
fn raw_channel_layouts() {
    assert!(RawReader::from_header(48000, 1).is_ok());
    assert!(RawReader::from_header(44100, 2).is_ok());
    assert_eq!(RawReader::from_header(48000, 0).err(), Some(RawError::UnsupportedChannelLayout));
    assert_eq!(RawReader::from_header(48000, 3).err(), Some(RawError::UnsupportedChannelLayout));
    assert_eq!(RawReader::from_header(0, 6).err(), Some(RawError::UnsupportedChannelLayout));
}

#[test]
fn raw_packets() {
    let mut reader = RawReader::from_header(48000, 2).unwrap();
    assert_eq!(reader.sample_rate(), 48000);
    assert_eq!(reader.channels(), 2);
    assert_eq!(reader.max_frames_per_packet(), 960);
    assert_eq!(reader.packet_read_len(), 7680);
    let p = reader.accept_block(vec![0; 7680]);
    assert_eq!((p.ts, p.dur), (0, 960));
    // A short read at the end keeps only whole frames.
    let p = reader.accept_block(vec![0; 21]);
    assert_eq!((p.ts, p.dur), (960, 2));
    assert_eq!(reader.curr_ts(), 962);
    let mono = RawReader::from_header(44100, 1).unwrap();
    assert_eq!(mono.max_frames_per_packet(), 882);
    assert_eq!(mono.packet_read_len(), 3528);
}

#[test]
fn raw_seek_positions() {
    let mut reader = RawReader::from_header(48000, 2).unwrap();
    assert_eq!(reader.plan_seek(0, false), Ok(16));
    assert_eq!(reader.plan_seek(10, false), Ok(96));
    assert_eq!(reader.plan_seek(48000, false), Ok(16 + 8 * 48000));
    reader.accept_block(vec![0; 800]);
    assert_eq!(reader.plan_seek(10, false), Err(SeekError::ForwardOnly));
    assert_eq!(reader.plan_seek(10, true), Ok(96));
    let done = reader.finish_seek(10);
    assert_eq!(done, SeekedTo { track_id: 0, required_ts: 10, actual_ts: 10 });
    assert_eq!(reader.curr_ts(), 10);
    let mono = RawReader::from_header(8000, 1).unwrap();
    assert_eq!(mono.plan_seek(5, false), Ok(36));
}

#[test]
fn opus_packet_len_limit() {
    assert_eq!(check_packet_len(0), Ok(()));
    assert_eq!(check_packet_len(0x7fff_ffff), Ok(()));
    assert_eq!(check_packet_len(0x8000_0000), Err(OpusDecodeError::PacketTooLarge));
}

#[test]
fn opus_buffer_growth() {
    assert_eq!(grown_buffer_len(1920), Ok(3840));
    assert_eq!(grown_buffer_len(0x4000_0000), Ok(0x7fff_ffff));
    assert_eq!(grown_buffer_len(0x7fff_ffff), Err(OpusDecodeError::FrameTooBig));
    assert_eq!(grown_buffer_len(0), Err(OpusDecodeError::FrameTooBig));
}

#[test]
fn opus_stereo_split() {
    let raw = [1.0f32, -1.0, 2.0, -2.0, 3.0, -3.0, 4.0];
    assert_eq!(stereo_channel(&raw, 0, 10), vec![1.0, 2.0, 3.0]);
    assert_eq!(stereo_channel(&raw, 1, 10), vec![-1.0, -2.0, -3.0]);
    assert_eq!(stereo_channel(&raw, 0, 2), vec![1.0, 2.0]);
    assert!(stereo_channel(&raw, 1, 0).is_empty());
}
