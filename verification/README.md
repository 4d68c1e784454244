# songbird (verified codecs core)

The framing, timing and seek logic of the voice driver's audio containers,
written in Verus and proved against its contracts.

- `src/input/codecs/dca/` — the DCA\[0/1\] container of Opus frames: magic and
  metadata-block framing, the tags taken from the JSON metadata, frame headers,
  packet timestamps, the progressive seek index (`SeekAccel`) and seek planning.
- `src/input/codecs/raw.rs` — the raw `f32` PCM container: signature, channel
  layouts, packet sizes, timestamps and byte positions of seeks.
- `src/input/codecs/opus.rs` — the Opus decoder's decisions: accepted packet
  sizes, growth of the output buffer, splitting interleaved stereo samples.
- `src/input/codecs/format.rs` — packets, seek targets and results, and the
  conversion of a seek time into a timestamp.
- `src/driver/` — mixing modes and mixer messages.
- `app/` — the symphonia format readers and Opus decoder built on the library,
  JSON parsing of DCA metadata, and the driver's message types. These do the
  reading, moving in the stream, JSON parsing and decoding of samples; the
  decisions on what was read, and every seek outcome, are the library's.
