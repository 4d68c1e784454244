use songbird::constants::{MONO_FRAME_SIZE, STEREO_FRAME_SIZE};
use songbird::driver::tasks::message::MixerMessage;
use songbird::driver::MixMode;

type Msg = MixerMessage<u8, u32, (), &'static str, (), ()>;

#[test]
fn mix_mode_frame_sizes() {
    assert_eq!(MixMode::Mono.sample_count_in_frame(), 960);
    assert_eq!(MixMode::Stereo.sample_count_in_frame(), 1920);
    assert_eq!(MixMode::Mono.sample_count_in_frame(), MONO_FRAME_SIZE);
    assert_eq!(MixMode::Stereo.sample_count_in_frame(), STEREO_FRAME_SIZE);
}

#[test]
fn mix_mode_channels() {
    assert_eq!(MixMode::Mono.channels(), 1);
    assert_eq!(MixMode::Stereo.channels(), 2);
    for mode in [MixMode::Mono, MixMode::Stereo] {
        assert_eq!(mode.sample_count_in_frame(), mode.channels() * MONO_FRAME_SIZE);
    }
}

#[test]
fn mixer_message_liveness() {
    assert!(Msg::AddTrack(Box::new(1)).is_mixer_maybe_live());
    assert!(Msg::SetTrack(Some(Box::new(1))).is_mixer_maybe_live());
    assert!(!Msg::SetTrack(None).is_mixer_maybe_live());
    assert!(Msg::SetConn("conn", 7).is_mixer_maybe_live());
    assert!(!Msg::SetBitrate(128_000).is_mixer_maybe_live());
    assert!(!Msg::SetConfig(()).is_mixer_maybe_live());
    assert!(!Msg::SetMute(true).is_mixer_maybe_live());
    assert!(!Msg::Ws(None).is_mixer_maybe_live());
    assert!(!Msg::DropConn.is_mixer_maybe_live());
    assert!(!Msg::ReplaceInterconnect(()).is_mixer_maybe_live());
    assert!(!Msg::RebuildEncoder.is_mixer_maybe_live());
    assert!(!Msg::Poison.is_mixer_maybe_live());
}
