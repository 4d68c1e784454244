//! Messages to the mixer task.
//!
//! The mixer is driven by the other tasks of the driver through these messages.
//! Their payloads (tracks, configuration, connection state, gateway senders) belong
//! to other parts of the driver, so they are type parameters here.
use vstd::prelude::*;

verus! {

/// A message to the mixer.
///
/// * `Track`: a track with its handle and command channel,
/// * `Bitrate`: an encoder bitrate,
/// * `Config`: the driver configuration,
/// * `Conn`: the state of a fresh voice connection,
/// * `WsTx`: a sender to the websocket task,
/// * `Inter`: the channels connecting the driver's tasks.
pub enum MixerMessage<Track, Bitrate, Config, Conn, WsTx, Inter> {
    AddTrack(Box<Track>),
    SetTrack(Option<Box<Track>>),
    SetBitrate(Bitrate),
    SetConfig(Config),
    SetMute(bool),
    SetConn(Conn, u32),
    Ws(Option<WsTx>),
    DropConn,
    ReplaceInterconnect(Inter),
    RebuildEncoder,
    Poison,
}

impl<Track, Bitrate, Config, Conn, WsTx, Inter> MixerMessage<Track, Bitrate, Config, Conn, WsTx, Inter> {
    /// Whether the message may bring the mixer to life: it adds or sets a track, or
    /// hands over a connection.
    pub open spec fn spec_is_mixer_maybe_live(&self) -> bool {
        ||| self is AddTrack
        ||| self matches MixerMessage::SetTrack(Some(_))
        ||| self is SetConn
    }

    /// Whether the message may bring the mixer to life: it adds or sets a track, or
    /// hands over a connection.
    pub fn is_mixer_maybe_live(&self) -> (r: bool)
        ensures
            r == self.spec_is_mixer_maybe_live(),
            self is AddTrack ==> r,
            self matches MixerMessage::SetTrack(Some(_)) ==> r,
            self is SetConn ==> r,
            self matches MixerMessage::SetTrack(None) ==> !r,
            self is SetBitrate ==> !r,
            self is SetConfig ==> !r,
            self is SetMute ==> !r,
            self is Ws ==> !r,
            self is DropConn ==> !r,
            self is ReplaceInterconnect ==> !r,
            self is RebuildEncoder ==> !r,
            self is Poison ==> !r,
    {
        match self {
            MixerMessage::AddTrack(_) => true,
            MixerMessage::SetTrack(Some(_)) => true,
            MixerMessage::SetConn(..) => true,
            _ => false,
        }
    }
}

/// Only a message adding a track, setting one, or handing over a connection may
/// bring the mixer to life; every other message, the websocket sender among them,
/// leaves it as it is.
pub proof fn lemma_only_tracks_and_connections_wake_mixer<Track, Bitrate, Config, Conn, WsTx, Inter>(
    msg: MixerMessage<Track, Bitrate, Config, Conn, WsTx, Inter>,
)
    ensures
        msg.spec_is_mixer_maybe_live() <==> (msg is AddTrack || msg is SetConn || (msg is SetTrack
            && msg->SetTrack_0 is Some)),
        msg is Ws ==> !msg.spec_is_mixer_maybe_live(),
        msg is SetMute ==> !msg.spec_is_mixer_maybe_live(),
{
}

} // verus!
