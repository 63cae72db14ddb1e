//! Session-wide limits, events reported to the client, statistics and
//! errors.
use vstd::prelude::*;
use crate::game_input::{Frame, FrameNum};
use crate::backends::p2p::Peer2PeerError;
use crate::sync::SyncError;
use crate::udp_proto::UdpProtoError;
use crate::player::PlayerHandle;

verus! {

/// Most players in a session.
pub const GGPO_MAX_PLAYERS: usize = 4;

/// Most spectators of a session.
pub const GGPO_MAX_SPECTATORS: usize = 32;

/// Most frames that may be predicted ahead of the last confirmed one.
pub const GGPO_MAX_PREDICTION_FRAMES: FrameNum = 8;

/// Errors of a session.
#[derive(Debug, Clone, PartialEq, Eq)]
pub enum GGPOError {
    Okay,
    Success,
    GeneralFailure,
    InvalidSession,
    InvalidPlayerHandle,
    PlayerOutOfRange,
    PredictionThreshold,
    Unsupported,
    NotSynchronized,
    InRollback,
    InputDropped,
    PlayerDisconnected,
    TooManySpectators,
    InvalidRequest,
    P2P { source: Peer2PeerError },
    UdpProto { source: UdpProtoError },
    Sync { source: SyncError },
}

/// The message that describes each error.
pub open spec fn error_message(e: GGPOError) -> Seq<char> {
    match e {
        GGPOError::Okay => "GGPO OK."@,
        GGPOError::Success => "GGPO Success."@,
        GGPOError::GeneralFailure => "GGPO general Failure."@,
        GGPOError::InvalidSession => "GGPO invalid session."@,
        GGPOError::InvalidPlayerHandle => "GGPO invalid player handle."@,
        GGPOError::PlayerOutOfRange => "GGPO player out of range."@,
        GGPOError::PredictionThreshold => "GGPO prediction threshold."@,
        GGPOError::Unsupported => "GGPO unsupported."@,
        GGPOError::NotSynchronized => "GGPO not synchronized."@,
        GGPOError::InRollback => "GGPO in rollback."@,
        GGPOError::InputDropped => "GGPO input dropped."@,
        GGPOError::PlayerDisconnected => "GGPO player disconnected."@,
        GGPOError::TooManySpectators => "GGPO too many spectators."@,
        GGPOError::InvalidRequest => "GGPO invalid request."@,
        GGPOError::P2P { .. } => "P2P Backend error."@,
        GGPOError::UdpProto { .. } => "UDP Protocol error."@,
        GGPOError::Sync { .. } => "Synchronization engine error."@,
    }
}

impl GGPOError {
    /// The message that describes this error.
    pub fn to_string(&self) -> (s: String)
        ensures
            s@ == error_message(*self),
    {
        match self {
            GGPOError::Okay => "GGPO OK.".to_owned(),
            GGPOError::Success => "GGPO Success.".to_owned(),
            GGPOError::GeneralFailure => "GGPO general Failure.".to_owned(),
            GGPOError::InvalidSession => "GGPO invalid session.".to_owned(),
            GGPOError::InvalidPlayerHandle => "GGPO invalid player handle.".to_owned(),
            GGPOError::PlayerOutOfRange => "GGPO player out of range.".to_owned(),
            GGPOError::PredictionThreshold => "GGPO prediction threshold.".to_owned(),
            GGPOError::Unsupported => "GGPO unsupported.".to_owned(),
            GGPOError::NotSynchronized => "GGPO not synchronized.".to_owned(),
            GGPOError::InRollback => "GGPO in rollback.".to_owned(),
            GGPOError::InputDropped => "GGPO input dropped.".to_owned(),
            GGPOError::PlayerDisconnected => "GGPO player disconnected.".to_owned(),
            GGPOError::TooManySpectators => "GGPO too many spectators.".to_owned(),
            GGPOError::InvalidRequest => "GGPO invalid request.".to_owned(),
            GGPOError::P2P { .. } => "P2P Backend error.".to_owned(),
            GGPOError::UdpProto { .. } => "UDP Protocol error.".to_owned(),
            GGPOError::Sync { .. } => "Synchronization engine error.".to_owned(),
        }
    }
}

/// The callbacks a client of the library implements: they save, load,
/// log and free game states, advance the game by a frame and take events.
/// A session keeps clones of them, so a client that needs one shared state
/// behind them makes the type a handle to it.
pub trait GGPOSessionCallbacks: Clone + Sized {
    fn save_game_state(
        &mut self,
        buffer: &Vec<u8>,
        length: &usize,
        checksum: Option<u32>,
        frame: Frame,
    ) -> bool;

    fn load_game_state(&mut self, buffer: &Vec<u8>, length: usize) -> bool;

    fn log_game_state(&mut self, filename: String, buffer: Vec<u8>, length: usize) -> bool;

    fn free_buffer(&mut self, buffer: &Vec<u8>);

    fn advance_frame(&mut self, flags: i32) -> bool;

    fn on_event(&mut self, info: &Event);
}

/// A connection to a peer was made.
#[derive(Debug, Copy, Clone, PartialEq, Eq, Structural)]
pub struct ConnectedToPeer {
    pub player: PlayerHandle,
}

/// Synchronisation with a peer progressed: `count` of `total` round trips.
#[derive(Debug, Copy, Clone, PartialEq, Eq, Structural)]
pub struct SynchronizingWithPeer {
    pub count: u32,
    pub total: u32,
    pub player: PlayerHandle,
}

/// Synchronisation with a peer completed.
#[derive(Debug, Copy, Clone, PartialEq, Eq, Structural)]
pub struct SynchronizedWithPeer {
    pub player: PlayerHandle,
}

/// A peer disconnected.
#[derive(Debug, Copy, Clone, PartialEq, Eq, Structural)]
pub struct DisconnectedFromPeer {
    pub player: PlayerHandle,
}

/// The client should wait `frames_ahead` frames to let the others catch up.
#[derive(Debug, Copy, Clone, PartialEq, Eq, Structural)]
pub struct TimeSyncEvent {
    pub frames_ahead: FrameNum,
}

/// A peer has gone quiet; it will be disconnected after `disconnect_timeout`
/// more milliseconds.
#[derive(Debug, Copy, Clone, PartialEq, Eq, Structural)]
pub struct ConnectionInterrupted {
    pub player: PlayerHandle,
    pub disconnect_timeout: u128,
}

/// A quiet peer is heard from again.
#[derive(Debug, Copy, Clone, PartialEq, Eq, Structural)]
pub struct ConnectionResumed {
    pub player: PlayerHandle,
}

/// What a session reports to its client.
#[derive(Debug, Copy, Clone, PartialEq, Eq, Structural)]
pub enum Event {
    ConnectedToPeer(ConnectedToPeer),
    SynchronizingWithPeer(SynchronizingWithPeer),
    SynchronizedWithPeer(SynchronizedWithPeer),
    Running,
    DisconnectedFromPeer(DisconnectedFromPeer),
    TimeSync(TimeSyncEvent),
    ConnectionInterrupted(ConnectionInterrupted),
    ConnectionResumed(ConnectionResumed),
}

/// Network statistics of a connection.
#[derive(Debug, Default, Copy, Clone, PartialEq, Eq, Structural)]
pub struct Network {
    pub send_queue_len: usize,
    pub recv_queue_len: usize,
    pub ping: usize,
    pub kbps_sent: usize,
}

impl Network {
    /// All statistics zero.
    pub fn new() -> (n: Network)
        ensures
            n == (Network { send_queue_len: 0, recv_queue_len: 0, ping: 0, kbps_sent: 0 }),
    {
        Network { send_queue_len: 0, recv_queue_len: 0, ping: 0, kbps_sent: 0 }
    }
}

/// How many frames each side is behind the other.
#[derive(Debug, Default, Copy, Clone, PartialEq, Eq, Structural)]
pub struct TimeSync {
    pub local_frames_behind: i32,
    pub remote_frames_behind: i32,
}

impl TimeSync {
    /// Neither side behind.
    pub fn new() -> (t: TimeSync)
        ensures
            t == (TimeSync { local_frames_behind: 0, remote_frames_behind: 0 }),
    {
        TimeSync { local_frames_behind: 0, remote_frames_behind: 0 }
    }
}

/// Network and timing statistics of a connection.
#[derive(Debug, Default, Copy, Clone, PartialEq, Eq, Structural)]
pub struct NetworkStats {
    pub network: Network,
    pub timesync: TimeSync,
}

impl NetworkStats {
    /// All statistics zero.
    pub fn new() -> (s: NetworkStats)
        ensures
            s == (NetworkStats {
                network: Network { send_queue_len: 0, recv_queue_len: 0, ping: 0, kbps_sent: 0 },
                timesync: TimeSync { local_frames_behind: 0, remote_frames_behind: 0 },
            }),
    {
        NetworkStats { network: Network::new(), timesync: TimeSync::new() }
    }
}

} // verus!
