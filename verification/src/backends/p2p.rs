//! The peer-to-peer session: one protocol endpoint per remote player and per
//! spectator, the synchronisation layer, and the connection status of every
//! player that the endpoints share. Sockets are not part of it: the caller
//! transmits what the endpoints queue and hands in the clock.
use vstd::prelude::*;
use crate::game_input::{FrameNum, GameInput, InputBuffer, GAMEINPUT_MAX_BYTES, INPUT_BUFFER_SIZE};
use crate::ggpo::{
    Network, NetworkStats, TimeSync as TimeSyncStats, ConnectedToPeer, ConnectionInterrupted, ConnectionResumed, DisconnectedFromPeer, GGPOError,
    SynchronizedWithPeer, SynchronizingWithPeer, TimeSyncEvent, Event as SessionEvent, GGPOSessionCallbacks, GGPO_MAX_PLAYERS, GGPO_MAX_SPECTATORS,
    GGPO_MAX_PREDICTION_FRAMES,
};
use crate::player::{PeerAddr, Player, PlayerHandle, PlayerType};
use crate::sync::{
    Event as SyncEvent, Config, GGPOSync, GGPOSyncView, SyncError, accepts_local_input, adjusted, confirm_ok,
    confirmed_queues, earliest_incorrect, local_input_ok, synchronize_ok, synchronized_queues,
    synchronized_bytes, sync_dropped, flag_set32,
};
use crate::input_queue::InputQueue;
use crate::ggpo::error_message;
use crate::udp_msg::{ConnectStatus, UdpMsg};
use crate::udp_proto::{
    Clock, Event as ProtocolEvent, QueueEntry, Syncing, NUM_SYNC_PACKETS, UdpProtoError, UdpProtocol, UdpProtocolView, State, UDP_SHUTDOWN_TIMER,
};

verus! {

/// Frames between two time-synchronisation recommendations.
pub const RECOMMENDATION_INTERVAL: u32 = 240;

/// Milliseconds of silence before a peer counts as disconnected.
pub const DEFAULT_DISCONNECT_TIMEOUT: u128 = 5000;

/// Milliseconds of silence before a peer counts as interrupted.
pub const DEFAULT_DISCONNECT_NOTIFY_START: u128 = 750;

/// Errors of the peer-to-peer session.
#[derive(Debug, Clone, PartialEq, Eq)]
pub enum Peer2PeerError {
    UdpProtocol { source: UdpProtoError },
    LastFrameNone,
    SpectatorFrameNone,
    CurrentRemoteFrameNone,
    GGPO(String),
    SyncError { source: SyncError },
}

/// The state of a session.
pub ghost struct Peer2PeerView {
    pub game_name: Seq<char>,
    pub sync: GGPOSyncView,
    pub endpoints: Seq<UdpProtocolView>,
    pub spectators: Seq<UdpProtocolView>,
    pub num_spectators: nat,
    pub input_size: nat,
    pub synchronizing: bool,
    pub num_players: nat,
    pub next_recommended_sleep: u32,
    pub next_spectator_frame: nat,
    pub disconnect_timeout: u128,
    pub disconnect_notify_start: u128,
    pub local_connect_status: Seq<ConnectStatus>,
    /// The events handed to the client's callbacks so far, oldest first.
    pub events: Seq<SessionEvent>,
}

/// A peer-to-peer session.
pub struct Peer2PeerBackend<T: GGPOSessionCallbacks> {
    game_name: String,
    callbacks: T,
    sync: GGPOSync<T>,
    endpoints: Vec<UdpProtocol>,
    spectators: Vec<UdpProtocol>,
    num_spectators: usize,
    input_size: usize,
    synchronizing: bool,
    num_players: usize,
    next_recommended_sleep: u32,
    next_spectator_frame: FrameNum,
    disconnect_timeout: u128,
    disconnect_notify_start: u128,
    local_connect_status: [ConnectStatus; 4],
    events_sent: Ghost<Seq<SessionEvent>>,
}

impl<T: GGPOSessionCallbacks> View for Peer2PeerBackend<T> {
    type V = Peer2PeerView;

    closed spec fn view(&self) -> Peer2PeerView {
        Peer2PeerView {
            game_name: self.game_name@,
            sync: self.sync@,
            endpoints: self.endpoints@.map_values(|e: UdpProtocol| e@),
            spectators: self.spectators@.map_values(|e: UdpProtocol| e@),
            num_spectators: self.num_spectators as nat,
            input_size: self.input_size as nat,
            synchronizing: self.synchronizing,
            num_players: self.num_players as nat,
            next_recommended_sleep: self.next_recommended_sleep,
            next_spectator_frame: self.next_spectator_frame as nat,
            disconnect_timeout: self.disconnect_timeout,
            disconnect_notify_start: self.disconnect_notify_start,
            local_connect_status: self.local_connect_status@,
            events: self.events_sent@,
        }
    }
}

impl Peer2PeerView {
    /// What holds of a session between calls: the synchronisation layer is
    /// configured for the session's players, there are `GGPO_MAX_PLAYERS`
    /// player endpoints and `GGPO_MAX_SPECTATORS` spectator endpoints, all
    /// well formed and all holding the session's connection status.
    pub open spec fn wf(self) -> bool {
        &&& self.sync.wf()
        &&& self.sync.has_config
        &&& self.sync.num_players == self.num_players
        &&& self.num_players <= GGPO_MAX_PLAYERS
        &&& (self.num_players > 0 ==> self.input_size <= GAMEINPUT_MAX_BYTES)
        &&& self.endpoints.len() == GGPO_MAX_PLAYERS
        &&& self.spectators.len() == GGPO_MAX_SPECTATORS
        &&& self.num_spectators <= GGPO_MAX_SPECTATORS
        &&& self.local_connect_status.len() == 4
        &&& forall|i: int|
            0 <= i < self.endpoints.len() ==> (#[trigger] self.endpoints[i]).wf()
                && self.endpoints[i].local_connect_status == self.local_connect_status
        &&& forall|i: int|
            0 <= i < self.spectators.len() ==> (#[trigger] self.spectators[i]).wf()
                && self.spectators[i].local_connect_status == self.local_connect_status
    }
}

/// Whether `e` is an endpoint as `UdpProtocol::new` makes it.
pub open spec fn fresh_endpoint(e: UdpProtocolView, send_latency: i32, oop_percent: i32, now: u128) -> bool {
    &&& e.wf()
    &&& !e.initialized
    &&& e.peer_addr is None
    &&& e.queue == -1
    &&& e.send_latency == send_latency
    &&& e.oop_percent == oop_percent
    &&& e.state == State::Starting
    &&& e.send_queue.len() == 0
    &&& e.outbox.len() == 0
    &&& e.pending_output.len() == 0
    &&& e.event_queue.len() == 0
    &&& e.last_send_time == now
    &&& e.last_recv_time == now
    &&& e.disconnect_timeout == 0
    &&& e.disconnect_notify_start == 0
    &&& e.local_connect_status == Seq::new(4, |i: int| ConnectStatus { disconnected: true, last_frame: None })
    &&& e.peer_connect_status == Seq::new(4, |i: int| ConnectStatus { disconnected: true, last_frame: None })
    &&& e.magic_number == 0
    &&& e.remote_magic_number == 0
    &&& !e.connected
    &&& e.oo_packet.msg is None
    &&& e.oo_packet.send_time == 0
    &&& e.round_trip_time == 0
    &&& e.packets_sent == 0
    &&& e.bytes_sent == 0
    &&& e.kbps_sent == 0
    &&& e.stats_start_time == 0
    &&& e.local_frame_advantage == 0
    &&& e.remote_frame_advantage == 0
    &&& e.last_received_input.frame is None
    &&& e.last_sent_input.frame is None
    &&& e.last_acked_input.frame is None
    &&& e.shutdown_timeout == 0
    &&& !e.disconnect_event_sent
    &&& !e.disconnect_notify_sent
    &&& e.next_send_seq == 0
    &&& e.next_recv_seq == 0
}

impl<T: GGPOSessionCallbacks> Peer2PeerBackend<T> {
    /// Makes `n` fresh endpoints, each with a generator taken from `rngs`.
    fn fresh_endpoints(
        rngs: &mut Vec<rand::rngs::StdRng>,
        n: usize,
        send_latency: i32,
        oop_percent: i32,
        now: u128,
    ) -> (v: Vec<UdpProtocol>)
        requires
            old(rngs)@.len() >= n,
        ensures
            final(rngs)@.len() == old(rngs)@.len() - n,
            v@.len() == n,
            forall|i: int| 0 <= i < n ==> fresh_endpoint((#[trigger] v@[i])@, send_latency, oop_percent, now),
    {
        let mut v: Vec<UdpProtocol> = Vec::new();
        let mut i: usize = 0;
        while i < n
            invariant
                0 <= i <= n,
                v@.len() == i,
                rngs@.len() == old(rngs)@.len() - i,
                old(rngs)@.len() >= n,
                forall|k: int| 0 <= k < i ==> fresh_endpoint((#[trigger] v@[k])@, send_latency, oop_percent, now),
            decreases n - i,
        {
            let rng = rngs.pop().unwrap();
            let e = UdpProtocol::new(rng, send_latency, oop_percent, now);
            proof {
                assert(e@.local_connect_status =~= Seq::new(4, |i: int| ConnectStatus { disconnected: true, last_frame: None }));
                assert(e@.peer_connect_status =~= Seq::new(4, |i: int| ConnectStatus { disconnected: true, last_frame: None }));
            }
            v.push(e);
            i = i + 1;
        }
        v
    }

    /// A session for `num_players` players sending inputs of `input_size`
    /// bytes each: the synchronisation layer is configured with the
    /// callbacks, every endpoint is fresh (simulating `send_latency` and
    /// `oop_percent` as the environment asks; `now` is the current time),
    /// nobody is connected and the session is synchronising. `rngs` holds
    /// one random generator for each endpoint, players' and spectators'.
    pub fn new(
        callbacks: T,
        game_name: String,
        num_players: usize,
        input_size: usize,
        send_latency: i32,
        oop_percent: i32,
        now: u128,
        rngs: Vec<rand::rngs::StdRng>,
    ) -> (p: Self)
        requires
            rngs@.len() == GGPO_MAX_PLAYERS + GGPO_MAX_SPECTATORS,
            num_players <= GGPO_MAX_PLAYERS,
            num_players > 0 ==> input_size <= GAMEINPUT_MAX_BYTES,
        ensures
            p@.wf(),
            p@.game_name == game_name@,
            p@.num_players == num_players,
            p@.input_size == input_size,
            p@.num_spectators == 0,
            p@.next_spectator_frame == 0,
            p@.next_recommended_sleep == 0,
            p@.synchronizing,
            p@.disconnect_timeout == DEFAULT_DISCONNECT_TIMEOUT,
            p@.disconnect_notify_start == DEFAULT_DISCONNECT_NOTIFY_START,
            p@.local_connect_status == Seq::new(4, |i: int| ConnectStatus { disconnected: true, last_frame: None }),
            p@.events.len() == 0,
            p@.sync.frame_count == 0,
            !p@.sync.rolling_back,
            p@.sync.last_confirmed_frame is None,
            p@.sync.max_prediction_frames == 0,
            p@.sync.config_has_callbacks,
            p@.sync.input_size == input_size,
            p@.sync.event_queue.len() == 0,
            forall|i: int|
                0 <= i < num_players ==> (#[trigger] p@.sync.input_queues[i]).is_initial(
                    i as nat,
                    input_size as nat,
                ),
            forall|i: int|
                0 <= i < GGPO_MAX_PLAYERS ==> fresh_endpoint(#[trigger] p@.endpoints[i], send_latency, oop_percent, now),
            forall|i: int|
                0 <= i < GGPO_MAX_SPECTATORS ==> fresh_endpoint(#[trigger] p@.spectators[i], send_latency, oop_percent, now),
    {
        let status = ConnectStatus::new();
        let connect_status: [ConnectStatus; 4] = [status; 4];
        let mut sync: GGPOSync<T> = GGPOSync::new();
        let mut config: Config<T> = Config::new();
        config.init(callbacks.clone(), GGPO_MAX_PREDICTION_FRAMES, num_players, input_size);
        sync.init(config);
        let mut rngs = rngs;
        let spectators = Self::fresh_endpoints(&mut rngs, GGPO_MAX_SPECTATORS, send_latency, oop_percent, now);
        let endpoints = Self::fresh_endpoints(&mut rngs, GGPO_MAX_PLAYERS, send_latency, oop_percent, now);
        let p = Peer2PeerBackend {
            game_name,
            callbacks,
            sync,
            endpoints,
            spectators,
            num_spectators: 0,
            input_size,
            synchronizing: true,
            num_players,
            next_recommended_sleep: 0,
            next_spectator_frame: 0,
            disconnect_timeout: DEFAULT_DISCONNECT_TIMEOUT,
            disconnect_notify_start: DEFAULT_DISCONNECT_NOTIFY_START,
            local_connect_status: connect_status,
            events_sent: Ghost(Seq::empty()),
        };
        proof {
            assert(p@.local_connect_status =~= Seq::new(4, |i: int| ConnectStatus { disconnected: true, last_frame: None }));
            assert forall|i: int| 0 <= i < p@.endpoints.len() implies (#[trigger] p@.endpoints[i]).wf()
                && p@.endpoints[i].local_connect_status == p@.local_connect_status by {
                assert(p@.endpoints[i] == p.endpoints@[i]@);
            }
            assert forall|i: int| 0 <= i < p@.spectators.len() implies (#[trigger] p@.spectators[i]).wf()
                && p@.spectators[i].local_connect_status == p@.local_connect_status by {
                assert(p@.spectators[i] == p.spectators@[i]@);
            }
        }
        p
    }
}


/// The session with `status` as the connection status of all players, held
/// by the session and by every endpoint.
pub open spec fn with_status(v: Peer2PeerView, status: Seq<ConnectStatus>) -> Peer2PeerView {
    Peer2PeerView {
        local_connect_status: status,
        endpoints: v.endpoints.map_values(
            |e: UdpProtocolView| UdpProtocolView { local_connect_status: status, ..e },
        ),
        spectators: v.spectators.map_values(
            |e: UdpProtocolView| UdpProtocolView { local_connect_status: status, ..e },
        ),
        ..v
    }
}

/// The session with `e` handed to the callbacks.
pub open spec fn notified(v: Peer2PeerView, e: SessionEvent) -> Peer2PeerView {
    Peer2PeerView { events: v.events.push(e), ..v }
}

/// Whether every endpoint that stands for a connected remote player, and
/// every attached spectator, has finished the handshake.
pub open spec fn all_synchronized(v: Peer2PeerView) -> bool {
    &&& forall|i: int|
        0 <= i < v.num_players ==> !((#[trigger] v.endpoints[i]).initialized
            && v.endpoints[i].state != State::Synchronized
            && !v.local_connect_status[i].disconnected)
    &&& forall|i: int|
        0 <= i < v.num_spectators ==> !((#[trigger] v.spectators[i]).initialized
            && v.spectators[i].state != State::Synchronized)
}

/// The session after `check_initial_sync`: a synchronising session whose
/// peers are all synchronised tells the client it is running and stops
/// synchronising.
pub open spec fn after_initial_sync(v: Peer2PeerView) -> Peer2PeerView {
    if v.synchronizing && all_synchronized(v) {
        Peer2PeerView { synchronizing: false, ..notified(v, SessionEvent::Running) }
    } else {
        v
    }
}

/// The client event that a protocol event of the peer `handle` becomes.
pub open spec fn session_event(event: ProtocolEvent, handle: PlayerHandle) -> Option<SessionEvent> {
    match event {
        ProtocolEvent::Connected => Some(SessionEvent::ConnectedToPeer(ConnectedToPeer { player: handle })),
        ProtocolEvent::Synchronizing(s) => Some(
            SessionEvent::SynchronizingWithPeer(
                SynchronizingWithPeer { count: s.count, total: s.total, player: handle },
            ),
        ),
        ProtocolEvent::Synchronzied => Some(
            SessionEvent::SynchronizedWithPeer(SynchronizedWithPeer { player: handle }),
        ),
        ProtocolEvent::NetworkInterrupted(n) => Some(
            SessionEvent::ConnectionInterrupted(
                ConnectionInterrupted { player: handle, disconnect_timeout: n.disconnect_timeout },
            ),
        ),
        ProtocolEvent::NetworkResumed => Some(
            SessionEvent::ConnectionResumed(ConnectionResumed { player: handle }),
        ),
        _ => None,
    }
}

/// The session after `on_udp_protocol_event(event, handle)`: the client
/// hears of the event, and a finished handshake may start the session.
pub open spec fn after_protocol_event(v: Peer2PeerView, event: ProtocolEvent, handle: PlayerHandle) -> Peer2PeerView {
    let v1 = match session_event(event, handle) {
        Some(e) => notified(v, e),
        None => v,
    };
    if event is Synchronzied {
        after_initial_sync(v1)
    } else {
        v1
    }
}

/// The session after `disconnect_player_queue(queue, sync_to, now)`: the
/// endpoint is disconnected, the player counts as disconnected from frame
/// `sync_to` on, the client hears of it, and the session may start.
pub open spec fn disconnected_queue(v: Peer2PeerView, queue: int, sync_to: FrameNum, now: u128) -> Peer2PeerView {
    let v1 = Peer2PeerView {
        endpoints: v.endpoints.update(
            queue,
            UdpProtocolView {
                state: State::Disconnected,
                shutdown_timeout: (now + UDP_SHUTDOWN_TIMER) as u128,
                ..v.endpoints[queue]
            },
        ),
        ..v
    };
    let status = v.local_connect_status.update(
        queue,
        ConnectStatus { disconnected: true, last_frame: Some(sync_to) },
    );
    after_initial_sync(
        notified(
            with_status(v1, status),
            SessionEvent::DisconnectedFromPeer(DisconnectedFromPeer { player: (queue + 1) as u32 }),
        ),
    )
}

/// The session after every initialised player endpoint among the first
/// `n` is disconnected as of frame `frame`, one after another.
pub open spec fn disconnect_all(v: Peer2PeerView, n: int, frame: FrameNum, now: u128) -> Peer2PeerView
    decreases n,
{
    if n <= 0 {
        v
    } else {
        let w = disconnect_all(v, n - 1, frame, now);
        if w.endpoints[n - 1].initialized {
            disconnected_queue(w, n - 1, frame, now)
        } else {
            w
        }
    }
}

/// The inputs on which `disconnect_player(handle, now)` runs to its end:
/// the shutdown time fits, and a remote player is disconnected as of a frame
/// that is not before the current one.
pub open spec fn disconnect_player_ok(v: Peer2PeerView, handle: PlayerHandle, now: u128) -> bool {
    &&& now + UDP_SHUTDOWN_TIMER <= u128::MAX
    &&& (1 <= handle <= v.num_players && !v.local_connect_status[handle - 1].disconnected
        && v.endpoints[handle - 1].initialized) ==> (
    v.local_connect_status[handle - 1].last_frame matches Some(l) ==> l >= v.sync.frame_count)
}

/// What `disconnect_player(handle, now)` makes of the session and returns:
/// an unknown handle and a player already disconnected are errors; the
/// local player (whose endpoint is not attached) disconnects from every
/// remote player at the current frame; a remote player is disconnected as
/// of the last frame received from it, which must be known.
pub open spec fn disconnect_player_outcome(v: Peer2PeerView, handle: PlayerHandle, now: u128) -> (Peer2PeerView, Result<(), GGPOError>) {
    if !(1 <= handle <= v.num_players) {
        (v, Err(GGPOError::InvalidPlayerHandle))
    } else {
        let q = handle - 1;
        if v.local_connect_status[q].disconnected {
            (v, Err(GGPOError::PlayerDisconnected))
        } else if !v.endpoints[q].initialized {
            (disconnect_all(v, v.num_players as int, v.sync.frame_count as usize, now), Ok(()))
        } else {
            match v.local_connect_status[q].last_frame {
                Some(l) => (disconnected_queue(v, q, l, now), Ok(())),
                None => (v, Err(GGPOError::P2P { source: Peer2PeerError::LastFrameNone })),
            }
        }
    }
}

/// The inputs on which `on_udp_protocol_peer_event(event, queue, now)`
/// runs to its end: an input from a connected player is for the frame after
/// the last one received and fits its queue; a disconnect can be carried
/// out.
pub open spec fn peer_event_ok(v: Peer2PeerView, event: ProtocolEvent, queue: int, now: u128) -> bool {
    let v1 = after_protocol_event(v, event, (queue + 1) as u32);
    match event {
        ProtocolEvent::Input(input) => !v1.local_connect_status[queue].disconnected ==> {
            &&& (v1.local_connect_status[queue].last_frame matches Some(c) ==> c < usize::MAX
                && input.frame == Some((c + 1) as usize))
            &&& InputQueue::add_input_ok(v1.sync.input_queues[queue], input)
        },
        ProtocolEvent::Disconnected => disconnect_player_ok(v1, (queue + 1) as u32, now),
        _ => true,
    }
}

/// What `on_udp_protocol_peer_event(event, queue, now)` makes of the
/// session, and the error of `disconnect_player` it reports, if any: the
/// client hears of the event; an input from a connected player goes to its
/// queue and becomes the last frame received from it; a disconnect
/// disconnects the player.
pub open spec fn peer_event_outcome(v: Peer2PeerView, event: ProtocolEvent, queue: int, now: u128) -> (Peer2PeerView, Option<GGPOError>) {
    let v1 = after_protocol_event(v, event, (queue + 1) as u32);
    match event {
        ProtocolEvent::Input(input) => if !v1.local_connect_status[queue].disconnected {
            let v2 = Peer2PeerView {
                sync: GGPOSyncView {
                    input_queues: v1.sync.input_queues.update(
                        queue,
                        InputQueue::after_add_input(v1.sync.input_queues[queue], input),
                    ),
                    ..v1.sync
                },
                ..v1
            };
            let status = v1.local_connect_status.update(
                queue,
                ConnectStatus { last_frame: input.frame, ..v1.local_connect_status[queue] },
            );
            (with_status(v2, status), None)
        } else {
            (v1, None)
        },
        ProtocolEvent::Disconnected => {
            let (v2, r) = disconnect_player_outcome(v1, (queue + 1) as u32, now);
            (v2, match r {
                Ok(_) => None,
                Err(e) => Some(e),
            })
        },
        _ => (v1, None),
    }
}

/// What `on_udp_protocol_spectator_event(event, queue, now)` makes of the
/// session: the client hears of the event, and a disconnected spectator is
/// detached and reported.
pub open spec fn spectator_event_outcome(v: Peer2PeerView, event: ProtocolEvent, queue: int, now: u128) -> Peer2PeerView {
    let handle = (queue + 1000) as u32;
    let v1 = after_protocol_event(v, event, handle);
    if event is Disconnected {
        notified(
            Peer2PeerView {
                spectators: v1.spectators.update(
                    queue,
                    UdpProtocolView {
                        state: State::Disconnected,
                        shutdown_timeout: (now + UDP_SHUTDOWN_TIMER) as u128,
                        ..v1.spectators[queue]
                    },
                ),
                ..v1
            },
            SessionEvent::DisconnectedFromPeer(DisconnectedFromPeer { player: handle }),
        )
    } else {
        v1
    }
}

/// Whether `b` has the endpoints, players and spectators of `a`, each
/// endpoint with the events it had.
pub open spec fn keeps_events(a: Peer2PeerView, b: Peer2PeerView) -> bool {
    &&& b.endpoints.len() == a.endpoints.len()
    &&& b.num_players == a.num_players
    &&& b.num_spectators == a.num_spectators
    &&& forall|k: int|
        0 <= k < a.endpoints.len() ==> (#[trigger] b.endpoints[k]).event_queue
            == a.endpoints[k].event_queue
}

/// The session with the oldest event of endpoint `queue` taken.
pub open spec fn event_taken(v: Peer2PeerView, queue: int) -> Peer2PeerView {
    Peer2PeerView {
        endpoints: v.endpoints.update(
            queue,
            UdpProtocolView {
                event_queue: v.endpoints[queue].event_queue.drop_first(),
                ..v.endpoints[queue]
            },
        ),
        ..v
    }
}

/// Whether handling the next `fuel` events of the endpoint of player
/// `queue`, one after another, runs to its end.
pub open spec fn peer_events_ok(v: Peer2PeerView, queue: int, now: u128, fuel: nat) -> bool
    decreases fuel,
{
    if fuel == 0 {
        true
    } else {
        let e = v.endpoints[queue].event_queue[0];
        let v1 = event_taken(v, queue);
        let (w, r) = peer_event_outcome(v1, e, queue, now);
        peer_event_ok(v1, e, queue, now) && (r is None ==> peer_events_ok(
            w,
            queue,
            now,
            (fuel - 1) as nat,
        ))
    }
}

/// The session after the next `fuel` events of the endpoint of player
/// `queue` are handled, and the first error met.
pub open spec fn peer_events_outcome(v: Peer2PeerView, queue: int, now: u128, fuel: nat) -> (
    Peer2PeerView,
    Option<GGPOError>,
)
    decreases fuel,
{
    if fuel == 0 {
        (v, None)
    } else {
        let e = v.endpoints[queue].event_queue[0];
        let (w, r) = peer_event_outcome(event_taken(v, queue), e, queue, now);
        if r is Some {
            (w, r)
        } else {
            peer_events_outcome(w, queue, now, (fuel - 1) as nat)
        }
    }
}

/// The session after the events of the first `n` player endpoints are
/// handled, endpoint after endpoint, and the first error met.
pub open spec fn players_events(v: Peer2PeerView, n: int, now: u128) -> (Peer2PeerView, Option<GGPOError>)
    decreases n,
{
    if n <= 0 {
        (v, None)
    } else {
        let (w, r) = players_events(v, n - 1, now);
        if r is Some {
            (w, r)
        } else {
            peer_events_outcome(w, n - 1, now, w.endpoints[n - 1].event_queue.len())
        }
    }
}

/// Whether handling the events of the first `n` player endpoints runs to
/// its end.
pub open spec fn players_events_ok(v: Peer2PeerView, n: int, now: u128) -> bool
    decreases n,
{
    if n <= 0 {
        true
    } else {
        let (w, r) = players_events(v, n - 1, now);
        players_events_ok(v, n - 1, now) && (r is None ==> peer_events_ok(
            w,
            n - 1,
            now,
            w.endpoints[n - 1].event_queue.len(),
        ))
    }
}

/// The session after the next `fuel` events of endpoint `queue` are handled
/// as events of spectator `queue`.
pub open spec fn spectator_events(v: Peer2PeerView, queue: int, now: u128, fuel: nat) -> Peer2PeerView
    decreases fuel,
{
    if fuel == 0 {
        v
    } else {
        let e = v.endpoints[queue].event_queue[0];
        spectator_events(
            spectator_event_outcome(event_taken(v, queue), e, queue, now),
            queue,
            now,
            (fuel - 1) as nat,
        )
    }
}

/// The session after the events of the first `n` endpoints are handled as
/// events of the spectators with the same numbers.
pub open spec fn all_spectator_events(v: Peer2PeerView, n: int, now: u128) -> Peer2PeerView
    decreases n,
{
    if n <= 0 {
        v
    } else {
        let w = all_spectator_events(v, n - 1, now);
        spectator_events(w, n - 1, now, w.endpoints[n - 1].event_queue.len())
    }
}

/// What `poll_udp_protocol_events(now)` makes of the session and the first
/// error met: the events of every player endpoint, then those of the first
/// endpoints taken as spectators' events.
pub open spec fn protocol_events_outcome(v: Peer2PeerView, now: u128) -> (Peer2PeerView, Option<GGPOError>) {
    let (w, r) = players_events(v, v.num_players as int, now);
    if r is Some {
        (w, r)
    } else {
        (all_spectator_events(w, w.num_spectators as int, now), None)
    }
}

proof fn lemma_with_status_keeps(v: Peer2PeerView, status: Seq<ConnectStatus>)
    ensures
        keeps_events(v, with_status(v, status)),
{
}

proof fn lemma_disconnected_queue_keeps(v: Peer2PeerView, queue: int, f: FrameNum, now: u128)
    requires
        0 <= queue < v.endpoints.len(),
    ensures
        keeps_events(v, disconnected_queue(v, queue, f, now)),
{
}

proof fn lemma_disconnect_all_keeps(v: Peer2PeerView, n: int, f: FrameNum, now: u128)
    requires
        n <= v.endpoints.len(),
    ensures
        keeps_events(v, disconnect_all(v, n, f, now)),
    decreases n,
{
    if n > 0 {
        lemma_disconnect_all_keeps(v, n - 1, f, now);
        let w = disconnect_all(v, n - 1, f, now);
        if w.endpoints[n - 1].initialized {
            lemma_disconnected_queue_keeps(w, n - 1, f, now);
        }
    }
}

proof fn lemma_peer_event_keeps(v: Peer2PeerView, event: ProtocolEvent, queue: int, now: u128)
    requires
        v.endpoints.len() == GGPO_MAX_PLAYERS,
        v.num_players <= GGPO_MAX_PLAYERS,
        0 <= queue < v.num_players,
    ensures
        keeps_events(v, peer_event_outcome(v, event, queue, now).0),
{
    let v1 = after_protocol_event(v, event, (queue + 1) as u32);
    assert(keeps_events(v, v1));
    match event {
        ProtocolEvent::Input(input) => {
            if !v1.local_connect_status[queue].disconnected {
                let v2 = Peer2PeerView {
                    sync: GGPOSyncView {
                        input_queues: v1.sync.input_queues.update(
                            queue,
                            InputQueue::after_add_input(v1.sync.input_queues[queue], input),
                        ),
                        ..v1.sync
                    },
                    ..v1
                };
                let status = v1.local_connect_status.update(
                    queue,
                    ConnectStatus { last_frame: input.frame, ..v1.local_connect_status[queue] },
                );
                lemma_with_status_keeps(v2, status);
            }
        },
        ProtocolEvent::Disconnected => {
            let h = (queue + 1) as u32;
            if 1 <= h <= v1.num_players {
                let q = h - 1;
                if !v1.local_connect_status[q].disconnected {
                    if !v1.endpoints[q].initialized {
                        lemma_disconnect_all_keeps(v1, v1.num_players as int, v1.sync.frame_count as usize, now);
                    } else if v1.local_connect_status[q].last_frame is Some {
                        lemma_disconnected_queue_keeps(v1, q, v1.local_connect_status[q].last_frame->0, now);
                    }
                }
            }
        },
        _ => {},
    }
}

/// The smaller of two frame numbers.
pub open spec fn min_frame(a: u32, b: u32) -> u32 {
    if a < b {
        a
    } else {
        b
    }
}

/// Whether the endpoint of player `i` still believes its peer connected:
/// a running endpoint answers with what the peer reported of player `i`.
pub open spec fn peer_connected(v: Peer2PeerView, i: int) -> bool {
    if v.endpoints[i].state is Running {
        !v.endpoints[i].peer_connect_status[i].disconnected
    } else {
        true
    }
}

/// Whether a disconnect of player `i` as of `frame` can be carried out.
pub open spec fn disconnect_ok(v: Peer2PeerView, frame: u32, now: u128) -> bool {
    frame as usize >= v.sync.frame_count && now + UDP_SHUTDOWN_TIMER <= u128::MAX
}

/// One step of `poll_2_players`: player `i` with the running minimum
/// `total` of the frames confirmed by the connected players. A connected
/// player must have a last frame; a player whose peer reports it
/// disconnected is disconnected as of the minimum so far.
pub open spec fn poll_2_step(v: Peer2PeerView, total: u32, i: int, now: u128) -> (Peer2PeerView, Result<u32, Peer2PeerError>) {
    let local = v.local_connect_status[i];
    if !local.disconnected && local.last_frame is None {
        (v, Err(Peer2PeerError::LastFrameNone))
    } else {
        let t = if !local.disconnected {
            min_frame(local.last_frame->0 as u32, total)
        } else {
            total
        };
        if !peer_connected(v, i) && !local.disconnected {
            (disconnected_queue(v, i, t as usize, now), Ok(t))
        } else {
            (v, Ok(t))
        }
    }
}

/// Whether step `i` of `poll_2_players` runs to its end.
pub open spec fn poll_2_step_ok(v: Peer2PeerView, total: u32, i: int, now: u128) -> bool {
    let local = v.local_connect_status[i];
    (!peer_connected(v, i) && !local.disconnected && local.last_frame is Some) ==> disconnect_ok(
        v,
        min_frame(local.last_frame->0 as u32, total),
        now,
    )
}

/// The session after `poll_2_players` has gone through the first `n`
/// players, and the minimum confirmed frame or the error met.
pub open spec fn poll_2_outcome(v: Peer2PeerView, n: int, now: u128) -> (Peer2PeerView, Result<u32, Peer2PeerError>)
    decreases n,
{
    if n <= 0 {
        (v, Ok(u32::MAX))
    } else {
        let (w, r) = poll_2_outcome(v, n - 1, now);
        match r {
            Ok(t) => poll_2_step(w, t, n - 1, now),
            Err(e) => (w, Err(e)),
        }
    }
}

/// Whether `poll_2_players` runs to its end on the first `n` players.
pub open spec fn poll_2_ok(v: Peer2PeerView, n: int, now: u128) -> bool
    decreases n,
{
    if n <= 0 {
        true
    } else {
        let (w, r) = poll_2_outcome(v, n - 1, now);
        poll_2_ok(v, n - 1, now) && (r matches Ok(t) ==> poll_2_step_ok(w, t, n - 1, now))
    }
}

/// What the first `m` running endpoints report of player `queue`: whether
/// all of them still see it connected and the least frame they received
/// from it; an endpoint that has received none is an error.
pub open spec fn queue_scan(v: Peer2PeerView, queue: int, m: int) -> Result<(bool, u32), Peer2PeerError>
    decreases m,
{
    if m <= 0 {
        Ok((true, u32::MAX))
    } else {
        match queue_scan(v, queue, m - 1) {
            Err(e) => Err(e),
            Ok((c, q)) => {
                let e = v.endpoints[m - 1];
                if e.state is Running {
                    let ps = e.peer_connect_status[queue];
                    match ps.last_frame {
                        None => Err(Peer2PeerError::LastFrameNone),
                        Some(l) => Ok((c && !ps.disconnected, min_frame(l as u32, q))),
                    }
                } else {
                    Ok((c, q))
                }
            },
        }
    }
}

/// The least frame confirmed for player `queue`, from the endpoints'
/// reports and, while the player is connected, its own last frame; the
/// scan's error, or an error when a connected player has no last frame.
pub open spec fn queue_min(v: Peer2PeerView, queue: int) -> Result<(bool, u32), Peer2PeerError> {
    match queue_scan(v, queue, v.num_players as int) {
        Err(e) => Err(e),
        Ok((connected, q)) => {
            let local = v.local_connect_status[queue];
            if local.disconnected {
                Ok((connected, q))
            } else {
                match local.last_frame {
                    None => Err(Peer2PeerError::LastFrameNone),
                    Some(l) => Ok((connected, min_frame(l as u32, q))),
                }
            }
        },
    }
}

/// Whether `poll_n_players` disconnects player `queue` whose peers report
/// it disconnected, with least confirmed frame `q`: when it is still
/// connected here, or was disconnected here at a later frame.
pub open spec fn redisconnects(v: Peer2PeerView, queue: int, q: u32) -> bool {
    let local = v.local_connect_status[queue];
    !local.disconnected || (local.last_frame matches Some(l) && l > q as usize)
}

/// One step of `poll_n_players`: player `queue` with the running minimum
/// `total` over the players that are still connected.
pub open spec fn poll_n_step(v: Peer2PeerView, total: u32, queue: int, now: u128) -> (Peer2PeerView, Result<u32, Peer2PeerError>) {
    match queue_min(v, queue) {
        Err(e) => (v, Err(e)),
        Ok((connected, q)) => if connected {
            (v, Ok(min_frame(q, total)))
        } else if v.local_connect_status[queue].disconnected
            && v.local_connect_status[queue].last_frame is None {
            (v, Err(Peer2PeerError::LastFrameNone))
        } else if redisconnects(v, queue, q) {
            (disconnected_queue(v, queue, q as usize, now), Ok(total))
        } else {
            (v, Ok(total))
        },
    }
}

/// Whether step `queue` of `poll_n_players` runs to its end.
pub open spec fn poll_n_step_ok(v: Peer2PeerView, total: u32, queue: int, now: u128) -> bool {
    queue_min(v, queue) matches Ok((connected, q)) ==> (!connected && redisconnects(v, queue, q)
        ==> disconnect_ok(v, q, now))
}

/// The session after `poll_n_players` has gone through the first `n`
/// players, and the minimum confirmed frame or the error met.
pub open spec fn poll_n_outcome(v: Peer2PeerView, n: int, now: u128) -> (Peer2PeerView, Result<u32, Peer2PeerError>)
    decreases n,
{
    if n <= 0 {
        (v, Ok(u32::MAX))
    } else {
        let (w, r) = poll_n_outcome(v, n - 1, now);
        match r {
            Ok(t) => poll_n_step(w, t, n - 1, now),
            Err(e) => (w, Err(e)),
        }
    }
}

/// Whether `poll_n_players` runs to its end on the first `n` players.
pub open spec fn poll_n_ok(v: Peer2PeerView, n: int, now: u128) -> bool
    decreases n,
{
    if n <= 0 {
        true
    } else {
        let (w, r) = poll_n_outcome(v, n - 1, now);
        poll_n_ok(v, n - 1, now) && (r matches Ok(t) ==> poll_n_step_ok(w, t, n - 1, now))
    }
}

/// Whether polling took endpoint `a` to `b` without an error.
pub open spec fn polled_ok(a: UdpProtocolView, b: UdpProtocolView, clock: Clock) -> bool {
    exists|rb: Result<bool, UdpProtoError>|
        #![trigger UdpProtocol::loop_poll_outcome(a, b, clock, rb)]
        rb is Ok && UdpProtocol::loop_poll_outcome(a, b, clock, rb)
}

/// Whether the first `k` endpoints of `a` were polled without an error into
/// those of `b`, and the others after the `skip`-th first are unchanged.
pub open spec fn polled_upto(a: Seq<UdpProtocolView>, b: Seq<UdpProtocolView>, clock: Clock, k: int, skip: int) -> bool {
    &&& b.len() == a.len()
    &&& forall|i: int| 0 <= i < k ==> polled_ok(#[trigger] a[i], b[i], clock)
    &&& forall|i: int| k + skip <= i < a.len() ==> #[trigger] b[i] == a[i]
}

/// Whether polling stopped at endpoint `k` of `a` with error `e`, after the
/// ones before it were polled without an error.
pub open spec fn polled_failed_at(a: Seq<UdpProtocolView>, b: Seq<UdpProtocolView>, clock: Clock, k: int, e: UdpProtoError) -> bool {
    &&& 0 <= k < a.len()
    &&& polled_upto(a, b, clock, k, 1)
    &&& UdpProtocol::loop_poll_outcome(a[k], b[k], clock, Err(e))
}

/// Whether `pump(writable, clock)` took the session from `v` to `w` with
/// result `r`: when the socket is writable, every player endpoint and then
/// every spectator endpoint is polled, stopping at the first error (an
/// endpoint that is not attached is one).
pub open spec fn pumped(v: Peer2PeerView, w: Peer2PeerView, writable: bool, clock: Clock, r: Result<(), Peer2PeerError>) -> bool {
    if !writable {
        w == v && r is Ok
    } else {
        &&& w == (Peer2PeerView { endpoints: w.endpoints, spectators: w.spectators, ..v })
        &&& match r {
            Ok(_) => polled_upto(v.endpoints, w.endpoints, clock, v.endpoints.len() as int, 0)
                && polled_upto(v.spectators, w.spectators, clock, v.spectators.len() as int, 0),
            Err(Peer2PeerError::UdpProtocol { source: e }) => (exists|k: int|
                polled_failed_at(v.endpoints, w.endpoints, clock, k, e)) && w.spectators == v.spectators
                || polled_upto(v.endpoints, w.endpoints, clock, v.endpoints.len() as int, 0) && (exists|k: int|
                polled_failed_at(v.spectators, w.spectators, clock, k, e)),
            Err(_) => false,
        }
    }
}

/// Whether every endpoint can be polled at `clock`.
pub open spec fn pump_ok(v: Peer2PeerView, writable: bool, clock: Clock) -> bool {
    writable ==> {
        &&& forall|i: int|
            0 <= i < v.endpoints.len() ==> UdpProtocol::clock_ok(#[trigger] v.endpoints[i], clock)
                && UdpProtocol::poll_ok(v.endpoints[i], clock.now)
        &&& forall|i: int|
            0 <= i < v.spectators.len() ==> UdpProtocol::clock_ok(#[trigger] v.spectators[i], clock)
                && UdpProtocol::poll_ok(v.spectators[i], clock.now)
    }
}

/// The session after every player endpoint is told that the local frame is
/// `current`.
pub open spec fn frames_numbered(v: Peer2PeerView, current: FrameNum) -> Peer2PeerView {
    Peer2PeerView {
        endpoints: Seq::new(
            v.endpoints.len(),
            |i: int|
                if i < v.num_players {
                    UdpProtocolView {
                        local_frame_advantage: ((UdpProtocol::estimated_remote_frame(v.endpoints[i]) as usize
                            as i64) - (current as i64)) as i32,
                        ..v.endpoints[i]
                    }
                } else {
                    v.endpoints[i]
                },
        ),
        ..v
    }
}

/// Whether every player endpoint can take the local frame `current`.
pub open spec fn frames_number_ok(v: Peer2PeerView, current: FrameNum) -> bool {
    forall|i: int|
        0 <= i < v.num_players ==> UdpProtocol::frame_number_ok(#[trigger] v.endpoints[i], current)
}

/// The largest frame delay that the first `n` player endpoints recommend,
/// each given the sleep time computed for it.
pub open spec fn max_interval(endpoints: Seq<UdpProtocolView>, n: int, sleep_frames: Seq<Option<i32>>) -> u32
    decreases n,
{
    if n <= 0 {
        0
    } else {
        let m = max_interval(endpoints, n - 1, sleep_frames);
        let w = crate::time_sync::recommended_wait(endpoints[n - 1].timesync, false, sleep_frames[n - 1]) as u32;
        if m < w {
            w
        } else {
            m
        }
    }
}

/// The session after `recommend_time_sync(current, sleep_frames)`: once the
/// current frame is past the next recommendation, the largest recommended
/// delay, if any, goes to the client, and the next recommendation is due
/// `RECOMMENDATION_INTERVAL` frames later.
pub open spec fn time_synced(v: Peer2PeerView, current: FrameNum, sleep_frames: Seq<Option<i32>>) -> Peer2PeerView {
    if current > v.next_recommended_sleep as usize {
        let interval = max_interval(v.endpoints, v.num_players as int, sleep_frames);
        if interval > 0 {
            Peer2PeerView {
                next_recommended_sleep: (current + RECOMMENDATION_INTERVAL) as u32,
                ..notified(v, SessionEvent::TimeSync(TimeSyncEvent { frames_ahead: interval as usize }))
            }
        } else {
            v
        }
    } else {
        v
    }
}

/// The inputs on which `recommend_time_sync(current, sleep_frames)` runs to
/// its end: every player has a sleep time and the next recommendation's
/// frame fits.
pub open spec fn time_sync_ok(v: Peer2PeerView, current: FrameNum, sleep_frames: Seq<Option<i32>>) -> bool {
    &&& sleep_frames.len() >= v.num_players
    &&& (current > v.next_recommended_sleep as usize && max_interval(v.endpoints, v.num_players as int, sleep_frames) > 0)
        ==> current + RECOMMENDATION_INTERVAL <= u32::MAX
}

/// Whether `g` is the input that goes to the spectators for frame `f`: the
/// confirmed inputs of all players (see `GGPOSync::confirmed_byte`), sized
/// for all of them.
pub open spec fn is_spectator_input(g: GameInput, v: Peer2PeerView, f: FrameNum) -> bool {
    &&& g.frame == Some(f)
    &&& g.size == v.input_size * v.num_players
    &&& forall|k: int|
        0 <= k < INPUT_BUFFER_SIZE ==> #[trigger] g.bits_view()[k] == crate::sync::confirmed_byte(
            v.sync,
            Some(f),
            v.local_connect_status,
            k,
        )
}

/// Whether `send_input(g, clock)` took endpoint `a` to `b` with result `r`.
pub open spec fn sent_input(a: UdpProtocolView, b: UdpProtocolView, g: GameInput, clock: Clock, r: Result<(), UdpProtoError>) -> bool {
    exists|m: UdpMsg|
        #![trigger UdpProtocol::input_msg(m)]
        UdpProtocol::input_msg(m) && UdpProtocol::sent_msg(
            UdpProtocol::marked_sent(UdpProtocol::with_input(a, g)),
            b,
            m,
            clock,
            r,
        )
}

/// Whether the first `n` endpoints of `a` were sent `g` one after another
/// into those of `b`, stopping at the first error.
pub open spec fn frame_sent(a: Seq<UdpProtocolView>, b: Seq<UdpProtocolView>, g: GameInput, clock: Clock, n: int, r: Result<(), UdpProtoError>) -> bool {
    &&& b.len() == a.len()
    &&& match r {
        Ok(_) => (forall|j: int| 0 <= j < n ==> sent_input(#[trigger] a[j], b[j], g, clock, Ok(())))
            && (forall|j: int| n <= j < a.len() ==> #[trigger] b[j] == a[j]),
        Err(e) => exists|k: int|
            0 <= k < n && (forall|j: int| 0 <= j < k ==> sent_input(#[trigger] a[j], b[j], g, clock, Ok(())))
                && sent_input(a[k], b[k], g, clock, Err(e)) && (forall|j: int|
                k < j < a.len() ==> #[trigger] b[j] == a[j]),
    }
}

/// Whether the first `n` endpoints of `a` can each be sent `g`.
pub open spec fn frame_send_ok(a: Seq<UdpProtocolView>, g: GameInput, clock: Clock, n: int) -> bool {
    forall|j: int|
        0 <= j < n ==> UdpProtocol::clock_ok(#[trigger] a[j], clock) && UdpProtocol::pending_ok(
            UdpProtocol::with_input(a[j], g),
        )
}

/// The frames still to go to the spectators up to `total`.
pub open spec fn feed_fuel(v: Peer2PeerView, total: u32) -> nat {
    if v.next_spectator_frame <= total {
        (total + 1 - v.next_spectator_frame) as nat
    } else {
        0
    }
}

/// Whether sending the next `fuel` confirmed frames to the spectators took
/// the session from `v` to `w` with result `r`, stopping at the first error.
pub open spec fn feed_rel(v: Peer2PeerView, w: Peer2PeerView, total: u32, clock: Clock, r: Result<(), GGPOError>, fuel: nat) -> bool
    decreases fuel,
{
    if fuel == 0 {
        w == v && r is Ok
    } else {
        exists|g: GameInput, s1: Seq<UdpProtocolView>, rs: Result<(), UdpProtoError>|
            #![trigger frame_sent(v.spectators, s1, g, clock, v.num_spectators as int, rs)]
            is_spectator_input(g, v, v.next_spectator_frame as usize) && frame_sent(
                v.spectators,
                s1,
                g,
                clock,
                v.num_spectators as int,
                rs,
            ) && match rs {
                Err(e) => w == (Peer2PeerView { spectators: s1, ..v }) && r == Err::<(), GGPOError>(
                    GGPOError::UdpProto { source: e },
                ),
                Ok(_) => feed_rel(
                    Peer2PeerView {
                        spectators: s1,
                        next_spectator_frame: v.next_spectator_frame + 1,
                        ..v
                    },
                    w,
                    total,
                    clock,
                    r,
                    (fuel - 1) as nat,
                ),
            }
    }
}

/// Whether sending the next `fuel` confirmed frames to the spectators runs
/// to its end, whatever the sends before came to.
pub open spec fn feed_ok(v: Peer2PeerView, total: u32, clock: Clock, fuel: nat) -> bool
    decreases fuel,
{
    fuel == 0 || {
        &&& crate::sync::confirmed_inputs_ok(
            v.sync,
            Some(v.next_spectator_frame as usize),
            v.local_connect_status,
        )
        &&& forall|g: GameInput|
            #![trigger is_spectator_input(g, v, v.next_spectator_frame as usize)]
            is_spectator_input(g, v, v.next_spectator_frame as usize) ==> {
                &&& frame_send_ok(v.spectators, g, clock, v.num_spectators as int)
                &&& forall|s1: Seq<UdpProtocolView>|
                    #![trigger frame_sent(v.spectators, s1, g, clock, v.num_spectators as int, Ok(()))]
                    frame_sent(v.spectators, s1, g, clock, v.num_spectators as int, Ok(()))
                        ==> feed_ok(
                        Peer2PeerView {
                            spectators: s1,
                            next_spectator_frame: v.next_spectator_frame + 1,
                            ..v
                        },
                        total,
                        clock,
                        (fuel - 1) as nat,
                    )
            }
    }
}

/// Whether sending the confirmed frames up to `total` took the session from
/// `v` to `w` with result `r` (nothing happens without spectators).
pub open spec fn spectators_fed(v: Peer2PeerView, w: Peer2PeerView, total: u32, clock: Clock, r: Result<(), GGPOError>) -> bool {
    if v.num_spectators > 0 {
        feed_rel(v, w, total, clock, r, feed_fuel(v, total))
    } else {
        w == v && r is Ok
    }
}

/// The session after its synchronisation layer has checked the players'
/// predictions (see `GGPOSync::check_simulation`).
pub open spec fn checked(v: Peer2PeerView) -> Peer2PeerView {
    Peer2PeerView {
        sync: if earliest_incorrect(v.sync.input_queues, v.sync.num_players as int) is Some {
            adjusted(v.sync)
        } else {
            v.sync
        },
        ..v
    }
}

/// Whether the check of the predictions runs to its end: a rollback is
/// only possible to the current frame.
pub open spec fn check_ok(v: Peer2PeerView) -> bool {
    earliest_incorrect(v.sync.input_queues, v.sync.num_players as int) matches Some(f) ==> f
        == v.sync.frame_count
}

/// The session once `total` is the last confirmed frame.
pub open spec fn confirmed(v: Peer2PeerView, total: u32) -> Peer2PeerView {
    Peer2PeerView {
        sync: GGPOSyncView {
            last_confirmed_frame: Some(total as usize),
            input_queues: confirmed_queues(v.sync, Some(total as usize)),
            ..v.sync
        },
        ..v
    }
}

/// What the poll of the confirmed frames makes of the session: the
/// two-player poll for at most two players, else the general one.
pub open spec fn polled_confirmed(v: Peer2PeerView, now: u128) -> (Peer2PeerView, Result<u32, Peer2PeerError>) {
    if v.num_players <= 2 {
        poll_2_outcome(v, v.num_players as int, now)
    } else {
        poll_n_outcome(v, v.num_players as int, now)
    }
}

/// Whether the poll of the confirmed frames runs to its end.
pub open spec fn polled_confirmed_ok(v: Peer2PeerView, now: u128) -> bool {
    if v.num_players <= 2 {
        poll_2_ok(v, v.num_players as int, now)
    } else {
        poll_n_ok(v, v.num_players as int, now)
    }
}

/// Whether advancing a running session runs to its end, whatever the
/// sends to the spectators come to.
pub open spec fn advance_ok(w: Peer2PeerView, clock: Clock, sleep_frames: Seq<Option<i32>>) -> bool {
    let v1 = checked(w);
    let cur = v1.sync.frame_count as usize;
    let v2 = frames_numbered(v1, cur);
    let (v3, pr) = polled_confirmed(v2, clock.now);
    &&& check_ok(w)
    &&& frames_number_ok(v1, cur)
    &&& polled_confirmed_ok(v2, clock.now)
    &&& pr matches Ok(total) ==> {
        &&& total < u32::MAX
        &&& v3.num_spectators > 0 ==> feed_ok(v3, total, clock, feed_fuel(v3, total))
        &&& confirm_ok(v3.sync, Some(total as usize))
        &&& time_sync_ok(confirmed(v3, total), cur, sleep_frames)
    }
}

/// Whether advancing a running session took it from `w` to `fin` with
/// result `r`: the predictions are checked, the endpoints learn the current
/// frame, the confirmed frame is found, the confirmed frames go to the
/// spectators, the synchronisation layer learns the confirmed frame and a
/// frame delay may be recommended.
pub open spec fn advance_rel(w: Peer2PeerView, fin: Peer2PeerView, r: Result<(), GGPOError>, clock: Clock, sleep_frames: Seq<Option<i32>>) -> bool {
    let v1 = checked(w);
    let cur = v1.sync.frame_count as usize;
    let v2 = frames_numbered(v1, cur);
    let (v3, pr) = polled_confirmed(v2, clock.now);
    match pr {
        Err(e) => fin == v3 && r == Err::<(), GGPOError>(GGPOError::P2P { source: e }),
        Ok(total) => exists|v4: Peer2PeerView, rf: Result<(), GGPOError>|
            #![trigger spectators_fed(v3, v4, total, clock, rf)]
            spectators_fed(v3, v4, total, clock, rf) && match rf {
                Err(e) => fin == v4 && r == Err::<(), GGPOError>(e),
                Ok(_) => fin == (Peer2PeerView {
                    spectators: v4.spectators,
                    next_spectator_frame: v4.next_spectator_frame,
                    ..time_synced(confirmed(v3, total), cur, sleep_frames)
                }) && r is Ok,
            },
    }
}

/// Whether everything after the pump runs to its end on session `w`.
pub open spec fn after_pump_ok(w: Peer2PeerView, clock: Clock, sleep_frames: Seq<Option<i32>>) -> bool {
    let (w1, er) = protocol_events_outcome(w, clock.now);
    &&& w.num_spectators <= GGPO_MAX_PLAYERS
    &&& clock.now + UDP_SHUTDOWN_TIMER <= u128::MAX
    &&& players_events_ok(w, w.num_players as int, clock.now)
    &&& (er is None && !w1.synchronizing) ==> advance_ok(w1, clock, sleep_frames)
}

/// Whether everything after the pump took the session from `w` to `fin`
/// with result `r`: the endpoints' events are handled and, once the session
/// no longer synchronises, it advances.
pub open spec fn after_pump_rel(w: Peer2PeerView, fin: Peer2PeerView, r: Result<(), GGPOError>, clock: Clock, sleep_frames: Seq<Option<i32>>) -> bool {
    let (w1, er) = protocol_events_outcome(w, clock.now);
    match er {
        Some(e) => fin == w1 && (r matches Err(GGPOError::P2P { source: Peer2PeerError::GGPO(s) })
            && s@ == error_message(e)),
        None => if w1.synchronizing {
            fin == w1 && r is Ok
        } else {
            advance_rel(w1, fin, r, clock, sleep_frames)
        },
    }
}

/// The inputs on which `do_poll` runs to its end: while the synchronisation
/// layer is rolling back, the endpoints can be polled and, whatever that
/// comes to, the rest runs to its end.
pub open spec fn do_poll_ok(v: Peer2PeerView, writable: bool, clock: Clock, sleep_frames: Seq<Option<i32>>) -> bool {
    v.sync.rolling_back ==> {
        &&& pump_ok(v, writable, clock)
        &&& forall|w: Peer2PeerView|
            #[trigger] pumped(v, w, writable, clock, Ok::<(), Peer2PeerError>(())) ==> after_pump_ok(
                w,
                clock,
                sleep_frames,
            )
    }
}

/// Whether `do_poll` took the session from `v` to `fin` with result `r`:
/// nothing happens unless the synchronisation layer is rolling back; then
/// the endpoints are polled, their events handled, and a session that no
/// longer synchronises advances.
pub open spec fn do_poll_rel(v: Peer2PeerView, fin: Peer2PeerView, r: Result<(), GGPOError>, writable: bool, clock: Clock, sleep_frames: Seq<Option<i32>>) -> bool {
    if !v.sync.rolling_back {
        fin == v && r is Ok
    } else {
        exists|w: Peer2PeerView, rp: Result<(), Peer2PeerError>|
            #![trigger pumped(v, w, writable, clock, rp)]
            pumped(v, w, writable, clock, rp) && match rp {
                Err(e) => fin == w && r == Err::<(), GGPOError>(GGPOError::P2P { source: e }),
                Ok(_) => after_pump_rel(w, fin, r, clock, sleep_frames),
            }
    }
}

/// Sending frames to the spectators changes nothing but the spectators and
/// the next frame to send.
proof fn lemma_feed_shape(v: Peer2PeerView, w: Peer2PeerView, total: u32, clock: Clock, r: Result<(), GGPOError>, fuel: nat)
    requires
        feed_rel(v, w, total, clock, r, fuel),
    ensures
        w == (Peer2PeerView {
            spectators: w.spectators,
            next_spectator_frame: w.next_spectator_frame,
            ..v
        }),
    decreases fuel,
{
    if fuel > 0 {
        let (g, s1, rs) = choose|g: GameInput, s1: Seq<UdpProtocolView>, rs: Result<(), UdpProtoError>|
            #![trigger frame_sent(v.spectators, s1, g, clock, v.num_spectators as int, rs)]
            is_spectator_input(g, v, v.next_spectator_frame as usize) && frame_sent(
                v.spectators,
                s1,
                g,
                clock,
                v.num_spectators as int,
                rs,
            ) && match rs {
                Err(e) => w == (Peer2PeerView { spectators: s1, ..v }) && r == Err::<(), GGPOError>(
                    GGPOError::UdpProto { source: e },
                ),
                Ok(_) => feed_rel(
                    Peer2PeerView {
                        spectators: s1,
                        next_spectator_frame: v.next_spectator_frame + 1,
                        ..v
                    },
                    w,
                    total,
                    clock,
                    r,
                    (fuel - 1) as nat,
                ),
            };
        if rs is Ok {
            lemma_feed_shape(
                Peer2PeerView { spectators: s1, next_spectator_frame: v.next_spectator_frame + 1, ..v },
                w,
                total,
                clock,
                r,
                (fuel - 1) as nat,
            );
        }
    }
}

/// Whether attaching endpoint `a` to the peer `addr` as queue `queue`, with
/// the session's status and timeouts, and starting the handshake took it to
/// `b` with result `r` (the magic number is drawn at random).
pub open spec fn attached(
    a: UdpProtocolView,
    b: UdpProtocolView,
    queue: u32,
    addr: PeerAddr,
    status: Seq<ConnectStatus>,
    timeout: u128,
    notify_start: u128,
    input_size: usize,
    clock: Clock,
    r: Result<(), UdpProtoError>,
) -> bool {
    exists|magic: u16|
        #![trigger UdpProtocol::sent_sync_request(
            UdpProtocolView {
                initialized: true,
                queue: queue as i64,
                local_connect_status: status,
                peer_addr: Some(addr),
                magic_number: magic,
                input_size,
                disconnect_timeout: timeout,
                disconnect_notify_start: notify_start,
                state: State::Syncing(Syncing { roundtrips_remaining: NUM_SYNC_PACKETS, random: 0 }),
                ..a
            },
            b,
            clock,
            r,
        )]
        UdpProtocol::sent_sync_request(
            UdpProtocolView {
                initialized: true,
                queue: queue as i64,
                local_connect_status: status,
                peer_addr: Some(addr),
                magic_number: magic,
                input_size,
                disconnect_timeout: timeout,
                disconnect_notify_start: notify_start,
                state: State::Syncing(Syncing { roundtrips_remaining: NUM_SYNC_PACKETS, random: 0 }),
                ..a
            },
            b,
            clock,
            r,
        )
}

/// The network statistics of endpoint `e`.
pub open spec fn endpoint_stats(e: UdpProtocolView) -> NetworkStats {
    NetworkStats {
        network: Network {
            ping: e.round_trip_time as usize,
            send_queue_len: e.pending_output.len() as usize,
            kbps_sent: e.kbps_sent,
            recv_queue_len: 0,
        },
        timesync: TimeSyncStats {
            remote_frames_behind: e.remote_frame_advantage,
            local_frames_behind: e.local_frame_advantage,
        },
    }
}

/// Whether the attached endpoints among the first `n` of `a` were sent `g`
/// one after another into those of `b`, stopping at the first error; the
/// others stay as they were.
pub open spec fn sent_to_attached(a: Seq<UdpProtocolView>, b: Seq<UdpProtocolView>, g: GameInput, clock: Clock, n: int, r: Result<(), UdpProtoError>) -> bool {
    &&& b.len() == a.len()
    &&& match r {
        Ok(_) => forall|j: int|
            0 <= j < a.len() ==> if j < n && a[j].initialized {
                sent_input(#[trigger] a[j], b[j], g, clock, Ok(()))
            } else {
                b[j] == a[j]
            },
        Err(e) => exists|k: int|
            0 <= k < n && a[k].initialized && sent_input(a[k], b[k], g, clock, Err(e)) && forall|j: int|
                0 <= j < a.len() && j != k ==> if j < k && a[j].initialized {
                    sent_input(#[trigger] a[j], b[j], g, clock, Ok(()))
                } else {
                    b[j] == a[j]
                },
    }
}

/// Whether the attached endpoints among the first `n` of `a` can each be
/// sent `g`.
pub open spec fn attached_send_ok(a: Seq<UdpProtocolView>, g: GameInput, clock: Clock, n: int) -> bool {
    forall|j: int|
        0 <= j < n && (#[trigger] a[j]).initialized ==> UdpProtocol::clock_ok(a[j], clock)
            && UdpProtocol::pending_ok(UdpProtocol::with_input(a[j], g))
}

/// The local input of `values` (of `size` bytes per player) for no frame.
pub open spec fn local_input(values: InputBuffer, size: usize) -> GameInput {
    GameInput { frame: None, size, bits: values }
}

/// The session once the local input `g`, stamped with the current frame,
/// is in queue `q` and recorded as the player's last frame, before it is
/// sent.
pub open spec fn local_input_taken(v: Peer2PeerView, q: int, g: GameInput) -> Peer2PeerView {
    let stamped = GameInput { frame: Some(v.sync.frame_count as usize), ..g };
    let v1 = Peer2PeerView {
        sync: GGPOSyncView {
            input_queues: v.sync.input_queues.update(
                q,
                crate::input_queue::InputQueue::after_add_input(v.sync.input_queues[q], stamped),
            ),
            ..v.sync
        },
        ..v
    };
    with_status(
        v1,
        v.local_connect_status.update(
            q,
            ConnectStatus { last_frame: stamped.frame, ..v.local_connect_status[q] },
        ),
    )
}

/// The inputs on which `add_local_input(player, values, size, clock)` runs
/// to its end.
pub open spec fn add_local_input_ok(v: Peer2PeerView, player: PlayerHandle, values: InputBuffer, size: usize, clock: Clock) -> bool {
    let q = player - 1;
    let g = local_input(values, size);
    let stamped = GameInput { frame: Some(v.sync.frame_count as usize), ..g };
    (!v.sync.rolling_back && !v.synchronizing && 1 <= player <= v.num_players) ==> {
        &&& size <= GAMEINPUT_MAX_BYTES
        &&& local_input_ok(v.sync, q as u32, g)
        &&& accepts_local_input(v.sync) ==> attached_send_ok(
            local_input_taken(v, q, g).endpoints,
            stamped,
            clock,
            v.num_players as int,
        )
    }
}

/// Whether `add_local_input(player, values, size, clock)` took the session
/// from `v` to `fin` with result `r`: refused during a rollback, while
/// synchronising, for an unknown player and at the prediction limit;
/// otherwise the input goes to the player's queue for the current frame,
/// becomes its last frame, and is sent to every attached endpoint.
pub open spec fn add_local_input_rel(v: Peer2PeerView, fin: Peer2PeerView, r: Result<(), GGPOError>, player: PlayerHandle, values: InputBuffer, size: usize, clock: Clock) -> bool {
    if v.sync.rolling_back {
        fin == v && r == Err::<(), GGPOError>(GGPOError::InRollback)
    } else if v.synchronizing {
        fin == v && r == Err::<(), GGPOError>(GGPOError::NotSynchronized)
    } else if !(1 <= player <= v.num_players) {
        fin == v && r == Err::<(), GGPOError>(GGPOError::InvalidPlayerHandle)
    } else if !accepts_local_input(v.sync) {
        fin == v && r == Err::<(), GGPOError>(GGPOError::PredictionThreshold)
    } else {
        let g = local_input(values, size);
        let stamped = GameInput { frame: Some(v.sync.frame_count as usize), ..g };
        let v2 = local_input_taken(v, player - 1, g);
        exists|rs: Result<(), UdpProtoError>|
            #![trigger sent_to_attached(v2.endpoints, fin.endpoints, stamped, clock, v.num_players as int, rs)]
            sent_to_attached(v2.endpoints, fin.endpoints, stamped, clock, v.num_players as int, rs)
                && fin == (Peer2PeerView { endpoints: fin.endpoints, ..v2 }) && r == match rs {
                Ok(_) => Ok::<(), GGPOError>(()),
                Err(e) => Err(GGPOError::UdpProto { source: e }),
            }
    }
}

/// How endpoint `e` answers whether a message from `from` is for it.
pub open spec fn handles(e: UdpProtocolView, from: PeerAddr) -> Result<bool, UdpProtoError> {
    if !e.initialized {
        Err(UdpProtoError::UdpUninit)
    } else {
        match e.peer_addr {
            None => Err(UdpProtoError::PeerAddrUninit),
            Some(a) => Ok(a == from),
        }
    }
}

/// The first of the first `n` endpoints that does not decline a message
/// from `from` (it takes it or fails to answer).
pub open spec fn first_handler(es: Seq<UdpProtocolView>, from: PeerAddr, n: int) -> Option<int>
    decreases n,
{
    if n <= 0 {
        None
    } else {
        match first_handler(es, from, n - 1) {
            Some(i) => Some(i),
            None => if handles(es[n - 1], from) == Ok::<bool, UdpProtoError>(false) {
                None
            } else {
                Some(n - 1)
            },
        }
    }
}

/// The player endpoint that handles a message from `from` (see `on_msg`):
/// the first player endpoint that takes it, or else the player endpoint with
/// the number of the first spectator endpoint that takes it; `None` when an
/// endpoint fails to answer or none takes it.
pub open spec fn msg_handler(v: Peer2PeerView, from: PeerAddr) -> Option<int> {
    match first_handler(v.endpoints, from, v.num_players as int) {
        Some(i) => if handles(v.endpoints[i], from) is Ok {
            Some(i)
        } else {
            None
        },
        None => match first_handler(v.spectators, from, v.num_spectators as int) {
            Some(i) => if handles(v.spectators[i], from) is Ok {
                Some(i)
            } else {
                None
            },
            None => None,
        },
    }
}

/// The error with which an endpoint fails to answer whether a message from
/// `from` is for it, if one does.
pub open spec fn msg_error(v: Peer2PeerView, from: PeerAddr) -> Option<UdpProtoError> {
    match first_handler(v.endpoints, from, v.num_players as int) {
        Some(i) => match handles(v.endpoints[i], from) {
            Err(e) => Some(e),
            Ok(_) => None,
        },
        None => match first_handler(v.spectators, from, v.num_spectators as int) {
            Some(i) => match handles(v.spectators[i], from) {
                Err(e) => Some(e),
                Ok(_) => None,
            },
            None => None,
        },
    }
}

/// The session with timeout `timeout` for every attached player endpoint.
pub open spec fn with_timeout(v: Peer2PeerView, timeout: u128) -> Peer2PeerView {
    Peer2PeerView {
        disconnect_timeout: timeout,
        endpoints: Seq::new(
            v.endpoints.len(),
            |i: int|
                if i < v.num_players && v.endpoints[i].initialized {
                    UdpProtocolView { disconnect_timeout: timeout, ..v.endpoints[i] }
                } else {
                    v.endpoints[i]
                },
        ),
        ..v
    }
}

/// The session with notification start `timeout` for every attached player
/// endpoint.
pub open spec fn with_notify_start(v: Peer2PeerView, timeout: u128) -> Peer2PeerView {
    Peer2PeerView {
        disconnect_notify_start: timeout,
        endpoints: Seq::new(
            v.endpoints.len(),
            |i: int|
                if i < v.num_players && v.endpoints[i].initialized {
                    UdpProtocolView { disconnect_notify_start: timeout, ..v.endpoints[i] }
                } else {
                    v.endpoints[i]
                },
        ),
        ..v
    }
}

/// The session once the synchronisation layer has no events left.
pub open spec fn sync_events_drained(v: Peer2PeerView) -> Peer2PeerView {
    Peer2PeerView { sync: GGPOSyncView { event_queue: Seq::empty(), ..v.sync }, ..v }
}

/// The session with the frame count moved on.
pub open spec fn frame_incremented(v: Peer2PeerView) -> Peer2PeerView {
    Peer2PeerView { sync: GGPOSyncView { frame_count: v.sync.frame_count + 1, ..v.sync }, ..v }
}

/// The messages all endpoints have due, player endpoints first.
pub open spec fn all_outboxes(v: Peer2PeerView) -> Seq<QueueEntry> {
    v.endpoints.fold_left(Seq::<QueueEntry>::empty(), |acc: Seq<QueueEntry>, e: UdpProtocolView| acc + e.outbox)
        + v.spectators.fold_left(Seq::<QueueEntry>::empty(), |acc: Seq<QueueEntry>, e: UdpProtocolView| acc + e.outbox)
}

impl<T: GGPOSessionCallbacks> Peer2PeerBackend<T> {
    /// The input queue of player `player`: players are numbered from 1.
    pub fn player_handle_to_queue(&self, player: PlayerHandle) -> (r: Result<u32, GGPOError>)
        requires
            self@.wf(),
        ensures
            1 <= player <= self@.num_players ==> r == Ok::<u32, GGPOError>(handle_queue(player)),
            !(1 <= player <= self@.num_players) ==> r == Err::<u32, GGPOError>(
                GGPOError::InvalidPlayerHandle,
            ),
    {
        let offset = player.wrapping_sub(1);
        if offset >= self.num_players as u32 {
            return Err(GGPOError::InvalidPlayerHandle);
        }
        Ok(offset)
    }

    /// The handle of the player whose input queue is `queue`.
    pub fn queue_to_player_handle(queue: u32) -> (h: PlayerHandle)
        requires
            queue < u32::MAX,
        ensures
            h == queue_handle(queue),
    {
        queue + 1
    }

    /// The handle of spectator `queue`, out of the range of player handles.
    pub fn queue_to_spectator_handle(queue: u32) -> (h: PlayerHandle)
        requires
            queue + 1000 <= u32::MAX,
        ensures
            h == queue + 1000,
    {
        queue + 1000
    }

    /// Hands `info` to the client's callbacks.
    fn notify(&mut self, info: SessionEvent)
        ensures
            final(self)@ == notified(old(self)@, info),
    {
        self.callbacks.on_event(&info);
        self.events_sent = Ghost(self.events_sent@.push(info));
    }

    /// Hands the session's connection status to every endpoint.
    fn share_status(&mut self)
        requires
            old(self)@.endpoints.len() == GGPO_MAX_PLAYERS,
            old(self)@.spectators.len() == GGPO_MAX_SPECTATORS,
        ensures
            final(self)@ == with_status(old(self)@, old(self)@.local_connect_status),
    {
        let status = self.local_connect_status;
        let ghost target = with_status(old(self)@, old(self)@.local_connect_status);
        let mut i: usize = 0;
        while i < self.endpoints.len()
            invariant
                0 <= i <= self.endpoints@.len(),
                self.endpoints@.len() == GGPO_MAX_PLAYERS,
                status@ == old(self)@.local_connect_status,
                target == with_status(old(self)@, old(self)@.local_connect_status),
                old(self)@.endpoints.len() == GGPO_MAX_PLAYERS,
                self@ == (Peer2PeerView { endpoints: self@.endpoints, ..old(self)@ }),
                self@.endpoints.len() == GGPO_MAX_PLAYERS,
                forall|k: int|
                    0 <= k < GGPO_MAX_PLAYERS ==> #[trigger] self@.endpoints[k] == if k < i {
                        target.endpoints[k]
                    } else {
                        old(self)@.endpoints[k]
                    },
            decreases self.endpoints@.len() - i,
        {
            let ghost before = self.endpoints@;
            let ghost vhead = self@;
            proof {
                assert(self@.endpoints[i as int] == before[i as int]@);
                assert(before[i as int]@ == old(self)@.endpoints[i as int]);
            }
            self.endpoints[i].set_local_connect_status(&status);
            proof {
                assert forall|k: int| 0 <= k < GGPO_MAX_PLAYERS implies #[trigger] self@.endpoints[k]
                    == if k < i + 1 {
                    target.endpoints[k]
                } else {
                    old(self)@.endpoints[k]
                } by {
                    assert(self@.endpoints[k] == self.endpoints@[k]@);
                    if k != i {
                        assert(self.endpoints@[k] == before[k]);
                        assert(vhead.endpoints[k] == before[k]@);
                    } else {
                        assert(target.endpoints[k] == UdpProtocolView {
                            local_connect_status: status@,
                            ..old(self)@.endpoints[k]
                        });
                    }
                }
            }
            i = i + 1;
        }
        proof {
            assert(self@.endpoints =~= target.endpoints);
        }
        let mut j: usize = 0;
        while j < self.spectators.len()
            invariant
                0 <= j <= self.spectators@.len(),
                self.spectators@.len() == GGPO_MAX_SPECTATORS,
                status@ == old(self)@.local_connect_status,
                target == with_status(old(self)@, old(self)@.local_connect_status),
                old(self)@.spectators.len() == GGPO_MAX_SPECTATORS,
                self@ == (Peer2PeerView { endpoints: target.endpoints, spectators: self@.spectators, ..old(self)@ }),
                self@.spectators.len() == GGPO_MAX_SPECTATORS,
                forall|k: int|
                    0 <= k < GGPO_MAX_SPECTATORS ==> #[trigger] self@.spectators[k] == if k < j {
                        target.spectators[k]
                    } else {
                        old(self)@.spectators[k]
                    },
            decreases self.spectators@.len() - j,
        {
            let ghost before = self.spectators@;
            let ghost vhead = self@;
            proof {
                assert(self@.spectators[j as int] == before[j as int]@);
                assert(before[j as int]@ == old(self)@.spectators[j as int]);
            }
            self.spectators[j].set_local_connect_status(&status);
            proof {
                assert forall|k: int| 0 <= k < GGPO_MAX_SPECTATORS implies #[trigger] self@.spectators[k]
                    == if k < j + 1 {
                    target.spectators[k]
                } else {
                    old(self)@.spectators[k]
                } by {
                    assert(self@.spectators[k] == self.spectators@[k]@);
                    if k != j {
                        assert(self.spectators@[k] == before[k]);
                        assert(vhead.spectators[k] == before[k]@);
                    } else {
                        assert(target.spectators[k] == UdpProtocolView {
                            local_connect_status: status@,
                            ..old(self)@.spectators[k]
                        });
                    }
                }
            }
            j = j + 1;
        }
        proof {
            assert(self@.endpoints =~= target.endpoints);
            assert(self@.spectators =~= target.spectators);
        }
    }

    /// Tells the client that the session is running once every peer has
    /// finished the handshake.
    fn check_initial_sync(&mut self)
        requires
            old(self)@.wf(),
        ensures
            final(self)@ == after_initial_sync(old(self)@),
    {
        if self.synchronizing {
            let mut i: usize = 0;
            while i < self.num_players
                invariant
                    0 <= i <= self.num_players,
                    self@ == old(self)@,
                    self@.wf(),
                    forall|k: int|
                        0 <= k < i ==> !((#[trigger] self@.endpoints[k]).initialized
                            && self@.endpoints[k].state != State::Synchronized
                            && !self@.local_connect_status[k].disconnected),
                decreases self.num_players - i,
            {
                proof {
                    assert(self@.endpoints[i as int] == self.endpoints@[i as int]@);
                }
                if self.endpoints[i].is_initialized() && !self.endpoints[i].is_sychronized()
                    && !self.local_connect_status[i].disconnected {
                    return;
                }
                i = i + 1;
            }
            let mut j: usize = 0;
            while j < self.num_spectators
                invariant
                    0 <= j <= self.num_spectators,
                    self@ == old(self)@,
                    self@.wf(),
                    forall|k: int|
                        0 <= k < j ==> !((#[trigger] self@.spectators[k]).initialized
                            && self@.spectators[k].state != State::Synchronized),
                decreases self.num_spectators - j,
            {
                proof {
                    assert(self@.spectators[j as int] == self.spectators@[j as int]@);
                }
                if self.spectators[j].is_initialized() && !self.spectators[j].is_sychronized() {
                    return;
                }
                j = j + 1;
            }
            self.notify(SessionEvent::Running);
            self.synchronizing = false;
        }
    }

    /// Tells the client what the endpoint of player `handle` reported.
    fn on_udp_protocol_event(&mut self, event: &ProtocolEvent, handle: PlayerHandle)
        requires
            old(self)@.wf(),
        ensures
            final(self)@ == after_protocol_event(old(self)@, *event, handle),
    {
        match event {
            ProtocolEvent::Connected => {
                self.notify(SessionEvent::ConnectedToPeer(ConnectedToPeer { player: handle }));
            },
            ProtocolEvent::Synchronizing(sync) => {
                self.notify(
                    SessionEvent::SynchronizingWithPeer(
                        SynchronizingWithPeer { count: sync.count, total: sync.total, player: handle },
                    ),
                );
            },
            ProtocolEvent::Synchronzied => {
                self.notify(SessionEvent::SynchronizedWithPeer(SynchronizedWithPeer { player: handle }));
                self.check_initial_sync();
            },
            ProtocolEvent::NetworkInterrupted(net_interrupt) => {
                self.notify(
                    SessionEvent::ConnectionInterrupted(
                        ConnectionInterrupted {
                            player: handle,
                            disconnect_timeout: net_interrupt.disconnect_timeout,
                        },
                    ),
                );
            },
            ProtocolEvent::NetworkResumed => {
                self.notify(SessionEvent::ConnectionResumed(ConnectionResumed { player: handle }));
            },
            _ => {},
        }
    }

    /// Disconnects player `queue` as of frame `sync_to`: its endpoint stops,
    /// its status records the frame, the client hears of it, and the session
    /// may start. A rollback to an earlier frame than the current one is not
    /// possible (see `GGPOSync::adjust_simulation`), so `sync_to` is not
    /// before the current frame.
    fn disconnect_player_queue(&mut self, queue: u32, sync_to: FrameNum, now: u128) -> (r: Result<
        (),
        Peer2PeerError,
    >)
        requires
            old(self)@.wf(),
            queue < GGPO_MAX_PLAYERS,
            sync_to >= old(self)@.sync.frame_count,
            now + UDP_SHUTDOWN_TIMER <= u128::MAX,
        ensures
            final(self)@.wf(),
            r is Ok,
            final(self)@ == disconnected_queue(old(self)@, queue as int, sync_to, now),
    {
        let frame_count = self.sync.get_frame_count();
        let ghost v0 = self@;
        match self.endpoints[queue as usize].disconnect(now) {
            Ok(()) => {},
            Err(e) => {
                return Err(Peer2PeerError::UdpProtocol { source: e });
            },
        }
        let ghost v1 = self@;
        proof {
            assert(v1.endpoints =~= disconnected_queue_endpoints(v0, queue as int, now));
        }
        self.local_connect_status[queue as usize] = ConnectStatus { disconnected: true, last_frame: Some(sync_to) };
        self.share_status();
        if sync_to < frame_count {
            self.sync.adjust_simulation(sync_to);
        }
        self.notify(
            SessionEvent::DisconnectedFromPeer(
                DisconnectedFromPeer { player: Self::queue_to_player_handle(queue) },
            ),
        );
        proof {
            let status = v0.local_connect_status.update(
                queue as int,
                ConnectStatus { disconnected: true, last_frame: Some(sync_to) },
            );
            assert(self@.local_connect_status == status);
            assert forall|i: int| 0 <= i < self@.endpoints.len() implies (#[trigger] self@.endpoints[i]).wf()
                && self@.endpoints[i].local_connect_status == self@.local_connect_status by {
            }
        }
        self.check_initial_sync();
        Ok(())
    }

    /// Whether `disconnect_player(handle, now)` can run (see
    /// `disconnect_player_ok`): it cannot where it would have to roll the
    /// game back to a frame before the current one.
    pub fn can_disconnect_player(&self, handle: PlayerHandle, now: u128) -> (b: bool)
        requires
            self@.wf(),
        ensures
            b == disconnect_player_ok(self@, handle, now),
    {
        if now > u128::MAX - UDP_SHUTDOWN_TIMER {
            return false;
        }
        if handle < 1 || handle as usize > self.num_players {
            return true;
        }
        let q = (handle - 1) as usize;
        proof {
            assert(self@.endpoints[q as int] == self.endpoints@[q as int]@);
        }
        if self.local_connect_status[q].disconnected || !self.endpoints[q].is_initialized() {
            return true;
        }
        match self.local_connect_status[q].last_frame {
            Some(l) => l >= self.sync.get_frame_count(),
            None => true,
        }
    }

    /// Disconnects a player at the client's request (see
    /// `disconnect_player_outcome`).
    pub fn disconnect_player(&mut self, handle: PlayerHandle, now: u128) -> (r: Result<(), GGPOError>)
        requires
            old(self)@.wf(),
            disconnect_player_ok(old(self)@, handle, now),
        ensures
            final(self)@.wf(),
            (final(self)@, r) == disconnect_player_outcome(old(self)@, handle, now),
    {
        let queue = match self.player_handle_to_queue(handle) {
            Ok(q) => q,
            Err(e) => {
                return Err(e);
            },
        };
        if self.local_connect_status[queue as usize].disconnected {
            return Err(GGPOError::PlayerDisconnected);
        }
        proof {
            assert(self@.endpoints[queue as int] == self.endpoints@[queue as int]@);
        }
        if !self.endpoints[queue as usize].is_initialized() {
            let current_frame = self.sync.get_frame_count();
            let mut i: usize = 0;
            while i < self.num_players
                invariant
                    0 <= i <= self@.num_players,
                    self@.wf(),
                    current_frame == old(self)@.sync.frame_count,
                    self@.sync == old(self)@.sync,
                    self@.num_players == old(self)@.num_players,
                    now + UDP_SHUTDOWN_TIMER <= u128::MAX,
                    self@ == disconnect_all(old(self)@, i as int, current_frame, now),
                decreases self@.num_players - i,
            {
                proof {
                    assert(self@.endpoints[i as int] == self.endpoints@[i as int]@);
                }
                if self.endpoints[i].is_initialized() {
                    match self.disconnect_player_queue(i as u32, current_frame, now) {
                        Ok(()) => {},
                        Err(e) => {
                            return Err(GGPOError::P2P { source: e });
                        },
                    }
                }
                i = i + 1;
            }
        } else {
            let last = match self.local_connect_status[queue as usize].last_frame {
                Some(l) => l,
                None => {
                    return Err(GGPOError::P2P { source: Peer2PeerError::LastFrameNone });
                },
            };
            match self.disconnect_player_queue(queue, last, now) {
                Ok(()) => {},
                Err(e) => {
                    return Err(GGPOError::P2P { source: e });
                },
            }
        }
        Ok(())
    }

    /// Handles an event of the endpoint of player `queue` (see
    /// `peer_event_outcome`); a failed disconnect is reported with its
    /// message.
    fn on_udp_protocol_peer_event(&mut self, event: &ProtocolEvent, queue: u32, now: u128) -> (r:
        Result<(), Peer2PeerError>)
        requires
            old(self)@.wf(),
            queue < old(self)@.num_players,
            peer_event_ok(old(self)@, *event, queue as int, now),
        ensures
            final(self)@.wf(),
            final(self)@ == peer_event_outcome(old(self)@, *event, queue as int, now).0,
            match peer_event_outcome(old(self)@, *event, queue as int, now).1 {
                None => r is Ok,
                Some(e) => r matches Err(Peer2PeerError::GGPO(s)) && s@ == error_message(e),
            },
    {
        self.on_udp_protocol_event(event, Self::queue_to_player_handle(queue));
        match event {
            ProtocolEvent::Input(input) => {
                let status = self.local_connect_status[queue as usize];
                if !status.disconnected {
                    let ghost v1 = self@;
                    self.sync.add_remote_input(queue, input);
                    self.local_connect_status[queue as usize] = ConnectStatus { last_frame: input.frame, ..status };
                    self.share_status();
                    proof {
                        assert(self@.local_connect_status =~= v1.local_connect_status.update(
                            queue as int,
                            ConnectStatus { last_frame: input.frame, ..v1.local_connect_status[queue as int] },
                        ));
                    }
                }
            },
            ProtocolEvent::Disconnected => {
                match self.disconnect_player(Self::queue_to_player_handle(queue), now) {
                    Ok(()) => {},
                    Err(e) => {
                        return Err(Peer2PeerError::GGPO(e.to_string()));
                    },
                }
            },
            _ => {},
        }
        Ok(())
    }

    /// Handles an event of the endpoint of spectator `queue` (see
    /// `spectator_event_outcome`).
    fn on_udp_protocol_spectator_event(&mut self, event: &ProtocolEvent, queue: u32, now: u128) -> (r:
        Result<(), Peer2PeerError>)
        requires
            old(self)@.wf(),
            queue < GGPO_MAX_SPECTATORS,
            now + UDP_SHUTDOWN_TIMER <= u128::MAX,
        ensures
            final(self)@.wf(),
            r is Ok,
            final(self)@ == spectator_event_outcome(old(self)@, *event, queue as int, now),
    {
        let handle = Self::queue_to_spectator_handle(queue);
        self.on_udp_protocol_event(event, handle);
        match event {
            ProtocolEvent::Disconnected => {
                let ghost v1 = self@;
                match self.spectators[queue as usize].disconnect(now) {
                    Ok(()) => {},
                    Err(e) => {
                        return Err(Peer2PeerError::UdpProtocol { source: e });
                    },
                }
                proof {
                    assert(self@.spectators =~= v1.spectators.update(
                        queue as int,
                        UdpProtocolView {
                            state: State::Disconnected,
                            shutdown_timeout: (now + UDP_SHUTDOWN_TIMER) as u128,
                            ..v1.spectators[queue as int]
                        },
                    ));
                }
                self.notify(SessionEvent::DisconnectedFromPeer(DisconnectedFromPeer { player: handle }));
            },
            _ => {},
        }
        Ok(())
    }


    /// Handles the events of every player endpoint, then those of the first
    /// endpoints as spectators' events (see `protocol_events_outcome`),
    /// stopping at the first error.
    fn poll_udp_protocol_events(&mut self, now: u128) -> (r: Result<(), Peer2PeerError>)
        requires
            old(self)@.wf(),
            old(self)@.num_spectators <= GGPO_MAX_PLAYERS,
            now + UDP_SHUTDOWN_TIMER <= u128::MAX,
            players_events_ok(old(self)@, old(self)@.num_players as int, now),
        ensures
            final(self)@.wf(),
            final(self)@ == protocol_events_outcome(old(self)@, now).0,
            match protocol_events_outcome(old(self)@, now).1 {
                None => r is Ok,
                Some(e) => r matches Err(Peer2PeerError::GGPO(s)) && s@ == error_message(e),
            },
    {
        let mut event = ProtocolEvent::Unknown;
        let mut i: usize = 0;
        while i < self.num_players
            invariant
                0 <= i <= self@.num_players,
                self@.wf(),
                self@.num_players == old(self)@.num_players,
                self@.num_spectators == old(self)@.num_spectators,
                now + UDP_SHUTDOWN_TIMER <= u128::MAX,
                players_events_ok(old(self)@, old(self)@.num_players as int, now),
                players_events(old(self)@, i as int, now) == (self@, None::<GGPOError>),
            decreases self@.num_players - i,
        {
            proof {
                lemma_players_ok_prefix(old(self)@, i as int + 1, old(self)@.num_players as int, now);
            }
            let ghost start = self@;
            loop
                invariant
                    i < self@.num_players,
                    self@.wf(),
                    self@.num_players == old(self)@.num_players,
                    self@.num_spectators == old(self)@.num_spectators,
                    now + UDP_SHUTDOWN_TIMER <= u128::MAX,
                    players_events_ok(old(self)@, old(self)@.num_players as int, now),
                    peer_events_ok(self@, i as int, now, self@.endpoints[i as int].event_queue.len()),
                    peer_events_outcome(self@, i as int, now, self@.endpoints[i as int].event_queue.len())
                        == players_events(old(self)@, i as int + 1, now),
                ensures
                    players_events(old(self)@, i as int + 1, now) == (self@, None::<GGPOError>),
                    self@.wf(),
                    self@.num_players == old(self)@.num_players,
                    self@.num_spectators == old(self)@.num_spectators,
                decreases self@.endpoints[i as int].event_queue.len(),
            {
                let ghost prev = self@;
                proof {
                    assert(self@.endpoints[i as int] == self.endpoints@[i as int]@);
                }
                let got = self.endpoints[i].get_event(&mut event);
                if !got {
                    proof {
                        assert(self@.endpoints =~= prev.endpoints);
                        assert(self@ == prev);
                    }
                    break;
                }
                proof {
                    assert(self@.endpoints =~= event_taken(prev, i as int).endpoints);
                    assert(self@ =~= event_taken(prev, i as int));
                    lemma_peer_event_keeps(self@, event, i as int, now);
                }
                match self.on_udp_protocol_peer_event(&event, i as u32, now) {
                    Ok(()) => {},
                    Err(e) => {
                        proof {
                            lemma_players_error_stays(old(self)@, i as int + 1, old(self)@.num_players as int, now);
                        }
                        return Err(e);
                    },
                }
            }
            i = i + 1;
        }
        let mut j: usize = 0;
        while j < self.num_spectators
            invariant
                0 <= j <= self@.num_spectators,
                self@.num_spectators <= GGPO_MAX_PLAYERS,
                self@.wf(),
                self@.num_spectators == old(self)@.num_spectators,
                now + UDP_SHUTDOWN_TIMER <= u128::MAX,
                all_spectator_events(players_events(old(self)@, old(self)@.num_players as int, now).0, j as int, now) == self@,
            decreases self@.num_spectators - j,
        {
            loop
                invariant
                    j < self@.num_spectators,
                    self@.num_spectators <= GGPO_MAX_PLAYERS,
                    self@.wf(),
                    self@.num_spectators == old(self)@.num_spectators,
                    now + UDP_SHUTDOWN_TIMER <= u128::MAX,
                    spectator_events(self@, j as int, now, self@.endpoints[j as int].event_queue.len())
                        == all_spectator_events(players_events(old(self)@, old(self)@.num_players as int, now).0, j as int + 1, now),
                ensures
                    all_spectator_events(players_events(old(self)@, old(self)@.num_players as int, now).0, j as int + 1, now) == self@,
                    self@.wf(),
                    self@.num_spectators == old(self)@.num_spectators,
                decreases self@.endpoints[j as int].event_queue.len(),
            {
                let ghost prev = self@;
                proof {
                    assert(self@.endpoints[j as int] == self.endpoints@[j as int]@);
                }
                let got = self.endpoints[j].get_event(&mut event);
                if !got {
                    proof {
                        assert(self@.endpoints =~= prev.endpoints);
                        assert(self@ == prev);
                    }
                    break;
                }
                proof {
                    assert(self@.endpoints =~= event_taken(prev, j as int).endpoints);
                    assert(self@ =~= event_taken(prev, j as int));
                }
                match self.on_udp_protocol_spectator_event(&event, j as u32, now) {
                    Ok(()) => {},
                    Err(e) => {
                        return Err(e);
                    },
                }
            }
            j = j + 1;
        }
        Ok(())
    }


    /// Finds the least frame confirmed by every connected player of a
    /// session of at most two players, disconnecting a player whose peer
    /// reports it gone (see `poll_2_outcome`).
    fn poll_2_players(&mut self, _current_frame: FrameNum, now: u128) -> (r: Result<u32, Peer2PeerError>)
        requires
            old(self)@.wf(),
            poll_2_ok(old(self)@, old(self)@.num_players as int, now),
        ensures
            final(self)@.wf(),
            (final(self)@, r) == poll_2_outcome(old(self)@, old(self)@.num_players as int, now),
    {
        let mut total_min_confirmed: u32 = u32::MAX;
        let mut i: usize = 0;
        while i < self.num_players
            invariant
                0 <= i <= self@.num_players,
                self@.wf(),
                self@.num_players == old(self)@.num_players,
                poll_2_ok(old(self)@, old(self)@.num_players as int, now),
                poll_2_outcome(old(self)@, i as int, now) == (self@, Ok::<u32, Peer2PeerError>(total_min_confirmed)),
            decreases self@.num_players - i,
        {
            proof {
                lemma_poll_2_ok_prefix(old(self)@, i as int + 1, old(self)@.num_players as int, now);
                assert(self@.endpoints[i as int] == self.endpoints@[i as int]@);
            }
            let mut queue_connected = true;
            if self.endpoints[i].is_running() {
                let (_, connected) = self.endpoints[i].get_peer_connect_status(i);
                queue_connected = connected;
            }
            let local = self.local_connect_status[i];
            if !local.disconnected {
                let last = match local.last_frame {
                    Some(l) => l,
                    None => {
                        proof {
                            lemma_poll_2_error_stays(old(self)@, i as int + 1, old(self)@.num_players as int, now);
                        }
                        return Err(Peer2PeerError::LastFrameNone);
                    },
                };
                let last32 = last as u32;
                if last32 < total_min_confirmed {
                    total_min_confirmed = last32;
                }
            }
            if !queue_connected && !local.disconnected {
                match self.disconnect_player_queue(i as u32, total_min_confirmed as usize, now) {
                    Ok(()) => {},
                    Err(e) => {
                        return Err(e);
                    },
                }
            }
            i = i + 1;
        }
        Ok(total_min_confirmed)
    }

    /// Finds the least frame confirmed by every connected player, merging
    /// what every running endpoint reports of each player, and disconnects a
    /// player reported gone (see `poll_n_outcome`).
    fn poll_n_players(&mut self, _current_frame: FrameNum, now: u128) -> (r: Result<u32, Peer2PeerError>)
        requires
            old(self)@.wf(),
            poll_n_ok(old(self)@, old(self)@.num_players as int, now),
        ensures
            final(self)@.wf(),
            (final(self)@, r) == poll_n_outcome(old(self)@, old(self)@.num_players as int, now),
    {
        let mut total_min_confirmed: u32 = u32::MAX;
        let mut queue: usize = 0;
        while queue < self.num_players
            invariant
                0 <= queue <= self@.num_players,
                self@.wf(),
                self@.num_players == old(self)@.num_players,
                poll_n_ok(old(self)@, old(self)@.num_players as int, now),
                poll_n_outcome(old(self)@, queue as int, now) == (self@, Ok::<u32, Peer2PeerError>(total_min_confirmed)),
            decreases self@.num_players - queue,
        {
            proof {
                lemma_poll_n_ok_prefix(old(self)@, queue as int + 1, old(self)@.num_players as int, now);
            }
            let mut queue_connected = true;
            let mut queue_min_confirmed: u32 = u32::MAX;
            let mut i: usize = 0;
            while i < self.num_players
                invariant
                    0 <= i <= self@.num_players,
                    queue < self@.num_players,
                    self@.wf(),
                    self@.num_players == old(self)@.num_players,
                    poll_n_outcome(old(self)@, queue as int, now) == (self@, Ok::<u32, Peer2PeerError>(total_min_confirmed)),
                    queue_scan(self@, queue as int, i as int) == Ok::<(bool, u32), Peer2PeerError>(
                        (queue_connected, queue_min_confirmed),
                    ),
                decreases self@.num_players - i,
            {
                proof {
                    assert(self@.endpoints[i as int] == self.endpoints@[i as int]@);
                }
                if self.endpoints[i].is_running() {
                    let (last_received, connected) = self.endpoints[i].get_peer_connect_status(queue);
                    queue_connected = queue_connected && connected;
                    let last = match last_received {
                        Some(l) => l,
                        None => {
                            proof {
                                lemma_scan_error_stays(self@, queue as int, i as int + 1, self@.num_players as int);
                                lemma_poll_n_error_stays(old(self)@, queue as int + 1, old(self)@.num_players as int, now);
                            }
                            return Err(Peer2PeerError::LastFrameNone);
                        },
                    };
                    let last32 = last as u32;
                    if last32 < queue_min_confirmed {
                        queue_min_confirmed = last32;
                    }
                }
                i = i + 1;
            }
            let local = self.local_connect_status[queue];
            if !local.disconnected {
                let last = match local.last_frame {
                    Some(l) => l,
                    None => {
                        proof {
                            lemma_poll_n_error_stays(old(self)@, queue as int + 1, old(self)@.num_players as int, now);
                        }
                        return Err(Peer2PeerError::LastFrameNone);
                    },
                };
                let last32 = last as u32;
                if last32 < queue_min_confirmed {
                    queue_min_confirmed = last32;
                }
            }
            if queue_connected {
                if queue_min_confirmed < total_min_confirmed {
                    total_min_confirmed = queue_min_confirmed;
                }
            } else {
                let redisconnect = if !local.disconnected {
                    true
                } else {
                    match local.last_frame {
                        Some(l) => l > queue_min_confirmed as usize,
                        None => {
                            proof {
                                lemma_poll_n_error_stays(old(self)@, queue as int + 1, old(self)@.num_players as int, now);
                            }
                            return Err(Peer2PeerError::LastFrameNone);
                        },
                    }
                };
                if redisconnect {
                    match self.disconnect_player_queue(queue as u32, queue_min_confirmed as usize, now) {
                        Ok(()) => {},
                        Err(e) => {
                            return Err(e);
                        },
                    }
                }
            }
            queue = queue + 1;
        }
        Ok(total_min_confirmed)
    }


    /// When the socket is writable, lets every player endpoint and then every
    /// spectator endpoint act on its timers (see `pumped`).
    fn pump(&mut self, writable: bool, clock: Clock) -> (r: Result<(), Peer2PeerError>)
        requires
            old(self)@.wf(),
            pump_ok(old(self)@, writable, clock),
        ensures
            final(self)@.wf(),
            pumped(old(self)@, final(self)@, writable, clock, r),
    {
        if !writable {
            return Ok(());
        }
        let mut i: usize = 0;
        while i < self.endpoints.len()
            invariant
                0 <= i <= self@.endpoints.len(),
                self@.wf(),
                writable,
                pump_ok(old(self)@, writable, clock),
                self@ == (Peer2PeerView { endpoints: self@.endpoints, ..old(self)@ }),
                polled_upto(old(self)@.endpoints, self@.endpoints, clock, i as int, 0),
            decreases self@.endpoints.len() - i,
        {
            let ghost before = self.endpoints@;
            let ghost vhead = self@;
            proof {
                assert(self@.endpoints[i as int] == before[i as int]@);
            }
            let res = self.endpoints[i].on_loop_poll(0, clock);
            proof {
                assert(self@.endpoints[i as int] == self.endpoints@[i as int]@);
                assert forall|k: int| 0 <= k < self@.endpoints.len() && k != i implies #[trigger] self@.endpoints[k]
                    == vhead.endpoints[k] by {
                    assert(self.endpoints@[k] == before[k]);
                }
            }
            match res {
                Ok(_) => {},
                Err(e) => {
                    proof {
                        assert(polled_failed_at(old(self)@.endpoints, self@.endpoints, clock, i as int, e));
                        assert(self@.spectators == old(self)@.spectators);
                    }
                    return Err(Peer2PeerError::UdpProtocol { source: e });
                },
            }
            i = i + 1;
        }
        let mut j: usize = 0;
        while j < self.spectators.len()
            invariant
                0 <= j <= self@.spectators.len(),
                self@.wf(),
                writable,
                pump_ok(old(self)@, writable, clock),
                self@ == (Peer2PeerView { endpoints: self@.endpoints, spectators: self@.spectators, ..old(self)@ }),
                polled_upto(old(self)@.endpoints, self@.endpoints, clock, old(self)@.endpoints.len() as int, 0),
                polled_upto(old(self)@.spectators, self@.spectators, clock, j as int, 0),
            decreases self@.spectators.len() - j,
        {
            let ghost before = self.spectators@;
            let ghost vhead = self@;
            proof {
                assert(self@.spectators[j as int] == before[j as int]@);
            }
            let res = self.spectators[j].on_loop_poll(0, clock);
            proof {
                assert(self@.spectators[j as int] == self.spectators@[j as int]@);
                assert forall|k: int| 0 <= k < self@.spectators.len() && k != j implies #[trigger] self@.spectators[k]
                    == vhead.spectators[k] by {
                    assert(self.spectators@[k] == before[k]);
                }
            }
            match res {
                Ok(_) => {},
                Err(e) => {
                    proof {
                        assert(polled_failed_at(old(self)@.spectators, self@.spectators, clock, j as int, e));
                    }
                    return Err(Peer2PeerError::UdpProtocol { source: e });
                },
            }
            j = j + 1;
        }
        Ok(())
    }


    /// Tells every player endpoint that the local frame is `current`.
    fn set_frame_numbers(&mut self, current: FrameNum)
        requires
            old(self)@.wf(),
            frames_number_ok(old(self)@, current),
        ensures
            final(self)@.wf(),
            final(self)@ == frames_numbered(old(self)@, current),
    {
        let ghost target = frames_numbered(old(self)@, current);
        let mut i: usize = 0;
        while i < self.num_players
            invariant
                0 <= i <= self@.num_players,
                self@.wf(),
                target == frames_numbered(old(self)@, current),
                frames_number_ok(old(self)@, current),
                old(self)@.wf(),
                self@ == (Peer2PeerView { endpoints: self@.endpoints, ..old(self)@ }),
                forall|k: int|
                    0 <= k < GGPO_MAX_PLAYERS ==> #[trigger] self@.endpoints[k] == if k < i {
                        target.endpoints[k]
                    } else {
                        old(self)@.endpoints[k]
                    },
            decreases self@.num_players - i,
        {
            let ghost before = self.endpoints@;
            let ghost vhead = self@;
            proof {
                assert(self@.endpoints[i as int] == before[i as int]@);
                assert(before[i as int]@ == old(self)@.endpoints[i as int]);
            }
            self.endpoints[i].set_local_frame_number(current);
            proof {
                assert forall|k: int| 0 <= k < GGPO_MAX_PLAYERS implies #[trigger] self@.endpoints[k]
                    == if k < i + 1 {
                    target.endpoints[k]
                } else {
                    old(self)@.endpoints[k]
                } by {
                    assert(self@.endpoints[k] == self.endpoints@[k]@);
                    if k != i {
                        assert(self.endpoints@[k] == before[k]);
                        assert(vhead.endpoints[k] == before[k]@);
                    } else {
                        assert(target.endpoints[k] == UdpProtocolView {
                            local_frame_advantage: ((UdpProtocol::estimated_remote_frame(
                                old(self)@.endpoints[k],
                            ) as usize as i64) - (current as i64)) as i32,
                            ..old(self)@.endpoints[k]
                        });
                    }
                }
            }
            i = i + 1;
        }
        proof {
            assert(self@.endpoints =~= target.endpoints);
        }
    }

    /// Recommends a frame delay to the client (see `time_synced`).
    fn recommend_time_sync(&mut self, current: FrameNum, sleep_frames: &[Option<i32>])
        requires
            old(self)@.wf(),
            time_sync_ok(old(self)@, current, sleep_frames@),
        ensures
            final(self)@.wf(),
            final(self)@ == time_synced(old(self)@, current, sleep_frames@),
    {
        if current > self.next_recommended_sleep as usize {
            let mut interval: u32 = 0;
            let mut i: usize = 0;
            while i < self.num_players
                invariant
                    0 <= i <= self@.num_players,
                    self@ == old(self)@,
                    self@.wf(),
                    sleep_frames@.len() >= self@.num_players,
                    interval == max_interval(self@.endpoints, i as int, sleep_frames@),
                decreases self@.num_players - i,
            {
                let ghost before = self.endpoints@;
                proof {
                    assert(self@.endpoints[i as int] == before[i as int]@);
                }
                let delay = self.endpoints[i].recommend_frame_delay(sleep_frames[i]);
                proof {
                    assert(self@.endpoints =~= old(self)@.endpoints) by {
                        assert forall|k: int| 0 <= k < self@.endpoints.len() implies #[trigger] self@.endpoints[k]
                            == old(self)@.endpoints[k] by {
                            assert(self@.endpoints[k] == self.endpoints@[k]@);
                            if k != i {
                                assert(self.endpoints@[k] == before[k]);
                            }
                        }
                    }
                }
                if interval < delay {
                    interval = delay;
                }
                i = i + 1;
            }
            if interval > 0 {
                self.notify(SessionEvent::TimeSync(TimeSyncEvent { frames_ahead: interval as usize }));
                self.next_recommended_sleep = (current + RECOMMENDATION_INTERVAL as usize) as u32;
            }
        }
    }

    /// Sends the confirmed frames up to `total` to the spectators, frame
    /// after frame, stopping at the first error (see `feed_rel`).
    fn feed_spectators(&mut self, total: u32, clock: Clock) -> (r: Result<(), GGPOError>)
        requires
            old(self)@.wf(),
            total < u32::MAX,
            old(self)@.num_spectators > 0 ==> feed_ok(old(self)@, total, clock, feed_fuel(old(self)@, total)),
        ensures
            final(self)@.wf(),
            old(self)@.num_spectators > 0 ==> feed_rel(old(self)@, final(self)@, total, clock, r, feed_fuel(old(self)@, total)),
            old(self)@.num_spectators == 0 ==> final(self)@ == old(self)@ && r is Ok,
    {
        if self.num_spectators == 0 {
            return Ok(());
        }
        while self.next_spectator_frame <= total as usize
            invariant
                self@.wf(),
                total < u32::MAX,
                self@.num_spectators > 0,
                self@.num_spectators == old(self)@.num_spectators,
                feed_ok(self@, total, clock, feed_fuel(self@, total)),
                forall|w: Peer2PeerView, r: Result<(), GGPOError>|
                    #[trigger] feed_rel(self@, w, total, clock, r, feed_fuel(self@, total)) ==> feed_rel(
                        old(self)@,
                        w,
                        total,
                        clock,
                        r,
                        feed_fuel(old(self)@, total),
                    ),
            decreases total + 1 - self.next_spectator_frame,
        {
            let ghost cur = self@;
            let frame = self.next_spectator_frame;
            let mut input = GameInput::new();
            proof {
                let a = self.input_size;
                let b = self.num_players;
                assert(a * b <= 36) by (nonlinear_arith)
                    requires
                        b <= 4,
                        b > 0 ==> a <= 9,
                ;
            }
            input.size = self.input_size * self.num_players;
            input.frame = Some(frame);
            let status = self.local_connect_status;
            match self.sync.get_confirmed_inputs(&mut input.bits, Some(frame), &status) {
                Ok(_) => {},
                Err(e) => {
                    return Err(GGPOError::Sync { source: e });
                },
            }
            proof {
                assert(self@ == cur);
                assert(is_spectator_input(input, cur, frame));
            }
            let mut j: usize = 0;
            while j < self.num_spectators
                invariant
                    0 <= j <= self@.num_spectators,
                    self@.wf(),
                    self@ == (Peer2PeerView { spectators: self@.spectators, ..cur }),
                    frame == cur.next_spectator_frame,
                    old(self)@.num_spectators > 0,
                    cur.num_spectators == old(self)@.num_spectators,
                    forall|w: Peer2PeerView, r: Result<(), GGPOError>|
                        #[trigger] feed_rel(cur, w, total, clock, r, feed_fuel(cur, total)) ==> feed_rel(
                            old(self)@,
                            w,
                            total,
                            clock,
                            r,
                            feed_fuel(old(self)@, total),
                        ),
                    cur.next_spectator_frame <= total,
                    total < u32::MAX,
                    is_spectator_input(input, cur, frame),
                    frame_send_ok(cur.spectators, input, clock, cur.num_spectators as int),
                    frame_sent(cur.spectators, self@.spectators, input, clock, j as int, Ok(())),
                decreases self@.num_spectators - j,
            {
                let ghost before = self.spectators@;
                let ghost vhead = self@;
                proof {
                    assert(self@.spectators[j as int] == before[j as int]@);
                }
                let res = self.spectators[j].send_input(&input, clock);
                proof {
                    assert(self@.spectators[j as int] == self.spectators@[j as int]@);
                    assert forall|k: int| 0 <= k < self@.spectators.len() && k != j implies #[trigger] self@.spectators[k]
                        == vhead.spectators[k] by {
                        assert(self.spectators@[k] == before[k]);
                    }
                }
                match res {
                    Ok(()) => {},
                    Err(e) => {
                        proof {
                            let rs: Result<(), UdpProtoError> = Err(e);
                            assert(sent_input(cur.spectators[j as int], self@.spectators[j as int], input, clock, rs));
                            assert(forall|jj: int| 0 <= jj < j ==> sent_input(#[trigger] cur.spectators[jj], self@.spectators[jj], input, clock, Ok(())));
                            assert(forall|jj: int| j < jj < cur.spectators.len() ==> #[trigger] self@.spectators[jj] == cur.spectators[jj]);
                            assert(frame_sent(cur.spectators, self@.spectators, input, clock, cur.num_spectators as int, rs));
                            assert(self@ == (Peer2PeerView { spectators: self@.spectators, ..cur }));
                            assert(feed_fuel(cur, total) > 0);
                            assert(is_spectator_input(input, cur, cur.next_spectator_frame as usize));
                            assert(feed_rel(cur, self@, total, clock, Err(GGPOError::UdpProto { source: e }), feed_fuel(cur, total)));
                        }
                        return Err(GGPOError::UdpProto { source: e });
                    },
                }
                j = j + 1;
            }
            let ghost s1 = self@.spectators;
            self.next_spectator_frame = self.next_spectator_frame + 1;
            proof {
                assert(frame_sent(cur.spectators, s1, input, clock, cur.num_spectators as int, Ok(())));
                assert(self@ == (Peer2PeerView { spectators: s1, next_spectator_frame: cur.next_spectator_frame + 1, ..cur }));
                assert forall|w: Peer2PeerView, r: Result<(), GGPOError>|
                    #[trigger] feed_rel(self@, w, total, clock, r, feed_fuel(self@, total)) implies feed_rel(
                        old(self)@,
                        w,
                        total,
                        clock,
                        r,
                        feed_fuel(old(self)@, total),
                    ) by {
                    let rs: Result<(), UdpProtoError> = Ok(());
                    assert(frame_sent(cur.spectators, s1, input, clock, cur.num_spectators as int, rs));
                    assert(feed_rel(cur, w, total, clock, r, feed_fuel(cur, total)));
                }
            }
        }
        proof {
            assert(feed_rel(self@, self@, total, clock, Ok(()), feed_fuel(self@, total)));
        }
        Ok(())
    }


    /// Advances a running session (see `advance_rel`).
    fn advance_confirmed(&mut self, clock: Clock, sleep_frames: &[Option<i32>]) -> (r: Result<(), GGPOError>)
        requires
            old(self)@.wf(),
            advance_ok(old(self)@, clock, sleep_frames@),
        ensures
            final(self)@.wf(),
            advance_rel(old(self)@, final(self)@, r, clock, sleep_frames@),
    {
        match self.sync.check_simulation() {
            Ok(()) => {},
            Err(e) => {
                return Err(GGPOError::Sync { source: e });
            },
        }
        let ghost v1 = self@;
        proof {
            assert(v1 == checked(old(self)@));
        }
        let current_frame = self.sync.get_frame_count();
        self.set_frame_numbers(current_frame);
        let ghost v2 = self@;
        proof {
            assert(v2 == frames_numbered(v1, current_frame));
        }
        let pr = if self.num_players <= 2 {
            self.poll_2_players(current_frame, clock.now)
        } else {
            self.poll_n_players(current_frame, clock.now)
        };
        proof {
            assert((self@, pr) == polled_confirmed(v2, clock.now));
        }
        let total = match pr {
            Ok(t) => t,
            Err(e) => {
                return Err(GGPOError::P2P { source: e });
            },
        };
        let ghost v3 = self@;
        let rf = self.feed_spectators(total, clock);
        let ghost v4 = self@;
        proof {
            assert(spectators_fed(v3, v4, total, clock, rf));
            if v3.num_spectators > 0 {
                lemma_feed_shape(v3, v4, total, clock, rf, feed_fuel(v3, total));
            }
        }
        if let Err(e) = rf {
            return Err(e);
        }
        self.sync.set_last_confirmed_frame(Some(total as usize));
        proof {
            assert(self@ == (Peer2PeerView {
                spectators: v4.spectators,
                next_spectator_frame: v4.next_spectator_frame,
                ..confirmed(v3, total)
            }));
        }
        self.recommend_time_sync(current_frame, sleep_frames);
        proof {
            assert(spectators_fed(v3, v4, total, clock, rf));
        }
        Ok(())
    }

    /// Polls the session (see `do_poll_rel`): `writable` says whether the
    /// socket can take packets, `clock` is the time, and `sleep_frames`
    /// holds, per player endpoint, the sleep time computed from its frame
    /// advantages.
    pub fn do_poll(&mut self, writable: bool, clock: Clock, sleep_frames: &[Option<i32>]) -> (r: Result<
        (),
        GGPOError,
    >)
        requires
            old(self)@.wf(),
            do_poll_ok(old(self)@, writable, clock, sleep_frames@),
        ensures
            final(self)@.wf(),
            do_poll_rel(old(self)@, final(self)@, r, writable, clock, sleep_frames@),
    {
        if self.sync.in_rollback() {
            let rp = self.pump(writable, clock);
            let ghost w = self@;
            proof {
                assert(pumped(old(self)@, w, writable, clock, rp));
            }
            match rp {
                Ok(()) => {},
                Err(e) => {
                    return Err(GGPOError::P2P { source: e });
                },
            }
            proof {
                assert(pumped(old(self)@, w, writable, clock, Ok::<(), Peer2PeerError>(())));
                assert(after_pump_ok(w, clock, sleep_frames@));
            }
            match self.poll_udp_protocol_events(clock.now) {
                Ok(()) => {},
                Err(e) => {
                    return Err(GGPOError::P2P { source: e });
                },
            }
            if !self.synchronizing {
                let r = self.advance_confirmed(clock, sleep_frames);
                proof {
                    assert(pumped(old(self)@, w, writable, clock, rp));
                }
                return r;
            }
        }
        Ok(())
    }


    /// Attaches the endpoint of player `queue` to the peer at `remote_addr`
    /// and starts the handshake; the session synchronises again.
    fn add_remote_player(&mut self, remote_addr: PeerAddr, queue: u32, clock: Clock) -> (r: Result<
        (),
        Peer2PeerError,
    >)
        requires
            old(self)@.wf(),
            queue < GGPO_MAX_PLAYERS,
            UdpProtocol::clock_ok(old(self)@.endpoints[queue as int], clock),
        ensures
            final(self)@.wf(),
            final(self)@ == (Peer2PeerView {
                synchronizing: true,
                endpoints: old(self)@.endpoints.update(queue as int, final(self)@.endpoints[queue as int]),
                ..old(self)@
            }),
            match r {
                Ok(u) => attached(
                    old(self)@.endpoints[queue as int],
                    final(self)@.endpoints[queue as int],
                    queue,
                    remote_addr,
                    old(self)@.local_connect_status,
                    old(self)@.disconnect_timeout,
                    old(self)@.disconnect_notify_start,
                    old(self)@.input_size as usize,
                    clock,
                    Ok(u),
                ),
                Err(Peer2PeerError::UdpProtocol { source: e }) => attached(
                    old(self)@.endpoints[queue as int],
                    final(self)@.endpoints[queue as int],
                    queue,
                    remote_addr,
                    old(self)@.local_connect_status,
                    old(self)@.disconnect_timeout,
                    old(self)@.disconnect_notify_start,
                    old(self)@.input_size as usize,
                    clock,
                    Err(e),
                ),
                Err(_) => false,
            },
    {
        self.synchronizing = true;
        let status = self.local_connect_status;
        let timeout = self.disconnect_timeout;
        let notify_start = self.disconnect_notify_start;
        let ghost before = self.endpoints@;
        let ghost vhead = self@;
        proof {
            assert(self@.endpoints[queue as int] == before[queue as int]@);
        }
        self.endpoints[queue as usize].init(queue, remote_addr, &status, self.input_size);
        self.endpoints[queue as usize].set_disconnect_timeout(timeout);
        self.endpoints[queue as usize].set_disconnect_notify_start(notify_start);
        let ghost mid = self.endpoints@[queue as int]@;
        let res = self.endpoints[queue as usize].synchronize(clock);
        proof {
            assert(self@.endpoints[queue as int] == self.endpoints@[queue as int]@);
            assert(self@.endpoints =~= vhead.endpoints.update(queue as int, self@.endpoints[queue as int])) by {
                assert forall|k: int| 0 <= k < self@.endpoints.len() && k != queue implies #[trigger] self@.endpoints[k]
                    == vhead.endpoints[k] by {
                    assert(self.endpoints@[k] == before[k]);
                }
            }
            let magic = mid.magic_number;
            assert(UdpProtocol::sent_sync_request(
                UdpProtocolView {
                    initialized: true,
                    queue: queue as i64,
                    local_connect_status: status@,
                    peer_addr: Some(remote_addr),
                    magic_number: magic,
                    input_size: old(self)@.input_size as usize,
                    disconnect_timeout: timeout,
                    disconnect_notify_start: notify_start,
                    state: State::Syncing(Syncing { roundtrips_remaining: NUM_SYNC_PACKETS, random: 0 }),
                    ..old(self)@.endpoints[queue as int]
                },
                self@.endpoints[queue as int],
                clock,
                res,
            ));
            assert(attached(
                old(self)@.endpoints[queue as int],
                self@.endpoints[queue as int],
                queue,
                remote_addr,
                old(self)@.local_connect_status,
                old(self)@.disconnect_timeout,
                old(self)@.disconnect_notify_start,
                old(self)@.input_size as usize,
                clock,
                res,
            ));
        }
        match res {
            Ok(u) => Ok(u),
            Err(e) => Err(Peer2PeerError::UdpProtocol { source: e }),
        }
    }

    /// Attaches the next spectator endpoint to the peer at `remote_addr` and
    /// starts the handshake. Fails when all spectator endpoints are taken and
    /// once the session runs.
    pub fn add_spectator(&mut self, remote_addr: PeerAddr, clock: Clock) -> (r: Result<(), GGPOError>)
        requires
            old(self)@.wf(),
            old(self)@.num_spectators < GGPO_MAX_SPECTATORS ==> UdpProtocol::clock_ok(
                old(self)@.spectators[old(self)@.num_spectators as int],
                clock,
            ),
        ensures
            final(self)@.wf(),
            old(self)@.num_spectators == GGPO_MAX_SPECTATORS ==> final(self)@ == old(self)@ && r
                == Err::<(), GGPOError>(GGPOError::TooManySpectators),
            old(self)@.num_spectators < GGPO_MAX_SPECTATORS && !old(self)@.synchronizing ==> final(self)@
                == old(self)@ && r == Err::<(), GGPOError>(GGPOError::InvalidRequest),
            old(self)@.num_spectators < GGPO_MAX_SPECTATORS && old(self)@.synchronizing ==> {
                let q = old(self)@.num_spectators as int;
                &&& final(self)@ == (Peer2PeerView {
                    num_spectators: old(self)@.num_spectators + 1,
                    spectators: old(self)@.spectators.update(q, final(self)@.spectators[q]),
                    ..old(self)@
                })
                &&& match r {
                    Ok(u) => attached(
                        old(self)@.spectators[q],
                        final(self)@.spectators[q],
                        (q + 1000) as u32,
                        remote_addr,
                        old(self)@.local_connect_status,
                        old(self)@.disconnect_timeout,
                        old(self)@.disconnect_notify_start,
                        old(self)@.input_size as usize,
                        clock,
                        Ok(u),
                    ),
                    Err(GGPOError::UdpProto { source: e }) => attached(
                        old(self)@.spectators[q],
                        final(self)@.spectators[q],
                        (q + 1000) as u32,
                        remote_addr,
                        old(self)@.local_connect_status,
                        old(self)@.disconnect_timeout,
                        old(self)@.disconnect_notify_start,
                        old(self)@.input_size as usize,
                        clock,
                        Err(e),
                    ),
                    Err(_) => false,
                }
            },
    {
        if self.num_spectators == GGPO_MAX_SPECTATORS {
            return Err(GGPOError::TooManySpectators);
        }
        if !self.synchronizing {
            return Err(GGPOError::InvalidRequest);
        }
        let queue: u32 = self.num_spectators as u32;
        self.num_spectators = self.num_spectators + 1;
        let status = self.local_connect_status;
        let timeout = self.disconnect_timeout;
        let notify_start = self.disconnect_notify_start;
        let ghost before = self.spectators@;
        let ghost vhead = self@;
        proof {
            assert(self@.spectators[queue as int] == before[queue as int]@);
        }
        let handle = Self::queue_to_spectator_handle(queue);
        self.spectators[queue as usize].init(handle, remote_addr, &status, self.input_size);
        self.spectators[queue as usize].set_disconnect_timeout(timeout);
        self.spectators[queue as usize].set_disconnect_notify_start(notify_start);
        let ghost mid = self.spectators@[queue as int]@;
        let res = self.spectators[queue as usize].synchronize(clock);
        proof {
            assert(self@.spectators[queue as int] == self.spectators@[queue as int]@);
            assert(self@.spectators =~= vhead.spectators.update(queue as int, self@.spectators[queue as int])) by {
                assert forall|k: int| 0 <= k < self@.spectators.len() && k != queue implies #[trigger] self@.spectators[k]
                    == vhead.spectators[k] by {
                    assert(self.spectators@[k] == before[k]);
                }
            }
            let magic = mid.magic_number;
            assert(UdpProtocol::sent_sync_request(
                UdpProtocolView {
                    initialized: true,
                    queue: handle as i64,
                    local_connect_status: status@,
                    peer_addr: Some(remote_addr),
                    magic_number: magic,
                    input_size: old(self)@.input_size as usize,
                    disconnect_timeout: timeout,
                    disconnect_notify_start: notify_start,
                    state: State::Syncing(Syncing { roundtrips_remaining: NUM_SYNC_PACKETS, random: 0 }),
                    ..old(self)@.spectators[queue as int]
                },
                self@.spectators[queue as int],
                clock,
                res,
            ));
            assert(attached(
                old(self)@.spectators[queue as int],
                self@.spectators[queue as int],
                (queue as int + 1000) as u32,
                remote_addr,
                old(self)@.local_connect_status,
                old(self)@.disconnect_timeout,
                old(self)@.disconnect_notify_start,
                old(self)@.input_size as usize,
                clock,
                res,
            ));
        }
        match res {
            Ok(u) => Ok(u),
            Err(e) => Err(GGPOError::UdpProto { source: e }),
        }
    }

    /// Adds a player: a spectator is attached as one (see `add_spectator`);
    /// otherwise the player's number must be one of the session's players, its
    /// handle is returned in `handle`, and a remote player's endpoint is
    /// attached (see `add_remote_player`).
    pub fn add_player(&mut self, player: Player, handle: &mut PlayerHandle, clock: Clock) -> (r: Result<
        (),
        GGPOError,
    >)
        requires
            old(self)@.wf(),
            player.player_type is Spectator ==> (old(self)@.num_spectators < GGPO_MAX_SPECTATORS
                ==> UdpProtocol::clock_ok(old(self)@.spectators[old(self)@.num_spectators as int], clock)),
            (player.player_type is Remote && 1 <= player.player_num <= old(self)@.num_players)
                ==> UdpProtocol::clock_ok(old(self)@.endpoints[player.player_num - 1], clock),
        ensures
            final(self)@.wf(),
            player.player_type is Local ==> final(self)@ == old(self)@ && if 1 <= player.player_num
                <= old(self)@.num_players {
                r is Ok && *final(handle) == player.player_num
            } else {
                r == Err::<(), GGPOError>(GGPOError::PlayerOutOfRange) && *final(handle) == *old(handle)
            },
            player.player_type is Remote ==> if 1 <= player.player_num <= old(self)@.num_players {
                let q = player.player_num - 1;
                &&& *final(handle) == player.player_num
                &&& final(self)@ == (Peer2PeerView {
                    synchronizing: true,
                    endpoints: old(self)@.endpoints.update(q, final(self)@.endpoints[q]),
                    ..old(self)@
                })
                &&& match r {
                    Ok(u) => attached(
                        old(self)@.endpoints[q],
                        final(self)@.endpoints[q],
                        q as u32,
                        player.player_type->Remote_0,
                        old(self)@.local_connect_status,
                        old(self)@.disconnect_timeout,
                        old(self)@.disconnect_notify_start,
                        old(self)@.input_size as usize,
                        clock,
                        Ok(u),
                    ),
                    Err(GGPOError::P2P { source: Peer2PeerError::UdpProtocol { source: e } }) => attached(
                        old(self)@.endpoints[q],
                        final(self)@.endpoints[q],
                        q as u32,
                        player.player_type->Remote_0,
                        old(self)@.local_connect_status,
                        old(self)@.disconnect_timeout,
                        old(self)@.disconnect_notify_start,
                        old(self)@.input_size as usize,
                        clock,
                        Err(e),
                    ),
                    Err(_) => false,
                }
            } else {
                final(self)@ == old(self)@ && r == Err::<(), GGPOError>(GGPOError::PlayerOutOfRange)
                    && *final(handle) == *old(handle)
            },
            player.player_type is Spectator ==> *final(handle) == *old(handle) && (
            old(self)@.num_spectators == GGPO_MAX_SPECTATORS ==> r == Err::<(), GGPOError>(
                GGPOError::TooManySpectators,
            )) && (old(self)@.num_spectators < GGPO_MAX_SPECTATORS && !old(self)@.synchronizing ==> r
                == Err::<(), GGPOError>(GGPOError::InvalidRequest)) && (old(self)@.num_spectators
                < GGPO_MAX_SPECTATORS && old(self)@.synchronizing ==> final(self)@.num_spectators
                == old(self)@.num_spectators + 1),
    {
        if let PlayerType::Spectator(remote_addr) = player.player_type {
            return self.add_spectator(remote_addr, clock);
        }
        let queue = (player.player_num as u32).wrapping_sub(1);
        if player.player_num < 1 || player.player_num > self.num_players {
            return Err(GGPOError::PlayerOutOfRange);
        }
        *handle = Self::queue_to_player_handle(queue);
        if let PlayerType::Remote(remote_addr) = player.player_type {
            return match self.add_remote_player(remote_addr, queue, clock) {
                Ok(u) => Ok(u),
                Err(e) => Err(GGPOError::P2P { source: e }),
            };
        }
        Ok(())
    }

    /// Adds the local input of player `player` (see `add_local_input_rel`).
    pub fn add_local_input(
        &mut self,
        player: PlayerHandle,
        values: &InputBuffer,
        size: usize,
        clock: Clock,
    ) -> (r: Result<(), GGPOError>)
        requires
            old(self)@.wf(),
            add_local_input_ok(old(self)@, player, *values, size, clock),
        ensures
            final(self)@.wf(),
            add_local_input_rel(old(self)@, final(self)@, r, player, *values, size, clock),
    {
        if self.sync.in_rollback() {
            return Err(GGPOError::InRollback);
        }
        if self.synchronizing {
            return Err(GGPOError::NotSynchronized);
        }
        let queue = match self.player_handle_to_queue(player) {
            Ok(q) => q,
            Err(e) => {
                return Err(e);
            },
        };
        let mut input = GameInput::init(None, Some(values), size);
        proof {
            assert(input.bits =~= *values);
            assert(input == local_input(*values, size));
        }
        if !self.sync.add_local_input(queue, &mut input) {
            return Err(GGPOError::PredictionThreshold);
        }
        if input.frame.is_some() {
            let status = self.local_connect_status[queue as usize];
            let ghost v1 = self@;
            self.local_connect_status[queue as usize] = ConnectStatus { last_frame: input.frame, ..status };
            self.share_status();
            let ghost v2 = self@;
            proof {
                assert(v2 == local_input_taken(old(self)@, queue as int, local_input(*values, size)));
            }
            let mut i: usize = 0;
            while i < self.num_players
                invariant
                    0 <= i <= self@.num_players,
                    self@.wf(),
                    self@ == (Peer2PeerView { endpoints: self@.endpoints, ..v2 }),
                    v2 == local_input_taken(old(self)@, queue as int, local_input(*values, size)),
                    input == (GameInput {
                        frame: Some(old(self)@.sync.frame_count as usize),
                        ..local_input(*values, size)
                    }),
                    !old(self)@.sync.rolling_back,
                    !old(self)@.synchronizing,
                    1 <= player <= old(self)@.num_players,
                    queue == player - 1,
                    accepts_local_input(old(self)@.sync),
                    v2.num_players == old(self)@.num_players,
                    v2.endpoints.len() == GGPO_MAX_PLAYERS,
                    attached_send_ok(v2.endpoints, input, clock, v2.num_players as int),
                    sent_to_attached(v2.endpoints, self@.endpoints, input, clock, i as int, Ok(())),
                decreases self@.num_players - i,
            {
                let ghost before = self.endpoints@;
                let ghost vhead = self@;
                proof {
                    assert(self@.endpoints[i as int] == before[i as int]@);
                    assert(self@.endpoints[i as int] == v2.endpoints[i as int]);
                }
                if self.endpoints[i].is_initialized() {
                    let res = self.endpoints[i].send_input(&input, clock);
                    proof {
                        assert(self@.endpoints[i as int] == self.endpoints@[i as int]@);
                        assert forall|k: int| 0 <= k < self@.endpoints.len() && k != i implies #[trigger] self@.endpoints[k]
                            == vhead.endpoints[k] by {
                            assert(self.endpoints@[k] == before[k]);
                        }
                    }
                    match res {
                        Ok(()) => {},
                        Err(e) => {
                            proof {
                                let rs: Result<(), UdpProtoError> = Err(e);
                                assert(sent_input(v2.endpoints[i as int], self@.endpoints[i as int], input, clock, rs));
                                assert forall|j: int| 0 <= j < v2.endpoints.len() && j != i implies (if j < i
                                    && v2.endpoints[j].initialized {
                                    sent_input(#[trigger] v2.endpoints[j], self@.endpoints[j], input, clock, Ok(()))
                                } else {
                                    self@.endpoints[j] == v2.endpoints[j]
                                }) by {
                                    assert(self@.endpoints[j] == vhead.endpoints[j]);
                                }
                                assert(sent_to_attached(v2.endpoints, self@.endpoints, input, clock, v2.num_players as int, rs));
                            }
                            return Err(GGPOError::UdpProto { source: e });
                        },
                    }
                }
                i = i + 1;
            }
            proof {
                let rs: Result<(), UdpProtoError> = Ok(());
                assert(sent_to_attached(v2.endpoints, self@.endpoints, input, clock, v2.num_players as int, rs));
            }
        }
        Ok(())
    }


    /// Fills `values` with every player's input for the current frame and
    /// hands out the dropped players' flags (see
    /// `GGPOSync::synchronize_inputs`); refused while synchronising.
    pub fn synchronize_input(
        &mut self,
        values: &mut Vec<InputBuffer>,
        disconnect_flags: Option<&mut i32>,
    ) -> (r: Result<(), GGPOError>)
        requires
            old(self)@.wf(),
            !old(self)@.synchronizing ==> synchronize_ok(
                old(self)@.sync,
                old(values)@.len(),
                old(self)@.local_connect_status,
            ),
        ensures
            final(self)@.wf(),
            old(self)@.synchronizing ==> r == Err::<(), GGPOError>(GGPOError::NotSynchronized)
                && final(self)@ == old(self)@ && *final(values) == *old(values),
            !old(self)@.synchronizing ==> {
                &&& r is Ok
                &&& final(self)@ == (Peer2PeerView {
                    sync: GGPOSyncView {
                        input_queues: synchronized_queues(old(self)@.sync, old(self)@.local_connect_status),
                        ..old(self)@.sync
                    },
                    ..old(self)@
                })
                &&& final(values)@.len() == old(values)@.len()
                &&& forall|i: int|
                    0 <= i < final(values)@.len() ==> (#[trigger] final(values)@[i])@ == if i
                        < old(self)@.num_players {
                        synchronized_bytes(old(self)@.sync, old(self)@.local_connect_status, i)
                    } else {
                        crate::game_input::erased_bits()
                    }
            },
    {
        if self.synchronizing {
            return Err(GGPOError::NotSynchronized);
        }
        let status = self.local_connect_status;
        let flags = match self.sync.synchronize_inputs(values, &status) {
            Ok(f) => f,
            Err(e) => {
                return Err(GGPOError::Sync { source: e });
            },
        };
        if let Some(d_flags) = disconnect_flags {
            *d_flags = flags;
        }
        Ok(())
    }

    /// Lets the synchronisation layer's events go (nothing is done with
    /// them).
    fn poll_sync_events(&mut self) -> (r: Result<(), Peer2PeerError>)
        requires
            old(self)@.wf(),
        ensures
            final(self)@.wf(),
            r is Ok,
            final(self)@ == sync_events_drained(old(self)@),
    {
        let mut event = SyncEvent::new();
        loop
            invariant
                self@.wf(),
                self@ == (Peer2PeerView {
                    sync: GGPOSyncView { event_queue: self@.sync.event_queue, ..old(self)@.sync },
                    ..old(self)@
                }),
            ensures
                self@ == sync_events_drained(old(self)@),
            decreases self@.sync.event_queue.len(),
        {
            if !self.sync.get_event(&mut event) {
                proof {
                    assert(self@.sync.event_queue =~= Seq::<SyncEvent>::empty());
                }
                break;
            }
            self.on_sync_event(&event);
        }
        Ok(())
    }

    /// Does nothing with an event of the synchronisation layer.
    fn on_sync_event(&mut self, _event: &SyncEvent)
        ensures
            final(self)@ == old(self)@,
    {
    }

    /// Ends the current frame: the frame count moves on, the session is
    /// polled (see `do_poll`) and the synchronisation layer's events go.
    pub fn increment_frame(&mut self, writable: bool, clock: Clock, sleep_frames: &[Option<i32>]) -> (r:
        Result<(), GGPOError>)
        requires
            old(self)@.wf(),
            old(self)@.sync.frame_count < usize::MAX,
            do_poll_ok(frame_incremented(old(self)@), writable, clock, sleep_frames@),
        ensures
            final(self)@.wf(),
            exists|mid: Peer2PeerView, rd: Result<(), GGPOError>|
                #![trigger do_poll_rel(frame_incremented(old(self)@), mid, rd, writable, clock, sleep_frames@)]
                do_poll_rel(frame_incremented(old(self)@), mid, rd, writable, clock, sleep_frames@)
                    && match rd {
                    Err(e) => final(self)@ == mid && r == Err::<(), GGPOError>(e),
                    Ok(_) => final(self)@ == sync_events_drained(mid) && r is Ok,
                },
    {
        self.sync.increment_frame();
        proof {
            assert(self@ == frame_incremented(old(self)@));
        }
        let rd = self.do_poll(writable, clock, sleep_frames);
        let ghost mid = self@;
        proof {
            assert(do_poll_rel(frame_incremented(old(self)@), mid, rd, writable, clock, sleep_frames@));
        }
        if let Err(e) = rd {
            return Err(e);
        }
        match self.poll_sync_events() {
            Ok(()) => {},
            Err(e) => {
                return Err(GGPOError::P2P { source: e });
            },
        }
        Ok(())
    }

    /// Chat is not supported: nothing happens.
    pub fn chat(&mut self, _text: String) -> (r: Result<(), GGPOError>)
        ensures
            r is Ok,
            final(self)@ == old(self)@,
    {
        Ok(())
    }

    /// Logging goes nowhere.
    pub fn logv(_fmt: String) -> (r: Result<(), GGPOError>)
        ensures
            r is Ok,
    {
        Ok(())
    }

    /// The network statistics of the endpoint of player `handle`.
    pub fn get_network_stats(&self, handle: PlayerHandle) -> (r: Result<NetworkStats, GGPOError>)
        requires
            self@.wf(),
        ensures
            1 <= handle <= self@.num_players ==> r == Ok::<NetworkStats, GGPOError>(
                endpoint_stats(self@.endpoints[handle - 1]),
            ),
            !(1 <= handle <= self@.num_players) ==> r == Err::<NetworkStats, GGPOError>(
                GGPOError::InvalidPlayerHandle,
            ),
    {
        let queue = match self.player_handle_to_queue(handle) {
            Ok(q) => q,
            Err(e) => {
                return Err(e);
            },
        };
        proof {
            assert(self@.endpoints[queue as int] == self.endpoints@[queue as int]@);
        }
        Ok(self.endpoints[queue as usize].get_network_stats())
    }

    /// Sets the frame delay of player `player`'s queue (a negative delay is
    /// taken as its `usize` bit pattern).
    pub fn set_frame_delay(&mut self, player: PlayerHandle, delay: i32) -> (r: Result<(), GGPOError>)
        requires
            old(self)@.wf(),
        ensures
            final(self)@.wf(),
            !(1 <= player <= old(self)@.num_players) ==> r == Err::<(), GGPOError>(
                GGPOError::InvalidPlayerHandle,
            ) && final(self)@ == old(self)@,
            1 <= player <= old(self)@.num_players ==> r is Ok && final(self)@ == (Peer2PeerView {
                sync: GGPOSyncView {
                    input_queues: old(self)@.sync.input_queues.update(
                        player - 1,
                        crate::input_queue::InputQueueView {
                            frame_delay: delay as usize as nat,
                            ..old(self)@.sync.input_queues[player - 1]
                        },
                    ),
                    ..old(self)@.sync
                },
                ..old(self)@
            }),
    {
        let queue = match self.player_handle_to_queue(player) {
            Ok(q) => q,
            Err(e) => {
                return Err(e);
            },
        };
        self.sync.set_frame_delay(queue as usize, delay as usize);
        Ok(())
    }

    /// Sets the disconnect timeout of the session and of every attached
    /// player endpoint.
    pub fn set_disconnect_timeout(&mut self, timeout: u128) -> (r: Result<(), GGPOError>)
        requires
            old(self)@.wf(),
        ensures
            final(self)@.wf(),
            r is Ok,
            final(self)@ == with_timeout(old(self)@, timeout),
    {
        self.disconnect_timeout = timeout;
        let ghost target = with_timeout(old(self)@, timeout);
        let mut i: usize = 0;
        while i < self.num_players
            invariant
                0 <= i <= self@.num_players,
                old(self)@.wf(),
                self@.wf(),
                target == with_timeout(old(self)@, timeout),
                self@ == (Peer2PeerView { endpoints: self@.endpoints, ..target }),
                forall|k: int|
                    0 <= k < GGPO_MAX_PLAYERS ==> #[trigger] self@.endpoints[k] == if k < i {
                        target.endpoints[k]
                    } else {
                        old(self)@.endpoints[k]
                    },
            decreases self@.num_players - i,
        {
            let ghost before = self.endpoints@;
            let ghost vhead = self@;
            proof {
                assert(self@.endpoints[i as int] == before[i as int]@);
            }
            if self.endpoints[i].is_initialized() {
                self.endpoints[i].set_disconnect_timeout(timeout);
            }
            proof {
                assert forall|k: int| 0 <= k < GGPO_MAX_PLAYERS implies #[trigger] self@.endpoints[k]
                    == if k < i + 1 {
                    target.endpoints[k]
                } else {
                    old(self)@.endpoints[k]
                } by {
                    assert(self@.endpoints[k] == self.endpoints@[k]@);
                    if k != i {
                        assert(self.endpoints@[k] == before[k]);
                        assert(vhead.endpoints[k] == before[k]@);
                    }
                }
            }
            i = i + 1;
        }
        proof {
            assert(self@.endpoints =~= target.endpoints);
        }
        Ok(())
    }

    /// Sets when silence from a peer starts to be reported, for the session
    /// and every attached player endpoint.
    pub fn set_disconnect_notify_start(&mut self, timeout: u128) -> (r: Result<(), GGPOError>)
        requires
            old(self)@.wf(),
        ensures
            final(self)@.wf(),
            r is Ok,
            final(self)@ == with_notify_start(old(self)@, timeout),
    {
        self.disconnect_notify_start = timeout;
        let ghost target = with_notify_start(old(self)@, timeout);
        let mut i: usize = 0;
        while i < self.num_players
            invariant
                0 <= i <= self@.num_players,
                old(self)@.wf(),
                self@.wf(),
                target == with_notify_start(old(self)@, timeout),
                self@ == (Peer2PeerView { endpoints: self@.endpoints, ..target }),
                forall|k: int|
                    0 <= k < GGPO_MAX_PLAYERS ==> #[trigger] self@.endpoints[k] == if k < i {
                        target.endpoints[k]
                    } else {
                        old(self)@.endpoints[k]
                    },
            decreases self@.num_players - i,
        {
            let ghost before = self.endpoints@;
            let ghost vhead = self@;
            proof {
                assert(self@.endpoints[i as int] == before[i as int]@);
            }
            if self.endpoints[i].is_initialized() {
                self.endpoints[i].set_disconnect_notify_start(timeout);
            }
            proof {
                assert forall|k: int| 0 <= k < GGPO_MAX_PLAYERS implies #[trigger] self@.endpoints[k]
                    == if k < i + 1 {
                    target.endpoints[k]
                } else {
                    old(self)@.endpoints[k]
                } by {
                    assert(self@.endpoints[k] == self.endpoints@[k]@);
                    if k != i {
                        assert(self.endpoints@[k] == before[k]);
                        assert(vhead.endpoints[k] == before[k]@);
                    }
                }
            }
            i = i + 1;
        }
        proof {
            assert(self@.endpoints =~= target.endpoints);
        }
        Ok(())
    }

    /// Whether `on_msg(from, msg, clock)` can take the message: it reaches
    /// no endpoint, or the endpoint it reaches can handle it with this clock
    /// (see `UdpProtocol::accepts_msg`). A caller drops a message for which
    /// this is false.
    pub fn accepts_msg(&self, from: &PeerAddr, msg: &UdpMsg, clock: Clock) -> (b: bool)
        requires
            self@.wf(),
        ensures
            b == (msg_handler(self@, *from) matches Some(i) ==> {
                &&& i < GGPO_MAX_PLAYERS
                &&& UdpProtocol::clock_ok(self@.endpoints[i], clock)
                &&& UdpProtocol::on_msg_ok(self@.endpoints[i], *msg, clock.now)
            }),
    {
        let mut i: usize = 0;
        while i < self.num_players
            invariant
                0 <= i <= self@.num_players,
                self@.wf(),
                first_handler(self@.endpoints, *from, i as int) is None,
            decreases self@.num_players - i,
        {
            proof {
                assert(self@.endpoints[i as int] == self.endpoints@[i as int]@);
            }
            match answer(&self.endpoints[i], from) {
                Ok(false) => {},
                Ok(true) => {
                    proof {
                        lemma_first_handler_stays(self@.endpoints, *from, i as int + 1, self@.num_players as int);
                    }
                    return self.endpoints[i].accepts_msg(msg, clock);
                },
                Err(_) => {
                    proof {
                        lemma_first_handler_stays(self@.endpoints, *from, i as int + 1, self@.num_players as int);
                    }
                    return true;
                },
            }
            i = i + 1;
        }
        let mut j: usize = 0;
        while j < self.num_spectators
            invariant
                0 <= j <= self@.num_spectators,
                self@.wf(),
                first_handler(self@.endpoints, *from, self@.num_players as int) is None,
                first_handler(self@.spectators, *from, j as int) is None,
            decreases self@.num_spectators - j,
        {
            proof {
                assert(self@.spectators[j as int] == self.spectators@[j as int]@);
            }
            match answer(&self.spectators[j], from) {
                Ok(false) => {},
                Ok(true) => {
                    proof {
                        lemma_first_handler_stays(self@.spectators, *from, j as int + 1, self@.num_spectators as int);
                    }
                    if j >= GGPO_MAX_PLAYERS {
                        return false;
                    }
                    proof {
                        assert(self@.endpoints[j as int] == self.endpoints@[j as int]@);
                    }
                    return self.endpoints[j].accepts_msg(msg, clock);
                },
                Err(_) => {
                    proof {
                        lemma_first_handler_stays(self@.spectators, *from, j as int + 1, self@.num_spectators as int);
                    }
                    return true;
                },
            }
            j = j + 1;
        }
        true
    }

    /// Hands a message from `from` to the endpoint it is for (see
    /// `msg_handler`); an endpoint that fails to answer whether it is ends the
    /// search with its error.
    pub fn on_msg(&mut self, from: &PeerAddr, msg: &UdpMsg, clock: Clock) -> (r: Result<(), UdpProtoError>)
        requires
            old(self)@.wf(),
            msg_handler(old(self)@, *from) matches Some(i) ==> {
                &&& i < GGPO_MAX_PLAYERS
                &&& UdpProtocol::clock_ok(old(self)@.endpoints[i], clock)
                &&& UdpProtocol::on_msg_ok(old(self)@.endpoints[i], *msg, clock.now)
            },
        ensures
            final(self)@.wf(),
            msg_error(old(self)@, *from) matches Some(e) ==> r == Err::<(), UdpProtoError>(e)
                && final(self)@ == old(self)@,
            (msg_error(old(self)@, *from) is None && msg_handler(old(self)@, *from) is None) ==> r is Ok
                && final(self)@ == old(self)@,
            msg_handler(old(self)@, *from) matches Some(i) ==> {
                &&& final(self)@ == (Peer2PeerView {
                    endpoints: old(self)@.endpoints.update(i, final(self)@.endpoints[i]),
                    ..old(self)@
                })
                &&& UdpProtocol::on_msg_outcome(
                    old(self)@.endpoints[i],
                    final(self)@.endpoints[i],
                    *msg,
                    clock,
                    r,
                )
            },
    {
        let mut i: usize = 0;
        while i < self.num_players
            invariant
                0 <= i <= self@.num_players,
                self@ == old(self)@,
                self@.wf(),
                first_handler(self@.endpoints, *from, i as int) is None,
                msg_handler(old(self)@, *from) matches Some(i) ==> {
                    &&& i < GGPO_MAX_PLAYERS
                    &&& UdpProtocol::clock_ok(old(self)@.endpoints[i], clock)
                    &&& UdpProtocol::on_msg_ok(old(self)@.endpoints[i], *msg, clock.now)
                },
            decreases self@.num_players - i,
        {
            proof {
                assert(self@.endpoints[i as int] == self.endpoints@[i as int]@);
            }
            let ghost before = self.endpoints@;
            match self.endpoints[i].handles_msg(from, msg) {
                Err(e) => {
                    proof {
                        assert(self@.endpoints =~= old(self)@.endpoints) by {
                            assert forall|k: int| 0 <= k < self@.endpoints.len() implies #[trigger] self@.endpoints[k]
                                == old(self)@.endpoints[k] by {
                                assert(self@.endpoints[k] == self.endpoints@[k]@);
                                if k != i {
                                    assert(self.endpoints@[k] == before[k]);
                                }
                            }
                        }
                        lemma_first_handler_stays(old(self)@.endpoints, *from, i as int + 1, old(self)@.num_players as int);
                    }
                    return Err(e);
                },
                Ok(true) => {
                    proof {
                        assert(self@.endpoints[i as int] == self.endpoints@[i as int]@);
                        lemma_first_handler_stays(old(self)@.endpoints, *from, i as int + 1, old(self)@.num_players as int);
                    }
                    let ghost vhead = self@;
                    let ghost b2 = self.endpoints@;
                    let r = self.endpoints[i].on_msg(msg, clock);
                    proof {
                        assert(self@.endpoints[i as int] == self.endpoints@[i as int]@);
                        assert forall|k: int| 0 <= k < self@.endpoints.len() && k != i implies #[trigger] self@.endpoints[k]
                            == old(self)@.endpoints[k] by {
                            assert(self.endpoints@[k] == b2[k]);
                            assert(b2[k] == before[k]);
                            assert(self@.endpoints[k] == self.endpoints@[k]@);
                        }
                        assert(self@.endpoints =~= old(self)@.endpoints.update(i as int, self@.endpoints[i as int]));
                    }
                    return r;
                },
                Ok(false) => {},
            }
            proof {
                assert(self@.endpoints =~= old(self)@.endpoints) by {
                    assert forall|k: int| 0 <= k < self@.endpoints.len() implies #[trigger] self@.endpoints[k]
                        == old(self)@.endpoints[k] by {
                        assert(self@.endpoints[k] == self.endpoints@[k]@);
                        if k != i {
                            assert(self.endpoints@[k] == before[k]);
                        }
                    }
                }
            }
            i = i + 1;
        }
        let mut j: usize = 0;
        while j < self.num_spectators
            invariant
                0 <= j <= self@.num_spectators,
                self@ == old(self)@,
                self@.wf(),
                first_handler(self@.endpoints, *from, self@.num_players as int) is None,
                first_handler(self@.spectators, *from, j as int) is None,
                msg_handler(old(self)@, *from) matches Some(i) ==> {
                    &&& i < GGPO_MAX_PLAYERS
                    &&& UdpProtocol::clock_ok(old(self)@.endpoints[i], clock)
                    &&& UdpProtocol::on_msg_ok(old(self)@.endpoints[i], *msg, clock.now)
                },
            decreases self@.num_spectators - j,
        {
            proof {
                assert(self@.spectators[j as int] == self.spectators@[j as int]@);
            }
            let ghost before = self.spectators@;
            match self.spectators[j].handles_msg(from, msg) {
                Err(e) => {
                    proof {
                        assert(self@.spectators =~= old(self)@.spectators) by {
                            assert forall|k: int| 0 <= k < self@.spectators.len() implies #[trigger] self@.spectators[k]
                                == old(self)@.spectators[k] by {
                                assert(self@.spectators[k] == self.spectators@[k]@);
                                if k != j {
                                    assert(self.spectators@[k] == before[k]);
                                }
                            }
                        }
                        lemma_first_handler_stays(old(self)@.spectators, *from, j as int + 1, old(self)@.num_spectators as int);
                    }
                    return Err(e);
                },
                Ok(true) => {
                    proof {
                        assert(self@.spectators =~= old(self)@.spectators) by {
                            assert forall|k: int| 0 <= k < self@.spectators.len() implies #[trigger] self@.spectators[k]
                                == old(self)@.spectators[k] by {
                                assert(self@.spectators[k] == self.spectators@[k]@);
                                if k != j {
                                    assert(self.spectators@[k] == before[k]);
                                }
                            }
                        }
                        assert(self@ == old(self)@);
                        lemma_first_handler_stays(old(self)@.spectators, *from, j as int + 1, old(self)@.num_spectators as int);
                        assert(msg_handler(old(self)@, *from) == Some(j as int));
                        assert(self@.endpoints[j as int] == self.endpoints@[j as int]@);
                    }
                    let ghost b2 = self.endpoints@;
                    let r = self.endpoints[j].on_msg(msg, clock);
                    proof {
                        assert(self@.endpoints[j as int] == self.endpoints@[j as int]@);
                        assert forall|k: int| 0 <= k < self@.endpoints.len() && k != j implies #[trigger] self@.endpoints[k]
                            == old(self)@.endpoints[k] by {
                            assert(self.endpoints@[k] == b2[k]);
                            assert(self@.endpoints[k] == self.endpoints@[k]@);
                        }
                        assert(self@.endpoints =~= old(self)@.endpoints.update(j as int, self@.endpoints[j as int]));
                    }
                    return r;
                },
                Ok(false) => {},
            }
            proof {
                assert(self@.spectators =~= old(self)@.spectators) by {
                    assert forall|k: int| 0 <= k < self@.spectators.len() implies #[trigger] self@.spectators[k]
                        == old(self)@.spectators[k] by {
                        assert(self@.spectators[k] == self.spectators@[k]@);
                        if k != j {
                            assert(self.spectators@[k] == before[k]);
                        }
                    }
                }
            }
            j = j + 1;
        }
        Ok(())
    }

    /// Whether the synchronisation layer is rolling back.
    pub fn in_rollback(&self) -> (b: bool)
        ensures
            b == self@.sync.rolling_back,
    {
        self.sync.in_rollback()
    }

    /// The player endpoints.
    pub fn endpoints(&self) -> (es: &Vec<UdpProtocol>)
        ensures
            es@.map_values(|e: UdpProtocol| e@) == self@.endpoints,
    {
        &self.endpoints
    }

    /// Hands out the messages that every endpoint has due, player endpoints
    /// first, and forgets them.
    pub fn take_outbox(&mut self) -> (out: Vec<QueueEntry>)
        requires
            old(self)@.wf(),
        ensures
            final(self)@.wf(),
            out@ == all_outboxes(old(self)@),
            final(self)@ == (Peer2PeerView {
                endpoints: old(self)@.endpoints.map_values(
                    |e: UdpProtocolView| UdpProtocolView { outbox: Seq::empty(), ..e },
                ),
                spectators: old(self)@.spectators.map_values(
                    |e: UdpProtocolView| UdpProtocolView { outbox: Seq::empty(), ..e },
                ),
                ..old(self)@
            }),
    {
        let mut out: Vec<QueueEntry> = Vec::new();
        let ghost ep = old(self)@.endpoints;
        let ghost sp = old(self)@.spectators;
        let mut i: usize = 0;
        while i < self.endpoints.len()
            invariant
                0 <= i <= self@.endpoints.len(),
                self@.endpoints.len() == ep.len(),
                ep == old(self)@.endpoints,
                self@ == (Peer2PeerView { endpoints: self@.endpoints, ..old(self)@ }),
                out@ == ep.take(i as int).fold_left(Seq::<QueueEntry>::empty(), |acc: Seq<QueueEntry>, e: UdpProtocolView| acc + e.outbox),
                forall|k: int|
                    0 <= k < ep.len() ==> #[trigger] self@.endpoints[k] == if k < i {
                        UdpProtocolView { outbox: Seq::empty(), ..ep[k] }
                    } else {
                        ep[k]
                    },
            decreases self@.endpoints.len() - i,
        {
            let ghost before = self.endpoints@;
            let ghost vhead = self@;
            proof {
                assert(self@.endpoints[i as int] == before[i as int]@);
            }
            let mut taken = self.endpoints[i].take_outbox();
            proof {
                assert(ep.take(i as int + 1).drop_last() =~= ep.take(i as int));
                assert(taken@ == ep[i as int].outbox);
            }
            out.append(&mut taken);
            proof {
                assert forall|k: int| 0 <= k < ep.len() implies #[trigger] self@.endpoints[k] == if k < i + 1 {
                    UdpProtocolView { outbox: Seq::empty(), ..ep[k] }
                } else {
                    ep[k]
                } by {
                    assert(self@.endpoints[k] == self.endpoints@[k]@);
                    if k != i {
                        assert(self.endpoints@[k] == before[k]);
                        assert(vhead.endpoints[k] == before[k]@);
                    }
                }
            }
            i = i + 1;
        }
        proof {
            assert(ep.take(ep.len() as int) =~= ep);
            assert(self@.endpoints =~= ep.map_values(|e: UdpProtocolView| UdpProtocolView { outbox: Seq::empty(), ..e }));
        }
        let ghost first = out@;
        let mut j: usize = 0;
        while j < self.spectators.len()
            invariant
                0 <= j <= self@.spectators.len(),
                self@.spectators.len() == sp.len(),
                sp == old(self)@.spectators,
                ep == old(self)@.endpoints,
                self@ == (Peer2PeerView {
                    endpoints: ep.map_values(|e: UdpProtocolView| UdpProtocolView { outbox: Seq::empty(), ..e }),
                    spectators: self@.spectators,
                    ..old(self)@
                }),
                first == ep.fold_left(Seq::<QueueEntry>::empty(), |acc: Seq<QueueEntry>, e: UdpProtocolView| acc + e.outbox),
                out@ == first + sp.take(j as int).fold_left(Seq::<QueueEntry>::empty(), |acc: Seq<QueueEntry>, e: UdpProtocolView| acc + e.outbox),
                forall|k: int|
                    0 <= k < sp.len() ==> #[trigger] self@.spectators[k] == if k < j {
                        UdpProtocolView { outbox: Seq::empty(), ..sp[k] }
                    } else {
                        sp[k]
                    },
            decreases self@.spectators.len() - j,
        {
            let ghost before = self.spectators@;
            let ghost vhead = self@;
            proof {
                assert(self@.spectators[j as int] == before[j as int]@);
            }
            let mut taken = self.spectators[j].take_outbox();
            proof {
                assert(sp.take(j as int + 1).drop_last() =~= sp.take(j as int));
                assert(taken@ == sp[j as int].outbox);
            }
            out.append(&mut taken);
            proof {
                assert(out@ =~= first + sp.take(j as int + 1).fold_left(Seq::<QueueEntry>::empty(), |acc: Seq<QueueEntry>, e: UdpProtocolView| acc + e.outbox));
                assert forall|k: int| 0 <= k < sp.len() implies #[trigger] self@.spectators[k] == if k < j + 1 {
                    UdpProtocolView { outbox: Seq::empty(), ..sp[k] }
                } else {
                    sp[k]
                } by {
                    assert(self@.spectators[k] == self.spectators@[k]@);
                    if k != j {
                        assert(self.spectators@[k] == before[k]);
                        assert(vhead.spectators[k] == before[k]@);
                    }
                }
            }
            j = j + 1;
        }
        proof {
            assert(sp.take(sp.len() as int) =~= sp);
            assert(self@.spectators =~= sp.map_values(|e: UdpProtocolView| UdpProtocolView { outbox: Seq::empty(), ..e }));
        }
        out
    }

}

/// The endpoints after endpoint `queue` is disconnected at `now`.
pub open spec fn disconnected_queue_endpoints(v: Peer2PeerView, queue: int, now: u128) -> Seq<UdpProtocolView> {
    v.endpoints.update(
        queue,
        UdpProtocolView {
            state: State::Disconnected,
            shutdown_timeout: (now + UDP_SHUTDOWN_TIMER) as u128,
            ..v.endpoints[queue]
        },
    )
}


/// Handling the events of more endpoints asks for what handling fewer
/// asks for.
proof fn lemma_players_ok_prefix(v: Peer2PeerView, m: int, n: int, now: u128)
    requires
        m <= n,
        players_events_ok(v, n, now),
    ensures
        players_events_ok(v, m, now),
    decreases n - m,
{
    if m < n {
        lemma_players_ok_prefix(v, m + 1, n, now);
    }
}

/// Once an error is met, handling the events of more endpoints keeps it.
proof fn lemma_players_error_stays(v: Peer2PeerView, m: int, n: int, now: u128)
    requires
        0 <= m <= n,
        players_events(v, m, now).1 is Some,
    ensures
        players_events(v, n, now) == players_events(v, m, now),
    decreases n - m,
{
    if m < n {
        lemma_players_error_stays(v, m, n - 1, now);
    }
}


proof fn lemma_poll_2_ok_prefix(v: Peer2PeerView, m: int, n: int, now: u128)
    requires
        m <= n,
        poll_2_ok(v, n, now),
    ensures
        poll_2_ok(v, m, now),
    decreases n - m,
{
    if m < n {
        lemma_poll_2_ok_prefix(v, m + 1, n, now);
    }
}

proof fn lemma_poll_2_error_stays(v: Peer2PeerView, m: int, n: int, now: u128)
    requires
        0 <= m <= n,
        poll_2_outcome(v, m, now).1 is Err,
    ensures
        poll_2_outcome(v, n, now) == poll_2_outcome(v, m, now),
    decreases n - m,
{
    if m < n {
        lemma_poll_2_error_stays(v, m, n - 1, now);
    }
}

proof fn lemma_poll_n_ok_prefix(v: Peer2PeerView, m: int, n: int, now: u128)
    requires
        m <= n,
        poll_n_ok(v, n, now),
    ensures
        poll_n_ok(v, m, now),
    decreases n - m,
{
    if m < n {
        lemma_poll_n_ok_prefix(v, m + 1, n, now);
    }
}

proof fn lemma_poll_n_error_stays(v: Peer2PeerView, m: int, n: int, now: u128)
    requires
        0 <= m <= n,
        poll_n_outcome(v, m, now).1 is Err,
    ensures
        poll_n_outcome(v, n, now) == poll_n_outcome(v, m, now),
    decreases n - m,
{
    if m < n {
        lemma_poll_n_error_stays(v, m, n - 1, now);
    }
}

proof fn lemma_scan_error_stays(v: Peer2PeerView, queue: int, m: int, n: int)
    requires
        0 <= m <= n,
        queue_scan(v, queue, m) is Err,
    ensures
        queue_scan(v, queue, n) == queue_scan(v, queue, m),
    decreases n - m,
{
    if m < n {
        lemma_scan_error_stays(v, queue, m, n - 1);
    }
}


/// What `handles_msg` answers for endpoint `e` (see `handles`).
fn answer(e: &UdpProtocol, from: &PeerAddr) -> (r: Result<bool, UdpProtoError>)
    ensures
        r == handles(e@, *from),
{
    if !e.is_initialized() {
        return Err(UdpProtoError::UdpUninit);
    }
    match e.peer_addr() {
        Some(a) => Ok(a == *from),
        None => Err(UdpProtoError::PeerAddrUninit),
    }
}

proof fn lemma_first_handler_stays(es: Seq<UdpProtocolView>, from: PeerAddr, m: int, n: int)
    requires
        0 <= m <= n,
        first_handler(es, from, m) is Some,
    ensures
        first_handler(es, from, n) == first_handler(es, from, m),
    decreases n - m,
{
    if m < n {
        lemma_first_handler_stays(es, from, m, n - 1);
    }
}


/// The handle of the player whose input queue is `queue`.
pub open spec fn queue_handle(queue: u32) -> PlayerHandle {
    (queue + 1) as u32
}

/// The input queue of the player with handle `handle`.
pub open spec fn handle_queue(handle: PlayerHandle) -> u32 {
    (handle - 1) as u32
}

/// Handles and queues correspond one to one: the handle of a player's
/// queue is its handle, and the queue of a queue's handle is that queue;
/// the handles of the queues of `n` players are 1 to `n`.
pub proof fn lemma_handles_roundtrip(queue: u32, handle: PlayerHandle, n: nat)
    requires
        queue < n,
        1 <= handle <= n,
        n <= u32::MAX,
    ensures
        handle_queue(queue_handle(queue)) == queue,
        queue_handle(handle_queue(handle)) == handle,
        1 <= queue_handle(queue) <= n,
        handle_queue(handle) < n,
{
}


/// The client hears that the session runs once: checking the initial
/// synchronisation again changes nothing.
pub proof fn lemma_initial_sync_once(v: Peer2PeerView)
    ensures
        after_initial_sync(after_initial_sync(v)) == after_initial_sync(v),
{
}

/// Polling the first `n` players leaves the statuses of the later players
/// as they were.
proof fn lemma_poll_2_keeps_later_status(v: Peer2PeerView, n: int, now: u128)
    requires
        0 <= n <= v.local_connect_status.len(),
    ensures
        poll_2_outcome(v, n, now).0.local_connect_status.len() == v.local_connect_status.len(),
        forall|j: int|
            n <= j < v.local_connect_status.len() ==> #[trigger] poll_2_outcome(v, n, now).0.local_connect_status[j]
                == v.local_connect_status[j],
    decreases n,
{
    if n > 0 {
        lemma_poll_2_keeps_later_status(v, n - 1, now);
    }
}

/// The frame `poll_2_players` finds is the least frame confirmed by the
/// connected players: at most the last frame of every player among the
/// first `n` that was connected, and either the last frame of one of them
/// or, when none is connected, `u32::MAX`.
pub proof fn lemma_poll_2_is_minimum(v: Peer2PeerView, n: int, now: u128)
    requires
        0 <= n <= v.local_connect_status.len(),
    ensures
        poll_2_outcome(v, n, now).1 matches Ok(t) ==> {
            &&& forall|i: int|
                0 <= i < n && !(#[trigger] v.local_connect_status[i]).disconnected ==> v.local_connect_status[i].last_frame
                    is Some && t <= v.local_connect_status[i].last_frame->0 as u32
            &&& (t == u32::MAX || exists|i: int|
                0 <= i < n && !(#[trigger] v.local_connect_status[i]).disconnected && t
                    == v.local_connect_status[i].last_frame->0 as u32)
        },
    decreases n,
{
    if n > 0 {
        lemma_poll_2_is_minimum(v, n - 1, now);
        lemma_poll_2_keeps_later_status(v, n - 1, now);
        let (w, r) = poll_2_outcome(v, n - 1, now);
        assert(w.local_connect_status[n - 1] == v.local_connect_status[n - 1]);
        if let Ok(t0) = r {
            let local = v.local_connect_status[n - 1];
            if let Ok(t) = poll_2_outcome(v, n, now).1 {
                assert forall|i: int|
                    0 <= i < n && !(#[trigger] v.local_connect_status[i]).disconnected implies v.local_connect_status[i].last_frame
                        is Some && t <= v.local_connect_status[i].last_frame->0 as u32 by {
                    if i < n - 1 {
                        assert(t0 <= v.local_connect_status[i].last_frame->0 as u32);
                    }
                }
                if t != u32::MAX {
                    if !local.disconnected && t == local.last_frame->0 as u32 {
                        assert(0 <= n - 1 < n && !v.local_connect_status[n - 1].disconnected && t
                            == v.local_connect_status[n - 1].last_frame->0 as u32);
                    } else {
                        assert(t == t0);
                        let k = choose|i: int|
                            0 <= i < n - 1 && !(#[trigger] v.local_connect_status[i]).disconnected && t0
                                == v.local_connect_status[i].last_frame->0 as u32;
                        assert(0 <= k < n && !v.local_connect_status[k].disconnected && t
                            == v.local_connect_status[k].last_frame->0 as u32);
                    }
                }
            }
        }
    }
}

} // verus!
