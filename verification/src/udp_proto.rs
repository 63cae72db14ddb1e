//! The protocol state machine of one endpoint: synchronisation handshake,
//! input transmission and acknowledgement, quality reports, keep-alives and
//! disconnect detection. Sending only queues messages; the caller transmits
//! what `take_outbox` hands out and supplies the clock.
use vstd::prelude::*;
use crate::game_input::{Frame, FrameNum, GameInput, GAMEINPUT_MAX_BYTES, GAMEINPUT_MAX_PLAYERS};
use crate::ggpo;
use crate::player::PeerAddr;
use crate::random::{random_u16, random_u32, random_range_i32};
use crate::time_sync::TimeSync;
use crate::input_queue::frame_lt;
use crate::bitvector::{
    bit_is_set, set_bit, clear_bit, write_nibblet, read_bit, read_nibblet, read_bit_value,
    read_nibble_value, with_bit_set, with_bit_cleared, lemma_read_bit_value, lemma_set_bit_effect, lemma_clear_bit_effect,
};
use crate::udp_msg::{
    ConnectStatus, Header, MsgEnum, MsgType, UdpMsg, MAX_COMPRESSED_BITS, UDP_MSG_MAX_PLAYERS,
    has_payload, is_new_msg, payload_size_spec, saturating_add_spec,
};

verus! {

/// Size of the IP and UDP headers of a packet.
pub const UDP_HEADER_SIZE: usize = 28;

/// Round trips of the synchronisation handshake.
pub const NUM_SYNC_PACKETS: u32 = 5;

/// Milliseconds before a sync request is sent again.
pub const SYNC_RETRY_INTERVAL: u128 = 2000;

/// Milliseconds before the first sync request is sent again.
pub const SYNC_FIRST_RETRY_INTERVAL: u128 = 500;

/// Milliseconds without input before pending input is sent again.
pub const RUNNING_RETRY_INTERVAL: u128 = 200;

/// Milliseconds between keep-alives.
pub const KEEP_ALIVE_INTERVAL: i32 = 200;

/// Milliseconds between quality reports.
pub const QUALITY_REPORT_INTERVAL: u128 = 1000;

/// Milliseconds between network statistics updates.
pub const NETWORK_STATS_INTERVAL: u128 = 1000;

/// Milliseconds a disconnected endpoint waits before it shuts down.
pub const UDP_SHUTDOWN_TIMER: u128 = 5000;

/// Largest forward distance between sequence numbers that is accepted.
pub const MAX_SEQ_DISTANCE: u16 = 32768;

/// Errors of the protocol.
#[derive(Debug, Copy, Clone, PartialEq, Eq, Structural)]
pub enum UdpProtoError {
    CurrentFrameUninit,
    InputFrameUninit,
    StartFrameUninit,
    UdpUninit,
    PendingOutputQueueEmpty,
    PendingOutputItemOOB(usize),
    SendQueueEmpty,
    Udp,
    PeerAddrUninit,
    OOPacketMsgUninit,
    SystemTime,
}

/// Progress of the synchronisation handshake.
#[derive(Debug, Default, Copy, Clone, PartialEq, Eq, Structural)]
pub struct Synchronizing {
    pub total: u32,
    pub count: u32,
}

/// The peer has gone quiet.
#[derive(Debug, Default, Copy, Clone, PartialEq, Eq, Structural)]
pub struct NetworkInterrupted {
    pub disconnect_timeout: u128,
}

/// What an endpoint reports to its owner.
#[derive(Debug, Copy, Clone, PartialEq, Eq)]
pub enum Event {
    Unknown,
    Connected,
    Synchronizing(Synchronizing),
    Synchronzied,
    Input(GameInput),
    Disconnected,
    NetworkInterrupted(NetworkInterrupted),
    NetworkResumed,
}

/// State of the synchronisation handshake.
#[derive(Debug, Default, Copy, Clone, PartialEq, Eq, Structural)]
pub struct Syncing {
    pub roundtrips_remaining: u32,
    pub random: u32,
}

/// Timers of a running connection, in milliseconds.
#[derive(Debug, Default, Copy, Clone, PartialEq, Eq, Structural)]
pub struct Running {
    pub last_quality_report_time: u128,
    pub last_network_stats_interval: u128,
    pub last_input_packet_recv_time: u128,
}

/// Connection state.
#[derive(Debug, Copy, Clone, PartialEq, Eq, Structural)]
pub enum State {
    Syncing(Syncing),
    Synchronized,
    Running(Running),
    Disconnected,
    Starting,
}

/// A queued message, with the time it was queued in milliseconds.
#[derive(Copy, Clone)]
pub struct QueueEntry {
    pub queue_time: u128,
    pub dest_addr: PeerAddr,
    pub msg: UdpMsg,
}

impl QueueEntry {
    /// An entry for `m` to `dst`, queued at `time`.
    pub fn new(time: u128, dst: &PeerAddr, m: UdpMsg) -> (e: QueueEntry)
        ensures
            e.queue_time == time,
            e.dest_addr == *dst,
            e.msg == m,
    {
        QueueEntry { queue_time: time, dest_addr: *dst, msg: m }
    }
}

/// A message held back to be delivered out of order.
#[derive(Copy, Clone)]
pub struct OoPacket {
    pub send_time: u128,
    pub dest_addr: PeerAddr,
    pub msg: Option<UdpMsg>,
}

impl Default for OoPacket {
    /// Nothing held, addressed to port zero of the loopback address.
    fn default() -> (p: OoPacket)
        ensures
            p.send_time == 0,
            p.dest_addr == (PeerAddr { ip: crate::player::IpAddress::V4(0x7f00_0001), port: 0 }),
            p.msg is None,
    {
        OoPacket {
            send_time: 0,
            dest_addr: PeerAddr { ip: crate::player::IpAddress::V4(0x7f00_0001), port: 0 },
            msg: None,
        }
    }
}

/// The caller's reading of the clock (milliseconds since the epoch) and the
/// send jitter it drew for simulated latency (milliseconds).
#[derive(Debug, Copy, Clone, PartialEq, Eq, Structural)]
pub struct Clock {
    pub now: u128,
    pub jitter_ms: u64,
}

/// Whether frame `a` comes before frame `b`.
fn frame_before(a: Frame, b: Frame) -> (r: bool)
    ensures
        r == frame_lt(a, b),
{
    match (a, b) {
        (None, Some(_)) => true,
        (Some(x), Some(y)) => x < y,
        _ => false,
    }
}

/// The state of an endpoint.
pub ghost struct UdpProtocolView {
    pub initialized: bool,
    pub peer_addr: Option<PeerAddr>,
    pub magic_number: u16,
    pub queue: i64,
    pub remote_magic_number: u16,
    pub connected: bool,
    pub send_latency: i32,
    pub oop_percent: i32,
    pub input_size: usize,
    pub oo_packet: OoPacket,
    pub send_queue: Seq<QueueEntry>,
    pub outbox: Seq<QueueEntry>,
    pub round_trip_time: u128,
    pub packets_sent: usize,
    pub bytes_sent: usize,
    pub kbps_sent: usize,
    pub stats_start_time: u128,
    pub local_connect_status: Seq<ConnectStatus>,
    pub peer_connect_status: Seq<ConnectStatus>,
    pub state: State,
    pub local_frame_advantage: i32,
    pub remote_frame_advantage: i32,
    pub pending_output: Seq<GameInput>,
    pub last_received_input: GameInput,
    pub last_sent_input: GameInput,
    pub last_acked_input: GameInput,
    pub last_send_time: u128,
    pub last_recv_time: u128,
    pub shutdown_timeout: u128,
    pub disconnect_event_sent: bool,
    pub disconnect_timeout: u128,
    pub disconnect_notify_start: u128,
    pub disconnect_notify_sent: bool,
    pub next_send_seq: u16,
    pub next_recv_seq: u16,
    pub timesync: crate::time_sync::TimeSyncView,
    pub event_queue: Seq<Event>,
}

/// One endpoint of the protocol.
pub struct UdpProtocol {
    rng: rand::rngs::StdRng,
    initialized: bool,
    peer_addr: Option<PeerAddr>,
    magic_number: u16,
    queue: i64,
    remote_magic_number: u16,
    connected: bool,
    send_latency: i32,
    oop_percent: i32,
    input_size: usize,
    oo_packet: OoPacket,
    send_queue: std::collections::VecDeque<QueueEntry>,
    outbox: Vec<QueueEntry>,
    round_trip_time: u128,
    packets_sent: usize,
    bytes_sent: usize,
    kbps_sent: usize,
    stats_start_time: u128,
    local_connect_status: [ConnectStatus; 4],
    peer_connect_status: [ConnectStatus; 4],
    state: State,
    local_frame_advantage: i32,
    remote_frame_advantage: i32,
    pending_output: std::collections::VecDeque<GameInput>,
    last_received_input: GameInput,
    last_sent_input: GameInput,
    last_acked_input: GameInput,
    last_send_time: u128,
    last_recv_time: u128,
    shutdown_timeout: u128,
    disconnect_event_sent: bool,
    disconnect_timeout: u128,
    disconnect_notify_start: u128,
    disconnect_notify_sent: bool,
    next_send_seq: u16,
    next_recv_seq: u16,
    timesync: TimeSync,
    event_queue: std::collections::VecDeque<Event>,
}

impl View for UdpProtocol {
    type V = UdpProtocolView;

    closed spec fn view(&self) -> UdpProtocolView {
        UdpProtocolView {
            initialized: self.initialized,
            peer_addr: self.peer_addr,
            magic_number: self.magic_number,
            queue: self.queue,
            remote_magic_number: self.remote_magic_number,
            connected: self.connected,
            send_latency: self.send_latency,
            oop_percent: self.oop_percent,
            input_size: self.input_size,
            oo_packet: self.oo_packet,
            send_queue: self.send_queue@,
            outbox: self.outbox@,
            round_trip_time: self.round_trip_time,
            packets_sent: self.packets_sent,
            bytes_sent: self.bytes_sent,
            kbps_sent: self.kbps_sent,
            stats_start_time: self.stats_start_time,
            local_connect_status: self.local_connect_status@,
            peer_connect_status: self.peer_connect_status@,
            state: self.state,
            local_frame_advantage: self.local_frame_advantage,
            remote_frame_advantage: self.remote_frame_advantage,
            pending_output: self.pending_output@,
            last_received_input: self.last_received_input,
            last_sent_input: self.last_sent_input,
            last_acked_input: self.last_acked_input,
            last_send_time: self.last_send_time,
            last_recv_time: self.last_recv_time,
            shutdown_timeout: self.shutdown_timeout,
            disconnect_event_sent: self.disconnect_event_sent,
            disconnect_timeout: self.disconnect_timeout,
            disconnect_notify_start: self.disconnect_notify_start,
            disconnect_notify_sent: self.disconnect_notify_sent,
            next_send_seq: self.next_send_seq,
            next_recv_seq: self.next_recv_seq,
            timesync: self.timesync@,
            event_queue: self.event_queue@,
        }
    }
}

impl UdpProtocolView {
    /// What holds of every endpoint between calls.
    pub open spec fn wf(self) -> bool {
        &&& self.local_connect_status.len() == 4
        &&& self.peer_connect_status.len() == 4
        &&& self.timesync.wf()
        &&& (self.state matches State::Syncing(sy) ==> 1 <= sy.roundtrips_remaining <= NUM_SYNC_PACKETS)
    }
}

impl UdpProtocol {
    /// A fresh endpoint in the starting state, not yet attached to a socket,
    /// using `rng` for its random numbers and simulating `send_latency`
    /// milliseconds of latency and `oop_percent` percent of out-of-order
    /// packets; `now` is the current time.
    pub fn new(rng: rand::rngs::StdRng, send_latency: i32, oop_percent: i32, now: u128) -> (p:
        UdpProtocol)
        ensures
            p@.wf(),
            !p@.initialized,
            p@.peer_addr is None,
            p@.queue == -1,
            p@.magic_number == 0,
            p@.remote_magic_number == 0,
            !p@.connected,
            p@.send_latency == send_latency,
            p@.oop_percent == oop_percent,
            p@.input_size == 0,
            p@.oo_packet.msg is None,
            p@.oo_packet.send_time == 0,
            p@.send_queue.len() == 0,
            p@.outbox.len() == 0,
            p@.round_trip_time == 0,
            p@.packets_sent == 0,
            p@.bytes_sent == 0,
            p@.kbps_sent == 0,
            p@.stats_start_time == 0,
            forall|i: int|
                0 <= i < 4 ==> #[trigger] p@.local_connect_status[i] == (ConnectStatus {
                    disconnected: true,
                    last_frame: None,
                }) && p@.peer_connect_status[i] == (ConnectStatus {
                    disconnected: true,
                    last_frame: None,
                }),
            p@.state == State::Starting,
            p@.local_frame_advantage == 0,
            p@.remote_frame_advantage == 0,
            p@.pending_output.len() == 0,
            p@.last_received_input.frame is None,
            p@.last_sent_input.frame is None,
            p@.last_acked_input.frame is None,
            p@.last_send_time == now,
            p@.last_recv_time == now,
            p@.shutdown_timeout == 0,
            !p@.disconnect_event_sent,
            p@.disconnect_timeout == 0,
            p@.disconnect_notify_start == 0,
            !p@.disconnect_notify_sent,
            p@.next_send_seq == 0,
            p@.next_recv_seq == 0,
            p@.event_queue.len() == 0,
    {
        let status = ConnectStatus::new();
        let addr = PeerAddr { ip: crate::player::IpAddress::V4(0x7f00_0001), port: 0 };
        UdpProtocol {
            rng,
            local_frame_advantage: 0,
            remote_frame_advantage: 0,
            queue: -1,
            magic_number: 0,
            remote_magic_number: 0,
            packets_sent: 0,
            bytes_sent: 0,
            stats_start_time: 0,
            last_send_time: now,
            shutdown_timeout: 0,
            disconnect_timeout: 0,
            disconnect_notify_start: 0,
            disconnect_notify_sent: false,
            disconnect_event_sent: false,
            connected: false,
            next_send_seq: 0,
            next_recv_seq: 0,
            initialized: false,
            last_sent_input: GameInput::new(),
            last_received_input: GameInput::new(),
            last_acked_input: GameInput::new(),
            peer_connect_status: [status; 4],
            peer_addr: None,
            send_latency,
            oop_percent,
            input_size: 0,
            oo_packet: OoPacket { send_time: 0, dest_addr: addr, msg: None },
            send_queue: std::collections::VecDeque::new(),
            outbox: Vec::new(),
            round_trip_time: 0,
            kbps_sent: 0,
            local_connect_status: [status; 4],
            state: State::Starting,
            pending_output: std::collections::VecDeque::new(),
            last_recv_time: now,
            timesync: TimeSync::new(),
            event_queue: std::collections::VecDeque::new(),
        }
    }

    /// Attaches the endpoint to queue `queue` and the peer at `addr`, takes
    /// over the local connection status and the session's input size (the
    /// size of every input received from the peer) and draws a random magic
    /// number.
    pub fn init(&mut self, queue: u32, addr: PeerAddr, status: &[ConnectStatus; 4], input_size: usize)
        requires
            old(self)@.wf(),
        ensures
            final(self)@.wf(),
            final(self)@ == (UdpProtocolView {
                initialized: true,
                queue: queue as i64,
                input_size,
                local_connect_status: status@,
                peer_addr: Some(addr),
                magic_number: final(self)@.magic_number,
                ..old(self)@
            }),
    {
        self.initialized = true;
        self.queue = queue as i64;
        self.input_size = input_size;
        self.local_connect_status = *status;
        self.peer_addr = Some(addr);
        self.magic_number = random_u16(&mut self.rng);
    }

    /// The peer's address, once attached.
    pub fn peer_addr(&self) -> (a: Option<PeerAddr>)
        ensures
            a == self@.peer_addr,
    {
        self.peer_addr
    }

    /// Whether the endpoint is attached to a socket.
    pub fn is_initialized(&self) -> (b: bool)
        ensures
            b == self@.initialized,
    {
        self.initialized
    }

    /// Whether the handshake has completed and the endpoint waits to run.
    pub fn is_sychronized(&self) -> (b: bool)
        ensures
            b == (self@.state == State::Synchronized),
    {
        match self.state {
            State::Synchronized => true,
            _ => false,
        }
    }

    /// Whether the endpoint is running.
    pub fn is_running(&self) -> (b: bool)
        ensures
            b == (self@.state is Running),
    {
        match self.state {
            State::Running(_) => true,
            _ => false,
        }
    }

    /// Takes the oldest queued event into `event`; returns false, leaving
    /// `event` as it was, when there is none.
    pub fn get_event(&mut self, event: &mut Event) -> (got: bool)
        ensures
            got == (old(self)@.event_queue.len() > 0),
            got ==> *final(event) == old(self)@.event_queue[0] && final(self)@ == (
            UdpProtocolView { event_queue: old(self)@.event_queue.drop_first(), ..old(self)@ }),
            !got ==> *final(event) == *old(event) && final(self)@ == old(self)@,
    {
        if let Some(e) = self.event_queue.pop_front() {
            *event = e;
            return true;
        }
        false
    }

    /// Queues `event` for the owner.
    pub fn queue_event(&mut self, event: Event)
        ensures
            final(self)@ == (UdpProtocolView {
                event_queue: old(self)@.event_queue.push(event),
                ..old(self)@
            }),
    {
        self.event_queue.push_back(event);
    }

    /// Enters the disconnected state; the endpoint shuts down
    /// `UDP_SHUTDOWN_TIMER` milliseconds after `now`.
    pub fn disconnect(&mut self, now: u128) -> (r: Result<(), UdpProtoError>)
        requires
            now + UDP_SHUTDOWN_TIMER <= u128::MAX,
        ensures
            r is Ok,
            final(self)@ == (UdpProtocolView {
                state: State::Disconnected,
                shutdown_timeout: (now + UDP_SHUTDOWN_TIMER) as u128,
                ..old(self)@
            }),
    {
        self.state = State::Disconnected;
        self.shutdown_timeout = now + UDP_SHUTDOWN_TIMER;
        Ok(())
    }

    /// Takes over the local connection status that the session shares with
    /// all of its endpoints.
    pub fn set_local_connect_status(&mut self, status: &[ConnectStatus; 4])
        ensures
            final(self)@ == (UdpProtocolView { local_connect_status: status@, ..old(self)@ }),
    {
        self.local_connect_status = *status;
    }

    /// Whether a message from `from` is for this endpoint: it comes from the
    /// peer's address. Fails when the endpoint is not attached or has no peer.
    pub fn handles_msg(&mut self, from: &PeerAddr, _msg: &UdpMsg) -> (r: Result<
        bool,
        UdpProtoError,
    >)
        ensures
            final(self)@ == old(self)@,
            !old(self)@.initialized ==> r == Err::<bool, UdpProtoError>(UdpProtoError::UdpUninit),
            old(self)@.initialized && old(self)@.peer_addr is None ==> r == Err::<
                bool,
                UdpProtoError,
            >(UdpProtoError::PeerAddrUninit),
            old(self)@.initialized && old(self)@.peer_addr is Some ==> r == Ok::<
                bool,
                UdpProtoError,
            >(old(self)@.peer_addr->0 == *from),
    {
        if !self.initialized {
            return Err(UdpProtoError::UdpUninit);
        }
        match self.peer_addr {
            Some(a) => Ok(a == *from),
            None => Err(UdpProtoError::PeerAddrUninit),
        }
    }

    /// The last frame received from player `id` and whether that player is
    /// still connected, as the peer reported them.
    pub fn get_peer_connect_status(&self, id: usize) -> (r: (Frame, bool))
        requires
            self@.wf(),
            id < UDP_MSG_MAX_PLAYERS,
        ensures
            r.0 == self@.peer_connect_status[id as int].last_frame,
            r.1 == !self@.peer_connect_status[id as int].disconnected,
    {
        (self.peer_connect_status[id].last_frame, !self.peer_connect_status[id].disconnected)
    }

    /// Handles a message of invalid type: it is not handled.
    pub fn on_invalid(&mut self, _msg: &UdpMsg) -> (r: Result<bool, UdpProtoError>)
        ensures
            r == Ok::<bool, UdpProtoError>(false),
            final(self)@ == old(self)@,
    {
        Ok(false)
    }

    /// Handles a keep-alive: nothing to do but count it as handled.
    pub fn on_keep_alive(&self, _msg: &UdpMsg) -> (r: Result<bool, UdpProtoError>)
        ensures
            r == Ok::<bool, UdpProtoError>(true),
    {
        Ok(true)
    }

    /// The connection's statistics.
    pub fn get_network_stats(&self) -> (s: ggpo::NetworkStats)
        ensures
            s == (ggpo::NetworkStats {
                network: ggpo::Network {
                    ping: self@.round_trip_time as usize,
                    send_queue_len: self@.pending_output.len() as usize,
                    kbps_sent: self@.kbps_sent,
                    recv_queue_len: 0,
                },
                timesync: ggpo::TimeSync {
                    remote_frames_behind: self@.remote_frame_advantage,
                    local_frames_behind: self@.local_frame_advantage,
                },
            }),
    {
        ggpo::NetworkStats {
            network: ggpo::Network {
                ping: self.round_trip_time as usize,
                send_queue_len: self.pending_output.len(),
                kbps_sent: self.kbps_sent,
                recv_queue_len: 0,
            },
            timesync: ggpo::TimeSync {
                remote_frames_behind: self.remote_frame_advantage,
                local_frames_behind: self.local_frame_advantage,
            },
        }
    }

    /// The frame the peer is estimated to be on: the last frame received
    /// from it plus the frames that pass during one round trip at 60 frames
    /// per second.
    pub open spec fn estimated_remote_frame(v: UdpProtocolView) -> int {
        let last: int = match v.last_received_input.frame {
            Some(f) => f as int,
            None => 0,
        };
        last + (v.round_trip_time as usize) * 60 / 1000
    }

    /// The inputs on which `set_local_frame_number` does not overflow.
    pub open spec fn frame_number_ok(v: UdpProtocolView, local_frame: FrameNum) -> bool {
        &&& (v.round_trip_time as usize) * 60 <= usize::MAX
        &&& Self::estimated_remote_frame(v) <= usize::MAX
        &&& i64::MIN <= (Self::estimated_remote_frame(v) as usize as i64) - (local_frame as i64)
            <= i64::MAX
    }

    /// Records how many frames this side is behind the peer: the estimated
    /// remote frame minus `local_frame`.
    pub fn set_local_frame_number(&mut self, local_frame: FrameNum)
        requires
            Self::frame_number_ok(old(self)@, local_frame),
        ensures
            final(self)@ == (UdpProtocolView {
                local_frame_advantage: ((Self::estimated_remote_frame(old(self)@) as usize as i64)
                    - (local_frame as i64)) as i32,
                ..old(self)@
            }),
    {
        let last = match self.last_received_input.frame {
            Some(f) => f,
            None => 0,
        };
        let rtt = self.round_trip_time as usize;
        let remote_frame = last + (rtt * 60 / 1000);
        let diff: i64 = remote_frame as i64 - local_frame as i64;
        self.local_frame_advantage = diff as i32;
    }

    /// Recommends how many frames to wait, from `sleep_frames` (the rounded
    /// half difference of the averaged advantages, see
    /// `TimeSync::recommend_frame_wait_duration`), without requiring idle
    /// input.
    pub fn recommend_frame_delay(&mut self, sleep_frames: Option<i32>) -> (wait: u32)
        requires
            old(self)@.wf(),
        ensures
            final(self)@ == old(self)@,
            wait == crate::time_sync::recommended_wait(old(self)@.timesync, false, sleep_frames),
    {
        let mut count: usize = 0;
        let w = self.timesync.recommend_frame_wait_duration(false, &mut count, sleep_frames);
        w as u32
    }

    /// The time synchronisation state, from which `recommend_frame_delay`'s
    /// argument is computed.
    pub fn time_sync(&self) -> (t: &TimeSync)
        ensures
            t@ == self@.timesync,
    {
        &self.timesync
    }

    /// Sets the milliseconds of silence after which the peer is disconnected.
    pub fn set_disconnect_timeout(&mut self, timeout: u128)
        ensures
            final(self)@ == (UdpProtocolView { disconnect_timeout: timeout, ..old(self)@ }),
    {
        self.disconnect_timeout = timeout;
    }

    /// Sets the milliseconds of silence after which an interruption is
    /// reported.
    pub fn set_disconnect_notify_start(&mut self, timeout: u128)
        ensures
            final(self)@ == (UdpProtocolView { disconnect_notify_start: timeout, ..old(self)@ }),
    {
        self.disconnect_notify_start = timeout;
    }

    /// Drops every queued message.
    pub fn clear_send_queue(&mut self)
        ensures
            final(self)@ == (UdpProtocolView { send_queue: Seq::empty(), ..old(self)@ }),
    {
        self.send_queue.clear();
    }

    /// Hands out the messages that are due to be sent, oldest first, and
    /// forgets them.
    pub fn take_outbox(&mut self) -> (out: Vec<QueueEntry>)
        ensures
            out@ == old(self)@.outbox,
            final(self)@ == (UdpProtocolView { outbox: Seq::empty(), ..old(self)@ }),
    {
        let mut out: Vec<QueueEntry> = Vec::new();
        std::mem::swap(&mut out, &mut self.outbox);
        out
    }

    /// Whether the messages `sent` are the messages `taken` from the send
    /// queue, except that (only when out-of-order packets are simulated and
    /// none is held yet) one of them may have been held back as the
    /// out-of-order packet, stamped with `now`.
    pub open spec fn held_back(
        taken: Seq<QueueEntry>,
        sent: Seq<QueueEntry>,
        oop_percent: i32,
        before: OoPacket,
        after: OoPacket,
        now: u128,
    ) -> bool {
        ||| (sent == taken && after == before)
        ||| (oop_percent > 0 && before.msg is None && exists|i: int|
            0 <= i < taken.len() && sent == taken.remove(i) && after == (OoPacket {
                send_time: now,
                dest_addr: taken[i].dest_addr,
                msg: Some(taken[i].msg),
            }))
    }

    /// Whether a held-back packet is due: it was held before `now`.
    pub open spec fn oop_due(oo: OoPacket, now: u128) -> bool {
        oo.msg is Some && oo.send_time < now
    }

    /// The outbox entry of a held-back packet.
    pub open spec fn oop_entry(oo: OoPacket) -> QueueEntry {
        QueueEntry { queue_time: oo.send_time, dest_addr: oo.dest_addr, msg: oo.msg->0 }
    }

    /// What `pump_send_queue` does: it takes messages from the front of the
    /// send queue in order and puts them in the outbox, each one due (with
    /// latency simulated, its queue time plus the jitter has passed),
    /// stopping early only when latency is simulated and the next message is
    /// not due yet, possibly holding one back as an out-of-order packet; a held
    /// packet from an earlier call whose time has passed goes to the outbox
    /// last. It fails, with what was done so far, when a message is due but
    /// the endpoint is not attached.
    pub open spec fn pump_outcome(
        before: UdpProtocolView,
        after: UdpProtocolView,
        clock: Clock,
        r: Result<(), UdpProtoError>,
    ) -> bool {
        let q = before.send_queue;
        exists|k: int, sent: Seq<QueueEntry>, mid: OoPacket|
            #![trigger Self::held_back(q.take(k), sent, before.oop_percent, before.oo_packet, mid, clock.now)]
            {
                &&& 0 <= k <= q.len()
                &&& forall|j: int|
                    0 <= j < k ==> before.send_latency <= 0 || (#[trigger] q[j]).queue_time
                        + clock.jitter_ms <= clock.now
                &&& Self::held_back(
                    q.take(k),
                    sent,
                    before.oop_percent,
                    before.oo_packet,
                    mid,
                    clock.now,
                )
                &&& after == (UdpProtocolView {
                    send_queue: q.skip(k),
                    outbox: after.outbox,
                    oo_packet: after.oo_packet,
                    ..before
                })
                &&& match r {
                    Ok(_) => {
                        &&& (sent.len() > 0 ==> before.initialized)
                        &&& (k < q.len() ==> before.send_latency > 0 && clock.now < q[k].queue_time
                            + clock.jitter_ms)
                        &&& if Self::oop_due(mid, clock.now) {
                            &&& before.initialized
                            &&& after.outbox == before.outbox + sent + seq![Self::oop_entry(mid)]
                            &&& after.oo_packet == (OoPacket { msg: None, ..mid })
                        } else {
                            after.outbox == before.outbox + sent && after.oo_packet == mid
                        }
                    },
                    Err(e) => {
                        &&& e == UdpProtoError::UdpUninit
                        &&& !before.initialized
                        &&& after.outbox == before.outbox + sent
                        &&& after.oo_packet == mid
                    },
                }
            }
    }

    /// The clocks for which pumping does not overflow: every queued message's
    /// time plus the jitter stays within range.
    pub open spec fn clock_ok(v: UdpProtocolView, clock: Clock) -> bool {
        &&& clock.now + clock.jitter_ms <= u128::MAX
        &&& forall|i: int|
            0 <= i < v.send_queue.len() ==> #[trigger] v.send_queue[i].queue_time + clock.jitter_ms
                <= u128::MAX
    }

    /// Moves the messages that are due from the send queue to the outbox,
    /// simulating latency and out-of-order delivery when configured: with a
    /// latency set, a message leaves only once its queue time plus the
    /// jitter has passed.
    pub fn pump_send_queue(&mut self, clock: Clock) -> (r: Result<(), UdpProtoError>)
        requires
            Self::clock_ok(old(self)@, clock),
        ensures
            Self::pump_outcome(old(self)@, final(self)@, clock, r),
    {
        let ghost q0 = self@.send_queue;
        let ghost out0 = self@.outbox;
        let ghost oo0 = self@.oo_packet;
        let ghost mut k: int = 0;
        let ghost mut sent: Seq<QueueEntry> = Seq::empty();
        proof {
            assert(q0.take(0) =~= Seq::<QueueEntry>::empty());
            assert(q0.skip(0) =~= q0);
            assert(out0 + sent =~= out0);
        }
        while self.send_queue.len() > 0
            invariant
                0 <= k <= q0.len(),
                self.send_queue@ == q0.skip(k),
                self.outbox@ == out0 + sent,
                Self::held_back(
                    q0.take(k),
                    sent,
                    old(self)@.oop_percent,
                    oo0,
                    self.oo_packet,
                    clock.now,
                ),
                self@ == (UdpProtocolView {
                    send_queue: self@.send_queue,
                    outbox: self@.outbox,
                    oo_packet: self@.oo_packet,
                    ..old(self)@
                }),
                q0 == old(self)@.send_queue,
                out0 == old(self)@.outbox,
                oo0 == old(self)@.oo_packet,
                Self::clock_ok(old(self)@, clock),
                sent.len() > 0 ==> old(self)@.initialized,
                forall|j: int|
                    0 <= j < k ==> old(self)@.send_latency <= 0 || (#[trigger] q0[j]).queue_time
                        + clock.jitter_ms <= clock.now,
            ensures
                sent.len() > 0 ==> old(self)@.initialized,
                forall|j: int|
                    0 <= j < k ==> old(self)@.send_latency <= 0 || (#[trigger] q0[j]).queue_time
                        + clock.jitter_ms <= clock.now,
                0 <= k <= q0.len(),
                self.send_queue@ == q0.skip(k),
                self.outbox@ == out0 + sent,
                Self::held_back(
                    q0.take(k),
                    sent,
                    old(self)@.oop_percent,
                    oo0,
                    self.oo_packet,
                    clock.now,
                ),
                self@ == (UdpProtocolView {
                    send_queue: self@.send_queue,
                    outbox: self@.outbox,
                    oo_packet: self@.oo_packet,
                    ..old(self)@
                }),
                k < q0.len() ==> self.send_latency > 0 && clock.now < q0[k].queue_time
                    + clock.jitter_ms,
            decreases self.send_queue@.len(),
        {
            let entry = self.send_queue[0];
            proof {
                assert(entry == q0[k]);
            }
            if self.send_latency > 0 {
                if clock.now < entry.queue_time + clock.jitter_ms as u128 {
                    break;
                }
            }
            let hold = if self.oop_percent > 0 && self.oo_packet.msg.is_none() {
                random_range_i32(&mut self.rng, 0, 100) < self.oop_percent
            } else {
                false
            };
            let ghost taken = q0.take(k);
            if hold {
                self.oo_packet.send_time = clock.now;
                self.oo_packet.msg = Some(entry.msg);
                self.oo_packet.dest_addr = entry.dest_addr;
                proof {
                    assert(q0.take(k + 1).remove(k) =~= taken);
                    assert(sent == taken);
                }
            } else {
                if !self.initialized {
                    proof {
                        Self::lemma_pump_witness(old(self)@, self@, clock, Err(UdpProtoError::UdpUninit), k, sent, self@.oo_packet);
                    }
                    return Err(UdpProtoError::UdpUninit);
                }
                self.outbox.push(entry);
                proof {
                    let old_sent = sent;
                    sent = sent.push(entry);
                    if old_sent == taken {
                        assert(q0.take(k + 1) =~= taken.push(entry));
                    } else {
                        let i = choose|i: int|
                            0 <= i < taken.len() && old_sent == taken.remove(i) && self.oo_packet
                                == (OoPacket {
                                send_time: clock.now,
                                dest_addr: taken[i].dest_addr,
                                msg: Some(taken[i].msg),
                            });
                        assert(q0.take(k + 1).remove(i) =~= taken.remove(i).push(entry));
                    }
                }
            }
            self.send_queue.pop_front();
            proof {
                k = k + 1;
                assert(self.send_queue@ =~= q0.skip(k));
            }
        }
        let ghost mid = self.oo_packet;
        let due = match self.oo_packet.msg {
            Some(_) => self.oo_packet.send_time < clock.now,
            None => false,
        };
        if due {
            if !self.initialized {
                proof {
                    Self::lemma_pump_witness(old(self)@, self@, clock, Err(UdpProtoError::UdpUninit), k, sent, mid);
                }
                return Err(UdpProtoError::UdpUninit);
            }
            if let Some(m) = self.oo_packet.msg {
                self.outbox.push(
                    QueueEntry {
                        queue_time: self.oo_packet.send_time,
                        dest_addr: self.oo_packet.dest_addr,
                        msg: m,
                    },
                );
            }
            self.oo_packet.msg = None;
            proof {
                assert(self@.outbox =~= out0 + sent + seq![Self::oop_entry(mid)]);
            }
        }
        proof {
            Self::lemma_pump_witness(old(self)@, self@, clock, Ok(()), k, sent, mid);
        }
        Ok(())
    }

    proof fn lemma_pump_witness(
        before: UdpProtocolView,
        after: UdpProtocolView,
        clock: Clock,
        r: Result<(), UdpProtoError>,
        k: int,
        sent: Seq<QueueEntry>,
        mid: OoPacket,
    )
        requires
            0 <= k <= before.send_queue.len(),
            forall|j: int|
                0 <= j < k ==> before.send_latency <= 0 || (#[trigger] before.send_queue[j]).queue_time
                    + clock.jitter_ms <= clock.now,
            Self::held_back(
                before.send_queue.take(k),
                sent,
                before.oop_percent,
                before.oo_packet,
                mid,
                clock.now,
            ),
            after == (UdpProtocolView {
                send_queue: before.send_queue.skip(k),
                outbox: after.outbox,
                oo_packet: after.oo_packet,
                ..before
            }),
            match r {
                Ok(_) => {
                    &&& (sent.len() > 0 ==> before.initialized)
                    &&& (k < before.send_queue.len() ==> before.send_latency > 0 && clock.now
                        < before.send_queue[k].queue_time + clock.jitter_ms)
                    &&& if Self::oop_due(mid, clock.now) {
                        &&& before.initialized
                        &&& after.outbox == before.outbox + sent + seq![Self::oop_entry(mid)]
                        &&& after.oo_packet == (OoPacket { msg: None, ..mid })
                    } else {
                        after.outbox == before.outbox + sent && after.oo_packet == mid
                    }
                },
                Err(e) => {
                    &&& e == UdpProtoError::UdpUninit
                    &&& !before.initialized
                    &&& after.outbox == before.outbox + sent
                    &&& after.oo_packet == mid
                },
            },
        ensures
            Self::pump_outcome(before, after, clock, r),
    {
    }

    /// The sequence number after `n`, wrapping around.
    pub open spec fn next_seq(n: u16) -> u16 {
        if n == 65535 {
            0
        } else {
            (n + 1) as u16
        }
    }

    /// `msg` stamped with this endpoint's magic number and the next sequence
    /// number.
    pub open spec fn stamped(v: UdpProtocolView, msg: UdpMsg) -> UdpMsg {
        UdpMsg {
            header: Header {
                magic: v.magic_number,
                sequence_number: Self::next_seq(v.next_send_seq),
                ..msg.header
            },
            ..msg
        }
    }

    /// The endpoint after counting `msg` as sent at `now`.
    pub open spec fn counted(v: UdpProtocolView, msg: UdpMsg, now: u128) -> UdpProtocolView {
        UdpProtocolView {
            packets_sent: v.packets_sent.saturating_add(1),
            last_send_time: now,
            bytes_sent: v.bytes_sent.saturating_add(
                saturating_add_spec(
                    vstd::layout::size_of::<Header>() as int,
                    payload_size_spec(msg),
                ) as usize,
            ),
            next_send_seq: Self::next_seq(v.next_send_seq),
            ..v
        }
    }

    /// What `send_msg(msg)` does: it counts the message, stamps it, queues it
    /// for the peer and pumps the send queue; without a peer it fails after
    /// counting.
    pub open spec fn sent_msg(
        before: UdpProtocolView,
        after: UdpProtocolView,
        msg: UdpMsg,
        clock: Clock,
        r: Result<(), UdpProtoError>,
    ) -> bool {
        let c = Self::counted(before, msg, clock.now);
        match before.peer_addr {
            None => r == Err::<(), UdpProtoError>(UdpProtoError::PeerAddrUninit) && after == c,
            Some(a) => Self::pump_outcome(
                UdpProtocolView {
                    send_queue: c.send_queue.push(
                        QueueEntry {
                            queue_time: clock.now,
                            dest_addr: a,
                            msg: Self::stamped(before, msg),
                        },
                    ),
                    ..c
                },
                after,
                clock,
                r,
            ),
        }
    }

    /// Pumping keeps the endpoint well formed and the clock usable.
    proof fn lemma_pump_keeps(before: UdpProtocolView, after: UdpProtocolView, clock: Clock, r: Result<(), UdpProtoError>)
        requires
            Self::pump_outcome(before, after, clock, r),
            before.wf(),
            Self::clock_ok(before, clock),
        ensures
            after.wf(),
            Self::clock_ok(after, clock),
            after.event_queue == before.event_queue,
            after.state == before.state,
    {
        let q = before.send_queue;
        let (k, sent, mid) = choose|k: int, sent: Seq<QueueEntry>, mid: OoPacket|
            #![trigger Self::held_back(q.take(k), sent, before.oop_percent, before.oo_packet, mid, clock.now)]
            {
                &&& 0 <= k <= q.len()
                &&& Self::held_back(
                    q.take(k),
                    sent,
                    before.oop_percent,
                    before.oo_packet,
                    mid,
                    clock.now,
                )
                &&& after == (UdpProtocolView {
                    send_queue: q.skip(k),
                    outbox: after.outbox,
                    oo_packet: after.oo_packet,
                    ..before
                })
            };
        assert forall|i: int| 0 <= i < after.send_queue.len() implies #[trigger] after.send_queue[i].queue_time + clock.jitter_ms <= u128::MAX by {
            assert(after.send_queue[i] == q[i + k]);
        }
    }

    /// Counts, stamps and queues `msg` for the peer, then pumps the send queue.
    pub fn send_msg(&mut self, msg: &mut UdpMsg, clock: Clock) -> (r: Result<(), UdpProtoError>)
        requires
            old(self)@.wf(),
            has_payload(*old(msg)),
            Self::clock_ok(old(self)@, clock),
        ensures
            *final(msg) == Self::stamped(old(self)@, *old(msg)),
            Self::sent_msg(old(self)@, final(self)@, *old(msg), clock, r),
            final(self)@.wf(),
            Self::clock_ok(final(self)@, clock),
            final(self)@.event_queue == old(self)@.event_queue,
            final(self)@.state == old(self)@.state,
    {
        let ghost v0 = self@;
        let ghost m0 = *msg;
        self.packets_sent = self.packets_sent.saturating_add(1);
        self.last_send_time = clock.now;
        self.bytes_sent = self.bytes_sent.saturating_add(msg.packet_size());
        msg.header.magic = self.magic_number;
        self.next_send_seq = if self.next_send_seq == 65535 {
            0
        } else {
            self.next_send_seq + 1
        };
        msg.header.sequence_number = self.next_send_seq;
        let dest_addr = match self.peer_addr {
            Some(a) => a,
            None => {
                return Err(UdpProtoError::PeerAddrUninit);
            },
        };
        self.send_queue.push_back(QueueEntry { dest_addr, msg: *msg, queue_time: clock.now });
        proof {
            assert(*msg == Self::stamped(v0, m0));
            let c = Self::counted(v0, m0, clock.now);
            let qd = UdpProtocolView {
                send_queue: c.send_queue.push(
                    QueueEntry { queue_time: clock.now, dest_addr, msg: Self::stamped(v0, m0) },
                ),
                ..c
            };
            assert(self@ == qd);
            assert(Self::clock_ok(qd, clock)) by {
                assert forall|i: int| 0 <= i < qd.send_queue.len() implies #[trigger] qd.send_queue[i].queue_time + clock.jitter_ms <= u128::MAX by {
                    if i < v0.send_queue.len() {
                        assert(qd.send_queue[i] == v0.send_queue[i]);
                    }
                }
            }
        }
        let ghost mid = self@;
        let r = self.pump_send_queue(clock);
        proof {
            Self::lemma_pump_keeps(mid, self@, clock, r);
        }
        r
    }

    /// What `on_sync_request` does: a request from a peer other than the
    /// known one (another magic number, once one is known) is refused;
    /// otherwise a reply echoing the request's nonce is sent.
    pub open spec fn on_sync_request_outcome(
        before: UdpProtocolView,
        after: UdpProtocolView,
        msg: UdpMsg,
        clock: Clock,
        r: Result<bool, UdpProtoError>,
    ) -> bool {
        let foreign = before.remote_magic_number != 0 && msg.header.magic
            != before.remote_magic_number;
        &&& foreign ==> r == Ok::<bool, UdpProtoError>(false) && after == before
        &&& !foreign ==> {
            &&& Self::sent_msg(
                before,
                after,
                Self::sync_reply_msg(Self::echoed_random(msg)),
                clock,
                Self::unit_result(r),
            )
            &&& r is Ok ==> r == Ok::<bool, UdpProtoError>(true)
        }
    }

    /// What `on_quality_report` does: a reply echoing the report's clock
    /// (zero when the message carries no report) is sent.
    pub open spec fn on_quality_report_outcome(
        before: UdpProtocolView,
        after: UdpProtocolView,
        msg: UdpMsg,
        clock: Clock,
        r: Result<bool, UdpProtoError>,
    ) -> bool {
        let ping = match msg.message {
            MsgEnum::QualityReport(rep) => rep.ping,
            _ => 0,
        };
        &&& Self::sent_msg(before, after, Self::quality_reply_msg(ping), clock, Self::unit_result(r))
        &&& r is Ok ==> r == Ok::<bool, UdpProtoError>(true)
    }

    /// What `on_sync_reply` does: outside the handshake it only tells
    /// whether the magic number is the peer's; during the handshake, a reply
    /// that is not a sync reply is ignored and one with another nonce
    /// refused. A matching reply connects the endpoint; on the last round
    /// trip it reports the endpoint synchronised and starts running with the
    /// peer's magic number, otherwise it reports the progress and sends the
    /// next request.
    pub open spec fn on_sync_reply_outcome(
        before: UdpProtocolView,
        after: UdpProtocolView,
        msg: UdpMsg,
        clock: Clock,
        r: Result<bool, UdpProtoError>,
    ) -> bool {
        match before.state {
            State::Syncing(sy) => match msg.message {
                MsgEnum::SyncReply(rep) => if rep.random_reply != sy.random {
                    r == Ok::<bool, UdpProtoError>(false) && after == before
                } else {
                    let c = Self::after_connect(before);
                    if sy.roundtrips_remaining == 1 {
                        &&& r == Ok::<bool, UdpProtoError>(true)
                        &&& after == (UdpProtocolView {
                            event_queue: c.event_queue.push(Event::Synchronzied),
                            state: State::Running(
                                Running {
                                    last_quality_report_time: 0,
                                    last_network_stats_interval: 0,
                                    last_input_packet_recv_time: 0,
                                },
                            ),
                            last_received_input: GameInput { frame: None, ..c.last_received_input },
                            remote_magic_number: msg.header.magic,
                            ..c
                        })
                    } else {
                        let progress = Synchronizing {
                            total: NUM_SYNC_PACKETS,
                            count: (NUM_SYNC_PACKETS - sy.roundtrips_remaining) as u32,
                        };
                        &&& Self::sent_sync_request(
                            UdpProtocolView {
                                event_queue: c.event_queue.push(Event::Synchronizing(progress)),
                                ..c
                            },
                            after,
                            clock,
                            Self::unit_result(r),
                        )
                        &&& r is Ok ==> r == Ok::<bool, UdpProtoError>(true)
                    }
                },
                _ => r == Ok::<bool, UdpProtoError>(true) && after == before,
            },
            _ => r == Ok::<bool, UdpProtoError>(msg.header.magic == before.remote_magic_number)
                && after == before,
        }
    }

    /// What `on_input` does: a message without input is ignored;
    /// otherwise the peer's disconnect request and connection status are
    /// taken (see `after_input_control`), a malformed message is an error
    /// (see `input_error`), the inputs it carries are decoded and delivered
    /// as events, and the acknowledged inputs are dropped.
    pub open spec fn on_input_outcome(
        before: UdpProtocolView,
        after: UdpProtocolView,
        msg: UdpMsg,
        now: u128,
        r: Result<bool, UdpProtoError>,
    ) -> bool {
        &&& !(msg.message is Input) ==> r == Ok::<bool, UdpProtoError>(true) && after == before
        &&& msg.message matches MsgEnum::Input(input) ==> {
                    let v1 = Self::after_input_control(before, input);
                    match Self::input_error(v1, input) {
                        Some(e) => {
                            &&& r == Err::<bool, UdpProtoError>(e)
                            &&& after == (UdpProtocolView {
                                last_received_input: after.last_received_input,
                                ..v1
                            })
                            &&& after.last_received_input.size == before.input_size
                            &&& after.last_received_input.frame == v1.last_received_input.frame
                            &&& after.last_received_input.bits_view() == v1.last_received_input.bits_view()
                        },
                        None => {
                            &&& r == Ok::<bool, UdpProtoError>(true)
                            &&& if input.num_bits == 0 {
                                after == Self::after_ack(v1, input.ack_frame)
                            } else {
                                let d = decode_frames(
                                    input.bits@,
                                    input.num_bits as int,
                                    Self::initial_decoding(v1, input),
                                )->0;
                                let v2 = Self::after_ack(v1, input.ack_frame);
                                &&& after == (UdpProtocolView {
                                    last_received_input: after.last_received_input,
                                    event_queue: after.event_queue,
                                    state: after.state,
                                    ..v2
                                })
                                &&& after.last_received_input.size == before.input_size
                                &&& after.last_received_input.frame == d.frame
                                &&& after.last_received_input.bits_view() == d.bits
                                &&& after.event_queue.len() == v1.event_queue.len() + d.delivered.len()
                                &&& after.event_queue.take(v1.event_queue.len() as int) == v1.event_queue
                                &&& delivered_events(
                                    after.event_queue.skip(v1.event_queue.len() as int),
                                    d.delivered,
                                    before.input_size,
                                )
                                &&& after.state == if d.delivered.len() > 0 && v1.state is Running {
                                    State::Running(
                                        Running { last_input_packet_recv_time: now, ..v1.state->Running_0 },
                                    )
                                } else {
                                    v1.state
                                }
                            }
                        },
                    }
            }
    }

    /// The outcome of a send, without the handler's flag.
    pub open spec fn unit_result(r: Result<bool, UdpProtoError>) -> Result<(), UdpProtoError> {
        match r {
            Ok(_) => Ok(()),
            Err(e) => Err(e),
        }
    }

    /// A fresh input acknowledgement: it acknowledges frame 31.
    pub open spec fn input_ack_msg() -> UdpMsg {
        UdpMsg {
            header: Header { magic: 0, sequence_number: 0, packet_type: MsgType::InputAck },
            message: MsgEnum::InputAck(crate::udp_msg::InputAck { ack_frame: Some(31usize) }),
        }
    }

    /// A sync request carrying `random`.
    pub open spec fn sync_request_msg(random: u32) -> UdpMsg {
        UdpMsg {
            header: Header { magic: 0, sequence_number: 0, packet_type: MsgType::SyncRequest },
            message: MsgEnum::SyncRequest(
                crate::udp_msg::SyncRequest { random_request: random, remote_magic: 0, remote_endpoint: 0 },
            ),
        }
    }

    /// What `send_sync_request` does: while synchronising it draws a new
    /// 16-bit nonce, keeps it in the state and sends a sync request with it;
    /// otherwise nothing.
    pub open spec fn sent_sync_request(
        before: UdpProtocolView,
        after: UdpProtocolView,
        clock: Clock,
        r: Result<(), UdpProtoError>,
    ) -> bool {
        match before.state {
            State::Syncing(sy) => {
                let rnd = after.state->Syncing_0.random;
                &&& after.state is Syncing
                &&& rnd <= 0xFFFF
                &&& Self::sent_msg(
                    UdpProtocolView { state: State::Syncing(Syncing { random: rnd, ..sy }), ..before },
                    after,
                    Self::sync_request_msg(rnd),
                    clock,
                    r,
                )
            },
            _ => r is Ok && after == before,
        }
    }

    /// While synchronising, sends a sync request with a fresh nonce.
    pub fn send_sync_request(&mut self, clock: Clock) -> (r: Result<(), UdpProtoError>)
        requires
            old(self)@.wf(),
            Self::clock_ok(old(self)@, clock),
        ensures
            Self::sent_sync_request(old(self)@, final(self)@, clock, r),
            final(self)@.wf(),
            Self::clock_ok(final(self)@, clock),
            final(self)@.event_queue == old(self)@.event_queue,
            final(self)@.state is Syncing <==> old(self)@.state is Syncing,
            old(self)@.state is Syncing ==> final(self)@.state->Syncing_0.roundtrips_remaining
                == old(self)@.state->Syncing_0.roundtrips_remaining,
            !(old(self)@.state is Syncing) ==> final(self)@.state == old(self)@.state,
    {
        if let State::Syncing(sy) = self.state {
            let raw: u32 = random_u32(&mut self.rng);
            let rnd: u32 = raw & 0xFFFF;
            assert(rnd <= 0xFFFF) by (bit_vector)
                requires
                    rnd == raw & 0xFFFF,
            ;
            self.state = State::Syncing(Syncing { random: rnd, ..sy });
            let mut msg = UdpMsg::new(MsgType::SyncRequest);
            if let MsgEnum::SyncRequest(req) = msg.message {
                msg.message = MsgEnum::SyncRequest(
                    crate::udp_msg::SyncRequest { random_request: rnd, ..req },
                );
            }
            proof {
                assert(msg == Self::sync_request_msg(rnd));
            }
            return self.send_msg(&mut msg, clock);
        }
        Ok(())
    }

    /// Starts the handshake: fails when not attached, else enters the
    /// synchronising state with `NUM_SYNC_PACKETS` round trips to go and
    /// sends a sync request.
    pub fn synchronize(&mut self, clock: Clock) -> (r: Result<(), UdpProtoError>)
        requires
            old(self)@.wf(),
            Self::clock_ok(old(self)@, clock),
        ensures
            !old(self)@.initialized ==> r == Err::<(), UdpProtoError>(UdpProtoError::UdpUninit)
                && final(self)@ == old(self)@,
            old(self)@.initialized ==> Self::sent_sync_request(
                    UdpProtocolView {
                        state: State::Syncing(
                            Syncing { roundtrips_remaining: NUM_SYNC_PACKETS, random: 0 },
                        ),
                        ..old(self)@
                    },
                    final(self)@,
                    clock,
                    r,
                ),
            final(self)@.wf(),
            final(self)@.local_connect_status == old(self)@.local_connect_status,
    {
        if !self.initialized {
            return Err(UdpProtoError::UdpUninit);
        }
        let rnd = random_u32(&mut self.rng);
        self.state = State::Syncing(Syncing { roundtrips_remaining: NUM_SYNC_PACKETS, random: rnd });
        let ghost mid = self@;
        let r = self.send_sync_request(clock);
        proof {
            let base = UdpProtocolView {
                state: State::Syncing(Syncing { roundtrips_remaining: NUM_SYNC_PACKETS, random: 0 }),
                ..old(self)@
            };
            let rnd2 = self@.state->Syncing_0.random;
            assert(UdpProtocolView { state: State::Syncing(Syncing { random: rnd2, ..base.state->Syncing_0 }), ..base }
                == UdpProtocolView { state: State::Syncing(Syncing { random: rnd2, ..mid.state->Syncing_0 }), ..mid });
        }
        r
    }

    /// A sync reply carrying `random`.
    pub open spec fn sync_reply_msg(random: u32) -> UdpMsg {
        UdpMsg {
            header: Header { magic: 0, sequence_number: 0, packet_type: MsgType::SyncReply },
            message: MsgEnum::SyncReply(crate::udp_msg::SyncReply { random_reply: random }),
        }
    }

    /// The nonce a sync reply to `msg` echoes: the request's, or zero when
    /// `msg` carries no request.
    pub open spec fn echoed_random(msg: UdpMsg) -> u32 {
        match msg.message {
            MsgEnum::SyncRequest(req) => req.random_request,
            _ => 0,
        }
    }

    /// Answers a sync request with a reply echoing its nonce, unless a peer
    /// is already known and the request carries another magic number.
    pub fn on_sync_request(&mut self, msg: &UdpMsg, clock: Clock) -> (r: Result<bool, UdpProtoError>)
        requires
            old(self)@.wf(),
            Self::clock_ok(old(self)@, clock),
        ensures
            final(self)@.wf(),
            Self::on_sync_request_outcome(old(self)@, final(self)@, *msg, clock, r),

    {
        if self.remote_magic_number != 0 && msg.header.magic != self.remote_magic_number {
            return Ok(false);
        }
        let mut reply = UdpMsg::new(MsgType::SyncReply);
        if let MsgEnum::SyncRequest(sync_request) = msg.message {
            reply.message = MsgEnum::SyncReply(
                crate::udp_msg::SyncReply { random_reply: sync_request.random_request },
            );
        }
        proof {
            assert(reply == Self::sync_reply_msg(Self::echoed_random(*msg)));
        }
        let r0 = self.send_msg(&mut reply, clock);
        match r0 {
            Ok(_) => Ok(true),
            Err(e) => Err(e),
        }
    }

    /// A quality reply carrying `pong`.
    pub open spec fn quality_reply_msg(pong: u128) -> UdpMsg {
        UdpMsg {
            header: Header { magic: 0, sequence_number: 0, packet_type: MsgType::QualityReply },
            message: MsgEnum::QualityReply(crate::udp_msg::QualityReply { pong }),
        }
    }

    /// Answers a quality report with a reply echoing its clock (zero when
    /// `msg` carries no report).
    pub fn on_quality_report(&mut self, msg: &UdpMsg, clock: Clock) -> (r: Result<
        bool,
        UdpProtoError,
    >)
        requires
            old(self)@.wf(),
            Self::clock_ok(old(self)@, clock),
        ensures
            final(self)@.wf(),
            Self::on_quality_report_outcome(old(self)@, final(self)@, *msg, clock, r),

    {
        let mut reply = UdpMsg::new(MsgType::QualityReply);
        if let MsgEnum::QualityReport(report) = msg.message {
            reply.message = MsgEnum::QualityReply(crate::udp_msg::QualityReply { pong: report.ping });
        }
        let r0 = self.send_msg(&mut reply, clock);
        match r0 {
            Ok(_) => Ok(true),
            Err(e) => Err(e),
        }
    }

    /// The clock a quality reply echoes, or zero for another message.
    pub open spec fn pong_of(msg: UdpMsg) -> u128 {
        match msg.message {
            MsgEnum::QualityReply(rep) => rep.pong,
            _ => 0,
        }
    }

    /// Takes the round-trip time from a quality reply: `now` minus the echoed
    /// clock.
    pub fn on_quality_reply(&mut self, msg: &UdpMsg, now: u128) -> (r: Result<bool, UdpProtoError>)
        requires
            Self::pong_of(*msg) <= now,
        ensures
            r == Ok::<bool, UdpProtoError>(true),
            final(self)@ == (UdpProtocolView {
                round_trip_time: (now - Self::pong_of(*msg)) as u128,
                ..old(self)@
            }),
    {
        let pong = match msg.message {
            MsgEnum::QualityReply(reply) => reply.pong,
            _ => 0,
        };
        self.round_trip_time = now - pong;
        Ok(true)
    }

    /// Sends an input acknowledgement: a fresh one, which acknowledges
    /// frame 31.
    pub fn send_input_ack(&mut self, clock: Clock) -> (r: Result<(), UdpProtoError>)
        requires
            old(self)@.wf(),
            Self::clock_ok(old(self)@, clock),
        ensures
            final(self)@.wf(),
            Self::sent_msg(old(self)@, final(self)@, Self::input_ack_msg(), clock, r),
    {
        let mut msg = UdpMsg::new(MsgType::InputAck);
        assert(msg == Self::input_ack_msg());
        self.send_msg(&mut msg, clock)
    }

    /// How many inputs at the front of `pending` have frames before `ack`.
    pub open spec fn acked_count(pending: Seq<GameInput>, ack: Frame) -> nat
        decreases pending.len(),
    {
        if pending.len() > 0 && frame_lt(pending[0].frame, ack) {
            1 + Self::acked_count(pending.drop_first(), ack)
        } else {
            0
        }
    }

    /// The endpoint after dropping the pending inputs acknowledged by `ack`:
    /// the last one dropped becomes the last acknowledged input.
    pub open spec fn after_ack(v: UdpProtocolView, ack: Frame) -> UdpProtocolView {
        let n = Self::acked_count(v.pending_output, ack);
        if n == 0 {
            v
        } else {
            UdpProtocolView {
                pending_output: v.pending_output.skip(n as int),
                last_acked_input: v.pending_output[n - 1],
                ..v
            }
        }
    }

    proof fn lemma_acked_count_step(pending: Seq<GameInput>, ack: Frame)
        requires
            pending.len() > 0,
            frame_lt(pending[0].frame, ack),
        ensures
            Self::acked_count(pending, ack) == 1 + Self::acked_count(pending.drop_first(), ack),
            Self::acked_count(pending, ack) <= pending.len(),
        decreases pending.len(),
    {
        Self::lemma_acked_count_le(pending, ack);
    }

    proof fn lemma_acked_count_le(pending: Seq<GameInput>, ack: Frame)
        ensures
            Self::acked_count(pending, ack) <= pending.len(),
        decreases pending.len(),
    {
        if pending.len() > 0 {
            Self::lemma_acked_count_le(pending.drop_first(), ack);
        }
    }

    /// Drops the pending inputs acknowledged by `ack`.
    fn drop_acked(&mut self, ack: Frame)
        ensures
            final(self)@ == Self::after_ack(old(self)@, ack),
    {
        let ghost p0 = self@.pending_output;
        let ghost mut n: int = 0;
        proof {
            Self::lemma_acked_count_le(p0, ack);
            assert(p0.skip(0) =~= p0);
        }
        while self.pending_output.len() > 0 && frame_before(self.pending_output[0].frame, ack)
            invariant
                0 <= n <= Self::acked_count(p0, ack),
                Self::acked_count(p0, ack) == n + Self::acked_count(p0.skip(n), ack),
                self@.pending_output == p0.skip(n),
                n > 0 ==> self@.last_acked_input == p0[n - 1],
                n == 0 ==> self@.last_acked_input == old(self)@.last_acked_input,
                n <= p0.len(),
                self@ == (UdpProtocolView {
                    pending_output: self@.pending_output,
                    last_acked_input: self@.last_acked_input,
                    ..old(self)@
                }),
                p0 == old(self)@.pending_output,
            decreases self@.pending_output.len(),
        {
            proof {
                assert(self@.pending_output.len() > 0);
                assert(n < p0.len());
                assert(self@.pending_output[0] == p0[n]);
                Self::lemma_acked_count_step(p0.skip(n), ack);
                assert(p0.skip(n).drop_first() =~= p0.skip(n + 1));
            }
            let front = self.pending_output.pop_front();
            if let Some(g) = front {
                self.last_acked_input = g;
            }
            proof {
                n = n + 1;
            }
        }
        proof {
            let rest = p0.skip(n);
            if rest.len() > 0 {
                assert(rest[0] == self@.pending_output[0]);
            }
            assert(Self::acked_count(rest, ack) == 0);
            if n == 0 {
                assert(p0.skip(0) =~= p0);
                assert(self@ == old(self)@);
            }
        }
    }

    /// Drops the pending inputs that an input acknowledgement covers.
    pub fn on_input_ack(&mut self, msg: &UdpMsg) -> (r: Result<bool, UdpProtoError>)
        ensures
            r == Ok::<bool, UdpProtoError>(true),
            final(self)@ == match msg.message {
                MsgEnum::InputAck(a) => Self::after_ack(old(self)@, a.ack_frame),
                _ => old(self)@,
            },
    {
        if let MsgEnum::InputAck(input_ack) = msg.message {
            self.drop_acked(input_ack.ack_frame);
        }
        Ok(true)
    }

    /// The endpoint after a matching sync reply marks it connected: the first
    /// time, a `Connected` event is queued.
    pub open spec fn after_connect(v: UdpProtocolView) -> UdpProtocolView {
        if v.connected {
            v
        } else {
            UdpProtocolView { event_queue: v.event_queue.push(Event::Connected), connected: true, ..v }
        }
    }

    /// Handles a sync reply. Outside the handshake it is handled when it
    /// carries the peer's magic number. During the handshake a reply with
    /// the expected nonce marks the endpoint connected and then either
    /// completes the handshake (when one round trip was left: the endpoint
    /// runs and adopts the peer's magic number) or reports progress and sends
    /// the next request; a reply with another nonce is not handled.
    pub fn on_sync_reply(&mut self, msg: &UdpMsg, clock: Clock) -> (r: Result<bool, UdpProtoError>)
        requires
            old(self)@.wf(),
            Self::clock_ok(old(self)@, clock),
        ensures
            final(self)@.wf(),
            Self::on_sync_reply_outcome(old(self)@, final(self)@, *msg, clock, r),

    {
        match self.state {
            State::Syncing(syncing) => {
                if let MsgEnum::SyncReply(sync_reply) = msg.message {
                    if sync_reply.random_reply != syncing.random {
                        return Ok(false);
                    }
                    if !self.connected {
                        self.queue_event(Event::Connected);
                        self.connected = true;
                    }
                    if syncing.roundtrips_remaining - 1 == 0 {
                        self.queue_event(Event::Synchronzied);
                        self.state = State::Running(
                            Running {
                                last_quality_report_time: 0,
                                last_network_stats_interval: 0,
                                last_input_packet_recv_time: 0,
                            },
                        );
                        self.last_received_input.frame = None;
                        self.remote_magic_number = msg.header.magic;
                    } else {
                        let event = Event::Synchronizing(
                            Synchronizing {
                                total: NUM_SYNC_PACKETS,
                                count: NUM_SYNC_PACKETS - syncing.roundtrips_remaining,
                            },
                        );
                        self.queue_event(event);
                        match self.send_sync_request(clock) {
                            Ok(_) => {},
                            Err(e) => {
                                return Err(e);
                            },
                        }
                    }
                    return Ok(true);
                }
            },
            _ => {
                return Ok(msg.header.magic == self.remote_magic_number);
            },
        }
        Ok(true)
    }
}


/// How many of the first `n` input bits differ between `cur` and `last`.
pub open spec fn diff_count(cur: GameInput, last: GameInput, n: int) -> nat
    decreases n,
{
    if n <= 0 {
        0
    } else {
        diff_count(cur, last, n - 1) + if bit_is_set(cur.bits_view(), n - 1) != bit_is_set(
            last.bits_view(),
            n - 1,
        ) {
            1nat
        } else {
            0nat
        }
    }
}

/// Bits the compression of `cur` after `last` takes: a flag and a nibble
/// with its value for every changed bit among the first `size * 8`, each
/// counted ten times (a mark, a value and eight nibble bits), and an end
/// bit.
pub open spec fn input_cost(cur: GameInput, last: GameInput) -> nat {
    if cur.bits_view() == last.bits_view() {
        1
    } else {
        1 + 10 * diff_count(cur, last, cur.size * 8)
    }
}

/// The input before the `j`-th pending one: the last acknowledged input for
/// the first.
pub open spec fn previous_pending(last: GameInput, pending: Seq<GameInput>, j: int) -> GameInput {
    if j == 0 {
        last
    } else {
        pending[j - 1]
    }
}

/// Bits the compression of the pending inputs takes.
pub open spec fn encoded_len(last: GameInput, pending: Seq<GameInput>) -> nat
    decreases pending.len(),
{
    if pending.len() == 0 {
        0
    } else {
        encoded_len(last, pending.drop_last()) + input_cost(
            pending.last(),
            previous_pending(last, pending, pending.len() - 1),
        )
    }
}

/// Whether every pending input that differs from its predecessor fits the
/// bit buffer: its size in bits is at most `8 * INPUT_BUFFER_SIZE`.
pub open spec fn pending_sizes_ok(last: GameInput, pending: Seq<GameInput>) -> bool {
    forall|j: int|
        0 <= j < pending.len() ==> (#[trigger] pending[j]).bits_view() != previous_pending(
            last,
            pending,
            j,
        ).bits_view() ==> pending[j].size * 8 <= 144
}

proof fn lemma_diff_count_mono(cur: GameInput, last: GameInput, i: int, n: int)
    requires
        0 <= i <= n,
    ensures
        diff_count(cur, last, i) <= diff_count(cur, last, n),
    decreases n - i,
{
    if i < n {
        lemma_diff_count_mono(cur, last, i, n - 1);
    }
}

proof fn lemma_diff_count_equal(cur: GameInput, last: GameInput, n: int)
    requires
        cur.bits_view() == last.bits_view(),
    ensures
        diff_count(cur, last, n) == 0,
    decreases n,
{
    if n > 0 {
        lemma_diff_count_equal(cur, last, n - 1);
    }
}

proof fn lemma_encoded_len_take(last: GameInput, pending: Seq<GameInput>, j: int)
    requires
        0 <= j < pending.len(),
    ensures
        encoded_len(last, pending.take(j + 1)) == encoded_len(last, pending.take(j)) + input_cost(
            pending[j],
            previous_pending(last, pending, j),
        ),
{
    let t = pending.take(j + 1);
    assert(t.drop_last() =~= pending.take(j));
    assert(t.last() == pending[j]);
    assert(previous_pending(last, t, j) == previous_pending(last, pending, j));
}

proof fn lemma_encoded_len_mono(last: GameInput, pending: Seq<GameInput>, j: int)
    requires
        0 <= j <= pending.len(),
    ensures
        encoded_len(last, pending.take(j)) <= encoded_len(last, pending),
    decreases pending.len() - j,
{
    if j < pending.len() {
        lemma_encoded_len_mono(last, pending, j + 1);
        lemma_encoded_len_take(last, pending, j);
    } else {
        assert(pending.take(j) =~= pending);
    }
}

impl UdpProtocol {
    /// The inputs on which `send_pending_output` runs to its end: the first
    /// pending input follows the last acknowledged one, every changed input
    /// fits the bit buffer, and the compression fits `MAX_COMPRESSED_BITS`
    /// bits.
    pub open spec fn pending_ok(v: UdpProtocolView) -> bool {
        v.pending_output.len() > 0 ==> {
            &&& (v.last_acked_input.frame matches Some(l) ==> l < usize::MAX && l + 1 == match v.pending_output[0].frame {
                Some(f) => f as int,
                None => 0,
            })
            &&& pending_sizes_ok(v.last_acked_input, v.pending_output)
            &&& encoded_len(v.last_acked_input, v.pending_output) < MAX_COMPRESSED_BITS
        }
    }

    /// Compresses the changes of one pending input against the previous one
    /// into the two scratch buffers from `offset` on.
    fn compress_input(
        current: &GameInput,
        last: &GameInput,
        marks: &mut [u8; 4096],
        bits: &mut [u8; 4096],
        offset: &mut usize,
    )
        requires
            current.bits_view() != last.bits_view() ==> current.size * 8 <= 144,
            *old(offset) + input_cost(*current, *last) < MAX_COMPRESSED_BITS,
        ensures
            *final(offset) + 1 == *old(offset) + input_cost(*current, *last),
    {
        if !bits_equal(&current.bits, &last.bits) {
            let n = current.size * 8;
            let ghost off0 = *offset;
            let mut i: usize = 0;
            while i < n
                invariant
                    0 <= i <= n,
                    n == current.size * 8,
                    n <= 144,
                    current.bits_view() != last.bits_view(),
                    *offset == off0 + 10 * diff_count(*current, *last, i as int),
                    off0 + input_cost(*current, *last) < MAX_COMPRESSED_BITS,
                    input_cost(*current, *last) == 1 + 10 * diff_count(*current, *last, n as int),
                decreases n - i,
            {
                proof {
                    lemma_diff_count_mono(*current, *last, i as int + 1, n as int);
                }
                if current.value(i) != last.value(i) {
                    set_bit(marks, offset);
                    if current.value(i) {
                        set_bit(bits, offset);
                    } else {
                        clear_bit(bits, offset);
                    }
                    write_nibblet(bits, i, offset);
                }
                i = i + 1;
            }
        } else {
            proof {
                assert(input_cost(*current, *last) == 1);
            }
        }
    }
}

impl UdpProtocol {
    /// The endpoint with its last pending input (if any) recorded as the last
    /// sent one.
    pub open spec fn marked_sent(v: UdpProtocolView) -> UdpProtocolView {
        if v.pending_output.len() > 0 {
            UdpProtocolView { last_sent_input: v.pending_output.last(), ..v }
        } else {
            v
        }
    }

    /// A fresh input message.
    pub open spec fn input_msg(m: UdpMsg) -> bool {
        is_new_msg(m, MsgType::Input)
    }

    /// Sends the pending inputs. The inputs are compressed (each changed bit
    /// as a mark, its value and its index) into a copy of the message body
    /// that is then dropped, so what goes out is a fresh input message; the
    /// last pending input becomes the last sent one.
    pub fn send_pending_output(&mut self, clock: Clock) -> (r: Result<(), UdpProtoError>)
        requires
            old(self)@.wf(),
            Self::clock_ok(old(self)@, clock),
            Self::pending_ok(old(self)@),
        ensures
            final(self)@.wf(),
            exists|m: UdpMsg|
                #![trigger Self::input_msg(m)]
                Self::input_msg(m) && Self::sent_msg(
                    Self::marked_sent(old(self)@),
                    final(self)@,
                    m,
                    clock,
                    r,
                ),
    {
        let mut msg = UdpMsg::new(MsgType::Input);
        let mut offset: usize = 0;
        if let MsgEnum::Input(body) = msg.message {
            let mut input = body;
            if self.pending_output.len() > 0 {
                let mut last = self.last_acked_input;
                let mut bits: [u8; 4096] = input.bits;
                input.start_frame = self.pending_output[0].frame;
                let n = self.pending_output.len();
                let ghost p = self@.pending_output;
                let ghost v0 = self@;
                proof {
                    assert(p.take(0) =~= Seq::<GameInput>::empty());
                }
                let mut j: usize = 0;
                while j < n
                    invariant
                        0 <= j <= n,
                        n == p.len(),
                        p == v0.pending_output,
                        self@.pending_output == p,
                        v0.wf(),
                        Self::pending_ok(v0),
                        p.len() > 0,
                        offset == encoded_len(v0.last_acked_input, p.take(j as int)),
                        last == previous_pending(v0.last_acked_input, p, j as int),
                        j > 0 ==> self@ == (UdpProtocolView { last_sent_input: p[j - 1], ..v0 }),
                        j == 0 ==> self@ == v0,
                    decreases n - j,
                {
                    let current = self.pending_output[j];
                    proof {
                        lemma_encoded_len_take(v0.last_acked_input, p, j as int);
                        lemma_encoded_len_mono(v0.last_acked_input, p, j as int + 1);
                        assert(current == p[j as int]);
                    }
                    Self::compress_input(&current, &last, &mut input.bits, &mut bits, &mut offset);
                    clear_bit(&mut input.bits, &mut offset);
                    self.last_sent_input = current;
                    last = self.last_sent_input;
                    j = j + 1;
                }
                proof {
                    assert(p.take(n as int) =~= p);
                    assert(p.last() == p[n - 1]);
                }
            } else {
                input.start_frame = Some(0);
            }
            input.ack_frame = self.last_received_input.frame;
            input.num_bits = offset as u16;
            input.disconnect_requested = match self.state {
                State::Disconnected => true,
                _ => false,
            };
            input.peer_connect_status = self.local_connect_status;
        }
        let ghost m0 = msg;
        let r = self.send_msg(&mut msg, clock);
        assert(Self::input_msg(m0));
        r
    }
}

impl UdpProtocol {
    /// The endpoint after taking `input` for sending: while running, the
    /// input is recorded for time synchronisation and queued as pending.
    pub open spec fn with_input(v: UdpProtocolView, input: GameInput) -> UdpProtocolView {
        if v.state is Running {
            UdpProtocolView {
                timesync: match input.frame {
                    Some(f) => crate::time_sync::TimeSyncView {
                        last_inputs: v.timesync.last_inputs.update((f % 10) as int, input),
                        local: v.timesync.local.update((f % 40) as int, v.local_frame_advantage),
                        remote: v.timesync.remote.update((f % 40) as int, v.remote_frame_advantage),
                        ..v.timesync
                    },
                    None => v.timesync,
                },
                pending_output: v.pending_output.push(input),
                ..v
            }
        } else {
            v
        }
    }

    /// Takes `input` for sending (while running) and sends the pending inputs.
    pub fn send_input(&mut self, input: &GameInput, clock: Clock) -> (r: Result<(), UdpProtoError>)
        requires
            old(self)@.wf(),
            Self::clock_ok(old(self)@, clock),
            Self::pending_ok(Self::with_input(old(self)@, *input)),
        ensures
            final(self)@.wf(),
            final(self)@.local_connect_status == old(self)@.local_connect_status,
            exists|m: UdpMsg|
                #![trigger Self::input_msg(m)]
                Self::input_msg(m) && Self::sent_msg(
                    Self::marked_sent(Self::with_input(old(self)@, *input)),
                    final(self)@,
                    m,
                    clock,
                    r,
                ),
    {
        if let State::Running(_) = self.state {
            self.timesync.advance_frame(input, self.local_frame_advantage, self.remote_frame_advantage);
            self.pending_output.push_back(*input);
        }
        proof {
            assert(self@ == Self::with_input(old(self)@, *input));
        }
        self.send_pending_output(clock)
    }
}

/// Where decompressing the changes of one frame from bit `o` of `msg_bits`
/// ends and what it makes of the input bytes `g`: while the bit at the
/// offset is set, the next bit is a value and the eight after it a button
/// index (read as `read_nibblet` reads them); when `use_inputs` each button
/// is set or cleared in `g`. `None` when a read runs off the buffer or a
/// button to apply lies outside the input.
pub open spec fn decode_frame(msg_bits: Seq<u8>, o: int, use_inputs: bool, g: Seq<u8>) -> Option<
    (int, Seq<u8>),
>
    decreases 32768 - o,
{
    if o < 0 || o >= 32768 {
        None
    } else if read_bit_value(msg_bits, o) == 0 {
        Some((o + 1, g))
    } else if o + 9 >= 32768 {
        None
    } else {
        let on = read_bit_value(msg_bits, o + 1);
        let button = read_nibble_value(msg_bits, o + 2, 8);
        if use_inputs && !(0 <= button < 144) {
            None
        } else {
            let g2 = if use_inputs {
                if on > 0 {
                    with_bit_set(g, button as int)
                } else {
                    with_bit_cleared(g, button as int)
                }
            } else {
                g
            };
            decode_frame(msg_bits, o + 10, use_inputs, g2)
        }
    }
}

/// The state of decompressing an input message: the bit offset, the frame
/// the next bits belong to, the last received frame and input bytes, and
/// the frames delivered so far with their input bytes.
pub ghost struct Decoding {
    pub offset: int,
    pub current: Frame,
    pub frame: Frame,
    pub bits: Seq<u8>,
    pub delivered: Seq<(Frame, Seq<u8>)>,
}

/// Decompresses frames until `num_bits` bits are consumed: each frame's
/// changes are applied when it is the one after the last received frame
/// (which it then becomes, and is delivered) and skipped when it is an
/// older one. `None` where the decoding cannot go on: a
/// frame beyond the next one, a frame's changes ending past `num_bits`, a
/// bad read, a missing frame or an overflowing frame number.
pub open spec fn decode_frames(msg_bits: Seq<u8>, num_bits: int, d: Decoding) -> Option<Decoding>
    decreases num_bits - d.offset,
{
    if d.offset >= num_bits {
        Some(d)
    } else if d.current is None || d.frame is None {
        None
    } else {
        let c = d.current->0;
        let lf = d.frame->0;
        if lf >= usize::MAX || c > lf + 1 {
            None
        } else {
            let use_inputs = c == lf + 1;
            match decode_frame(msg_bits, d.offset, use_inputs, d.bits) {
                None => None,
                Some((o2, b2)) => if o2 > num_bits || o2 <= d.offset || c >= usize::MAX {
                    None
                } else {
                    let d2 = if use_inputs {
                        Decoding {
                            frame: Some(c),
                            bits: b2,
                            delivered: d.delivered.push((Some(c), b2)),
                            ..d
                        }
                    } else {
                        d
                    };
                    decode_frames(
                        msg_bits,
                        num_bits,
                        Decoding { offset: o2, current: Some((c + 1) as usize), ..d2 },
                    )
                },
            }
        }
    }
}

proof fn lemma_decode_frame_advances(msg_bits: Seq<u8>, o: int, use_inputs: bool, g: Seq<u8>)
    requires
        decode_frame(msg_bits, o, use_inputs, g) is Some,
    ensures
        (decode_frame(msg_bits, o, use_inputs, g)->0).0 > o,
        g.len() == 18 ==> (decode_frame(msg_bits, o, use_inputs, g)->0).1.len() == 18,
        !use_inputs ==> (decode_frame(msg_bits, o, use_inputs, g)->0).1 == g,
    decreases 32768 - o,
{
    if read_bit_value(msg_bits, o) != 0 {
        let on = read_bit_value(msg_bits, o + 1);
        let button = read_nibble_value(msg_bits, o + 2, 8);
        let g2 = if use_inputs {
            if on > 0 {
                with_bit_set(g, button as int)
            } else {
                with_bit_cleared(g, button as int)
            }
        } else {
            g
        };
        lemma_decode_frame_advances(msg_bits, o + 10, use_inputs, g2);
    }
}

/// Whether the events `evs` are the input events for the `delivered` frames,
/// each an input of the delivered frame and bytes with `size` bytes.
pub open spec fn delivered_events(evs: Seq<Event>, delivered: Seq<(Frame, Seq<u8>)>, size: usize) -> bool {
    &&& evs.len() == delivered.len()
    &&& forall|k: int|
        0 <= k < evs.len() ==> ((#[trigger] evs[k]) matches Event::Input(g) && g.frame
            == delivered[k].0 && g.bits_view() == delivered[k].1 && g.size == size)
}

/// Decompresses the changes of one frame from `*offset` on, applying them to
/// `g` when `use_inputs`.
fn decode_frame_bits(g: &mut GameInput, bits: &mut [u8; 4096], offset: &mut usize, use_inputs: bool)
    requires
        decode_frame(old(bits)@, *old(offset) as int, use_inputs, old(g).bits_view()) is Some,
    ensures
        final(bits)@ == old(bits)@,
        (*final(offset) as int, final(g).bits_view()) == decode_frame(
            old(bits)@,
            *old(offset) as int,
            use_inputs,
            old(g).bits_view(),
        )->0,
        final(g).frame == old(g).frame,
        final(g).size == old(g).size,
{
    let ghost mb = bits@;
    let ghost target = decode_frame(mb, *offset as int, use_inputs, g.bits_view())->0;
    loop
        invariant_except_break
            decode_frame(mb, *offset as int, use_inputs, g.bits_view()) is Some,
            decode_frame(mb, *offset as int, use_inputs, g.bits_view())->0 == target,
        invariant
            bits@ == mb,
            mb.len() == 4096,
            g.frame == old(g).frame,
            g.size == old(g).size,
        ensures
            (*offset as int, g.bits_view()) == target,
        decreases 32768 - *offset,
    {
        let ghost o0 = *offset as int;
        proof {
            lemma_read_bit_value(mb, *offset as int);
        }
        let b = read_bit(bits, offset);
        if b <= 0 {
            proof {
                assert(decode_frame(mb, o0, use_inputs, g.bits_view()) == Some((o0 + 1, g.bits_view())));
            }
            break;
        }
        proof {
            lemma_read_bit_value(mb, *offset as int);
        }
        let on = read_bit(bits, offset);
        let button = read_nibblet(bits, offset);
        if use_inputs {
            if on > 0 {
                g.set(button as usize);
            } else {
                g.clear(button as usize);
            }
        }
    }
}

impl UdpProtocol {
    /// Whether the peer's view of every player's connection is not behind
    /// ours (required of input that is not a disconnect request).
    pub open spec fn peer_status_ok(v: UdpProtocolView, input: crate::udp_msg::Input) -> bool {
        input.disconnect_requested || forall|i: int|
            0 <= i < 4 ==> !frame_lt(
                (#[trigger] input.peer_connect_status@[i]).last_frame,
                v.peer_connect_status[i].last_frame,
            )
    }

    /// The endpoint after the control part of an input message: a disconnect
    /// request queues a `Disconnected` event (once, and not when already
    /// disconnected); otherwise each player's connection status merges the
    /// peer's (disconnected if either side says so, the peer's last frame).
    pub open spec fn after_input_control(v: UdpProtocolView, input: crate::udp_msg::Input) -> UdpProtocolView {
        if input.disconnect_requested {
            if v.state != State::Disconnected && !v.disconnect_event_sent {
                UdpProtocolView {
                    event_queue: v.event_queue.push(Event::Disconnected),
                    disconnect_event_sent: true,
                    ..v
                }
            } else {
                v
            }
        } else {
            UdpProtocolView {
                peer_connect_status: Seq::new(
                    4,
                    |i: int|
                        ConnectStatus {
                            disconnected: v.peer_connect_status[i].disconnected
                                || input.peer_connect_status@[i].disconnected,
                            last_frame: input.peer_connect_status@[i].last_frame,
                        },
                ),
                ..v
            }
        }
    }

    /// The decoding an input message starts from, given the last received
    /// input's frame and bytes (once the frame before the message's start
    /// frame has stood in for a missing one).
    pub open spec fn initial_decoding(v: UdpProtocolView, input: crate::udp_msg::Input) -> Decoding {
        Decoding {
            offset: 0,
            current: input.start_frame,
            frame: match v.last_received_input.frame {
                Some(f) => Some(f),
                None => Some((input.start_frame->0 - 1) as usize),
            },
            bits: v.last_received_input.bits_view(),
            delivered: Seq::empty(),
        }
    }

    /// The input messages whose decompression completes or ends with an
    /// error rather than breaking a consistency condition.
    pub open spec fn decode_ok(v: UdpProtocolView, input: crate::udp_msg::Input) -> bool {
        input.num_bits > 0 ==> match (v.last_received_input.frame, input.start_frame) {
            (None, None) => true,
            (None, Some(s)) => s >= 1 && decode_frames(
                input.bits@,
                input.num_bits as int,
                Self::initial_decoding(v, input),
            ) is Some,
            (Some(lf), None) => lf < usize::MAX && decode_frame(
                input.bits@,
                0,
                false,
                v.last_received_input.bits_view(),
            ) is Some && (decode_frame(input.bits@, 0, false, v.last_received_input.bits_view())->0).0
                <= input.num_bits,
            (Some(_), Some(_)) => decode_frames(
                input.bits@,
                input.num_bits as int,
                Self::initial_decoding(v, input),
            ) is Some,
        }
    }

    /// The inputs on which `on_input` runs to its end.
    pub open spec fn on_input_ok(v: UdpProtocolView, msg: UdpMsg) -> bool {
        msg.message matches MsgEnum::Input(input) ==> Self::peer_status_ok(v, input)
            && Self::decode_ok(Self::after_input_control(v, input), input)
    }

    /// The error `on_input` ends with: none unless the message has bits and
    /// no start frame.
    pub open spec fn input_error(v: UdpProtocolView, input: crate::udp_msg::Input) -> Option<UdpProtoError> {
        if input.num_bits > 0 && input.start_frame is None {
            if v.last_received_input.frame is None {
                Some(UdpProtoError::StartFrameUninit)
            } else {
                Some(UdpProtoError::CurrentFrameUninit)
            }
        } else {
            None
        }
    }

    /// Handles an input message: takes in a disconnect request or the peer's
    /// connection statuses, decompresses the inputs it carries (delivering
    /// an `Input` event for every frame that follows the last received one)
    /// and drops the pending inputs it acknowledges. Messages of another kind
    /// are handled without effect.
    pub fn on_input(&mut self, msg: &UdpMsg, now: u128) -> (r: Result<bool, UdpProtoError>)
        requires
            old(self)@.wf(),
            Self::on_input_ok(old(self)@, *msg),
        ensures
            final(self)@.wf(),
            Self::on_input_outcome(old(self)@, final(self)@, *msg, now, r),

    {
        if let MsgEnum::Input(input) = msg.message {
            if input.disconnect_requested {
                let disconnected = match self.state {
                    State::Disconnected => true,
                    _ => false,
                };
                if !disconnected && !self.disconnect_event_sent {
                    self.queue_event(Event::Disconnected);
                    self.disconnect_event_sent = true;
                }
            } else {
                let ghost p0 = self@.peer_connect_status;
                let mut i: usize = 0;
                while i < 4
                    invariant
                        0 <= i <= 4,
                        self@ == (UdpProtocolView { peer_connect_status: self@.peer_connect_status, ..old(self)@ }),
                        p0 == old(self)@.peer_connect_status,
                        self@.peer_connect_status.len() == 4,
                        forall|k: int| 0 <= k < i ==> #[trigger] self@.peer_connect_status[k] == (ConnectStatus {
                            disconnected: p0[k].disconnected || input.peer_connect_status@[k].disconnected,
                            last_frame: input.peer_connect_status@[k].last_frame,
                        }),
                        forall|k: int| i <= k < 4 ==> #[trigger] self@.peer_connect_status[k] == p0[k],
                    decreases 4 - i,
                {
                    let remote = input.peer_connect_status[i];
                    let merged = ConnectStatus {
                        disconnected: self.peer_connect_status[i].disconnected || remote.disconnected,
                        last_frame: remote.last_frame,
                    };
                    self.peer_connect_status[i] = merged;
                    i = i + 1;
                }
                proof {
                    assert(self@.peer_connect_status =~= Self::after_input_control(old(self)@, input).peer_connect_status);
                }
            }
            let ghost v1 = self@;
            if input.num_bits > 0 {
                let mut offset: usize = 0;
                let mut bits = input.bits;
                let num_bits = input.num_bits as usize;
                let mut current_frame = input.start_frame;
                self.last_received_input.size = self.input_size;
                if self.last_received_input.frame.is_none() {
                    match input.start_frame {
                        None => {
                            return Err(UdpProtoError::StartFrameUninit);
                        },
                        Some(s) => {
                            self.last_received_input.frame = Some(s - 1);
                        },
                    }
                }
                if current_frame.is_none() {
                    let mut scratch = self.last_received_input;
                    decode_frame_bits(&mut scratch, &mut bits, &mut offset, false);
                    return Err(UdpProtoError::CurrentFrameUninit);
                }
                let ghost d0 = Self::initial_decoding(v1, input);
                let ghost target = decode_frames(input.bits@, num_bits as int, d0)->0;
                let ghost ev1 = self@.event_queue;
                let ghost mut delivered: Seq<(Frame, Seq<u8>)> = Seq::empty();
                proof {
                    assert(ev1 == v1.event_queue);
                    assert(ev1.skip(ev1.len() as int) =~= Seq::<Event>::empty());
                    assert(ev1.take(ev1.len() as int) =~= ev1);
                }
                while offset < num_bits
                    invariant
                        bits@ == input.bits@,
                        num_bits == input.num_bits as usize,
                        v1.wf(),
                        self@.wf(),
                        current_frame is Some,
                        self.last_received_input.frame is Some,
                        self.last_received_input.size == self.input_size,
                        decode_frames(
                            input.bits@,
                            num_bits as int,
                            Decoding {
                                offset: offset as int,
                                current: current_frame,
                                frame: self.last_received_input.frame,
                                bits: self.last_received_input.bits_view(),
                                delivered,
                            },
                        ) == Some(target),
                        self@ == (UdpProtocolView {
                            last_received_input: self@.last_received_input,
                            event_queue: self@.event_queue,
                            state: self@.state,
                            ..v1
                        }),
                        self@.event_queue.len() == ev1.len() + delivered.len(),
                        self@.event_queue.take(ev1.len() as int) == ev1,
                        delivered_events(self@.event_queue.skip(ev1.len() as int), delivered, self.input_size),
                        self@.state == if delivered.len() > 0 && v1.state is Running {
                            State::Running(
                                Running { last_input_packet_recv_time: now, ..v1.state->Running_0 },
                            )
                        } else {
                            v1.state
                        },
                    decreases num_bits - offset,
                {
                    let lf = match self.last_received_input.frame {
                        Some(f) => f,
                        None => 0,
                    };
                    let c = match current_frame {
                        Some(c) => c,
                        None => 0,
                    };
                    let next = lf + 1;
                    let use_inputs = c == next;
                    let ghost o_before = offset as int;
                    let ghost g_before = self.last_received_input.bits_view();
                    let ghost d_before = Decoding {
                        offset: offset as int,
                        current: current_frame,
                        frame: self.last_received_input.frame,
                        bits: self.last_received_input.bits_view(),
                        delivered,
                    };
                    proof {
                        assert(decode_frames(input.bits@, num_bits as int, d_before) is Some);
                        assert(decode_frame(input.bits@, o_before, use_inputs, g_before) is Some);
                        lemma_decode_frame_advances(input.bits@, o_before, use_inputs, g_before);
                    }
                    decode_frame_bits(&mut self.last_received_input, &mut bits, &mut offset, use_inputs);
                    if use_inputs {
                        self.last_received_input.frame = current_frame;
                        let event = Event::Input(self.last_received_input);
                        if let State::Running(running) = self.state {
                            self.state = State::Running(Running { last_input_packet_recv_time: now, ..running });
                        }
                        let ghost evs_before = self@.event_queue;
                        self.queue_event(event);
                        proof {
                            let newd = delivered.push((current_frame, self.last_received_input.bits_view()));
                            let tail = self@.event_queue.skip(ev1.len() as int);
                            assert(tail =~= evs_before.skip(ev1.len() as int).push(event));
                            assert(self@.event_queue.take(ev1.len() as int) =~= evs_before.take(ev1.len() as int));
                            assert(delivered_events(tail, newd, self.input_size)) by {
                                assert forall|k: int| 0 <= k < tail.len() implies ((#[trigger] tail[k]) matches Event::Input(g) && g.frame
                                    == newd[k].0 && g.bits_view() == newd[k].1 && g.size == self.input_size) by {
                                    if k < tail.len() - 1 {
                                        assert(tail[k] == evs_before.skip(ev1.len() as int)[k]);
                                    }
                                }
                            }
                            delivered = newd;
                        }
                    }
                    current_frame = Some(c + 1);
                    proof {
                        let d_after = Decoding {
                            offset: offset as int,
                            current: current_frame,
                            frame: self.last_received_input.frame,
                            bits: self.last_received_input.bits_view(),
                            delivered,
                        };
                        assert(decode_frames(input.bits@, num_bits as int, d_before) == decode_frames(input.bits@, num_bits as int, d_after));
                    }
                }
            }
            self.drop_acked(input.ack_frame);
        }
        Ok(true)
    }
}

/// How far sequence number `seq` lies ahead of `next`, modulo 2^16.
pub open spec fn seq_distance(seq: u16, next: u16) -> int {
    ((seq as int - next as int) + 65536) % 65536
}

impl UdpProtocol {
    /// Whether `on_msg` drops `msg` unseen: a message other than a sync
    /// request or reply that lacks the peer's magic number or whose sequence
    /// number lies too far ahead (or behind).
    pub open spec fn filtered(v: UdpProtocolView, msg: UdpMsg) -> bool {
        &&& msg.header.packet_type != MsgType::SyncRequest
        &&& msg.header.packet_type != MsgType::SyncReply
        &&& (msg.header.magic != v.remote_magic_number || seq_distance(
            msg.header.sequence_number,
            v.next_recv_seq,
        ) > MAX_SEQ_DISTANCE)
    }

    /// What the handler for `msg`'s type does.
    pub open spec fn dispatched(
        before: UdpProtocolView,
        after: UdpProtocolView,
        msg: UdpMsg,
        clock: Clock,
        r: Result<bool, UdpProtoError>,
    ) -> bool {
        match msg.header.packet_type {
            MsgType::SyncRequest => Self::on_sync_request_outcome(before, after, msg, clock, r),
            MsgType::Invalid => r == Ok::<bool, UdpProtoError>(false) && after == before,
            MsgType::SyncReply => Self::on_sync_reply_outcome(before, after, msg, clock, r),
            MsgType::Input => Self::on_input_outcome(before, after, msg, clock.now, r),
            MsgType::QualityReport => Self::on_quality_report_outcome(before, after, msg, clock, r),
            MsgType::QualityReply => r == Ok::<bool, UdpProtoError>(true) && after == (
            UdpProtocolView {
                round_trip_time: (clock.now - Self::pong_of(msg)) as u128,
                ..before
            }),
            MsgType::KeepAlive => r == Ok::<bool, UdpProtoError>(true) && after == before,
            MsgType::InputAck => r == Ok::<bool, UdpProtoError>(true) && after == match msg.message {
                MsgEnum::InputAck(a) => Self::after_ack(before, a.ack_frame),
                _ => before,
            },
        }
    }

    /// The endpoint after handling a message at `now`: the peer was heard
    /// from, and a reported interruption of a running connection ends.
    pub open spec fn after_handled(v: UdpProtocolView, now: u128) -> UdpProtocolView {
        if v.state is Running && v.disconnect_notify_sent {
            UdpProtocolView {
                last_recv_time: now,
                event_queue: v.event_queue.push(Event::NetworkResumed),
                disconnect_notify_sent: false,
                ..v
            }
        } else {
            UdpProtocolView { last_recv_time: now, ..v }
        }
    }

    /// The messages `on_msg` handles without a failed check.
    pub open spec fn on_msg_ok(v: UdpProtocolView, msg: UdpMsg, now: u128) -> bool {
        let v1 = UdpProtocolView { next_recv_seq: msg.header.sequence_number, ..v };
        !Self::filtered(v, msg) ==> match msg.header.packet_type {
            MsgType::Input => Self::on_input_ok(v1, msg),
            MsgType::QualityReply => Self::pong_of(msg) <= now,
            _ => true,
        }
    }

    /// What `on_msg` does: unless the message is filtered out, its sequence
    /// number becomes the next expected one, the handler for its type runs,
    /// and when the handler reports it handled the peer counts as heard from.
    pub open spec fn on_msg_outcome(
        before: UdpProtocolView,
        after: UdpProtocolView,
        msg: UdpMsg,
        clock: Clock,
        r: Result<(), UdpProtoError>,
    ) -> bool {
        if Self::filtered(before, msg) {
            r is Ok && after == before
        } else {
            let v1 = UdpProtocolView { next_recv_seq: msg.header.sequence_number, ..before };
            exists|mid: UdpProtocolView, hr: Result<bool, UdpProtoError>|
                #![trigger Self::dispatched(v1, mid, msg, clock, hr)]
                Self::dispatched(v1, mid, msg, clock, hr) && match hr {
                    Err(e) => r == Err::<(), UdpProtoError>(e) && after == mid,
                    Ok(h) => r is Ok && after == if h {
                        Self::after_handled(mid, clock.now)
                    } else {
                        mid
                    },
                }
        }
    }

    /// Handles a message from the peer.
    pub fn on_msg(&mut self, msg: &UdpMsg, clock: Clock) -> (r: Result<(), UdpProtoError>)
        requires
            old(self)@.wf(),
            Self::clock_ok(old(self)@, clock),
            Self::on_msg_ok(old(self)@, *msg, clock.now),
        ensures
            final(self)@.wf(),
            final(self)@.local_connect_status == old(self)@.local_connect_status,
            Self::on_msg_outcome(old(self)@, final(self)@, *msg, clock, r),
    {
        let seq = msg.header.sequence_number;
        let t = msg.header.packet_type;
        let is_sync = match t {
            MsgType::SyncRequest => true,
            MsgType::SyncReply => true,
            _ => false,
        };
        if !is_sync {
            if msg.header.magic != self.remote_magic_number {
                return Ok(());
            }
            let skipped: u16 = ((seq as u32 + 65536 - self.next_recv_seq as u32) % 65536) as u16;
            if skipped > MAX_SEQ_DISTANCE {
                return Ok(());
            }
        }
        self.next_recv_seq = seq;
        let ghost v1 = self@;
        let hr = match t {
            MsgType::SyncRequest => self.on_sync_request(msg, clock),
            MsgType::Invalid => self.on_invalid(msg),
            MsgType::SyncReply => self.on_sync_reply(msg, clock),
            MsgType::Input => self.on_input(msg, clock.now),
            MsgType::QualityReport => self.on_quality_report(msg, clock),
            MsgType::QualityReply => self.on_quality_reply(msg, clock.now),
            MsgType::KeepAlive => self.on_keep_alive(msg),
            MsgType::InputAck => self.on_input_ack(msg),
        };
        let ghost mid = self@;
        proof {
            assert(Self::dispatched(v1, mid, *msg, clock, hr));
        }
        let handled = match hr {
            Ok(h) => h,
            Err(e) => {
                return Err(e);
            },
        };
        if handled {
            self.last_recv_time = clock.now;
            if let State::Running(_) = self.state {
                if self.disconnect_notify_sent {
                    self.queue_event(Event::NetworkResumed);
                    self.disconnect_notify_sent = false;
                }
            }
        }
        Ok(())
    }
}

/// Kilobytes per second for `total` bytes over `elapsed` milliseconds,
/// rounded down: unbounded (`usize::MAX`) over no time when anything was
/// sent, and zero when nothing was.
pub open spec fn kbps(total: int, elapsed: int) -> int {
    if elapsed == 0 {
        if total > 0 {
            usize::MAX as int
        } else {
            0
        }
    } else {
        let q = (total * 1000) / (elapsed * 1024);
        if q > usize::MAX {
            usize::MAX as int
        } else {
            q
        }
    }
}

impl UdpProtocol {
    /// Bytes sent including the IP and UDP headers of every packet (at most
    /// `usize::MAX`).
    pub open spec fn total_bytes_sent(v: UdpProtocolView) -> int {
        let headers: int = if UDP_HEADER_SIZE * v.packets_sent > usize::MAX {
            usize::MAX as int
        } else {
            UDP_HEADER_SIZE * v.packets_sent
        };
        saturating_add_spec(v.bytes_sent as int, headers)
    }

    /// The inputs on which `update_network_stats` neither overflows nor runs
    /// the clock backwards.
    pub open spec fn stats_ok(v: UdpProtocolView, now: u128) -> bool {
        v.stats_start_time <= now
    }

    /// The endpoint after `update_network_stats(now)`: statistics start at
    /// the first update, and the send rate is the total bytes over the time
    /// since then.
    pub open spec fn stats_updated(v: UdpProtocolView, now: u128) -> UdpProtocolView {
        let start = if v.stats_start_time == 0 {
            now
        } else {
            v.stats_start_time
        };
        UdpProtocolView {
            stats_start_time: start,
            kbps_sent: kbps(Self::total_bytes_sent(v), now - start) as usize,
            ..v
        }
    }

    /// Updates the send rate.
    pub fn update_network_stats(&mut self, now: u128) -> (r: Result<(), UdpProtoError>)
        requires
            Self::stats_ok(old(self)@, now),
        ensures
            r is Ok,
            final(self)@ == Self::stats_updated(old(self)@, now),
    {
        if self.stats_start_time == 0 {
            self.stats_start_time = now;
        }
        let headers: usize = if self.packets_sent > usize::MAX / UDP_HEADER_SIZE {
            usize::MAX
        } else {
            UDP_HEADER_SIZE * self.packets_sent
        };
        let total_bytes_sent = self.bytes_sent.saturating_add(headers);
        let elapsed = now - self.stats_start_time;
        let k: usize = if elapsed == 0 {
            if total_bytes_sent > 0 {
                usize::MAX
            } else {
                0
            }
        } else if elapsed > u128::MAX / 1024 {
            0
        } else {
            let q: u128 = (total_bytes_sent as u128 * 1000) / (elapsed * 1024);
            proof {
                assert((total_bytes_sent as int * 1000) <= usize::MAX * 1000);
            }
            if q > usize::MAX as u128 {
                usize::MAX
            } else {
                q as usize
            }
        };
        proof {
            if elapsed > u128::MAX / 1024 {
                let t = total_bytes_sent as int * 1000;
                let e = elapsed as int * 1024;
                assert(t < e) by (nonlinear_arith)
                    requires
                        t == total_bytes_sent as int * 1000,
                        e == elapsed as int * 1024,
                        total_bytes_sent <= usize::MAX,
                        elapsed > u128::MAX / 1024,
                ;
                assert(t / e == 0) by (nonlinear_arith)
                    requires
                        0 <= t < e,
                ;
            }
        }
        self.kbps_sent = k;
        Ok(())
    }
}

/// Whether a timer last fired at `t` is due at `now` with `interval`: it
/// never fired, or the interval has passed.
pub open spec fn timer_due(t: u128, interval: u128, now: u128) -> bool {
    !(t > 0) || t + interval < now
}

/// A quality report with the given advantage and clock.
pub open spec fn quality_report_msg(frame_advantage: i8, ping: u128) -> UdpMsg {
    UdpMsg {
        header: Header { magic: 0, sequence_number: 0, packet_type: MsgType::QualityReport },
        message: MsgEnum::QualityReport(crate::udp_msg::QualityReport { frame_advantage, ping }),
    }
}

/// A keep-alive.
pub open spec fn keep_alive_msg() -> UdpMsg {
    UdpMsg {
        header: Header { magic: 0, sequence_number: 0, packet_type: MsgType::KeepAlive },
        message: MsgEnum::Empty,
    }
}

impl UdpProtocol {
    /// The running timers of `v`.
    pub open spec fn timers(v: UdpProtocolView) -> Running {
        v.state->Running_0
    }

    /// Resending pending input when none was received for
    /// `RUNNING_RETRY_INTERVAL`: the timer restarts at `now` once sent.
    pub open spec fn resend_step(b: UdpProtocolView, a: UdpProtocolView, clock: Clock, r: Result<(), UdpProtoError>) -> bool {
        let run = Self::timers(b);
        if timer_due(run.last_input_packet_recv_time, RUNNING_RETRY_INTERVAL, clock.now) {
            exists|m: UdpMsg, s: UdpProtocolView|
                #![trigger Self::sent_msg(Self::marked_sent(b), s, m, clock, r)]
                Self::input_msg(m) && Self::sent_msg(Self::marked_sent(b), s, m, clock, r) && a == match r {
                    Ok(_) => UdpProtocolView {
                        state: State::Running(Running { last_input_packet_recv_time: clock.now, ..run }),
                        ..s
                    },
                    Err(_) => s,
                }
        } else {
            r is Ok && a == b
        }
    }

    /// Sending a quality report every `QUALITY_REPORT_INTERVAL`, with this
    /// side's frame advantage (truncated to a byte) and `now`.
    pub open spec fn quality_step(b: UdpProtocolView, a: UdpProtocolView, clock: Clock, r: Result<(), UdpProtoError>) -> bool {
        let run = Self::timers(b);
        if timer_due(run.last_quality_report_time, QUALITY_REPORT_INTERVAL, clock.now) {
            exists|s: UdpProtocolView|
                #![trigger Self::sent_msg(b, s, quality_report_msg(b.local_frame_advantage as i8, clock.now), clock, r)]
                Self::sent_msg(b, s, quality_report_msg(b.local_frame_advantage as i8, clock.now), clock, r)
                    && a == match r {
                    Ok(_) => UdpProtocolView {
                        state: State::Running(Running { last_quality_report_time: clock.now, ..run }),
                        ..s
                    },
                    Err(_) => s,
                }
        } else {
            r is Ok && a == b
        }
    }

    /// Updating the statistics every `NETWORK_STATS_INTERVAL`.
    pub open spec fn stats_step(b: UdpProtocolView, now: u128) -> UdpProtocolView {
        let run = Self::timers(b);
        if timer_due(run.last_network_stats_interval, NETWORK_STATS_INTERVAL, now) {
            UdpProtocolView {
                state: State::Running(Running { last_network_stats_interval: now, ..run }),
                ..Self::stats_updated(b, now)
            }
        } else {
            b
        }
    }

    /// Sending a keep-alive when nothing was sent for `NETWORK_STATS_INTERVAL`.
    pub open spec fn keep_alive_step(b: UdpProtocolView, a: UdpProtocolView, clock: Clock, r: Result<(), UdpProtoError>) -> bool {
        if timer_due(b.last_send_time, NETWORK_STATS_INTERVAL, clock.now) {
            Self::sent_msg(b, a, keep_alive_msg(), clock, r)
        } else {
            r is Ok && a == b
        }
    }

    /// Reporting, once, that nothing was received for
    /// `disconnect_notify_start` and that the peer will be disconnected in
    /// the rest of `disconnect_timeout`; then reporting, once, the disconnect
    /// when nothing was received for `disconnect_timeout`.
    pub open spec fn silence_steps(b: UdpProtocolView, now: u128) -> UdpProtocolView {
        let n = if b.disconnect_timeout > 0 && b.disconnect_notify_start > 0
            && !b.disconnect_notify_sent && b.last_recv_time + b.disconnect_notify_start < now {
            UdpProtocolView {
                event_queue: b.event_queue.push(
                    Event::NetworkInterrupted(
                        NetworkInterrupted {
                            disconnect_timeout: (b.disconnect_timeout - b.disconnect_notify_start) as u128,
                        },
                    ),
                ),
                disconnect_notify_sent: true,
                ..b
            }
        } else {
            b
        };
        if n.disconnect_timeout > 0 && n.last_recv_time + n.disconnect_timeout < now
            && !n.disconnect_event_sent {
            UdpProtocolView {
                event_queue: n.event_queue.push(Event::Disconnected),
                disconnect_event_sent: true,
                ..n
            }
        } else {
            n
        }
    }

    /// What polling a running endpoint does after pumping: the resend,
    /// quality-report, statistics, keep-alive and silence steps in turn,
    /// stopping at the first failed send.
    pub open spec fn running_poll(b: UdpProtocolView, a: UdpProtocolView, clock: Clock, r: Result<(), UdpProtoError>) -> bool {
        exists|sa: UdpProtocolView, ra: Result<(), UdpProtoError>|
            #![trigger Self::resend_step(b, sa, clock, ra)]
            Self::resend_step(b, sa, clock, ra) && match ra {
                Err(e) => r == Err::<(), UdpProtoError>(e) && a == sa,
                Ok(_) => exists|sb: UdpProtocolView, rb: Result<(), UdpProtoError>|
                    #![trigger Self::quality_step(sa, sb, clock, rb)]
                    Self::quality_step(sa, sb, clock, rb) && match rb {
                        Err(e) => r == Err::<(), UdpProtoError>(e) && a == sb,
                        Ok(_) => exists|sd: UdpProtocolView, rd: Result<(), UdpProtoError>|
                            #![trigger Self::keep_alive_step(Self::stats_step(sb, clock.now), sd, clock, rd)]
                            Self::keep_alive_step(Self::stats_step(sb, clock.now), sd, clock, rd) && match rd {
                                Err(e) => r == Err::<(), UdpProtoError>(e) && a == sd,
                                Ok(_) => r is Ok && a == Self::silence_steps(sd, clock.now),
                            },
                    },
            }
    }

    /// What polling does once the send queue was pumped (into `b`).
    pub open spec fn state_poll(b: UdpProtocolView, a: UdpProtocolView, clock: Clock, r: Result<(), UdpProtoError>) -> bool {
        match b.state {
            State::Syncing(sy) => {
                let interval = if sy.roundtrips_remaining == NUM_SYNC_PACKETS {
                    SYNC_FIRST_RETRY_INTERVAL
                } else {
                    SYNC_RETRY_INTERVAL
                };
                if b.last_send_time > 0 && b.last_send_time + interval < clock.now {
                    Self::sent_sync_request(b, a, clock, r)
                } else {
                    r is Ok && a == b
                }
            },
            State::Running(_) => Self::running_poll(b, a, clock, r),
            State::Disconnected => r is Ok && a == if b.shutdown_timeout < clock.now {
                UdpProtocolView { initialized: false, shutdown_timeout: 0, ..b }
            } else {
                b
            },
            _ => r is Ok && a == b,
        }
    }

    /// What `on_loop_poll` does: fails when not attached; else pumps the send
    /// queue and then acts on the state's timers.
    pub open spec fn loop_poll_outcome(b: UdpProtocolView, a: UdpProtocolView, clock: Clock, r: Result<bool, UdpProtoError>) -> bool {
        if !b.initialized {
            r == Err::<bool, UdpProtoError>(UdpProtoError::UdpUninit) && a == b
        } else {
            exists|s0: UdpProtocolView, r0: Result<(), UdpProtoError>|
                #![trigger Self::pump_outcome(b, s0, clock, r0)]
                Self::pump_outcome(b, s0, clock, r0) && match r0 {
                    Err(e) => r == Err::<bool, UdpProtoError>(e) && a == s0,
                    Ok(_) => Self::state_poll(s0, a, clock, Self::unit_result(r)) && (r is Ok ==> r
                        == Ok::<bool, UdpProtoError>(true)),
                }
        }
    }

    /// The clocks and states on which polling neither overflows nor fails a
    /// check.
    pub open spec fn poll_ok(v: UdpProtocolView, now: u128) -> bool {
        &&& now + 2000 <= u128::MAX
        &&& v.last_send_time + 2000 <= u128::MAX
        &&& v.last_recv_time + v.disconnect_notify_start <= u128::MAX
        &&& v.last_recv_time + v.disconnect_timeout <= u128::MAX
        &&& (v.state matches State::Running(run) ==> {
            &&& run.last_input_packet_recv_time + RUNNING_RETRY_INTERVAL <= u128::MAX
            &&& run.last_quality_report_time + QUALITY_REPORT_INTERVAL <= u128::MAX
            &&& run.last_network_stats_interval + NETWORK_STATS_INTERVAL <= u128::MAX
            &&& Self::pending_ok(v)
            &&& Self::stats_ok(v, now)
            &&& (v.disconnect_timeout > 0 && v.disconnect_notify_start > 0 && !v.disconnect_notify_sent
                && v.last_recv_time + v.disconnect_notify_start < now) ==> v.disconnect_notify_start
                <= v.disconnect_timeout
        })
    }
}

impl UdpProtocol {
    /// Resends pending input when none was received in time (step one of
    /// polling a running endpoint).
    fn resend_if_due(&mut self, clock: Clock) -> (r: Result<(), UdpProtoError>)
        requires
            old(self)@.wf(),
            old(self)@.state is Running,
            Self::clock_ok(old(self)@, clock),
            Self::poll_ok(old(self)@, clock.now),
        ensures
            final(self)@.wf(),
            Self::clock_ok(final(self)@, clock),
            Self::poll_ok(final(self)@, clock.now),
            final(self)@.state is Running,
            Self::resend_step(old(self)@, final(self)@, clock, r),
    {
        let now = clock.now;
        let running = match self.state {
            State::Running(run) => run,
            _ => Running { last_quality_report_time: 0, last_network_stats_interval: 0, last_input_packet_recv_time: 0 },
        };
        if !(running.last_input_packet_recv_time > 0) || running.last_input_packet_recv_time
            + RUNNING_RETRY_INTERVAL < now {
            let rs = self.send_pending_output(clock);
            let ghost s = self@;
            let ghost m = choose|m: UdpMsg| #![trigger Self::input_msg(m)] Self::input_msg(m) && Self::sent_msg(Self::marked_sent(old(self)@), s, m, clock, rs);
            proof {
                assert(Self::sent_msg(Self::marked_sent(old(self)@), s, m, clock, rs));
            }
            match rs {
                Ok(_) => {},
                Err(e) => {
                    return Err(e);
                },
            }
            self.state = State::Running(Running { last_input_packet_recv_time: now, ..running });
            proof {
                assert(s.state == old(self)@.state);
                assert(rs is Ok);
                assert(rs->Ok_0 == ());
                assert(rs == Ok::<(), UdpProtoError>(()));
                assert(self@ == UdpProtocolView {
                    state: State::Running(Running { last_input_packet_recv_time: clock.now, ..Self::timers(old(self)@) }),
                    ..s
                });
                assert(Self::input_msg(m) && Self::sent_msg(Self::marked_sent(old(self)@), s, m, clock, Ok(())));
            }
        }
        Ok(())
    }

    /// Sends a quality report when one is due (step two).
    fn report_quality_if_due(&mut self, clock: Clock) -> (r: Result<(), UdpProtoError>)
        requires
            old(self)@.wf(),
            old(self)@.state is Running,
            Self::clock_ok(old(self)@, clock),
            Self::poll_ok(old(self)@, clock.now),
        ensures
            final(self)@.wf(),
            Self::clock_ok(final(self)@, clock),
            Self::poll_ok(final(self)@, clock.now),
            final(self)@.state is Running,
            Self::quality_step(old(self)@, final(self)@, clock, r),
    {
        let now = clock.now;
        let running = match self.state {
            State::Running(run) => run,
            _ => Running { last_quality_report_time: 0, last_network_stats_interval: 0, last_input_packet_recv_time: 0 },
        };
        if !(running.last_quality_report_time > 0) || running.last_quality_report_time
            + QUALITY_REPORT_INTERVAL < now {
            let mut msg = UdpMsg::new(MsgType::QualityReport);
            msg.message = MsgEnum::QualityReport(
                crate::udp_msg::QualityReport {
                    ping: now,
                    frame_advantage: self.local_frame_advantage as i8,
                },
            );
            proof {
                assert(msg == quality_report_msg(old(self)@.local_frame_advantage as i8, now));
            }
            let rs = self.send_msg(&mut msg, clock);
            let ghost s = self@;
            proof {
                assert(Self::sent_msg(old(self)@, s, quality_report_msg(old(self)@.local_frame_advantage as i8, now), clock, rs));
            }
            match rs {
                Ok(_) => {},
                Err(e) => {
                    return Err(e);
                },
            }
            self.state = State::Running(Running { last_quality_report_time: now, ..running });
            proof {
                assert(s.state == old(self)@.state);
                assert(rs is Ok);
                assert(rs->Ok_0 == ());
                assert(rs == Ok::<(), UdpProtoError>(()));
                assert(Self::sent_msg(old(self)@, s, quality_report_msg(old(self)@.local_frame_advantage as i8, clock.now), clock, Ok(())));
            }
        }
        Ok(())
    }

    /// Updates the statistics when due (step three).
    fn update_stats_if_due(&mut self, now: u128)
        requires
            old(self)@.wf(),
            old(self)@.state is Running,
            Self::poll_ok(old(self)@, now),
        ensures
            final(self)@ == Self::stats_step(old(self)@, now),
    {
        let running = match self.state {
            State::Running(run) => run,
            _ => Running { last_quality_report_time: 0, last_network_stats_interval: 0, last_input_packet_recv_time: 0 },
        };
        if !(running.last_network_stats_interval > 0) || running.last_network_stats_interval
            + NETWORK_STATS_INTERVAL < now {
            let _ = self.update_network_stats(now);
            self.state = State::Running(Running { last_network_stats_interval: now, ..running });
        }
    }

    /// Sends a keep-alive when nothing was sent for a while (step four).
    fn keep_alive_if_due(&mut self, clock: Clock) -> (r: Result<(), UdpProtoError>)
        requires
            old(self)@.wf(),
            Self::clock_ok(old(self)@, clock),
            Self::poll_ok(old(self)@, clock.now),
        ensures
            final(self)@.wf(),
            final(self)@.state == old(self)@.state,
            Self::poll_ok(final(self)@, clock.now),
            Self::keep_alive_step(old(self)@, final(self)@, clock, r),
    {
        if !(self.last_send_time > 0) || self.last_send_time + NETWORK_STATS_INTERVAL < clock.now {
            let mut ka = UdpMsg::new(MsgType::KeepAlive);
            proof {
                assert(ka == keep_alive_msg());
            }
            return self.send_msg(&mut ka, clock);
        }
        Ok(())
    }

    /// Reports a silent peer (step five).
    fn check_silence(&mut self, now: u128)
        requires
            old(self)@.state is Running,
            Self::poll_ok(old(self)@, now),
        ensures
            final(self)@ == Self::silence_steps(old(self)@, now),
    {
        if self.disconnect_timeout > 0 && self.disconnect_notify_start > 0
            && !self.disconnect_notify_sent && (self.last_recv_time + self.disconnect_notify_start
            < now) {
            let event = Event::NetworkInterrupted(
                NetworkInterrupted {
                    disconnect_timeout: self.disconnect_timeout - self.disconnect_notify_start,
                },
            );
            self.queue_event(event);
            self.disconnect_notify_sent = true;
        }
        if self.disconnect_timeout > 0 && (self.last_recv_time + self.disconnect_timeout < now) {
            if !self.disconnect_event_sent {
                self.queue_event(Event::Disconnected);
                self.disconnect_event_sent = true;
            }
        }
    }

    /// Polls a running endpoint.
    fn poll_running(&mut self, clock: Clock) -> (r: Result<(), UdpProtoError>)
        requires
            old(self)@.wf(),
            old(self)@.state is Running,
            Self::clock_ok(old(self)@, clock),
            Self::poll_ok(old(self)@, clock.now),
        ensures
            final(self)@.wf(),
            Self::running_poll(old(self)@, final(self)@, clock, r),
    {
        let ra = self.resend_if_due(clock);
        let ghost sa = self@;
        match ra {
            Ok(_) => {},
            Err(e) => {
                proof {
                    assert(Self::resend_step(old(self)@, sa, clock, ra));
                }
                return Err(e);
            },
        }
        let rb = self.report_quality_if_due(clock);
        let ghost sb = self@;
        match rb {
            Ok(_) => {},
            Err(e) => {
                proof {
                    assert(Self::resend_step(old(self)@, sa, clock, ra));
                    assert(Self::quality_step(sa, sb, clock, rb));
                }
                return Err(e);
            },
        }
        self.update_stats_if_due(clock.now);
        proof {
            assert(Self::clock_ok(self@, clock));
        }
        let ghost sc = self@;
        let rd = self.keep_alive_if_due(clock);
        let ghost sd = self@;
        proof {
            assert(Self::resend_step(old(self)@, sa, clock, ra));
            assert(Self::quality_step(sa, sb, clock, rb));
            assert(Self::keep_alive_step(Self::stats_step(sb, clock.now), sd, clock, rd));
        }
        match rd {
            Ok(_) => {},
            Err(e) => {
                return Err(e);
            },
        }
        self.check_silence(clock.now);
        Ok(())
    }
}

impl UdpProtocol {
    /// Pumps the send queue and then acts on the state's timers: while
    /// synchronising, resends the sync request when no answer came in time;
    /// while running, resends pending input, sends quality reports and
    /// keep-alives, updates the statistics and reports a silent peer as
    /// interrupted and then disconnected; once disconnected, detaches from
    /// the socket after the shutdown time.
    pub fn on_loop_poll(&mut self, _cookie: i32, clock: Clock) -> (r: Result<bool, UdpProtoError>)
        requires
            old(self)@.wf(),
            Self::clock_ok(old(self)@, clock),
            Self::poll_ok(old(self)@, clock.now),
        ensures
            final(self)@.wf(),
            final(self)@.local_connect_status == old(self)@.local_connect_status,
            Self::loop_poll_outcome(old(self)@, final(self)@, clock, r),
    {
        if !self.initialized {
            return Err(UdpProtoError::UdpUninit);
        }
        let now = clock.now;
        let r0 = self.pump_send_queue(clock);
        let ghost s0 = self@;
        proof {
            Self::lemma_pump_keeps(old(self)@, s0, clock, r0);
            assert(Self::pump_outcome(old(self)@, s0, clock, r0));
        }
        if let Err(e) = r0 {
            return Err(e);
        }
        let rs: Result<(), UdpProtoError> = match self.state {
            State::Syncing(syncing) => {
                let next_interval = if syncing.roundtrips_remaining == NUM_SYNC_PACKETS {
                    SYNC_FIRST_RETRY_INTERVAL
                } else {
                    SYNC_RETRY_INTERVAL
                };
                if self.last_send_time > 0 && self.last_send_time + next_interval < now {
                    self.send_sync_request(clock)
                } else {
                    Ok(())
                }
            },
            State::Synchronized => Ok(()),
            State::Running(_) => self.poll_running(clock),
            State::Disconnected => {
                if self.shutdown_timeout < now {
                    self.initialized = false;
                    self.shutdown_timeout = 0;
                }
                Ok(())
            },
            State::Starting => Ok(()),
        };
        proof {
            assert(Self::state_poll(s0, self@, clock, rs));
        }
        match rs {
            Ok(_) => {
                proof {
                    assert(rs is Ok);
                    assert(rs->Ok_0 == ());
                    assert(Self::unit_result(Ok::<bool, UdpProtoError>(true)) == rs);
                }
                Ok(true)
            },
            Err(e) => Err(e),
        }
    }
}

/// Whether two input buffers hold the same bytes.
fn bits_equal(a: &[u8; 18], b: &[u8; 18]) -> (r: bool)
    ensures
        r == (a@ == b@),
{
    let mut k: usize = 0;
    while k < 18
        invariant
            0 <= k <= 18,
            forall|j: int| 0 <= j < k ==> a@[j] == b@[j],
        decreases 18 - k,
    {
        if a[k] != b[k] {
            return false;
        }
        k = k + 1;
    }
    assert(a@ =~= b@);
    true
}

/// After an acknowledgement of frame `ack` is taken in, no pending input
/// is for a frame before `ack`: the acknowledged ones are all dropped, and
/// the last of them is remembered as acknowledged.
pub proof fn lemma_ack_drops_acknowledged(v: UdpProtocolView, ack: Frame)
    ensures
        UdpProtocol::after_ack(v, ack).pending_output.len() > 0 ==> !frame_lt(
            UdpProtocol::after_ack(v, ack).pending_output[0].frame,
            ack,
        ),
        UdpProtocol::acked_count(v.pending_output, ack) > 0 ==> frame_lt(
            UdpProtocol::after_ack(v, ack).last_acked_input.frame,
            ack,
        ),
{
    lemma_acked_prefix(v.pending_output, ack);
}

proof fn lemma_acked_prefix(pending: Seq<GameInput>, ack: Frame)
    ensures
        UdpProtocol::acked_count(pending, ack) <= pending.len(),
        UdpProtocol::acked_count(pending, ack) < pending.len() ==> !frame_lt(
            pending[UdpProtocol::acked_count(pending, ack) as int].frame,
            ack,
        ),
        forall|i: int|
            0 <= i < UdpProtocol::acked_count(pending, ack) ==> frame_lt(
                #[trigger] pending[i].frame,
                ack,
            ),
    decreases pending.len(),
{
    if pending.len() > 0 && frame_lt(pending[0].frame, ack) {
        lemma_acked_prefix(pending.drop_first(), ack);
        assert forall|i: int| 0 <= i < UdpProtocol::acked_count(pending, ack) implies frame_lt(
            #[trigger] pending[i].frame,
            ack,
        ) by {
            if i > 0 {
                assert(pending[i] == pending.drop_first()[i - 1]);
            }
        }
    }
}

/// Decodes the changes of one frame from bit `offset` of `bits` onto `g`
/// when `use_inputs` (see `decode_frame`): where they end and the input
/// they give, or `None` where the decoding cannot go on.
fn check_frame(bits: &mut [u8; 4096], offset: usize, use_inputs: bool, g: GameInput) -> (r: Option<
    (usize, GameInput),
>)
    ensures
        final(bits)@ == old(bits)@,
        match r {
            None => decode_frame(old(bits)@, offset as int, use_inputs, g.bits_view()) is None,
            Some((o, g2)) => decode_frame(old(bits)@, offset as int, use_inputs, g.bits_view()) == Some(
                (o as int, g2.bits_view()),
            ),
        },
{
    let ghost mb = bits@;
    let ghost target = decode_frame(mb, offset as int, use_inputs, g.bits_view());
    if offset >= 32768 {
        return None;
    }
    let mut o = offset;
    let mut cur = g;
    loop
        invariant
            bits@ == mb,
            mb == old(bits)@,
            mb.len() == 4096,
            o <= 32768,
            target == decode_frame(old(bits)@, offset as int, use_inputs, g.bits_view()),
            decode_frame(mb, o as int, use_inputs, cur.bits_view()) == target,
        decreases 32768 - o,
    {
        if o >= 32768 {
            return None;
        }
        let mut off = o;
        let b = read_bit(bits, &mut off);
        if b == 0 {
            return Some((o + 1, cur));
        }
        if o + 9 >= 32768 {
            return None;
        }
        let on = read_bit(bits, &mut off);
        let button = read_nibblet(bits, &mut off);
        if use_inputs {
            if !(0 <= button && button < 144) {
                return None;
            }
            if on > 0 {
                cur.set(button as usize);
            } else {
                cur.clear(button as usize);
            }
        }
        o = o + 10;
    }
}

/// Whether the frames of an input message decode to the end of its
/// `num_bits` bits from the given start (see `decode_frames`).
fn check_frames(bits: &mut [u8; 4096], num_bits: usize, start: Frame, last: Frame, g0: GameInput) -> (ok: bool)
    ensures
        final(bits)@ == old(bits)@,
        ok == decode_frames(
            old(bits)@,
            num_bits as int,
            Decoding { offset: 0, current: start, frame: last, bits: g0.bits_view(), delivered: Seq::empty() },
        ) is Some,
{
    let ghost mb = bits@;
    let ghost target = decode_frames(
        mb,
        num_bits as int,
        Decoding { offset: 0, current: start, frame: last, bits: g0.bits_view(), delivered: Seq::empty() },
    ) is Some;
    let mut offset: usize = 0;
    let mut current = start;
    let mut frame = last;
    let mut g = g0;
    let ghost mut delivered: Seq<(Frame, Seq<u8>)> = Seq::empty();
    while offset < num_bits
        invariant
            bits@ == mb,
            mb == old(bits)@,
            target == decode_frames(
                old(bits)@,
                num_bits as int,
                Decoding { offset: 0, current: start, frame: last, bits: g0.bits_view(), delivered: Seq::empty() },
            ) is Some,
            (decode_frames(
                mb,
                num_bits as int,
                Decoding { offset: offset as int, current, frame, bits: g.bits_view(), delivered },
            ) is Some) == target,
        decreases num_bits - offset,
    {
        let ghost d = Decoding { offset: offset as int, current, frame, bits: g.bits_view(), delivered };
        let (c, lf) = match (current, frame) {
            (Some(c), Some(lf)) => (c, lf),
            _ => {
                proof {
                    assert(decode_frames(mb, num_bits as int, d) is None);
                }
                return false;
            },
        };
        if lf == usize::MAX || c > lf + 1 {
            return false;
        }
        let use_inputs = c == lf + 1;
        match check_frame(bits, offset, use_inputs, g) {
            None => {
                return false;
            },
            Some((o2, g2)) => {
                if o2 > num_bits || o2 <= offset || c == usize::MAX {
                    return false;
                }
                if use_inputs {
                    frame = Some(c);
                    g = g2;
                    proof {
                        delivered = delivered.push((Some(c), g2.bits_view()));
                    }
                }
                offset = o2;
                current = Some(c + 1);
                proof {
                    assert(decode_frames(mb, num_bits as int, d) == decode_frames(
                        mb,
                        num_bits as int,
                        Decoding { offset: offset as int, current, frame, bits: g.bits_view(), delivered },
                    ));
                }
            },
        }
    }
    true
}

impl UdpProtocol {
    /// Whether the inputs of `input` decompress (see `decode_ok`).
    fn check_decode(&self, input: &crate::udp_msg::Input) -> (ok: bool)
        ensures
            ok == Self::decode_ok(self@, *input),
    {
        if input.num_bits == 0 {
            return true;
        }
        let mut bits = input.bits;
        let n = input.num_bits as usize;
        match (self.last_received_input.frame, input.start_frame) {
            (None, None) => true,
            (None, Some(s)) => {
                if s < 1 {
                    return false;
                }
                check_frames(&mut bits, n, input.start_frame, Some(s - 1), self.last_received_input)
            },
            (Some(lf), None) => {
                if lf == usize::MAX {
                    return false;
                }
                match check_frame(&mut bits, 0, false, self.last_received_input) {
                    None => false,
                    Some((o, _)) => o <= n,
                }
            },
            (Some(lf), Some(_)) => check_frames(
                &mut bits,
                n,
                input.start_frame,
                Some(lf),
                self.last_received_input,
            ),
        }
    }

    /// Whether the peer's connection statuses in `input` are not behind
    /// ours (see `peer_status_ok`).
    fn check_peer_status(&self, input: &crate::udp_msg::Input) -> (ok: bool)
        requires
            self@.wf(),
        ensures
            ok == Self::peer_status_ok(self@, *input),
    {
        if input.disconnect_requested {
            return true;
        }
        let mut i: usize = 0;
        while i < 4
            invariant
                0 <= i <= 4,
                self@.wf(),
                !input.disconnect_requested,
                forall|k: int|
                    0 <= k < i ==> !frame_lt(
                        (#[trigger] input.peer_connect_status@[k]).last_frame,
                        self@.peer_connect_status[k].last_frame,
                    ),
            decreases 4 - i,
        {
            proof {
                assert(self@.peer_connect_status[i as int] == self.peer_connect_status@[i as int]);
            }
            let theirs = input.peer_connect_status[i].last_frame;
            let ours = self.peer_connect_status[i].last_frame;
            proof {
                assert(theirs == input.peer_connect_status@[i as int].last_frame);
                assert(ours == self@.peer_connect_status[i as int].last_frame);
            }
            if frame_before(theirs, ours) {
                proof {
                    assert(frame_lt(
                        input.peer_connect_status@[i as int].last_frame,
                        self@.peer_connect_status[i as int].last_frame,
                    ));
                }
                return false;
            }
            i = i + 1;
        }
        true
    }

    /// Whether `on_msg(msg, clock)` can take the message: the clock is
    /// usable (see `clock_ok`) and the message can be handled (see
    /// `on_msg_ok`). A caller drops a message for which this is false.
    pub fn accepts_msg(&self, msg: &UdpMsg, clock: Clock) -> (b: bool)
        requires
            self@.wf(),
        ensures
            b == (Self::clock_ok(self@, clock) && Self::on_msg_ok(self@, *msg, clock.now)),
    {
        let jitter = clock.jitter_ms as u128;
        if clock.now > u128::MAX - jitter {
            return false;
        }
        let mut i: usize = 0;
        while i < self.send_queue.len()
            invariant
                0 <= i <= self.send_queue@.len(),
                jitter == clock.jitter_ms,
                forall|k: int| 0 <= k < i ==> #[trigger] self@.send_queue[k].queue_time + clock.jitter_ms <= u128::MAX,
            decreases self.send_queue@.len() - i,
        {
            if self.send_queue[i].queue_time > u128::MAX - jitter {
                return false;
            }
            i = i + 1;
        }
        let seq = msg.header.sequence_number;
        let t = msg.header.packet_type;
        let is_sync = match t {
            MsgType::SyncRequest => true,
            MsgType::SyncReply => true,
            _ => false,
        };
        if !is_sync {
            if msg.header.magic != self.remote_magic_number {
                return true;
            }
            let skipped: u16 = ((seq as u32 + 65536 - self.next_recv_seq as u32) % 65536) as u16;
            if skipped > MAX_SEQ_DISTANCE {
                return true;
            }
        }
        match msg.message {
            MsgEnum::Input(input) => match t {
                MsgType::Input => self.check_peer_status(&input) && self.check_decode(&input),
                MsgType::QualityReply => true,
                _ => true,
            },
            MsgEnum::QualityReply(rep) => match t {
                MsgType::QualityReply => rep.pong <= clock.now,
                _ => true,
            },
            _ => match t {
                MsgType::QualityReply => 0 <= clock.now,
                _ => true,
            },
        }
    }
}

/// How many `Disconnected` events `evs` holds.
pub open spec fn count_disconnects(evs: Seq<Event>) -> nat
    decreases evs.len(),
{
    if evs.len() == 0 {
        0
    } else {
        count_disconnects(evs.drop_last()) + if evs.last() == Event::Disconnected {
            1nat
        } else {
            0nat
        }
    }
}

/// How many `NetworkInterrupted` events `evs` holds.
pub open spec fn count_interrupts(evs: Seq<Event>) -> nat
    decreases evs.len(),
{
    if evs.len() == 0 {
        0
    } else {
        count_interrupts(evs.drop_last()) + if evs.last() is NetworkInterrupted {
            1nat
        } else {
            0nat
        }
    }
}

/// What sending leaves alone: the attachment, the state, the events and
/// everything the silence checks read and set.
pub open spec fn quiet(b: UdpProtocolView, a: UdpProtocolView) -> bool {
    &&& a.initialized == b.initialized
    &&& a.state == b.state
    &&& a.event_queue == b.event_queue
    &&& a.disconnect_event_sent == b.disconnect_event_sent
    &&& a.disconnect_notify_sent == b.disconnect_notify_sent
    &&& a.disconnect_timeout == b.disconnect_timeout
    &&& a.disconnect_notify_start == b.disconnect_notify_start
    &&& a.last_recv_time == b.last_recv_time
    &&& a.shutdown_timeout == b.shutdown_timeout
}

proof fn lemma_pump_quiet(b: UdpProtocolView, a: UdpProtocolView, clock: Clock, r: Result<(), UdpProtoError>)
    requires
        UdpProtocol::pump_outcome(b, a, clock, r),
    ensures
        quiet(b, a),
{
}

proof fn lemma_sent_quiet(b: UdpProtocolView, a: UdpProtocolView, m: UdpMsg, clock: Clock, r: Result<(), UdpProtoError>)
    requires
        UdpProtocol::sent_msg(b, a, m, clock, r),
    ensures
        quiet(b, a),
{
    let c = UdpProtocol::counted(b, m, clock.now);
    match b.peer_addr {
        None => {},
        Some(addr) => {
            let q = UdpProtocolView {
                send_queue: c.send_queue.push(
                    QueueEntry { queue_time: clock.now, dest_addr: addr, msg: UdpProtocol::stamped(b, m) },
                ),
                ..c
            };
            lemma_pump_quiet(q, a, clock, r);
        },
    }
}

proof fn lemma_count_push(evs: Seq<Event>, e: Event)
    ensures
        count_disconnects(evs.push(e)) == count_disconnects(evs) + if e == Event::Disconnected {
            1nat
        } else {
            0nat
        },
        count_interrupts(evs.push(e)) == count_interrupts(evs) + if e is NetworkInterrupted {
            1nat
        } else {
            0nat
        },
{
    assert(evs.push(e).drop_last() =~= evs);
}

/// The silence checks report a disconnect only while none was reported,
/// and an interruption only while none is reported; what they report sets
/// the matching flag.
proof fn lemma_silence_counts(b: UdpProtocolView, now: u128)
    ensures
        ({
            let a = UdpProtocol::silence_steps(b, now);
            &&& quiet(b, UdpProtocolView {
                event_queue: b.event_queue,
                disconnect_event_sent: b.disconnect_event_sent,
                disconnect_notify_sent: b.disconnect_notify_sent,
                ..a
            })
            &&& a.event_queue.len() >= b.event_queue.len()
            &&& a.event_queue.take(b.event_queue.len() as int) == b.event_queue
            &&& (b.disconnect_event_sent ==> a.disconnect_event_sent)
            &&& (b.disconnect_notify_sent ==> a.disconnect_notify_sent)
            &&& count_disconnects(a.event_queue) == count_disconnects(b.event_queue) + if !b.disconnect_event_sent
                && a.disconnect_event_sent {
                1nat
            } else {
                0nat
            }
            &&& count_interrupts(a.event_queue) == count_interrupts(b.event_queue) + if !b.disconnect_notify_sent
                && a.disconnect_notify_sent {
                1nat
            } else {
                0nat
            }
        }),
{
    let i = Event::NetworkInterrupted(
        NetworkInterrupted { disconnect_timeout: (b.disconnect_timeout - b.disconnect_notify_start) as u128 },
    );
    lemma_count_push(b.event_queue, i);
    lemma_count_push(b.event_queue, Event::Disconnected);
    lemma_count_push(b.event_queue.push(i), Event::Disconnected);
    assert(b.event_queue.push(i).take(b.event_queue.len() as int) =~= b.event_queue);
    assert(b.event_queue.push(Event::Disconnected).take(b.event_queue.len() as int) =~= b.event_queue);
    assert(b.event_queue.push(i).push(Event::Disconnected).take(b.event_queue.len() as int) =~= b.event_queue);
}

/// What one poll does to the events and the silence flags: the events only
/// grow; a reported disconnect or interruption stays reported; and the
/// poll appends one `Disconnected` event exactly when it sets the
/// disconnect flag, one `NetworkInterrupted` event exactly when it sets
/// the interruption flag, and no other event of either kind. A poll never
/// attaches an endpoint.
pub proof fn lemma_poll_step(b: UdpProtocolView, a: UdpProtocolView, clock: Clock, r: Result<bool, UdpProtoError>)
    requires
        UdpProtocol::loop_poll_outcome(b, a, clock, r),
    ensures
        a.event_queue.len() >= b.event_queue.len(),
        a.event_queue.take(b.event_queue.len() as int) == b.event_queue,
        b.disconnect_event_sent ==> a.disconnect_event_sent,
        b.disconnect_notify_sent ==> a.disconnect_notify_sent,
        a.initialized ==> b.initialized,
        a.last_recv_time == b.last_recv_time,
        a.disconnect_timeout == b.disconnect_timeout,
        a.disconnect_notify_start == b.disconnect_notify_start,
        count_disconnects(a.event_queue) == count_disconnects(b.event_queue) + if !b.disconnect_event_sent
            && a.disconnect_event_sent {
            1nat
        } else {
            0nat
        },
        count_interrupts(a.event_queue) == count_interrupts(b.event_queue) + if !b.disconnect_notify_sent
            && a.disconnect_notify_sent {
            1nat
        } else {
            0nat
        },
{
    assert(b.event_queue.take(b.event_queue.len() as int) =~= b.event_queue);
    if b.initialized {
        let (s0, r0) = choose|s0: UdpProtocolView, r0: Result<(), UdpProtoError>|
            #![trigger UdpProtocol::pump_outcome(b, s0, clock, r0)]
            UdpProtocol::pump_outcome(b, s0, clock, r0) && match r0 {
                Err(e) => r == Err::<bool, UdpProtoError>(e) && a == s0,
                Ok(_) => UdpProtocol::state_poll(s0, a, clock, UdpProtocol::unit_result(r)) && (r is Ok
                    ==> r == Ok::<bool, UdpProtoError>(true)),
            };
        lemma_pump_quiet(b, s0, clock, r0);
        if r0 is Ok {
            let ru = UdpProtocol::unit_result(r);
            match s0.state {
                State::Syncing(sy) => {
                    let interval = if sy.roundtrips_remaining == NUM_SYNC_PACKETS {
                        SYNC_FIRST_RETRY_INTERVAL
                    } else {
                        SYNC_RETRY_INTERVAL
                    };
                    if s0.last_send_time > 0 && s0.last_send_time + interval < clock.now {
                        let rnd = a.state->Syncing_0.random;
                        lemma_sent_quiet(
                            UdpProtocolView { state: State::Syncing(Syncing { random: rnd, ..sy }), ..s0 },
                            a,
                            UdpProtocol::sync_request_msg(rnd),
                            clock,
                            ru,
                        );
                    }
                },
                State::Running(_) => {
                    lemma_running_poll(s0, a, clock, ru);
                },
                _ => {},
            }
        }
    }
}

/// What a step of polling a running endpoint leaves alone: all that
/// sending does (see `quiet`) but the state's timers.
pub open spec fn calm(b: UdpProtocolView, a: UdpProtocolView) -> bool {
    quiet(UdpProtocolView { state: a.state, ..b }, a)
}

proof fn lemma_resend_calm(b: UdpProtocolView, a: UdpProtocolView, clock: Clock, r: Result<(), UdpProtoError>)
    requires
        UdpProtocol::resend_step(b, a, clock, r),
    ensures
        calm(b, a),
{
    let run = UdpProtocol::timers(b);
    if timer_due(run.last_input_packet_recv_time, RUNNING_RETRY_INTERVAL, clock.now) {
        let (m, s) = choose|m: UdpMsg, s: UdpProtocolView|
            #![trigger UdpProtocol::sent_msg(UdpProtocol::marked_sent(b), s, m, clock, r)]
            UdpProtocol::input_msg(m) && UdpProtocol::sent_msg(UdpProtocol::marked_sent(b), s, m, clock, r)
                && a == match r {
                Ok(_) => UdpProtocolView {
                    state: State::Running(Running { last_input_packet_recv_time: clock.now, ..run }),
                    ..s
                },
                Err(_) => s,
            };
        lemma_sent_quiet(UdpProtocol::marked_sent(b), s, m, clock, r);
    }
}

proof fn lemma_quality_calm(b: UdpProtocolView, a: UdpProtocolView, clock: Clock, r: Result<(), UdpProtoError>)
    requires
        UdpProtocol::quality_step(b, a, clock, r),
    ensures
        calm(b, a),
{
    let run = UdpProtocol::timers(b);
    if timer_due(run.last_quality_report_time, QUALITY_REPORT_INTERVAL, clock.now) {
        let m = quality_report_msg(b.local_frame_advantage as i8, clock.now);
        let s = choose|s: UdpProtocolView|
            #![trigger UdpProtocol::sent_msg(b, s, m, clock, r)]
            UdpProtocol::sent_msg(b, s, m, clock, r) && a == match r {
                Ok(_) => UdpProtocolView {
                    state: State::Running(Running { last_quality_report_time: clock.now, ..run }),
                    ..s
                },
                Err(_) => s,
            };
        lemma_sent_quiet(b, s, m, clock, r);
    }
}

proof fn lemma_keep_alive_calm(b: UdpProtocolView, a: UdpProtocolView, clock: Clock, r: Result<(), UdpProtoError>)
    requires
        UdpProtocol::keep_alive_step(UdpProtocol::stats_step(b, clock.now), a, clock, r),
    ensures
        calm(b, a),
{
    let st = UdpProtocol::stats_step(b, clock.now);
    if timer_due(st.last_send_time, NETWORK_STATS_INTERVAL, clock.now) {
        lemma_sent_quiet(st, a, keep_alive_msg(), clock, r);
    }
}

#[verifier::rlimit(30)]
proof fn lemma_running_poll(b: UdpProtocolView, a: UdpProtocolView, clock: Clock, r: Result<(), UdpProtoError>)
    requires
        UdpProtocol::running_poll(b, a, clock, r),
    ensures
        a.event_queue.len() >= b.event_queue.len(),
        a.event_queue.take(b.event_queue.len() as int) == b.event_queue,
        b.disconnect_event_sent ==> a.disconnect_event_sent,
        b.disconnect_notify_sent ==> a.disconnect_notify_sent,
        a.initialized == b.initialized,
        a.last_recv_time == b.last_recv_time,
        a.disconnect_timeout == b.disconnect_timeout,
        a.disconnect_notify_start == b.disconnect_notify_start,
        count_disconnects(a.event_queue) == count_disconnects(b.event_queue) + if !b.disconnect_event_sent
            && a.disconnect_event_sent {
            1nat
        } else {
            0nat
        },
        count_interrupts(a.event_queue) == count_interrupts(b.event_queue) + if !b.disconnect_notify_sent
            && a.disconnect_notify_sent {
            1nat
        } else {
            0nat
        },
{
    assert(b.event_queue.take(b.event_queue.len() as int) =~= b.event_queue);
    let (sa, ra) = choose|sa: UdpProtocolView, ra: Result<(), UdpProtoError>|
        #![trigger UdpProtocol::resend_step(b, sa, clock, ra)]
        UdpProtocol::resend_step(b, sa, clock, ra) && match ra {
            Err(e) => r == Err::<(), UdpProtoError>(e) && a == sa,
            Ok(_) => exists|sb: UdpProtocolView, rb: Result<(), UdpProtoError>|
                #![trigger UdpProtocol::quality_step(sa, sb, clock, rb)]
                UdpProtocol::quality_step(sa, sb, clock, rb) && match rb {
                    Err(e) => r == Err::<(), UdpProtoError>(e) && a == sb,
                    Ok(_) => exists|sd: UdpProtocolView, rd: Result<(), UdpProtoError>|
                        #![trigger UdpProtocol::keep_alive_step(UdpProtocol::stats_step(sb, clock.now), sd, clock, rd)]
                        UdpProtocol::keep_alive_step(UdpProtocol::stats_step(sb, clock.now), sd, clock, rd)
                            && match rd {
                            Err(e) => r == Err::<(), UdpProtoError>(e) && a == sd,
                            Ok(_) => r is Ok && a == UdpProtocol::silence_steps(sd, clock.now),
                        },
                },
        };
    lemma_resend_calm(b, sa, clock, ra);
    if ra is Ok {
        let (sb, rb) = choose|sb: UdpProtocolView, rb: Result<(), UdpProtoError>|
            #![trigger UdpProtocol::quality_step(sa, sb, clock, rb)]
            UdpProtocol::quality_step(sa, sb, clock, rb) && match rb {
                Err(e) => r == Err::<(), UdpProtoError>(e) && a == sb,
                Ok(_) => exists|sd: UdpProtocolView, rd: Result<(), UdpProtoError>|
                    #![trigger UdpProtocol::keep_alive_step(UdpProtocol::stats_step(sb, clock.now), sd, clock, rd)]
                    UdpProtocol::keep_alive_step(UdpProtocol::stats_step(sb, clock.now), sd, clock, rd) && match rd {
                        Err(e) => r == Err::<(), UdpProtoError>(e) && a == sd,
                        Ok(_) => r is Ok && a == UdpProtocol::silence_steps(sd, clock.now),
                    },
            };
        lemma_quality_calm(sa, sb, clock, rb);
        if rb is Ok {
            let (sd, rd) = choose|sd: UdpProtocolView, rd: Result<(), UdpProtoError>|
                #![trigger UdpProtocol::keep_alive_step(UdpProtocol::stats_step(sb, clock.now), sd, clock, rd)]
                UdpProtocol::keep_alive_step(UdpProtocol::stats_step(sb, clock.now), sd, clock, rd) && match rd {
                    Err(e) => r == Err::<(), UdpProtoError>(e) && a == sd,
                    Ok(_) => r is Ok && a == UdpProtocol::silence_steps(sd, clock.now),
                };
            lemma_keep_alive_calm(sb, sd, clock, rd);
            if rd is Ok {
                lemma_silence_counts(sd, clock.now);
            }
        }
    }
}

/// A run of polls: each state is what polling the one before it left,
/// with the clock and result of that poll.
pub open spec fn polled(
    states: Seq<UdpProtocolView>,
    clocks: Seq<Clock>,
    results: Seq<Result<bool, UdpProtoError>>,
) -> bool {
    &&& states.len() == clocks.len() + 1
    &&& results.len() == clocks.len()
    &&& forall|i: int|
        0 <= i < clocks.len() ==> UdpProtocol::loop_poll_outcome(
            #[trigger] states[i],
            states[i + 1],
            clocks[i],
            results[i],
        )
}

/// Over any run of polls the events reported before stay, the peer is
/// reported disconnected at most once (never when that was reported
/// before the run) and an interruption is reported at most once (never
/// while one is reported and no message was handled since).
pub proof fn lemma_polls_report_once(
    states: Seq<UdpProtocolView>,
    clocks: Seq<Clock>,
    results: Seq<Result<bool, UdpProtoError>>,
)
    requires
        polled(states, clocks, results),
    ensures
        states.last().event_queue.len() >= states[0].event_queue.len(),
        states.last().event_queue.take(states[0].event_queue.len() as int) == states[0].event_queue,
        count_disconnects(states.last().event_queue) <= count_disconnects(states[0].event_queue)
            + if states[0].disconnect_event_sent {
            0nat
        } else {
            1nat
        },
        count_interrupts(states.last().event_queue) <= count_interrupts(states[0].event_queue)
            + if states[0].disconnect_notify_sent {
            0nat
        } else {
            1nat
        },
{
    lemma_polls_counts(states, clocks, results);
}

proof fn lemma_polls_counts(
    states: Seq<UdpProtocolView>,
    clocks: Seq<Clock>,
    results: Seq<Result<bool, UdpProtoError>>,
)
    requires
        polled(states, clocks, results),
    ensures
        states.last().event_queue.len() >= states[0].event_queue.len(),
        states.last().event_queue.take(states[0].event_queue.len() as int) == states[0].event_queue,
        states[0].disconnect_event_sent ==> states.last().disconnect_event_sent,
        states[0].disconnect_notify_sent ==> states.last().disconnect_notify_sent,
        count_disconnects(states.last().event_queue) == count_disconnects(states[0].event_queue)
            + if !states[0].disconnect_event_sent && states.last().disconnect_event_sent {
            1nat
        } else {
            0nat
        },
        count_interrupts(states.last().event_queue) == count_interrupts(states[0].event_queue)
            + if !states[0].disconnect_notify_sent && states.last().disconnect_notify_sent {
            1nat
        } else {
            0nat
        },
    decreases clocks.len(),
{
    let n = clocks.len() as int;
    if n == 0 {
        assert(states[0].event_queue.take(states[0].event_queue.len() as int) =~= states[0].event_queue);
    } else {
        let s1 = states.take(n);
        let c1 = clocks.take(n - 1);
        let r1 = results.take(n - 1);
        assert forall|i: int| 0 <= i < c1.len() implies UdpProtocol::loop_poll_outcome(
            #[trigger] s1[i],
            s1[i + 1],
            c1[i],
            r1[i],
        ) by {
            assert(UdpProtocol::loop_poll_outcome(states[i], states[i + 1], clocks[i], results[i]));
        }
        lemma_polls_counts(s1, c1, r1);
        let m = states[n - 1];
        assert(s1.last() == m);
        assert(s1[0] == states[0]);
        assert(UdpProtocol::loop_poll_outcome(states[n - 1], states[n], clocks[n - 1], results[n - 1]));
        lemma_poll_step(m, states.last(), clocks[n - 1], results[n - 1]);
        let f = states[0].event_queue;
        let l = states.last().event_queue;
        assert(l.take(f.len() as int) =~= l.take(m.event_queue.len() as int).take(f.len() as int));
    }
}

/// An endpoint that disconnected is released by the first poll after its
/// shutdown time, and every poll after that fails as detached, changing
/// nothing; a poll up to the shutdown time keeps it attached.
pub proof fn lemma_detached_after_shutdown(
    b: UdpProtocolView,
    a: UdpProtocolView,
    clock: Clock,
    r: Result<bool, UdpProtoError>,
    a2: UdpProtocolView,
    clock2: Clock,
    r2: Result<bool, UdpProtoError>,
)
    requires
        b.initialized,
        b.state is Disconnected,
        UdpProtocol::loop_poll_outcome(b, a, clock, r),
        UdpProtocol::loop_poll_outcome(a, a2, clock2, r2),
    ensures
        b.shutdown_timeout < clock.now ==> !a.initialized && r == Ok::<bool, UdpProtoError>(true),
        b.shutdown_timeout < clock.now ==> r2 == Err::<bool, UdpProtoError>(UdpProtoError::UdpUninit)
            && a2 == a,
        b.shutdown_timeout >= clock.now ==> a.initialized,
{
    let (s0, r0) = choose|s0: UdpProtocolView, r0: Result<(), UdpProtoError>|
        #![trigger UdpProtocol::pump_outcome(b, s0, clock, r0)]
        UdpProtocol::pump_outcome(b, s0, clock, r0) && match r0 {
            Err(e) => r == Err::<bool, UdpProtoError>(e) && a == s0,
            Ok(_) => UdpProtocol::state_poll(s0, a, clock, UdpProtocol::unit_result(r)) && (r is Ok ==> r
                == Ok::<bool, UdpProtoError>(true)),
        };
    lemma_pump_quiet(b, s0, clock, r0);
}

/// The frames a decoding delivers follow on from the last received frame
/// one by one, and the last of them becomes the last received frame.
proof fn lemma_decode_frames_consecutive(msg_bits: Seq<u8>, num_bits: int, d: Decoding)
    requires
        decode_frames(msg_bits, num_bits, d) is Some,
        d.frame is Some,
    ensures
        ({
            let e = decode_frames(msg_bits, num_bits, d)->0;
            let n = e.delivered.len() - d.delivered.len();
            &&& n >= 0
            &&& e.delivered.take(d.delivered.len() as int) == d.delivered
            &&& e.frame is Some
            &&& e.frame->0 == d.frame->0 + n
            &&& forall|k: int|
                0 <= k < n ==> (#[trigger] e.delivered[d.delivered.len() + k]).0 == Some(
                    (d.frame->0 + 1 + k) as usize,
                )
        }),
    decreases num_bits - d.offset,
{
    if d.offset >= num_bits {
        assert(d.delivered.take(d.delivered.len() as int) =~= d.delivered);
    } else {
        let c = d.current->0;
        let lf = d.frame->0;
        let use_inputs = c == lf + 1;
        let (o2, b2) = decode_frame(msg_bits, d.offset, use_inputs, d.bits)->0;
        let d2 = if use_inputs {
            Decoding { frame: Some(c), bits: b2, delivered: d.delivered.push((Some(c), b2)), ..d }
        } else {
            d
        };
        let d3 = Decoding { offset: o2, current: Some((c + 1) as usize), ..d2 };
        lemma_decode_frames_consecutive(msg_bits, num_bits, d3);
        let e = decode_frames(msg_bits, num_bits, d)->0;
        assert(e == decode_frames(msg_bits, num_bits, d3)->0);
        if use_inputs {
            assert(e.delivered.take(d.delivered.len() as int) =~= e.delivered.take(
                d3.delivered.len() as int,
            ).take(d.delivered.len() as int));
            assert(e.delivered[d.delivered.len() as int] == d3.delivered[d.delivered.len() as int]) by {
                assert(e.delivered.take(d3.delivered.len() as int)[d.delivered.len() as int]
                    == e.delivered[d.delivered.len() as int]);
            }
            assert forall|k: int| 0 <= k < e.delivered.len() - d.delivered.len() implies (
            #[trigger] e.delivered[d.delivered.len() + k]).0 == Some((d.frame->0 + 1 + k) as usize) by {
                if k > 0 {
                    assert(e.delivered[d3.delivered.len() + (k - 1)] == e.delivered[d.delivered.len()
                        + k]);
                }
            }
        }
    }
}

/// Frame continuity of received input: an input message that is handled
/// delivers, for the frames it carries that follow the last received frame,
/// one input event per frame, in order and with no gap or repetition from
/// the frame right after the last received one (frames at or before it are
/// skipped); the last of them becomes the last received frame, which thus
/// never goes back.
pub proof fn lemma_input_frames_continue(
    b: UdpProtocolView,
    a: UdpProtocolView,
    msg: UdpMsg,
    now: u128,
    r: Result<bool, UdpProtoError>,
)
    requires
        UdpProtocol::on_input_outcome(b, a, msg, now, r),
        msg.message is Input,
        r is Ok,
        b.last_received_input.frame is Some,
        UdpProtocol::decode_ok(UdpProtocol::after_input_control(b, msg.message->Input_0), msg.message->Input_0),
    ensures
        a.last_received_input.frame is Some,
        a.last_received_input.frame->0 >= b.last_received_input.frame->0,
        a.event_queue.len() >= b.event_queue.len(),
        ({
            let v1 = UdpProtocol::after_input_control(b, msg.message->Input_0);
            let n = a.last_received_input.frame->0 - b.last_received_input.frame->0;
            &&& a.event_queue.len() == v1.event_queue.len() + n
            &&& forall|k: int|
                0 <= k < n ==> ((#[trigger] a.event_queue[v1.event_queue.len() + k]) matches Event::Input(g)
                    && g.frame == Some((b.last_received_input.frame->0 + 1 + k) as usize)
                    && g.size == b.input_size)
        }),
{
    let input = msg.message->Input_0;
    let v1 = UdpProtocol::after_input_control(b, input);
    assert(v1.last_received_input == b.last_received_input);
    if input.num_bits > 0 {
        let d0 = UdpProtocol::initial_decoding(v1, input);
        lemma_decode_frames_consecutive(input.bits@, input.num_bits as int, d0);
        let d = decode_frames(input.bits@, input.num_bits as int, d0)->0;
        let tail = a.event_queue.skip(v1.event_queue.len() as int);
            assert forall|k: int| 0 <= k < d.delivered.len() implies ((#[trigger] a.event_queue[v1.event_queue.len() + k]) matches Event::Input(g)
            && g.frame == Some((b.last_received_input.frame->0 + 1 + k) as usize) && g.size == b.input_size) by {
            assert(tail[k] == a.event_queue[v1.event_queue.len() + k]);
            assert(d.delivered[d0.delivered.len() + k] == d.delivered[k]);
        }
    }
}

/// A peer's disconnect request is answered with one `Disconnected` event:
/// an input message that requests it and carries no input is handled, the
/// disconnect is reported unless it was before (or the endpoint is already
/// disconnected), and once reported it stays reported, so a repeated
/// request reports nothing more.
pub proof fn lemma_disconnect_request_reported_once(
    b: UdpProtocolView,
    a: UdpProtocolView,
    msg: UdpMsg,
    now: u128,
    r: Result<bool, UdpProtoError>,
)
    requires
        UdpProtocol::on_input_outcome(b, a, msg, now, r),
        msg.message matches MsgEnum::Input(input) && input.disconnect_requested && input.num_bits == 0,
    ensures
        r == Ok::<bool, UdpProtoError>(true),
        b.state != State::Disconnected || b.disconnect_event_sent ==> a.disconnect_event_sent,
        a.event_queue.len() >= b.event_queue.len(),
        a.event_queue.take(b.event_queue.len() as int) == b.event_queue,
        count_disconnects(a.event_queue) == count_disconnects(b.event_queue) + if b.state
            != State::Disconnected && !b.disconnect_event_sent {
            1nat
        } else {
            0nat
        },
        a.peer_connect_status == b.peer_connect_status,
{
    lemma_count_push(b.event_queue, Event::Disconnected);
    assert(b.event_queue.take(b.event_queue.len() as int) =~= b.event_queue);
    assert(b.event_queue.push(Event::Disconnected).take(b.event_queue.len() as int) =~= b.event_queue);
}

/// A handled message ends a reported interruption of a running endpoint:
/// it reports the connection resumed, once, and clears the interruption so
/// that a later silence is reported again; with no interruption reported
/// it reports nothing. Either way the peer counts as heard from at `now`.
pub proof fn lemma_handled_message_resumes(v: UdpProtocolView, now: u128)
    ensures
        UdpProtocol::after_handled(v, now).last_recv_time == now,
        !UdpProtocol::after_handled(v, now).disconnect_notify_sent || !(v.state is Running),
        v.state is Running && v.disconnect_notify_sent ==> UdpProtocol::after_handled(v, now).event_queue
            == v.event_queue.push(Event::NetworkResumed),
        !(v.state is Running && v.disconnect_notify_sent) ==> UdpProtocol::after_handled(v, now).event_queue
            == v.event_queue,
{
}

/// A running poll that succeeds ends with the silence checks, on what the
/// earlier steps left of the endpoint (all that they leave alone).
proof fn lemma_running_poll_ok(b: UdpProtocolView, a: UdpProtocolView, clock: Clock)
    requires
        UdpProtocol::running_poll(b, a, clock, Ok(())),
    ensures
        exists|sd: UdpProtocolView| #[trigger] calm(b, sd) && a == UdpProtocol::silence_steps(sd, clock.now),
{
    let r: Result<(), UdpProtoError> = Ok(());
    let (sa, ra) = choose|sa: UdpProtocolView, ra: Result<(), UdpProtoError>|
        #![trigger UdpProtocol::resend_step(b, sa, clock, ra)]
        UdpProtocol::resend_step(b, sa, clock, ra) && match ra {
            Err(e) => r == Err::<(), UdpProtoError>(e) && a == sa,
            Ok(_) => exists|sb: UdpProtocolView, rb: Result<(), UdpProtoError>|
                #![trigger UdpProtocol::quality_step(sa, sb, clock, rb)]
                UdpProtocol::quality_step(sa, sb, clock, rb) && match rb {
                    Err(e) => r == Err::<(), UdpProtoError>(e) && a == sb,
                    Ok(_) => exists|sd: UdpProtocolView, rd: Result<(), UdpProtoError>|
                        #![trigger UdpProtocol::keep_alive_step(UdpProtocol::stats_step(sb, clock.now), sd, clock, rd)]
                        UdpProtocol::keep_alive_step(UdpProtocol::stats_step(sb, clock.now), sd, clock, rd)
                            && match rd {
                            Err(e) => r == Err::<(), UdpProtoError>(e) && a == sd,
                            Ok(_) => r is Ok && a == UdpProtocol::silence_steps(sd, clock.now),
                        },
                },
        };
    lemma_resend_calm(b, sa, clock, ra);
    let (sb, rb) = choose|sb: UdpProtocolView, rb: Result<(), UdpProtoError>|
        #![trigger UdpProtocol::quality_step(sa, sb, clock, rb)]
        UdpProtocol::quality_step(sa, sb, clock, rb) && match rb {
            Err(e) => r == Err::<(), UdpProtoError>(e) && a == sb,
            Ok(_) => exists|sd: UdpProtocolView, rd: Result<(), UdpProtoError>|
                #![trigger UdpProtocol::keep_alive_step(UdpProtocol::stats_step(sb, clock.now), sd, clock, rd)]
                UdpProtocol::keep_alive_step(UdpProtocol::stats_step(sb, clock.now), sd, clock, rd) && match rd {
                    Err(e) => r == Err::<(), UdpProtoError>(e) && a == sd,
                    Ok(_) => r is Ok && a == UdpProtocol::silence_steps(sd, clock.now),
                },
        };
    lemma_quality_calm(sa, sb, clock, rb);
    let (sd, rd) = choose|sd: UdpProtocolView, rd: Result<(), UdpProtoError>|
        #![trigger UdpProtocol::keep_alive_step(UdpProtocol::stats_step(sb, clock.now), sd, clock, rd)]
        UdpProtocol::keep_alive_step(UdpProtocol::stats_step(sb, clock.now), sd, clock, rd) && match rd {
            Err(e) => r == Err::<(), UdpProtoError>(e) && a == sd,
            Ok(_) => r is Ok && a == UdpProtocol::silence_steps(sd, clock.now),
        };
    lemma_keep_alive_calm(sb, sd, clock, rd);
    assert(calm(b, sd));
}

/// A successful poll of a running endpoint reports a silent peer: once
/// nothing was received for `disconnect_notify_start` (with both timers
/// set) an interruption is reported, as the first new event when it was
/// not reported yet, announcing the disconnect in the rest of
/// `disconnect_timeout`; once nothing was received for `disconnect_timeout`
/// the disconnect is reported. With `lemma_poll_step` and
/// `lemma_polls_report_once`, each is reported exactly once.
pub proof fn lemma_silent_peer_reported(
    b: UdpProtocolView,
    a: UdpProtocolView,
    clock: Clock,
    r: Result<bool, UdpProtoError>,
)
    requires
        UdpProtocol::loop_poll_outcome(b, a, clock, r),
        r is Ok,
        b.initialized,
        b.state is Running,
    ensures
        b.disconnect_timeout > 0 && b.last_recv_time + b.disconnect_timeout < clock.now
            ==> a.disconnect_event_sent,
        b.disconnect_timeout > 0 && b.disconnect_notify_start > 0 && b.last_recv_time
            + b.disconnect_notify_start < clock.now ==> a.disconnect_notify_sent,
        b.disconnect_timeout > 0 && b.disconnect_notify_start > 0 && !b.disconnect_notify_sent
            && b.last_recv_time + b.disconnect_notify_start < clock.now ==> a.event_queue.len()
            > b.event_queue.len() && a.event_queue[b.event_queue.len() as int]
            == Event::NetworkInterrupted(
            NetworkInterrupted {
                disconnect_timeout: (b.disconnect_timeout - b.disconnect_notify_start) as u128,
            },
        ),
{
    let (s0, r0) = choose|s0: UdpProtocolView, r0: Result<(), UdpProtoError>|
        #![trigger UdpProtocol::pump_outcome(b, s0, clock, r0)]
        UdpProtocol::pump_outcome(b, s0, clock, r0) && match r0 {
            Err(e) => r == Err::<bool, UdpProtoError>(e) && a == s0,
            Ok(_) => UdpProtocol::state_poll(s0, a, clock, UdpProtocol::unit_result(r)) && (r is Ok ==> r
                == Ok::<bool, UdpProtoError>(true)),
        };
    lemma_pump_quiet(b, s0, clock, r0);
    assert(UdpProtocol::unit_result(r) == Ok::<(), UdpProtoError>(()));
    lemma_running_poll_ok(s0, a, clock);
    let sd = choose|sd: UdpProtocolView| #[trigger] calm(s0, sd) && a == UdpProtocol::silence_steps(sd, clock.now);
    assert(calm(s0, sd));
}

/// Decoding one change record of a frame (its mark bit set, then the
/// value bit, then the eight bits of the button index, then a clear end
/// bit) presses the button when the value bit is set and releases it when
/// the value bit is clear, leaving every other button as it was; the
/// frame's changes end after the end bit.
pub proof fn lemma_change_record_decoded(msg: Seq<u8>, o: int, g: Seq<u8>)
    requires
        msg.len() == 4096,
        g.len() == 18,
        0 <= o,
        o + 11 <= 32768,
        read_bit_value(msg, o) != 0,
        0 <= read_nibble_value(msg, o + 2, 8) < 144,
        read_bit_value(msg, o + 10) == 0,
    ensures
        decode_frame(msg, o, true, g) is Some,
        (decode_frame(msg, o, true, g)->0).0 == o + 11,
        forall|j: int|
            0 <= j < 144 ==> bit_is_set(#[trigger] (decode_frame(msg, o, true, g)->0).1, j) == if j
                == read_nibble_value(msg, o + 2, 8) {
                read_bit_value(msg, o + 1) != 0
            } else {
                bit_is_set(g, j)
            },
{
    let b = read_nibble_value(msg, o + 2, 8) as int;
    let on = read_bit_value(msg, o + 1);
    let g2 = if on > 0 {
        with_bit_set(g, b)
    } else {
        with_bit_cleared(g, b)
    };
    assert(decode_frame(msg, o + 10, true, g2) == Some((o + 11, g2)));
    assert(decode_frame(msg, o, true, g) == Some((o + 11, g2)));
    lemma_read_bit_value(msg, o + 1);
    assert forall|j: int| 0 <= j < 144 implies bit_is_set(g2, j) == if j == b {
        on != 0
    } else {
        bit_is_set(g, j)
    } by {
        if on > 0 {
            lemma_set_bit_effect(g, b, j);
        } else {
            lemma_clear_bit_effect(g, b, j);
        }
    }
}

/// An input message carrying the frame after the last received one, with
/// one change record, delivers exactly one input: for that frame, with the
/// recorded button pressed when the record's value bit is set and released
/// when it is clear, and every other button as in the last received input.
pub proof fn lemma_one_change_delivered(
    b: UdpProtocolView,
    a: UdpProtocolView,
    msg: UdpMsg,
    now: u128,
    r: Result<bool, UdpProtoError>,
    lf: usize,
)
    requires
        UdpProtocol::on_input_outcome(b, a, msg, now, r),
        msg.message is Input,
        b.last_received_input.frame == Some(lf),
        lf + 2 < usize::MAX,
        msg.message->Input_0.start_frame == Some((lf + 1) as usize),
        msg.message->Input_0.num_bits == 11,
        read_bit_value(msg.message->Input_0.bits@, 0) != 0,
        0 <= read_nibble_value(msg.message->Input_0.bits@, 2, 8) < 144,
        read_bit_value(msg.message->Input_0.bits@, 10) == 0,
    ensures
        r == Ok::<bool, UdpProtoError>(true),
        a.last_received_input.frame == Some((lf + 1) as usize),
        ({
            let v1 = UdpProtocol::after_input_control(b, msg.message->Input_0);
            let bits = msg.message->Input_0.bits@;
            let button = read_nibble_value(bits, 2, 8) as int;
            &&& a.event_queue.len() == v1.event_queue.len() + 1
            &&& a.event_queue[v1.event_queue.len() as int] matches Event::Input(g)
            &&& g.frame == Some((lf + 1) as usize)
            &&& forall|j: int|
                0 <= j < 144 ==> bit_is_set(#[trigger] g.bits_view(), j) == if j == button {
                    read_bit_value(bits, 1) != 0
                } else {
                    bit_is_set(b.last_received_input.bits_view(), j)
                }
        }),
{
    let input = msg.message->Input_0;
    let v1 = UdpProtocol::after_input_control(b, input);
    assert(v1.last_received_input == b.last_received_input);
    let g0 = b.last_received_input.bits_view();
    lemma_change_record_decoded(input.bits@, 0, g0);
    let d0 = UdpProtocol::initial_decoding(v1, input);
    let (o2, b2) = decode_frame(input.bits@, 0, true, g0)->0;
    let d1 = Decoding {
        offset: o2,
        current: Some((lf + 2) as usize),
        frame: Some((lf + 1) as usize),
        bits: b2,
        delivered: seq![(Some((lf + 1) as usize), b2)],
    };
    assert(decode_frames(input.bits@, 11, d1) == Some(d1));
    assert(decode_frames(input.bits@, 11, d0) == Some(d1));
    let tail = a.event_queue.skip(v1.event_queue.len() as int);
    assert(tail[0] == a.event_queue[v1.event_queue.len() as int]);
}

} // verus!
