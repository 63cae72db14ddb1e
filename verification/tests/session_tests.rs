use ggpo::backends::p2p::{Peer2PeerBackend, Peer2PeerError};
use ggpo::backends::sync_test::SyncTestBackend;
use ggpo::game_input::{Frame, GameInput};
use ggpo::ggpo::{Event, GGPOError, GGPOSessionCallbacks};
use ggpo::player::{IpAddress, PeerAddr, Player, PlayerType};
use ggpo::sync::{Config, GGPOSync, SyncError};
use ggpo::udp_msg::{ConnectStatus, MsgType, UdpMsg};
use ggpo::udp_proto::{Clock, UdpProtoError};
use rand::rngs::StdRng;
use rand::SeedableRng;
use std::cell::RefCell;
use std::rc::Rc;

#[derive(Clone, Default)]
struct Recorder {
    events: Rc<RefCell<Vec<String>>>,
}

impl GGPOSessionCallbacks for Recorder {
    fn save_game_state(&mut self, _buffer: &Vec<u8>, _length: &usize, _checksum: Option<u32>, frame: Frame) -> bool {
        self.events.borrow_mut().push(format!("save {:?}", frame));
        true
    }
    fn load_game_state(&mut self, _buffer: &Vec<u8>, length: usize) -> bool {
        self.events.borrow_mut().push(format!("load {}", length));
        true
    }
    fn log_game_state(&mut self, _filename: String, _buffer: Vec<u8>, _length: usize) -> bool {
        true
    }
    fn free_buffer(&mut self, _buffer: &Vec<u8>) {
        self.events.borrow_mut().push("free".to_string());
    }
    fn advance_frame(&mut self, _flags: i32) -> bool {
        true
    }
    fn on_event(&mut self, info: &Event) {
        self.events.borrow_mut().push(format!("{:?}", info));
    }
}

fn clock() -> Clock {
    Clock { now: 1000, jitter_ms: 0 }
}

fn addr(port: u16) -> PeerAddr {
    PeerAddr { ip: IpAddress::V4(0x7f00_0001), port }
}

fn session(rec: &Recorder, players: usize) -> Peer2PeerBackend<Recorder> {
    let rngs: Vec<StdRng> = (0..36u64).map(StdRng::seed_from_u64).collect();
    Peer2PeerBackend::new(rec.clone(), "test".to_string(), players, 2, 0, 0, 1000, rngs)
}

#[test]
fn handles_and_queues_convert() {
    assert_eq!(Peer2PeerBackend::<Recorder>::queue_to_player_handle(0), 1);
    assert_eq!(Peer2PeerBackend::<Recorder>::queue_to_spectator_handle(2), 1002);
    let rec = Recorder::default();
    let p = session(&rec, 2);
    assert_eq!(p.player_handle_to_queue(1), Ok(0));
    assert_eq!(p.player_handle_to_queue(2), Ok(1));
    assert_eq!(p.player_handle_to_queue(0), Err(GGPOError::InvalidPlayerHandle));
    assert_eq!(p.player_handle_to_queue(3), Err(GGPOError::InvalidPlayerHandle));
}

#[test]
fn add_local_player_gives_its_handle() {
    let rec = Recorder::default();
    let mut p = session(&rec, 2);
    let mut handle = 0u32;
    assert_eq!(p.add_player(Player::new(PlayerType::Local, 1), &mut handle, clock()), Ok(()));
    assert_eq!(handle, 1);
    let mut other = 7u32;
    assert_eq!(
        p.add_player(Player::new(PlayerType::Local, 3), &mut other, clock()),
        Err(GGPOError::PlayerOutOfRange)
    );
    assert_eq!(other, 7);
    assert_eq!(
        p.add_player(Player::new(PlayerType::Remote(addr(7000)), 0), &mut other, clock()),
        Err(GGPOError::PlayerOutOfRange)
    );
}

#[test]
fn add_remote_player_starts_the_handshake() {
    let rec = Recorder::default();
    let mut p = session(&rec, 2);
    let mut handle = 0u32;
    assert_eq!(p.add_player(Player::new(PlayerType::Remote(addr(7000)), 2), &mut handle, clock()), Ok(()));
    assert_eq!(handle, 2);
    let out = p.take_outbox();
    assert_eq!(out.len(), 1);
    assert_eq!(out[0].dest_addr, addr(7000));
    assert_eq!(out[0].msg.header.packet_type, MsgType::SyncRequest);
    assert!(p.endpoints()[1].is_initialized());
}

#[test]
fn inputs_are_refused_while_synchronising() {
    let rec = Recorder::default();
    let mut p = session(&rec, 2);
    let values = [0u8; 18];
    assert_eq!(p.add_local_input(1, &values, 2, clock()), Err(GGPOError::NotSynchronized));
    let mut out: Vec<[u8; 18]> = vec![[0u8; 18]; 2];
    assert_eq!(p.synchronize_input(&mut out, None), Err(GGPOError::NotSynchronized));
}

#[test]
fn unknown_handles_are_refused() {
    let rec = Recorder::default();
    let mut p = session(&rec, 2);
    assert_eq!(p.get_network_stats(5).unwrap_err(), GGPOError::InvalidPlayerHandle);
    assert_eq!(p.set_frame_delay(0, 2), Err(GGPOError::InvalidPlayerHandle));
    assert_eq!(p.set_frame_delay(1, 2), Ok(()));
    assert!(p.can_disconnect_player(9, 1000));
    // no endpoint is attached, so no endpoint handles a message
    assert!(p.accepts_msg(&addr(7000), &UdpMsg::new(MsgType::KeepAlive), Clock { now: 1000, jitter_ms: 0 }));
    assert!(!p.can_disconnect_player(1, u128::MAX));
    assert_eq!(p.disconnect_player(9, 1000), Err(GGPOError::InvalidPlayerHandle));
    let stats = p.get_network_stats(1).unwrap();
    assert_eq!(stats.network.kbps_sent, 0);
}

#[test]
fn a_player_never_connected_counts_as_disconnected() {
    let rec = Recorder::default();
    let mut p = session(&rec, 2);
    assert_eq!(p.disconnect_player(1, 1000), Err(GGPOError::PlayerDisconnected));
}

#[test]
fn spectators_are_limited() {
    let rec = Recorder::default();
    let mut p = session(&rec, 1);
    for i in 0..32u16 {
        assert_eq!(p.add_spectator(addr(8000 + i), clock()), Ok(()));
    }
    assert_eq!(p.add_spectator(addr(9000), clock()), Err(GGPOError::TooManySpectators));
    assert_eq!(p.take_outbox().len(), 32);
}

#[test]
fn do_poll_outside_a_rollback_does_nothing() {
    let rec = Recorder::default();
    let mut p = session(&rec, 2);
    assert!(!p.in_rollback());
    assert_eq!(p.do_poll(true, clock(), &[None, None]), Ok(()));
    assert!(rec.events.borrow().is_empty());
}

#[test]
fn timeouts_go_to_attached_endpoints() {
    let rec = Recorder::default();
    let mut p = session(&rec, 2);
    assert_eq!(p.set_disconnect_timeout(3000), Ok(()));
    assert_eq!(p.set_disconnect_notify_start(500), Ok(()));
    assert_eq!(p.chat("hi".to_string()), Ok(()));
    assert_eq!(Peer2PeerBackend::<Recorder>::logv("x".to_string()), Ok(()));
}

#[test]
fn messages_from_unknown_peers_fail_on_detached_endpoints() {
    let rec = Recorder::default();
    let mut p = session(&rec, 2);
    let m = UdpMsg::new(MsgType::KeepAlive);
    // the first player endpoint is not attached, so it cannot answer
    assert_eq!(p.on_msg(&addr(7000), &m, clock()), Err(UdpProtoError::UdpUninit));
    let mut q = session(&rec, 0);
    assert_eq!(q.on_msg(&addr(7000), &m, clock()), Ok(()));
}

#[test]
fn error_messages() {
    assert_eq!(GGPOError::InvalidPlayerHandle.to_string(), "GGPO invalid player handle.");
    assert_eq!(GGPOError::Okay.to_string(), "GGPO OK.");
    assert_eq!(
        GGPOError::P2P { source: Peer2PeerError::LastFrameNone }.to_string(),
        "P2P Backend error."
    );
    assert_eq!(
        GGPOError::Sync { source: SyncError::ConfigNone }.to_string(),
        "Synchronization engine error."
    );
}

#[test]
fn sync_test_session_runs_once() {
    let rec = Recorder::default();
    let mut s = SyncTestBackend::new(rec.clone(), 4, 2).ok().unwrap();
    let values = [1u8; 18];
    assert_eq!(s.add_local_input(0, &values, 2), Err(GGPOError::NotSynchronized));
    assert_eq!(s.do_poll(None), Ok(()));
    assert_eq!(s.do_poll(None), Ok(()));
    assert_eq!(rec.events.borrow().as_slice(), &["Running".to_string()]);
}

#[test]
fn sync_test_merges_a_players_bytes() {
    let rec = Recorder::default();
    let mut s = SyncTestBackend::new(rec.clone(), 4, 2).ok().unwrap();
    s.do_poll(None).unwrap();
    let mut values = [0u8; 18];
    values[9] = 0x0f;
    values[0] = 0xff;
    assert_eq!(s.add_local_input(1, &values, 2), Ok(()));
    let mut out: Vec<[u8; 18]> = Vec::new();
    let mut flags = 5i32;
    assert_eq!(s.synchronize_input(&mut out, Some(&mut flags)), Ok(()));
    assert_eq!(flags, 0);
    assert_eq!(out.len(), 1);
    assert_eq!(out[0][9], 0x0f);
    assert_eq!(out[0][0], 0);
    // saving the first frame frees the old buffer through the configured
    // callbacks; the layer's own callbacks are never set, so nothing is saved
    assert!(rec.events.borrow().iter().any(|e| e == "free"));
    assert!(!rec.events.borrow().iter().any(|e| e.starts_with("save")));
}

#[test]
fn sync_test_add_player() {
    let rec = Recorder::default();
    let mut s = SyncTestBackend::new(rec, 4, 2).ok().unwrap();
    let mut handle = 9u32;
    assert_eq!(s.add_player(Player::new(PlayerType::Local, 2), &mut handle), Ok(()));
    assert_eq!(handle, 1);
    assert_eq!(s.add_player(Player::new(PlayerType::Local, 0), &mut handle), Err(GGPOError::PlayerOutOfRange));
}

#[test]
fn sync_layer_without_configuration() {
    let mut s: GGPOSync<Recorder> = GGPOSync::new();
    let mut seek = 7usize;
    assert_eq!(s.check_simulation_consistency(&mut seek), Err(SyncError::ConfigNone));
    assert_eq!(seek, 7);
    assert!(!s.create_queues());
    let mut values = [1u8; 18];
    assert_eq!(s.get_confirmed_inputs(&mut values, Some(0), &[]), Err(SyncError::ConfigNone));
    assert_eq!(values, [1u8; 18]);
}

#[test]
fn sync_layer_confirmed_inputs() {
    let rec = Recorder::default();
    let mut s: GGPOSync<Recorder> = GGPOSync::new();
    let mut config = Config::new();
    config.init(rec, 8, 2, 2);
    s.init(config);
    let mut bits = [0u8; 18];
    bits[0] = 0x21;
    bits[1] = 0x43;
    s.add_remote_input(0, &GameInput::init(Some(0), Some(&bits), 2));
    s.add_remote_input(1, &GameInput::init(Some(0), Some(&bits), 2));
    let status = [ConnectStatus { disconnected: false, last_frame: Some(0) }; 2];
    let mut values = [9u8; 18];
    assert_eq!(s.get_confirmed_inputs(&mut values, Some(0), &status), Ok(0));
    assert_eq!(values[0], 0x21);
    assert_eq!(values[1], 0x43);
    assert_eq!(values[2], b'0');
    // a player disconnected before the frame is dropped and erased
    let gone = [ConnectStatus { disconnected: false, last_frame: Some(0) }, ConnectStatus { disconnected: true, last_frame: Some(0) }];
    let mut values = [9u8; 18];
    assert_eq!(s.get_confirmed_inputs(&mut values, Some(0), &gone), Ok(2));
    assert_eq!(values[1], b'0');
}

#[test]
fn sync_layer_synchronizes_inputs() {
    let rec = Recorder::default();
    let mut s: GGPOSync<Recorder> = GGPOSync::new();
    let mut config = Config::new();
    config.init(rec, 8, 2, 2);
    s.init(config);
    let mut bits = [0u8; 18];
    bits[0] = 5;
    s.add_remote_input(0, &GameInput::init(Some(0), Some(&bits), 2));
    s.add_remote_input(1, &GameInput::init(Some(0), Some(&bits), 2));
    let status = [ConnectStatus { disconnected: false, last_frame: Some(0) }; 2];
    let mut values = vec![[1u8; 18]; 3];
    assert_eq!(s.synchronize_inputs(&mut values, &status), Ok(0));
    assert_eq!(values[0][0], 5);
    assert_eq!(values[1][0], 5);
    assert_eq!(values[2], [b'0'; 18]);
    let mut seek = 0usize;
    assert_eq!(s.check_simulation_consistency(&mut seek), Ok(true));
}

#[test]
fn sync_layer_saves_and_counts_frames() {
    let rec = Recorder::default();
    let mut s: GGPOSync<Recorder> = GGPOSync::new();
    let mut config = Config::new();
    config.init(rec.clone(), 8, 1, 1);
    s.init(config);
    assert_eq!(s.get_frame_count(), 0);
    s.save_current_frame();
    assert_eq!(s.get_last_saved_frame().frame, Some(0));
    assert_eq!(s.find_saved_frame_index(Some(0)), 0);
    s.increment_frame();
    s.save_current_frame();
    assert_eq!(s.get_frame_count(), 1);
    assert_eq!(s.get_last_saved_frame().frame, Some(1));
    // the slot holding frame 1; the last slot for a frame never saved
    assert_eq!(s.find_saved_frame_index(Some(1)), 1);
    assert_eq!(s.find_saved_frame_index(Some(7)), 9);
    assert_eq!(rec.events.borrow().iter().filter(|e| *e == "free").count(), 2);
    assert!(!s.in_rollback());
    s.load_frame(Some(1));
    assert_eq!(s.get_frame_count(), 1);
}
