use ggpo::player::{IpAddress, PeerAddr};
use ggpo::udp_msg::{ConnectStatus, Header, Input, MsgEnum, MsgType, UdpMsg};
use ggpo::game_input::GAMEINPUT_MAX_BYTES;
use ggpo::packet::{decode_packet, encode_packet, PacketError};
use ggpo::udp_proto::{Clock, Event, UdpProtoError, UdpProtocol};
use rand::rngs::StdRng;
use rand::SeedableRng;

fn addr(port: u16) -> PeerAddr {
    PeerAddr { ip: IpAddress::V4(0x7f00_0001), port }
}

fn clock(now: u128) -> Clock {
    Clock { now, jitter_ms: 0 }
}

fn endpoint(seed: u64) -> UdpProtocol {
    UdpProtocol::new(StdRng::seed_from_u64(seed), 0, 0, 1000)
}

#[test]
fn new_endpoint_is_detached() {
    let p = endpoint(1);
    assert!(!p.is_initialized());
    assert!(!p.is_running());
    assert!(!p.is_sychronized());
    let stats = p.get_network_stats();
    assert_eq!(stats.network.ping, 0);
    assert_eq!(stats.network.send_queue_len, 0);
}

#[test]
fn synchronize_needs_an_attached_endpoint() {
    let mut p = endpoint(2);
    assert_eq!(p.synchronize(clock(1000)), Err(UdpProtoError::UdpUninit));
}

#[test]
fn handles_msg_errors_and_matches_by_address() {
    let mut p = endpoint(3);
    let m = UdpMsg::new(MsgType::KeepAlive);
    assert_eq!(p.handles_msg(&addr(1), &m), Err(UdpProtoError::UdpUninit));
    p.init(0, addr(7000), &[ConnectStatus::new(); 4], 4);
    assert!(p.is_initialized());
    assert_eq!(p.handles_msg(&addr(7000), &m), Ok(true));
    assert_eq!(p.handles_msg(&addr(7001), &m), Ok(false));
}

#[test]
fn synchronize_sends_a_sync_request() {
    let mut p = endpoint(4);
    p.init(0, addr(7000), &[ConnectStatus::new(); 4], 4);
    p.synchronize(clock(1000)).unwrap();
    let out = p.take_outbox();
    assert_eq!(out.len(), 1);
    assert_eq!(out[0].dest_addr, addr(7000));
    assert_eq!(out[0].msg.header.packet_type, MsgType::SyncRequest);
    assert_eq!(out[0].msg.header.sequence_number, 1);
    match out[0].msg.message {
        MsgEnum::SyncRequest(req) => assert!(req.random_request <= 0xFFFF),
        _ => panic!("not a sync request"),
    }
    assert!(p.take_outbox().is_empty());
}

#[test]
fn sync_request_is_answered_with_its_nonce() {
    let mut a = endpoint(5);
    let mut b = endpoint(6);
    a.init(0, addr(7001), &[ConnectStatus::new(); 4], 4);
    b.init(0, addr(7000), &[ConnectStatus::new(); 4], 4);
    a.synchronize(clock(1000)).unwrap();
    let request = a.take_outbox().remove(0).msg;
    let nonce = match request.message {
        MsgEnum::SyncRequest(req) => req.random_request,
        _ => panic!("not a sync request"),
    };
    b.on_msg(&request, clock(1001)).unwrap();
    let reply = b.take_outbox();
    assert_eq!(reply.len(), 1);
    assert_eq!(reply[0].dest_addr, addr(7000));
    match reply[0].msg.message {
        MsgEnum::SyncReply(rep) => assert_eq!(rep.random_reply, nonce),
        _ => panic!("not a sync reply"),
    }
}

#[test]
fn sync_reply_reports_progress() {
    let mut a = endpoint(7);
    let mut b = endpoint(8);
    a.init(0, addr(7001), &[ConnectStatus::new(); 4], 4);
    b.init(0, addr(7000), &[ConnectStatus::new(); 4], 4);
    a.synchronize(clock(1000)).unwrap();
    let request = a.take_outbox().remove(0).msg;
    b.on_msg(&request, clock(1001)).unwrap();
    let reply = b.take_outbox().remove(0).msg;
    a.on_msg(&reply, clock(1002)).unwrap();
    let mut first = Event::Unknown;
    assert!(a.get_event(&mut first));
    assert_eq!(first, Event::Connected);
    let mut second = Event::Unknown;
    assert!(a.get_event(&mut second));
    assert!(matches!(second, Event::Synchronizing(_)));
    // a new request goes out for the next round trip
    assert_eq!(a.take_outbox().len(), 1);
    assert!(!a.is_sychronized());
}

#[test]
fn disconnect_sets_the_shutdown_time() {
    let mut p = endpoint(9);
    p.init(0, addr(7000), &[ConnectStatus::new(); 4], 4);
    assert_eq!(p.disconnect(2000), Ok(()));
    assert!(!p.is_running());
}

#[test]
fn peer_connect_status_starts_disconnected() {
    let p = endpoint(10);
    assert_eq!(p.get_peer_connect_status(2), (None, false));
}

#[test]
fn queued_events_come_out_in_order() {
    let mut p = endpoint(11);
    p.queue_event(Event::Connected);
    p.queue_event(Event::Disconnected);
    let mut e = Event::Unknown;
    assert!(p.get_event(&mut e));
    assert_eq!(e, Event::Connected);
    assert!(p.get_event(&mut e));
    assert_eq!(e, Event::Disconnected);
    assert!(!p.get_event(&mut e));
    assert_eq!(e, Event::Disconnected);
}

#[test]
fn udp_msg_sizes() {
    let m = UdpMsg::new(MsgType::KeepAlive);
    assert_eq!(m.payload_size(), 0);
    assert_eq!(m.packet_size(), std::mem::size_of::<ggpo::udp_msg::Header>());
    let sync = UdpMsg::new(MsgType::SyncReply);
    assert_eq!(sync.payload_size(), std::mem::size_of::<ggpo::udp_msg::SyncReply>());
    let input = UdpMsg::new(MsgType::Input);
    let base = std::mem::size_of::<ggpo::udp_msg::Input>() - 4096;
    assert_eq!(input.payload_size(), base);
}

#[test]
fn out_of_order_packets_are_held_back_then_sent() {
    // with every packet out of order, the first one is held back
    let mut p = UdpProtocol::new(StdRng::seed_from_u64(12), 0, 100, 1000);
    p.init(0, addr(7000), &[ConnectStatus::new(); 4], 4);
    p.synchronize(clock(1000)).unwrap();
    assert!(p.take_outbox().is_empty());
    // once its time has passed, the held packet goes out
    assert_eq!(p.on_loop_poll(0, clock(1001)), Ok(true));
    let out = p.take_outbox();
    assert_eq!(out.len(), 1);
    assert_eq!(out[0].msg.header.packet_type, MsgType::SyncRequest);
    assert_eq!(out[0].queue_time, 1000);
}

#[test]
fn received_input_has_the_session_input_size() {
    let mut p = endpoint(21);
    p.init(0, addr(7000), &[ConnectStatus::new(); 4], 4);
    let input = Input {
        start_frame: Some(1),
        disconnect_requested: false,
        ack_frame: None,
        num_bits: 1,
        bits: [0u8; 4096],
        ..Input::new()
    };
    let msg = UdpMsg { header: Header::new(MsgType::Input), message: MsgEnum::Input(input) };
    assert_eq!(p.on_input(&msg, 1000), Ok(true));
    let mut e = Event::Unknown;
    assert!(p.get_event(&mut e));
    match e {
        Event::Input(g) => {
            assert_eq!(g.frame, Some(1));
            assert_eq!(g.size, 4);
            assert!(g.size <= GAMEINPUT_MAX_BYTES);
        }
        other => panic!("unexpected event {:?}", other),
    }
    assert!(!p.get_event(&mut e));
}

#[test]
fn packets_round_trip_through_compression() {
    let data: Vec<u8> = (0..200u32).map(|i| (i % 7) as u8).collect();
    let packet = encode_packet(&data).unwrap();
    assert_ne!(packet, data);
    assert_eq!(decode_packet(&packet, 4096), Ok(data.clone()));
    // a capacity below the message's size is refused
    assert_eq!(decode_packet(&packet, 10), Err(PacketError::Decompress));
}

#[test]
fn garbage_is_no_packet() {
    assert_eq!(decode_packet(&[1, 2, 3, 4, 5], 4096), Err(PacketError::Decompress));
}

#[test]
fn a_disconnect_request_is_reported_once() {
    let mut p = endpoint(22);
    p.init(0, addr(7000), &[ConnectStatus::new(); 4], 4);
    let msg = UdpMsg {
        header: Header::new(MsgType::Input),
        message: MsgEnum::Input(Input { ack_frame: None, ..Input::new() }),
    };
    assert_eq!(p.on_input(&msg, 1000), Ok(true));
    assert_eq!(p.on_input(&msg, 1001), Ok(true));
    let mut e = Event::Unknown;
    assert!(p.get_event(&mut e));
    assert_eq!(e, Event::Disconnected);
    assert!(!p.get_event(&mut e));
}

#[test]
fn a_disconnected_endpoint_is_released_after_the_shutdown_time() {
    let mut p = endpoint(23);
    p.init(0, addr(7000), &[ConnectStatus::new(); 4], 4);
    assert_eq!(p.disconnect(2000), Ok(()));
    // up to the shutdown time the endpoint stays attached
    assert_eq!(p.on_loop_poll(0, clock(7000)), Ok(true));
    assert!(p.is_initialized());
    assert_eq!(p.on_loop_poll(0, clock(7001)), Ok(true));
    assert!(!p.is_initialized());
    assert_eq!(p.on_loop_poll(0, clock(7002)), Err(UdpProtoError::UdpUninit));
}

#[test]
fn a_message_waits_for_the_simulated_latency() {
    let mut p = UdpProtocol::new(StdRng::seed_from_u64(24), 100, 0, 1000);
    p.init(0, addr(7000), &[ConnectStatus::new(); 4], 4);
    p.synchronize(Clock { now: 1000, jitter_ms: 50 }).unwrap();
    // queued at 1000, not due before 1050
    assert!(p.take_outbox().is_empty());
    assert_eq!(p.pump_send_queue(Clock { now: 1049, jitter_ms: 50 }), Ok(()));
    assert!(p.take_outbox().is_empty());
    assert_eq!(p.pump_send_queue(Clock { now: 1050, jitter_ms: 50 }), Ok(()));
    assert_eq!(p.take_outbox().len(), 1);
}

#[test]
fn malformed_messages_are_not_accepted() {
    let mut p = endpoint(25);
    p.init(0, addr(7000), &[ConnectStatus::new(); 4], 4);
    let good = Input {
        start_frame: Some(1),
        disconnect_requested: false,
        ack_frame: None,
        num_bits: 1,
        bits: [0u8; 4096],
        ..Input::new()
    };
    let msg = UdpMsg { header: Header::new(MsgType::Input), message: MsgEnum::Input(good) };
    assert!(p.accepts_msg(&msg, clock(1000)));
    // frame 0 cannot follow a frame before it
    let bad = Input { start_frame: Some(0), ..good };
    let msg = UdpMsg { header: Header::new(MsgType::Input), message: MsgEnum::Input(bad) };
    assert!(!p.accepts_msg(&msg, clock(1000)));
    // a clock that would overflow
    assert!(!p.accepts_msg(&msg, Clock { now: u128::MAX, jitter_ms: 1 }));
}
