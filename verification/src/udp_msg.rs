//! The messages exchanged between endpoints.
use vstd::prelude::*;
use crate::game_input::Frame;

verus! {

/// Players whose connection status travels in an input message.
pub const UDP_MSG_MAX_PLAYERS: usize = 4;

/// Bytes of compressed input an input message can hold.
pub const MAX_COMPRESSED_BITS: usize = 4096;

/// The kind of a message, in wire order.
#[derive(Copy, Clone, Debug, PartialEq, Eq, Structural)]
pub enum MsgType {
    Invalid,
    SyncRequest,
    SyncReply,
    Input,
    QualityReport,
    QualityReply,
    KeepAlive,
    InputAck,
}

/// Whether a peer is disconnected and the last frame received from it.
#[derive(Copy, Clone, Debug, PartialEq, Eq, Structural)]
pub struct ConnectStatus {
    pub disconnected: bool,
    pub last_frame: Frame,
}

/// Message header.
#[derive(Copy, Clone, Debug, PartialEq, Eq, Structural)]
pub struct Header {
    pub magic: u16,
    pub sequence_number: u16,
    pub packet_type: MsgType,
}

/// Request to synchronise, carrying a random nonce.
#[derive(Copy, Clone, Debug, PartialEq, Eq, Structural)]
pub struct SyncRequest {
    pub random_request: u32,
    pub remote_magic: u16,
    pub remote_endpoint: u8,
}

/// Reply to a synchronisation request, echoing its nonce.
#[derive(Copy, Clone, Debug, PartialEq, Eq, Structural)]
pub struct SyncReply {
    pub random_reply: u32,
}

/// Periodic report of the sender's frame advantage and clock.
#[derive(Copy, Clone, Debug, PartialEq, Eq, Structural)]
pub struct QualityReport {
    pub frame_advantage: i8,
    pub ping: u128,
}

/// Reply to a quality report, echoing its clock.
#[derive(Copy, Clone, Debug, PartialEq, Eq, Structural)]
pub struct QualityReply {
    pub pong: u128,
}

/// Compressed inputs from `start_frame` on, with the sender's view of every
/// player's connection.
#[derive(Copy, Clone)]
pub struct Input {
    pub peer_connect_status: [ConnectStatus; 4],
    pub start_frame: Frame,
    pub disconnect_requested: bool,
    pub ack_frame: Frame,
    pub num_bits: u16,
    pub bits: [u8; 4096],
}

/// Acknowledgement of the inputs up to `ack_frame`.
#[derive(Copy, Clone, Debug, PartialEq, Eq, Structural)]
pub struct InputAck {
    pub ack_frame: Frame,
}

/// The body of a message.
#[derive(Copy, Clone)]
pub enum MsgEnum {
    SyncRequest(SyncRequest),
    SyncReply(SyncReply),
    QualityReport(QualityReport),
    QualityReply(QualityReply),
    Input(Input),
    InputAck(InputAck),
    KeepAlive,
    Empty,
}

/// A message: header and body.
#[derive(Copy, Clone)]
pub struct UdpMsg {
    pub header: Header,
    pub message: MsgEnum,
}

/// `a - b`, or zero when `b` exceeds `a`.
pub open spec fn saturating_sub_spec(a: int, b: int) -> int {
    if a >= b {
        a - b
    } else {
        0
    }
}

/// `a + b`, or `usize::MAX` when that is exceeded.
pub open spec fn saturating_add_spec(a: int, b: int) -> int {
    if a + b <= usize::MAX {
        a + b
    } else {
        usize::MAX as int
    }
}

impl ConnectStatus {
    /// A disconnected peer from which no frame was received.
    pub fn new() -> (c: ConnectStatus)
        ensures
            c.disconnected,
            c.last_frame is None,
    {
        ConnectStatus { disconnected: true, last_frame: None }
    }
}

impl Default for ConnectStatus {
    fn default() -> (c: ConnectStatus)
        ensures
            c.disconnected,
            c.last_frame is None,
    {
        ConnectStatus::new()
    }
}

impl Header {
    /// A header of type `t` with magic and sequence number zero.
    pub fn new(t: MsgType) -> (h: Header)
        ensures
            h == (Header { magic: 0, sequence_number: 0, packet_type: t }),
    {
        Header { packet_type: t, magic: 0, sequence_number: 0 }
    }
}

impl Default for Header {
    fn default() -> (h: Header)
        ensures
            h == (Header { magic: 0, sequence_number: 0, packet_type: MsgType::Invalid }),
    {
        Header::new(MsgType::Invalid)
    }
}

impl SyncRequest {
    /// A request with every field zero.
    pub fn new() -> (r: SyncRequest)
        ensures
            r == (SyncRequest { random_request: 0, remote_magic: 0, remote_endpoint: 0 }),
    {
        SyncRequest { random_request: 0, remote_endpoint: 0, remote_magic: 0 }
    }
}

impl Default for SyncRequest {
    fn default() -> (r: SyncRequest)
        ensures
            r == (SyncRequest { random_request: 0, remote_magic: 0, remote_endpoint: 0 }),
    {
        SyncRequest::new()
    }
}

impl SyncReply {
    /// A reply with nonce zero.
    pub fn new() -> (r: SyncReply)
        ensures
            r.random_reply == 0,
    {
        SyncReply { random_reply: 0 }
    }
}

impl Default for SyncReply {
    fn default() -> (r: SyncReply)
        ensures
            r.random_reply == 0,
    {
        SyncReply::new()
    }
}

impl QualityReport {
    /// A report with advantage and clock zero.
    pub fn new() -> (r: QualityReport)
        ensures
            r == (QualityReport { frame_advantage: 0, ping: 0 }),
    {
        QualityReport { frame_advantage: 0, ping: 0 }
    }
}

impl Default for QualityReport {
    fn default() -> (r: QualityReport)
        ensures
            r == (QualityReport { frame_advantage: 0, ping: 0 }),
    {
        QualityReport::new()
    }
}

impl QualityReply {
    /// A reply with clock zero.
    pub fn new() -> (r: QualityReply)
        ensures
            r.pong == 0,
    {
        QualityReply { pong: 0 }
    }
}

impl Default for QualityReply {
    fn default() -> (r: QualityReply)
        ensures
            r.pong == 0,
    {
        QualityReply::new()
    }
}

/// Whether `i` is the input message that `Input::new` makes.
pub open spec fn is_new_input(i: Input) -> bool {
    &&& i.bits@ == Seq::new(4096, |k: int| 48u8)
    &&& forall|k: int| 0 <= k < 4 ==> #[trigger] i.peer_connect_status@[k] == (ConnectStatus {
        disconnected: true,
        last_frame: None,
    })
    &&& i.start_frame == Some(0usize)
    &&& i.disconnect_requested
    &&& i.ack_frame == Some(31usize)
    &&& i.num_bits == 0
}

impl Input {
    /// An input message starting at frame 0 that acknowledges frame 31,
    /// requests a disconnect, carries no compressed bits (its buffer is
    /// filled with `'0'`) and reports every player disconnected.
    pub fn new() -> (i: Input)
        ensures
            is_new_input(i),
    {
        let c = ConnectStatus::new();
        let i = Input {
            bits: [48u8; 4096],
            peer_connect_status: [c; 4],
            start_frame: Some(0),
            disconnect_requested: true,
            ack_frame: Some(31),
            num_bits: 0,
        };
        assert(i.bits@ =~= Seq::new(4096, |k: int| 48u8));
        i
    }
}

impl Default for Input {
    fn default() -> (i: Input)
        ensures
            is_new_input(i),
    {
        Input::new()
    }
}

impl InputAck {
    /// An acknowledgement of frame 31.
    pub fn new() -> (a: InputAck)
        ensures
            a.ack_frame == Some(31usize),
    {
        InputAck { ack_frame: Some(31) }
    }
}

impl Default for InputAck {
    fn default() -> (a: InputAck)
        ensures
            a.ack_frame == Some(31usize),
    {
        InputAck::new()
    }
}

impl Default for UdpMsg {
    fn default() -> (m: UdpMsg)
        ensures
            m.header == (Header { magic: 0, sequence_number: 0, packet_type: MsgType::Invalid }),
            m.message is Empty,
    {
        UdpMsg { header: Header::default(), message: MsgEnum::Empty }
    }
}

/// Whether `m` is the message that `UdpMsg::new(t)` makes: a header of type
/// `t` and the matching fresh body.
pub open spec fn is_new_msg(m: UdpMsg, t: MsgType) -> bool {
    &&& m.header == (Header { magic: 0, sequence_number: 0, packet_type: t })
    &&& match t {
        MsgType::Input => m.message matches MsgEnum::Input(i) && is_new_input(i),
        MsgType::Invalid => m.message is Empty,
        MsgType::SyncRequest => m.message == MsgEnum::SyncRequest(
            SyncRequest { random_request: 0, remote_magic: 0, remote_endpoint: 0 },
        ),
        MsgType::SyncReply => m.message == MsgEnum::SyncReply(SyncReply { random_reply: 0 }),
        MsgType::QualityReport => m.message == MsgEnum::QualityReport(
            QualityReport { frame_advantage: 0, ping: 0 },
        ),
        MsgType::QualityReply => m.message == MsgEnum::QualityReply(QualityReply { pong: 0 }),
        MsgType::KeepAlive => m.message is Empty,
        MsgType::InputAck => m.message == MsgEnum::InputAck(InputAck { ack_frame: Some(31usize) }),
    }
}

/// The payload size of a message of the given type and body: the size of
/// the body's type, nothing for a keep-alive, and for an input message the
/// size of `Input` without its bit buffer plus the bytes that hold its bits.
pub open spec fn payload_size_spec(m: UdpMsg) -> int {
    match m.header.packet_type {
        MsgType::SyncRequest => vstd::layout::size_of::<SyncRequest>() as int,
        MsgType::SyncReply => vstd::layout::size_of::<SyncReply>() as int,
        MsgType::QualityReport => vstd::layout::size_of::<QualityReport>() as int,
        MsgType::QualityReply => vstd::layout::size_of::<QualityReply>() as int,
        MsgType::InputAck => vstd::layout::size_of::<InputAck>() as int,
        MsgType::KeepAlive => 0,
        MsgType::Input => saturating_add_spec(
            saturating_sub_spec(
                vstd::layout::size_of::<Input>() as int,
                vstd::layout::size_of::<[u8; 4096]>() as int,
            ),
            (m.message->Input_0.num_bits + 7) / 8,
        ),
        MsgType::Invalid => 0,
    }
}

/// The messages whose payload size is defined: not of the invalid type, and
/// with an input body when of the input type.
pub open spec fn has_payload(m: UdpMsg) -> bool {
    &&& m.header.packet_type != MsgType::Invalid
    &&& m.header.packet_type == MsgType::Input ==> m.message is Input
}

impl UdpMsg {
    /// Size of the payload that follows the header.
    pub fn payload_size(&self) -> (size: usize)
        requires
            has_payload(*self),
        ensures
            size == payload_size_spec(*self),
    {
        match self.header.packet_type {
            MsgType::SyncRequest => core::mem::size_of::<SyncRequest>(),
            MsgType::SyncReply => core::mem::size_of::<SyncReply>(),
            MsgType::QualityReport => core::mem::size_of::<QualityReport>(),
            MsgType::QualityReply => core::mem::size_of::<QualityReply>(),
            MsgType::InputAck => core::mem::size_of::<InputAck>(),
            MsgType::KeepAlive => 0,
            MsgType::Input => match &self.message {
                MsgEnum::Input(input) => {
                    let size = core::mem::size_of::<Input>().saturating_sub(
                        core::mem::size_of::<[u8; 4096]>(),
                    );
                    size.saturating_add((input.num_bits as usize + 7) / 8)
                },
                _ => 0,
            },
            MsgType::Invalid => 0,
        }
    }

    /// Size of the header and payload.
    pub fn packet_size(self) -> (size: usize)
        requires
            has_payload(self),
        ensures
            size == saturating_add_spec(
                vstd::layout::size_of::<Header>() as int,
                payload_size_spec(self),
            ),
    {
        core::mem::size_of::<Header>().saturating_add(self.payload_size())
    }

    /// A fresh message of type `t`.
    pub fn new(t: MsgType) -> (m: UdpMsg)
        ensures
            is_new_msg(m, t),
    {
        match t {
            MsgType::Input => UdpMsg { header: Header::new(t), message: MsgEnum::Input(Input::new()) },
            MsgType::Invalid => UdpMsg { header: Header::new(t), message: MsgEnum::Empty },
            MsgType::SyncRequest => UdpMsg {
                header: Header::new(t),
                message: MsgEnum::SyncRequest(SyncRequest::new()),
            },
            MsgType::SyncReply => UdpMsg {
                header: Header::new(t),
                message: MsgEnum::SyncReply(SyncReply::new()),
            },
            MsgType::QualityReport => UdpMsg {
                header: Header::new(t),
                message: MsgEnum::QualityReport(QualityReport::new()),
            },
            MsgType::QualityReply => UdpMsg {
                header: Header::new(t),
                message: MsgEnum::QualityReply(QualityReply::new()),
            },
            MsgType::KeepAlive => UdpMsg { header: Header::new(t), message: MsgEnum::Empty },
            MsgType::InputAck => UdpMsg {
                header: Header::new(t),
                message: MsgEnum::InputAck(InputAck::new()),
            },
        }
    }
}

} // verus!
