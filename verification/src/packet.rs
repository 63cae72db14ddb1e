//! The datagram framing: a serialised message travels compressed with zstd.
use vstd::prelude::*;

verus! {

/// The zstd compression level of outgoing packets.
pub const ZSTD_LEVEL: i32 = 7;

/// The most bytes a packet may hold before compression, and the largest
/// capacity a decompression may be given: the crate reserves a buffer of
/// that order, which must stay below `isize::MAX` bytes on every target.
pub const MAX_PACKET_BYTES: usize = 0x4000_0000;

/// What `zstd::bulk::compress(data, level)` gives: the compressed bytes, or
/// `None` when the compressor fails.
pub uninterp spec fn zstd_compressed(data: Seq<u8>, level: i32) -> Option<Seq<u8>>;

/// What `zstd::bulk::decompress(data, capacity)` gives: the decompressed
/// bytes, or `None` when `data` is no valid zstd frame or holds more than
/// `capacity` bytes.
pub uninterp spec fn zstd_decompressed(data: Seq<u8>, capacity: nat) -> Option<Seq<u8>>;

/// `zstd::bulk::compress`: the bytes compressed at `level`, `None` on the
/// crate's error. Nothing more is claimed of the compressed form. The crate
/// reserves a little more than `data`'s length, so `requires` bounds it.
#[verifier::external_body]
pub fn compress_packet(data: &[u8], level: i32) -> (r: Option<Vec<u8>>)
    requires
        data@.len() <= MAX_PACKET_BYTES,
    ensures
        match r {
            Some(v) => zstd_compressed(data@, level) == Some(v@),
            None => zstd_compressed(data@, level) is None,
        },
{
    zstd::bulk::compress(data, level).ok()
}

/// `zstd::bulk::decompress`: the decompressed bytes, `None` on the crate's
/// error; as the crate documents, a result never holds more than
/// `capacity` bytes. The crate may reserve `capacity` bytes, so `requires`
/// bounds it.
#[verifier::external_body]
pub fn decompress_packet(data: &[u8], capacity: usize) -> (r: Option<Vec<u8>>)
    requires
        capacity <= MAX_PACKET_BYTES,
    ensures
        match r {
            Some(v) => zstd_decompressed(data@, capacity as nat) == Some(v@) && v@.len() <= capacity,
            None => zstd_decompressed(data@, capacity as nat) is None,
        },
{
    zstd::bulk::decompress(data, capacity).ok()
}

/// Why a packet could not be framed or unframed.
#[derive(Debug, Copy, Clone, PartialEq, Eq, Structural)]
pub enum PacketError {
    Compress,
    Decompress,
}

/// The datagram that carries the serialised message `serialized`: its
/// zstd compression at `ZSTD_LEVEL`; an error when the compressor fails.
pub fn encode_packet(serialized: &[u8]) -> (r: Result<Vec<u8>, PacketError>)
    requires
        serialized@.len() <= MAX_PACKET_BYTES,
    ensures
        match r {
            Ok(v) => zstd_compressed(serialized@, ZSTD_LEVEL) == Some(v@),
            Err(e) => e == PacketError::Compress && zstd_compressed(serialized@, ZSTD_LEVEL) is None,
        },
{
    match compress_packet(serialized, ZSTD_LEVEL) {
        Some(v) => Ok(v),
        None => Err(PacketError::Compress),
    }
}

/// The serialised message a received datagram carries: its zstd
/// decompression, of at most `capacity` bytes (the size of the largest
/// message); an error when the datagram is no valid frame or too large.
pub fn decode_packet(datagram: &[u8], capacity: usize) -> (r: Result<Vec<u8>, PacketError>)
    requires
        capacity <= MAX_PACKET_BYTES,
    ensures
        match r {
            Ok(v) => zstd_decompressed(datagram@, capacity as nat) == Some(v@) && v@.len() <= capacity,
            Err(e) => e == PacketError::Decompress && zstd_decompressed(datagram@, capacity as nat)
                is None,
        },
{
    match decompress_packet(datagram, capacity) {
        Some(v) => Ok(v),
        None => Err(PacketError::Decompress),
    }
}

} // verus!
