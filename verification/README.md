# ggpo

A rollback networking library in the style of GGPO, written in Verus.

- `src/bitvector.rs`: bit and byte-sized ("nibble") access to a buffer at a
  running bit offset, used to compress inputs.
- `src/game_input.rs`: one frame of input for all players.
- `src/input_queue.rs`: a player's queue of confirmed inputs, with frame delay
  and prediction of missing frames.
- `src/time_sync.rs`: frame-advantage bookkeeping and the recommended wait.
- `src/udp_msg.rs`, `src/udp_proto.rs`: the messages and the protocol state
  machine of one endpoint (handshake, input transmission and acknowledgement,
  quality reports, keep-alives, disconnect detection). Endpoints queue what
  they send; the caller transmits it and supplies the clock.
- `src/sync.rs`: the synchronisation layer (frame counter, input queues,
  saved states, rollback check).
- `src/backends/p2p.rs`, `src/backends/sync_test.rs`: the peer-to-peer session
  and the synchronisation test session.
- `src/random.rs`: the random numbers the protocol draws, from `rand`; the
  generators themselves are handed in by the caller.
- `src/packet.rs`: the datagram framing, zstd compression of a serialised
  message and its decompression.

`app/` holds what the library leaves to its caller: the UDP socket, the
serialisation of messages (serde, bincode), the random generators seeded
from the system, the clock and the network
simulation settings read from the environment, the sleep time computed from
frame advantages (floating point), and the error messages.
