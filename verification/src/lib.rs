//! A rollback networking library: bit-level input compression, per-player
//! input queues with prediction, frame-advantage time synchronisation, the
//! UDP protocol state machine and the synchronisation layer.
use vstd::prelude::*;

pub mod bitvector;
pub mod game_input;
pub mod input_queue;
pub mod time_sync;
pub mod udp_msg;
pub mod player;
pub mod ggpo;
pub mod random;
pub mod udp_proto;
pub mod sync;
pub mod packet;
pub mod backends;

verus! {

} // verus!
