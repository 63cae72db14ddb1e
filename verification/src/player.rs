//! Players of a session and the addresses of remote endpoints.
use vstd::prelude::*;

verus! {

/// Index of a player within a session.
pub type PlayerHandle = u32;

/// An IP address.
#[derive(Debug, Copy, Clone, PartialEq, Eq, Structural)]
pub enum IpAddress {
    V4(u32),
    V6(u128),
}

/// The address of a remote endpoint: IP address and port.
#[derive(Debug, Copy, Clone, PartialEq, Eq, Structural)]
pub struct PeerAddr {
    pub ip: IpAddress,
    pub port: u16,
}

/// Where a player's inputs come from.
#[derive(Debug, Copy, Clone, PartialEq, Eq, Structural)]
pub enum PlayerType {
    Local,
    Remote(PeerAddr),
    Spectator(PeerAddr),
}

/// A player: its type, its number (from 1) and the size of this record.
#[derive(Debug, Copy, Clone, PartialEq, Eq, Structural)]
pub struct Player {
    pub size: usize,
    pub player_type: PlayerType,
    pub player_num: usize,
}

impl Player {
    /// A player of the given type and number.
    pub fn new(player_type: PlayerType, player_num: usize) -> (p: Player)
        ensures
            p.player_type == player_type,
            p.player_num == player_num,
            p.size == vstd::layout::size_of::<Player>(),
    {
        Player { player_num, player_type, size: core::mem::size_of::<Player>() }
    }
}

} // verus!
