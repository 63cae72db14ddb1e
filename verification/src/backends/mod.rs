//! Session back ends: the peer-to-peer session and the synchronisation test.
pub mod p2p;
pub mod sync_test;
