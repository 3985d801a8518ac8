//! The packets that travel between client and server.
//!
//! A packet type says how it is turned into bytes and back; the library
//! itself only ever handles the bytes.

use vstd::prelude::*;

verus! {

/// A packet that can be both sent and received.
pub trait Packet: Sized {
    /// The packet decoded from the bytes of one read.
    fn deserialize_packet(buffer: &[u8]) -> Self;

    /// The bytes that encode the packet.
    fn serialize_packet(&self) -> Vec<u8>;
}

/// A packet that can be sent.
pub trait SendingPacket: Sized {
    /// The bytes that encode the packet.
    fn serialize_packet(&self) -> Vec<u8>;
}

/// A packet that can be received.
pub trait RecievingPacket: Sized {
    /// The packet decoded from the bytes of one read.
    fn deserialize_packet(buffer: &[u8]) -> Self;
}

} // verus!
