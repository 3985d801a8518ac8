//! The connection logic of a small client/server networking layer for a
//! voxel game, and the game's voxel data types.
//!
//! The sockets, the entity-component world and the packet encoding stay
//! with the caller. Each system of the networking layer is split in two: the
//! caller reads its queries and events and hands the library plain values
//! (entity ids, event payloads, the outcome of a socket read); the library
//! decides which [`command::Command`]s follow, and the caller performs them.

pub mod address;
pub mod client;
pub mod command;
pub mod frame;
pub mod packet;
pub mod server;
pub mod util;
pub mod voxel;
