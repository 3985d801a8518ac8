//! Receive buffers and what follows a read from a stream.

use vstd::prelude::*;
use crate::command::{
    Command, Entities, apply, peer_closed, read_single, lemma_apply_effect, despawns, shuts_down,
};

verus! {

/// The size of the receive buffer of the versions of the plugins whose
/// buffer size is fixed.
pub const BUFFER_SIZE: usize = 1024;

/// The smallest receive buffer that a plugin accepts.
pub const MIN_BUFFER_SIZE: usize = 128;

/// The largest receive buffer that a plugin accepts.
pub const MAX_BUFFER_SIZE: usize = 16384;

/// Whether a receive buffer of `size` bytes is one that the plugins accept.
/// A plugin built with any other size panics.
pub fn buffer_size_in_bounds(size: usize) -> (ok: bool)
    ensures
        ok <==> MIN_BUFFER_SIZE <= size <= MAX_BUFFER_SIZE,
        ok <==> 128 <= size <= 16384,
{
    !(size < MIN_BUFFER_SIZE || size > MAX_BUFFER_SIZE)
}

/// The entity of a query that must match exactly one entity: `Some` of it
/// when the query matched exactly one, `None` when it matched none or
/// several.
pub fn single_entity(entities: &Vec<u64>) -> (e: Option<u64>)
    ensures
        e == (if entities@.len() == 1 { Some(entities@[0]) } else { None::<u64> }),
{
    if entities.len() == 1 {
        Some(entities[0])
    } else {
        None
    }
}

/// The read that a system reading the one stream of a query asks for: one
/// read of the stream when exactly one entity holds a stream, no command at
/// all otherwise.
pub fn read_single_stream(streams: &Vec<u64>) -> (cmds: Vec<Command>)
    ensures
        cmds@ == read_single(streams@),
        streams@.len() == 1 ==> cmds@ == seq![Command::Read(streams@[0])],
        streams@.len() != 1 ==> cmds@.len() == 0,
{
    let mut cmds: Vec<Command> = Vec::new();
    if streams.len() == 1 {
        cmds.push(Command::Read(streams[0]));
        assert(cmds@ =~= read_single(streams@));
    } else {
        assert(cmds@ =~= read_single(streams@));
    }
    cmds
}

/// Without exactly one stream, the system reading the one stream asks for
/// no command: no entity is touched and no event is sent.
pub proof fn lemma_no_single_stream_no_read(w: Entities, streams: Seq<u64>)
    requires
        streams.len() != 1,
    ensures
        read_single(streams).len() == 0,
        apply(w, read_single(streams)) == w,
{
}

/// The first `len` bytes of the buffer: the bytes that a read of `len`
/// bytes put there.
pub fn received_bytes(buffer: &[u8], len: usize) -> (bytes: Vec<u8>)
    requires
        len <= buffer@.len(),
    ensures
        bytes@ == buffer@.take(len as int),
{
    let mut bytes: Vec<u8> = Vec::new();
    let mut i: usize = 0;
    while i < len
        invariant
            i <= len,
            len <= buffer@.len(),
            bytes@ == buffer@.take(i as int),
        decreases len - i,
    {
        bytes.push(buffer[i]);
        i = i + 1;
        assert(bytes@ =~= buffer@.take(i as int));
    }
    bytes
}

/// What follows a read from the stream of an entity. A read of no bytes
/// means the peer went away: the event that it did, then the shutdown and
/// the despawn of the entity. A read of `n` bytes hands the first `n` bytes
/// of the buffer on as a packet. A failed read changes nothing.
pub fn react_to_read(entity: u64, read: Option<usize>, buffer: &[u8]) -> (cmds: Vec<Command>)
    requires
        read matches Some(n) ==> n <= buffer@.len(),
    ensures
        match read {
            Some(n) => if n == 0 {
                cmds@ == peer_closed(entity)
            } else {
                &&& cmds@.len() == 1
                &&& cmds@[0] matches Command::EmitReceived(bytes)
                &&& bytes@ == buffer@.take(n as int)
            },
            None => cmds@.len() == 0,
        },
        read == Some(0usize) ==> cmds@ == seq![
            Command::EmitDisconnected,
            Command::Shutdown(entity),
            Command::Despawn(entity),
        ],
{
    let mut cmds: Vec<Command> = Vec::new();
    match read {
        Some(n) => {
            if n == 0 {
                cmds.push(Command::EmitDisconnected);
                cmds.push(Command::Shutdown(entity));
                cmds.push(Command::Despawn(entity));
                assert(cmds@ =~= peer_closed(entity));
            } else {
                cmds.push(Command::EmitReceived(received_bytes(buffer, n)));
            }
        },
        None => {},
    }
    cmds
}

/// A stream whose peer went away is shut down and its entity despawned; no
/// other entity is touched.
pub proof fn lemma_peer_closed_ends_the_stream(w: Entities, entity: u64)
    ensures
        !apply(w, peer_closed(entity)).live.contains(entity),
        !apply(w, peer_closed(entity)).open.contains(entity),
        forall|x: u64|
            x != entity ==> (#[trigger] apply(w, peer_closed(entity)).live.contains(x)
                == w.live.contains(x)),
        forall|x: u64|
            x != entity ==> (#[trigger] apply(w, peer_closed(entity)).open.contains(x)
                == w.open.contains(x)),
{
    let cmds = peer_closed(entity);
    lemma_apply_effect(w, cmds);
    assert(cmds[1] == Command::Shutdown(entity));
    assert(cmds[2] == Command::Despawn(entity));
    assert forall|x: u64| x != entity implies !despawns(cmds, x) && !shuts_down(cmds, x) by {
        if despawns(cmds, x) {
            let i = choose|i: int| 0 <= i < cmds.len() && cmds[i] == Command::Despawn(x);
        }
        if shuts_down(cmds, x) {
            let i = choose|i: int| 0 <= i < cmds.len() && cmds[i] == Command::Shutdown(x);
        }
    }
}

} // verus!
