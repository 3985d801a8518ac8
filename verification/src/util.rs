//! A networking layer with one concrete packet type, whose server always
//! listens on `127.0.0.1:2560` and whose client always connects there and
//! keeps its stream's entity when the server goes away.

use vstd::prelude::*;
use crate::address::{SocketAddress, local_server_address};
use crate::command::{read_single, Command, Entities, apply, lemma_apply_effect, despawns, shuts_down};
use crate::frame::{read_single_stream, received_bytes};

verus! {

/// The packet type of this layer.
pub enum Packet {
    /// A text message.
    MyPacket(String),
}

/// Asks the client to connect (to the fixed server address; the address
/// that the event holds is not used).
pub struct ConnectEvent {
    socket_addr: SocketAddress,
}

impl ConnectEvent {
    /// The address that the event holds.
    pub closed spec fn spec_socket_addr(self) -> SocketAddress {
        self.socket_addr
    }

    /// An event holding the address.
    pub fn new(socket_addr: SocketAddress) -> (e: Self)
        ensures
            e.spec_socket_addr() == socket_addr,
    {
        ConnectEvent { socket_addr }
    }
}

/// Asks the client to close its connection.
pub struct DisconnectEvent;

/// Tells that the server closed the connection.
pub struct ServerUnboundEvent;

/// Asks the client to send the packet to the server.
pub struct SendPacketToServerEvent {
    pub packet: Packet,
}

impl SendPacketToServerEvent {
    /// An event holding the packet.
    pub fn new(packet: Packet) -> (e: Self)
        ensures
            e.packet == packet,
    {
        Self { packet }
    }
}

/// Tells that a packet arrived from the server.
pub struct RecievedPacketFromServerEvent {
    pub packet: Packet,
}

impl RecievedPacketFromServerEvent {
    /// An event holding the packet.
    pub fn new(packet: Packet) -> (e: Self)
        ensures
            e.packet == packet,
    {
        Self { packet }
    }
}

/// Whether the command opens a connection to `127.0.0.1:2560`.
pub open spec fn connects_locally(c: Command) -> bool {
    c matches Command::Connect(a) && a.is_v4(127, 0, 0, 1, crate::address::LOCAL_SERVER_PORT)
}

/// Whether the command binds a listener on `127.0.0.1:2560`.
pub open spec fn binds_locally(c: Command) -> bool {
    c matches Command::Bind(a) && a.is_v4(127, 0, 0, 1, crate::address::LOCAL_SERVER_PORT)
}

/// Decides what a batch of `event_count` connect events does, given how
/// many entities hold a stream: when there is none, one connection to
/// `127.0.0.1:2560` per event; nothing otherwise.
pub fn connect_event_system(stream_count: usize, event_count: usize) -> (cmds: Vec<Command>)
    ensures
        stream_count == 0 ==> cmds@.len() == event_count && forall|i: int|
            0 <= i < event_count ==> connects_locally(#[trigger] cmds@[i]),
        stream_count != 0 ==> cmds@.len() == 0,
        forall|i: int|
            0 <= i < cmds@.len() ==> (#[trigger] cmds@[i] matches Command::Connect(
                SocketAddress::V4 { ip, port },
            ) && ip@ == seq![127u8, 0u8, 0u8, 1u8] && port == 2560),
{
    let mut cmds: Vec<Command> = Vec::new();
    if stream_count == 0 {
        let mut i: usize = 0;
        while i < event_count
            invariant
                i <= event_count,
                cmds@.len() == i,
                forall|k: int| 0 <= k < i ==> connects_locally(#[trigger] cmds@[k]),
            decreases event_count - i,
        {
            cmds.push(Command::Connect(local_server_address()));
            i = i + 1;
        }
    }
    cmds
}

/// Decides what a batch of `event_count` bind events does, given how many
/// entities hold a listener: when there is none, one listener on
/// `127.0.0.1:2560` per event (the port that an event holds is not used);
/// nothing otherwise.
pub fn read_bind_event_system(listener_count: usize, event_count: usize) -> (cmds: Vec<Command>)
    ensures
        listener_count == 0 ==> cmds@.len() == event_count && forall|i: int|
            0 <= i < event_count ==> binds_locally(#[trigger] cmds@[i]),
        listener_count != 0 ==> cmds@.len() == 0,
        forall|i: int|
            0 <= i < cmds@.len() ==> (#[trigger] cmds@[i] matches Command::Bind(
                SocketAddress::V4 { ip, port },
            ) && ip@ == seq![127u8, 0u8, 0u8, 1u8] && port == 2560),
{
    let mut cmds: Vec<Command> = Vec::new();
    if listener_count == 0 {
        let mut i: usize = 0;
        while i < event_count
            invariant
                i <= event_count,
                cmds@.len() == i,
                forall|k: int| 0 <= k < i ==> binds_locally(#[trigger] cmds@[k]),
            decreases event_count - i,
        {
            cmds.push(Command::Bind(local_server_address()));
            i = i + 1;
        }
    }
    cmds
}

/// The commands that follow when the server closed the stream of the
/// entity: the event and the shutdown; the entity stays.
pub open spec fn server_unbound(entity: u64) -> Seq<Command> {
    seq![Command::EmitDisconnected, Command::Shutdown(entity)]
}

/// Decides what the system that listens to the server does first, given the
/// entities that hold a stream: one read of the stream when exactly one
/// entity holds a stream, no command (and so no read, shutdown or event)
/// otherwise. What follows the read is [`react_to_server_read`].
pub fn listen_for_server_packets_system(streams: &Vec<u64>) -> (cmds: Vec<Command>)
    ensures
        cmds@ == read_single(streams@),
        streams@.len() == 1 ==> cmds@ == seq![Command::Read(streams@[0])],
        streams@.len() != 1 ==> cmds@.len() == 0,
{
    read_single_stream(streams)
}

/// Decides what follows a read from the client's stream. A read of no bytes means the server went away: the event that it did and
/// the shutdown of the stream, but the entity is not despawned. A read of
/// `n` bytes hands the first `n` bytes of the buffer on as a packet. A
/// failed read changes nothing.
pub fn react_to_server_read(entity: u64, read: Option<usize>, buffer: &[u8]) -> (cmds:
    Vec<Command>)
    requires
        read matches Some(n) ==> n <= buffer@.len(),
    ensures
        match read {
            Some(n) => if n == 0 {
                cmds@ == server_unbound(entity)
            } else {
                &&& cmds@.len() == 1
                &&& cmds@[0] matches Command::EmitReceived(bytes)
                &&& bytes@ == buffer@.take(n as int)
            },
            None => cmds@.len() == 0,
        },
        read == Some(0usize) ==> cmds@ == seq![Command::EmitDisconnected, Command::Shutdown(entity)],
{
    let mut cmds: Vec<Command> = Vec::new();
    match read {
        Some(n) => {
            if n == 0 {
                cmds.push(Command::EmitDisconnected);
                cmds.push(Command::Shutdown(entity));
                assert(cmds@ =~= server_unbound(entity));
            } else {
                cmds.push(Command::EmitReceived(received_bytes(buffer, n)));
            }
        },
        None => {},
    }
    cmds
}

/// A stream whose server went away is shut down but its entity stays; no
/// other entity is touched.
pub proof fn lemma_server_unbound_keeps_the_entity(w: Entities, entity: u64)
    ensures
        apply(w, server_unbound(entity)).live == w.live,
        !apply(w, server_unbound(entity)).open.contains(entity),
        forall|x: u64|
            x != entity ==> (#[trigger] apply(w, server_unbound(entity)).open.contains(x)
                == w.open.contains(x)),
{
    let cmds = server_unbound(entity);
    lemma_apply_effect(w, cmds);
    assert(cmds[1] == Command::Shutdown(entity));
    assert forall|x: u64| !despawns(cmds, x) && (x != entity ==> !shuts_down(cmds, x)) by {
        if despawns(cmds, x) {
            let i = choose|i: int| 0 <= i < cmds.len() && cmds[i] == Command::Despawn(x);
        }
        if x != entity && shuts_down(cmds, x) {
            let i = choose|i: int| 0 <= i < cmds.len() && cmds[i] == Command::Shutdown(x);
        }
    }
    assert(apply(w, cmds).live =~= w.live);
}

} // verus!
