//! The client side: one stream to a server.

use vstd::prelude::*;
use crate::address::SocketAddress;
use crate::frame::read_single_stream;
use crate::command::{
    read_single, Command, Entities, apply, close_all, repeat, lemma_apply_effect, lemma_close_all_contains,
    lemma_repeat_contains, lemma_repeat_index, lemma_close_all_index, despawns, shuts_down,
};

verus! {

/// Asks the client to connect to the server at the address.
pub struct ConnectEvent(pub SocketAddress);

/// Asks the client to close its connection.
pub struct DisconnectEvent;

/// Asks the client to send the packet to the server.
pub struct SendPacketEvent<Sp>(pub Sp);

/// Tells that the server closed the connection.
pub struct ServerDisconnectedEvent;

/// Tells that a packet arrived from the server.
pub struct RecievedPacket<Rp>(pub Rp);

/// The commands that a batch of connect events leads to, given how many
/// entities hold a stream: one connection to the address of each event, in
/// order, when there is no stream yet; nothing otherwise. The entities
/// spawned for new streams only appear after the batch, so a batch of
/// several events while unconnected opens one connection per event.
pub open spec fn connect_plan(stream_count: nat, events: Seq<ConnectEvent>) -> Seq<Command> {
    if stream_count == 0 {
        events.map_values(|e: ConnectEvent| Command::Connect(e.0))
    } else {
        seq![]
    }
}

/// The commands that a batch of `event_count` disconnect events leads to:
/// when exactly one entity holds a stream, its shutdown and despawn once per
/// event; nothing otherwise.
pub open spec fn disconnect_plan(streams: Seq<u64>, event_count: nat) -> Seq<Command> {
    if streams.len() == 1 {
        repeat(close_all(streams), event_count)
    } else {
        seq![]
    }
}

/// The commands that a batch of `packet_count` send events leads to: when
/// exactly one entity holds a stream, the write of each encoded packet to
/// it, in order; nothing otherwise.
pub open spec fn send_plan(streams: Seq<u64>, packet_count: nat) -> Seq<Command> {
    if streams.len() == 1 {
        Seq::new(packet_count, |i: int| Command::Write(streams[0], i as usize))
    } else {
        seq![]
    }
}

/// Decides what a batch of connect events does, given how many entities
/// hold a stream.
pub fn read_connect_event_system(stream_count: usize, events: &Vec<ConnectEvent>) -> (cmds: Vec<
    Command,
>)
    ensures
        cmds@ == connect_plan(stream_count as nat, events@),
        stream_count == 0 ==> cmds@.len() == events@.len(),
        stream_count != 0 ==> cmds@.len() == 0,
        forall|i: int|
            0 <= i < cmds@.len() ==> #[trigger] cmds@[i] == Command::Connect(events@[i].0),
{
    let mut cmds: Vec<Command> = Vec::new();
    if stream_count == 0 {
        let mut i: usize = 0;
        while i < events.len()
            invariant
                i <= events@.len(),
                cmds@ == events@.take(i as int).map_values(
                    |e: ConnectEvent| Command::Connect(e.0),
                ),
            decreases events@.len() - i,
        {
            cmds.push(Command::Connect(events[i].0));
            i = i + 1;
            assert(cmds@ =~= events@.take(i as int).map_values(
                |e: ConnectEvent| Command::Connect(e.0),
            ));
        }
        assert(events@.take(events@.len() as int) =~= events@);
    }
    cmds
}

/// Decides what a batch of `event_count` disconnect events does, given the
/// entities that hold a stream.
pub fn read_disconnect_event_system(streams: &Vec<u64>, event_count: usize) -> (cmds: Vec<Command>)
    ensures
        cmds@ == disconnect_plan(streams@, event_count as nat),
        streams@.len() == 1 ==> cmds@.len() == 2 * event_count,
        streams@.len() != 1 ==> cmds@.len() == 0,
        forall|k: int|
            0 <= k < event_count && streams@.len() == 1 ==> #[trigger] cmds@[2 * k]
                == Command::Shutdown(streams@[0]) && cmds@[2 * k + 1] == Command::Despawn(
                streams@[0],
            ),
{
    let mut cmds: Vec<Command> = Vec::new();
    if streams.len() == 1 {
        let stream = streams[0];
        assert(close_all(streams@) =~= seq![Command::Shutdown(stream), Command::Despawn(stream)])
            by {
            assert(streams@.drop_last() =~= Seq::<u64>::empty());
            assert(close_all(Seq::<u64>::empty()) =~= Seq::<Command>::empty());
        }
        let mut i: usize = 0;
        while i < event_count
            invariant
                i <= event_count,
                streams@.len() == 1,
                stream == streams@[0],
                close_all(streams@) == seq![Command::Shutdown(stream), Command::Despawn(stream)],
                cmds@ == repeat(close_all(streams@), i as nat),
            decreases event_count - i,
        {
            cmds.push(Command::Shutdown(stream));
            cmds.push(Command::Despawn(stream));
            i = i + 1;
            assert(cmds@ =~= repeat(close_all(streams@), i as nat));
        }
        proof {
            let pair = close_all(streams@);
            lemma_repeat_index(pair, event_count as nat);
            assert forall|k: int| 0 <= k < event_count implies #[trigger] cmds@[2 * k]
                == Command::Shutdown(stream) && cmds@[2 * k + 1] == Command::Despawn(stream) by {
                assert(repeat(pair, event_count as nat)[k * pair.len() + 0] == pair[0]);
                assert(repeat(pair, event_count as nat)[k * pair.len() + 1] == pair[1]);
            }
        }
    }
    cmds
}

/// Decides what a batch of send events does, given the entities that hold a
/// stream and the number of encoded packets.
pub fn write_send_packet_event_system(streams: &Vec<u64>, packet_count: usize) -> (cmds: Vec<
    Command,
>)
    ensures
        cmds@ == send_plan(streams@, packet_count as nat),
        streams@.len() == 1 ==> cmds@.len() == packet_count,
        streams@.len() != 1 ==> cmds@.len() == 0,
        forall|i: int|
            0 <= i < cmds@.len() ==> #[trigger] cmds@[i] == Command::Write(streams@[0], i as usize),
{
    let mut cmds: Vec<Command> = Vec::new();
    if streams.len() == 1 {
        let stream = streams[0];
        let mut i: usize = 0;
        while i < packet_count
            invariant
                i <= packet_count,
                streams@.len() == 1,
                stream == streams@[0],
                cmds@ == Seq::new(i as nat, |k: int| Command::Write(stream, k as usize)),
            decreases packet_count - i,
        {
            cmds.push(Command::Write(stream, i));
            i = i + 1;
            assert(cmds@ =~= Seq::new(i as nat, |k: int| Command::Write(stream, k as usize)));
        }
    } else {
        assert(cmds@ =~= send_plan(streams@, packet_count as nat));
    }
    cmds
}

/// Decides what the system that listens to the server does first, given
/// the entities that hold a stream: one read of the stream when exactly one
/// entity holds a stream, no command (and so no read, shutdown or event)
/// otherwise. What follows the read is [`crate::frame::react_to_read`].
pub fn write_server_disconnected_event_and_recieved_packet_event_system(streams: &Vec<u64>) -> (cmds:
    Vec<Command>)
    ensures
        cmds@ == read_single(streams@),
        streams@.len() == 1 ==> cmds@ == seq![Command::Read(streams@[0])],
        streams@.len() != 1 ==> cmds@.len() == 0,
{
    read_single_stream(streams)
}

/// A client opens no second connection: a batch of connect events opens
/// connections only when no entity holds a stream, and then exactly one per
/// event, to the address of that event.
pub proof fn lemma_connect_only_when_unconnected(stream_count: nat, events: Seq<ConnectEvent>)
    ensures
        stream_count > 0 ==> connect_plan(stream_count, events).len() == 0,
        stream_count == 0 ==> connect_plan(stream_count, events).len() == events.len(),
        stream_count == 0 ==> forall|i: int|
            0 <= i < events.len() ==> #[trigger] connect_plan(stream_count, events)[i]
                == Command::Connect(events[i].0),
{
}

/// A client holds at most one stream as long as no frame brings more than
/// one connect event: the streams it holds and those a frame opens add up to
/// at most one.
pub proof fn lemma_at_most_one_stream(stream_count: nat, events: Seq<ConnectEvent>)
    requires
        stream_count <= 1,
        events.len() <= 1,
    ensures
        stream_count + connect_plan(stream_count, events).len() <= 1,
{
}

/// Disconnecting a client that holds one stream shuts the stream down and
/// despawns its entity, and touches no other entity, however many
/// disconnect events came in the batch.
pub proof fn lemma_disconnect_closes_the_stream(w: Entities, streams: Seq<u64>, event_count: nat)
    requires
        streams.len() == 1,
        event_count >= 1,
    ensures
        !apply(w, disconnect_plan(streams, event_count)).live.contains(streams[0]),
        !apply(w, disconnect_plan(streams, event_count)).open.contains(streams[0]),
        forall|x: u64|
            x != streams[0] ==> (#[trigger] apply(w, disconnect_plan(streams, event_count)).live.contains(x)
                == w.live.contains(x)),
        forall|x: u64|
            x != streams[0] ==> (#[trigger] apply(w, disconnect_plan(streams, event_count)).open.contains(x)
                == w.open.contains(x)),
{
    let cmds = disconnect_plan(streams, event_count);
    lemma_apply_effect(w, cmds);
    assert forall|x: u64| despawns(cmds, x) == (x == streams[0]) && shuts_down(cmds, x) == (x
        == streams[0]) by {
        lemma_repeat_contains(close_all(streams), event_count, Command::Despawn(x));
        lemma_repeat_contains(close_all(streams), event_count, Command::Shutdown(x));
        lemma_close_all_contains(streams, x);
        if x == streams[0] {
            assert(streams.contains(x));
        }
    }
}

/// A batch of send events writes each packet, in order, to the one stream
/// entity itself, and writes nothing without exactly one stream.
pub proof fn lemma_send_targets_the_stream(streams: Seq<u64>, packet_count: nat)
    ensures
        streams.len() == 1 ==> send_plan(streams, packet_count).len() == packet_count,
        streams.len() != 1 ==> send_plan(streams, packet_count).len() == 0,
        forall|i: int|
            0 <= i < send_plan(streams, packet_count).len() ==> #[trigger] send_plan(
                streams,
                packet_count,
            )[i] == Command::Write(streams[0], i as usize),
{
}

/// A batch of disconnect events closes the one stream once per event, and
/// does nothing without an event or without exactly one stream: its length
/// is twice the number of events, and each event gives the shutdown, then
/// the despawn, of that very entity.
pub proof fn lemma_disconnect_once_per_event(streams: Seq<u64>, event_count: nat)
    ensures
        streams.len() == 1 ==> disconnect_plan(streams, event_count).len() == 2 * event_count,
        streams.len() != 1 || event_count == 0 ==> disconnect_plan(streams, event_count).len() == 0,
        forall|k: int|
            0 <= k < event_count && streams.len() == 1 ==> #[trigger] disconnect_plan(
                streams,
                event_count,
            )[2 * k] == Command::Shutdown(streams[0]) && disconnect_plan(streams, event_count)[2 * k
                + 1] == Command::Despawn(streams[0]),
{
    if streams.len() == 1 {
        let pair = close_all(streams);
        lemma_close_all_index(streams);
        lemma_repeat_index(pair, event_count);
        assert(pair.len() == 2);
        assert(event_count * pair.len() == 2 * event_count) by (nonlinear_arith)
            requires
                pair.len() == 2,
        ;
        assert forall|k: int| 0 <= k < event_count implies #[trigger] disconnect_plan(
            streams,
            event_count,
        )[2 * k] == Command::Shutdown(streams[0]) && disconnect_plan(streams, event_count)[2 * k
            + 1] == Command::Despawn(streams[0]) by {
            assert(pair[2 * 0int] == Command::Shutdown(streams[0]));
            assert(pair[2 * 0int + 1] == Command::Despawn(streams[0]));
            assert(repeat(pair, event_count)[k * pair.len() + 0] == pair[0]);
            assert(repeat(pair, event_count)[k * pair.len() + 1] == pair[1]);
        }
        if event_count == 0 {
            assert(0 * 2 == 0) by (nonlinear_arith);
        }
    }
}

/// A batch of connect events connects, in order, to the address of each
/// event, and only while no entity holds a stream.
pub proof fn lemma_connect_to_each_address(stream_count: nat, events: Seq<ConnectEvent>)
    ensures
        forall|i: int|
            0 <= i < connect_plan(stream_count, events).len() ==> #[trigger] connect_plan(
                stream_count,
                events,
            )[i] == Command::Connect(events[i].0),
        connect_plan(stream_count, events).len() == if stream_count == 0 {
            events.len()
        } else {
            0
        },
{
}

} // verus!
