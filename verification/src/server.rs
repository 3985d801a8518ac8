//! The server side: one listener and a stream per connected client.

use vstd::prelude::*;
use crate::address::{SocketAddress, unspecified_v4};
use crate::command::{
    lemma_row_before, lemma_close_all_index, lemma_repeat_index, Command, Entities, apply, close_all, repeat, lemma_apply_effect, lemma_close_all_contains,
    lemma_repeat_contains, lemma_contains_concat, despawns, shuts_down,
};

verus! {

/// Asks the server to listen on the port.
pub struct BindEvent(pub u16);

/// Asks the server to close every client connection and stop listening.
pub struct UnbindEvent;

/// Asks the server to send the packet to one client.
pub struct SendPacketToClient<Sp>(pub Sp);

/// Asks the server to send the packet to every client.
pub struct SendPacketToAllClients<Sp>(pub Sp);

/// Tells that a client connected.
pub struct ClientConnectedEvent();

/// Tells that a client closed its connection.
pub struct ClientDisconnectedEvent();

/// Tells that a packet arrived from a client.
pub struct RecievedPacketFromClientEvent<Rp>(pub Rp);

/// Another name of [`SendPacketToClient`].
pub type SendToEvent<Sp> = SendPacketToClient<Sp>;

/// Another name of [`SendPacketToAllClients`].
pub type SendEvent<Sp> = SendPacketToAllClients<Sp>;

/// Another name of [`ClientConnectedEvent`].
pub type ConnectedEvent = ClientConnectedEvent;

/// Another name of [`ClientDisconnectedEvent`].
pub type DisconnectedEvent = ClientDisconnectedEvent;

/// Another name of [`RecievedPacketFromClientEvent`].
pub type RecvEvent<Rp> = RecievedPacketFromClientEvent<Rp>;

/// Whether the command binds a listener on every IPv4 interface at the
/// port.
pub open spec fn binds_unspecified(c: Command, port: u16) -> bool {
    c matches Command::Bind(a) && a.is_v4(0, 0, 0, 0, port)
}

/// The commands that a batch of bind events leads to, given how many
/// entities hold a listener: when there is none, one listener per event, on
/// every IPv4 interface at the port of the event, in order; nothing
/// otherwise.
pub open spec fn bind_plan(listener_count: nat, events: Seq<BindEvent>, cmds: Seq<Command>) -> bool {
    if listener_count == 0 {
        &&& cmds.len() == events.len()
        &&& forall|i: int| 0 <= i < events.len() ==> binds_unspecified(#[trigger] cmds[i], events[i].0)
    } else {
        cmds.len() == 0
    }
}

/// One round of closing the server: the shutdown and despawn of each client
/// entity, in order, then the despawn of the listener entity when there is
/// exactly one.
pub open spec fn unbind_round(listeners: Seq<u64>, clients: Seq<u64>) -> Seq<Command> {
    close_all(clients) + if listeners.len() == 1 {
        seq![Command::Despawn(listeners[0])]
    } else {
        seq![]
    }
}

/// The commands that a batch of `event_count` unbind events leads to: one
/// round of closing per event.
pub open spec fn unbind_plan(listeners: Seq<u64>, clients: Seq<u64>, event_count: nat) -> Seq<
    Command,
> {
    repeat(unbind_round(listeners, clients), event_count)
}

/// The commands that a batch of send-to-all events leads to: for each
/// encoded packet in order, its write to each client in order.
pub open spec fn broadcast_plan(clients: Seq<u64>, packet_count: nat, cmds: Seq<Command>) -> bool {
    &&& cmds.len() == packet_count * clients.len()
    &&& forall|p: int, c: int|
        0 <= p < packet_count && 0 <= c < clients.len() ==> #[trigger] cmds[p * clients.len() + c]
            == Command::Write(clients[c], p as usize)
}

/// Decides what a batch of bind events does, given how many entities hold a
/// listener.
pub fn read_bind_event_system(listener_count: usize, events: &Vec<BindEvent>) -> (cmds: Vec<
    Command,
>)
    ensures
        bind_plan(listener_count as nat, events@, cmds@),
        listener_count == 0 ==> cmds@.len() == events@.len(),
        listener_count != 0 ==> cmds@.len() == 0,
        forall|i: int|
            0 <= i < cmds@.len() ==> (#[trigger] cmds@[i] matches Command::Bind(
                SocketAddress::V4 { ip, port },
            ) && ip@ == seq![0u8, 0u8, 0u8, 0u8] && port == events@[i].0),
{
    let mut cmds: Vec<Command> = Vec::new();
    if listener_count == 0 {
        let mut i: usize = 0;
        while i < events.len()
            invariant
                i <= events@.len(),
                cmds@.len() == i,
                forall|k: int| 0 <= k < i ==> binds_unspecified(#[trigger] cmds@[k], events@[k].0),
                forall|k: int|
                    0 <= k < i ==> (#[trigger] cmds@[k] matches Command::Bind(
                        SocketAddress::V4 { ip, port },
                    ) && ip@ == seq![0u8, 0u8, 0u8, 0u8] && port == events@[k].0),
            decreases events@.len() - i,
        {
            cmds.push(Command::Bind(unspecified_v4(events[i].0)));
            i = i + 1;
        }
    }
    cmds
}

/// Decides what a batch of `event_count` unbind events does, given the
/// entities that hold a listener and those that hold a client stream.
pub fn read_unbind_event_system(listeners: &Vec<u64>, clients: &Vec<u64>, event_count: usize) -> (cmds:
    Vec<Command>)
    ensures
        cmds@ == unbind_plan(listeners@, clients@, event_count as nat),
        ({
            let round = 2 * clients@.len() + if listeners@.len() == 1 {
                1int
            } else {
                0int
            };
            &&& cmds@.len() == event_count * round
            &&& forall|r: int, j: int|
                0 <= r < event_count && 0 <= j < clients@.len() ==> #[trigger] cmds@[r * round + 2
                    * j] == Command::Shutdown(clients@[j]) && cmds@[r * round + 2 * j + 1]
                    == Command::Despawn(clients@[j])
            &&& forall|r: int|
                0 <= r < event_count && listeners@.len() == 1 ==> #[trigger] cmds@[r * round + 2
                    * clients@.len()] == Command::Despawn(listeners@[0])
        }),
{
    let mut cmds: Vec<Command> = Vec::new();
    let mut i: usize = 0;
    while i < event_count
        invariant
            i <= event_count,
            cmds@ == repeat(unbind_round(listeners@, clients@), i as nat),
        decreases event_count - i,
    {
        let ghost before = cmds@;
        let mut j: usize = 0;
        while j < clients.len()
            invariant
                j <= clients@.len(),
                cmds@ == before + close_all(clients@.take(j as int)),
            decreases clients@.len() - j,
        {
            cmds.push(Command::Shutdown(clients[j]));
            cmds.push(Command::Despawn(clients[j]));
            j = j + 1;
            assert(clients@.take(j as int).drop_last() =~= clients@.take(j - 1 as int));
            assert(cmds@ =~= before + close_all(clients@.take(j as int)));
        }
        assert(clients@.take(clients@.len() as int) =~= clients@);
        if listeners.len() == 1 {
            cmds.push(Command::Despawn(listeners[0]));
        }
        i = i + 1;
        assert(cmds@ =~= repeat(unbind_round(listeners@, clients@), i as nat));
    }
    proof {
        let tail = if listeners@.len() == 1 {
            seq![Command::Despawn(listeners@[0])]
        } else {
            seq![]
        };
        let round = unbind_round(listeners@, clients@);
        lemma_close_all_index(clients@);
        lemma_repeat_index(round, event_count as nat);
        assert(round == close_all(clients@) + tail);
        let len = round.len();
        assert forall|r: int, j: int| 0 <= r < event_count && 0 <= j < clients@.len() implies #[trigger] cmds@[r
            * len + 2 * j] == Command::Shutdown(clients@[j]) && cmds@[r * len + 2 * j + 1]
            == Command::Despawn(clients@[j]) by {
            assert(round[2 * j] == close_all(clients@)[2 * j]);
            assert(round[2 * j + 1] == close_all(clients@)[2 * j + 1]);
            assert(repeat(round, event_count as nat)[r * len + 2 * j] == round[2 * j]);
            assert(repeat(round, event_count as nat)[r * len + (2 * j + 1)] == round[2 * j + 1]);
        }
        assert forall|r: int| 0 <= r < event_count && listeners@.len() == 1 implies #[trigger] cmds@[r
            * len + 2 * clients@.len()] == Command::Despawn(listeners@[0]) by {
            assert(round[(2 * clients@.len()) as int] == tail[0]);
            assert(repeat(round, event_count as nat)[r * len + 2 * clients@.len()] == round[(2
                * clients@.len()) as int]);
        }
    }
    cmds
}

/// Decides what a batch of send-to-all events does, given the entities that
/// hold a client stream and the number of encoded packets.
pub fn read_send_packet_to_all_clients_event_system(clients: &Vec<u64>, packet_count: usize) -> (cmds:
    Vec<Command>)
    requires
        packet_count * clients@.len() <= usize::MAX,
    ensures
        broadcast_plan(clients@, packet_count as nat, cmds@),
        cmds@.len() == packet_count * clients@.len(),
        forall|p: int, c: int|
            0 <= p < packet_count && 0 <= c < clients@.len() ==> #[trigger] cmds@[p * clients@.len()
                + c] == Command::Write(clients@[c], p as usize),
{
    let mut cmds: Vec<Command> = Vec::new();
    let n = clients.len();
    let mut p: usize = 0;
    while p < packet_count
        invariant
            p <= packet_count,
            n == clients@.len(),
            packet_count * n <= usize::MAX,
            cmds@.len() == p * n,
            forall|q: int, c: int|
                0 <= q < p && 0 <= c < n ==> #[trigger] cmds@[q * n + c] == Command::Write(
                    clients@[c],
                    q as usize,
                ),
        decreases packet_count - p,
    {
        let mut c: usize = 0;
        while c < n
            invariant
                p < packet_count,
                c <= n,
                n == clients@.len(),
                cmds@.len() == p * n + c,
                forall|q: int, k: int|
                    0 <= q < p && 0 <= k < n ==> #[trigger] cmds@[q * n + k] == Command::Write(
                        clients@[k],
                        q as usize,
                    ),
                forall|k: int| 0 <= k < c ==> #[trigger] cmds@[p * n + k] == Command::Write(
                    clients@[k],
                    p as usize,
                ),
            decreases n - c,
        {
            let ghost before = cmds@;
            cmds.push(Command::Write(clients[c], p));
            assert forall|q: int, k: int| 0 <= q < p && 0 <= k < n implies #[trigger] cmds@[q * n
                + k] == Command::Write(clients@[k], q as usize) by {
                lemma_row_before(q, k, p as int, n as int);
                assert(cmds@[q * n + k] == before[q * n + k]);
            }
            c = c + 1;
        }
        proof {
            assert((p + 1) * n == p * n + n) by (nonlinear_arith);
            assert forall|q: int, k: int| 0 <= q < p + 1 && 0 <= k < n implies #[trigger] cmds@[q
                * n + k] == Command::Write(clients@[k], q as usize) by {
                if q == p {
                    assert(cmds@[p * n + k] == Command::Write(clients@[k], p as usize));
                }
            }
        }
        p = p + 1;
    }
    cmds
}

/// A server holds at most one listener as long as no frame brings more
/// than one bind event: the listeners it holds and those a frame binds add
/// up to at most one.
pub proof fn lemma_at_most_one_listener(
    listener_count: nat,
    events: Seq<BindEvent>,
    cmds: Seq<Command>,
)
    requires
        listener_count <= 1,
        events.len() <= 1,
        bind_plan(listener_count, events, cmds),
    ensures
        listener_count + cmds.len() <= 1,
{
}

/// Unbinding the server shuts down and despawns every client entity,
/// despawns the listener entity when there is exactly one, and touches no
/// other entity, however many unbind events came in the batch.
pub proof fn lemma_unbind_closes_everything(
    w: Entities,
    listeners: Seq<u64>,
    clients: Seq<u64>,
    event_count: nat,
)
    requires
        event_count >= 1,
    ensures
        forall|c: u64|
            clients.contains(c) ==> !(#[trigger] apply(
                w,
                unbind_plan(listeners, clients, event_count),
            ).live.contains(c)) && !apply(w, unbind_plan(listeners, clients, event_count)).open.contains(c),
        listeners.len() == 1 ==> !apply(w, unbind_plan(listeners, clients, event_count)).live.contains(
            listeners[0],
        ),
        forall|x: u64|
            !clients.contains(x) && !(listeners.len() == 1 && x == listeners[0]) ==> (#[trigger] apply(
                w,
                unbind_plan(listeners, clients, event_count),
            ).live.contains(x) == w.live.contains(x)),
        forall|x: u64|
            !clients.contains(x) ==> (#[trigger] apply(
                w,
                unbind_plan(listeners, clients, event_count),
            ).open.contains(x) == w.open.contains(x)),
{
    let round = unbind_round(listeners, clients);
    let tail = if listeners.len() == 1 {
        seq![Command::Despawn(listeners[0])]
    } else {
        seq![]
    };
    let cmds = unbind_plan(listeners, clients, event_count);
    lemma_apply_effect(w, cmds);
    assert forall|x: u64|
        despawns(cmds, x) == (clients.contains(x) || (listeners.len() == 1 && x == listeners[0]))
            && shuts_down(cmds, x) == clients.contains(x) by {
        lemma_repeat_contains(round, event_count, Command::Despawn(x));
        lemma_repeat_contains(round, event_count, Command::Shutdown(x));
        lemma_close_all_contains(clients, x);
        lemma_contains_concat(close_all(clients), tail, Command::Despawn(x));
        lemma_contains_concat(close_all(clients), tail, Command::Shutdown(x));
        if listeners.len() == 1 {
            assert(tail[0] == Command::Despawn(listeners[0]));
            if tail.contains(Command::Despawn(x)) {
                let i = choose|i: int| 0 <= i < tail.len() && tail[i] == Command::Despawn(x);
            }
            if tail.contains(Command::Shutdown(x)) {
                let i = choose|i: int| 0 <= i < tail.len() && tail[i] == Command::Shutdown(x);
            }
        }
    }
}

/// The accept that the system accepting clients asks for: one accept by the
/// listener when exactly one entity holds a listener, nothing otherwise.
pub open spec fn accept_plan(listeners: Seq<u64>) -> Seq<Command> {
    if listeners.len() == 1 {
        seq![Command::Accept(listeners[0])]
    } else {
        seq![]
    }
}

/// Decides what the system accepting clients does first, given the entities
/// that hold a listener: one attempt of the listener to accept a connection
/// when exactly one entity holds a listener, no command (and so no spawn and
/// no event) otherwise. What follows the attempt is [`react_to_accept`].
pub fn write_client_connected_event_system(listeners: &Vec<u64>) -> (cmds: Vec<Command>)
    ensures
        cmds@ == accept_plan(listeners@),
        listeners@.len() == 1 ==> cmds@ == seq![Command::Accept(listeners@[0])],
        listeners@.len() != 1 ==> cmds@.len() == 0,
{
    let mut cmds: Vec<Command> = Vec::new();
    if listeners.len() == 1 {
        cmds.push(Command::Accept(listeners[0]));
    }
    assert(cmds@ =~= accept_plan(listeners@));
    cmds
}

/// Decides what the system reading from the clients does first, given the
/// entities that hold a client stream: one read of each stream, in order.
/// What follows each read is [`crate::frame::react_to_read`].
pub fn write_client_disconnected_event_and_recieved_packet_from_client_event_system(clients: &Vec<
    u64,
>) -> (cmds: Vec<Command>)
    ensures
        cmds@ == clients@.map_values(|c: u64| Command::Read(c)),
        cmds@.len() == clients@.len(),
        forall|i: int| 0 <= i < clients@.len() ==> #[trigger] cmds@[i] == Command::Read(clients@[i]),
{
    let mut cmds: Vec<Command> = Vec::new();
    let mut i: usize = 0;
    while i < clients.len()
        invariant
            i <= clients@.len(),
            cmds@ == clients@.take(i as int).map_values(|c: u64| Command::Read(c)),
        decreases clients@.len() - i,
    {
        cmds.push(Command::Read(clients[i]));
        i = i + 1;
        assert(cmds@ =~= clients@.take(i as int).map_values(|c: u64| Command::Read(c)));
    }
    assert(clients@.take(clients@.len() as int) =~= clients@);
    cmds
}

/// The system accepting clients asks for at most one accept per run, and
/// none without exactly one listener.
pub proof fn lemma_accept_at_most_once(listeners: Seq<u64>)
    ensures
        accept_plan(listeners).len() <= 1,
        listeners.len() != 1 ==> accept_plan(listeners).len() == 0,
{
}

/// Decides what follows an attempt of the listener to accept a client: when
/// a stream was accepted, the spawn of an entity that holds it, then the
/// event that a client connected; nothing otherwise.
pub fn react_to_accept(accepted: bool) -> (cmds: Vec<Command>)
    ensures
        accepted ==> cmds@ == seq![Command::SpawnAccepted, Command::EmitConnected],
        !accepted ==> cmds@.len() == 0,
{
    let mut cmds: Vec<Command> = Vec::new();
    if accepted {
        cmds.push(Command::SpawnAccepted);
        cmds.push(Command::EmitConnected);
        assert(cmds@ =~= seq![Command::SpawnAccepted, Command::EmitConnected]);
    }
    cmds
}

/// The accept that the system accepting clients asks for is made by the
/// one listener itself, never by another entity.
pub proof fn lemma_accept_by_the_listener(listeners: Seq<u64>)
    ensures
        listeners.len() == 1 ==> accept_plan(listeners) == seq![Command::Accept(listeners[0])],
        forall|i: int|
            0 <= i < accept_plan(listeners).len() ==> #[trigger] accept_plan(listeners)[i]
                == Command::Accept(listeners[0]),
{
}

} // verus!
