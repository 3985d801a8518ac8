//! The commands that the connection logic hands back to its caller, and a
//! model of what they do to the entities that hold sockets.

use vstd::prelude::*;
use crate::address::SocketAddress;

verus! {

/// One thing for the caller to do, in the order in which the commands come.
///
/// Entities are named by their id (`bevy::ecs::entity::Entity::to_bits`);
/// payloads of outgoing packets by their index in the list of encoded
/// packets that the caller passed in.
#[derive(Debug)]
pub enum Command {
    /// Open a stream to the address, make it non-blocking and spawn an
    /// entity that holds it.
    Connect(SocketAddress),
    /// Bind a listener to the address, make it non-blocking and spawn an
    /// entity that holds it.
    Bind(SocketAddress),
    /// Make the stream that the listener just accepted non-blocking and
    /// spawn an entity that holds it.
    SpawnAccepted,
    /// Read once from the stream that the entity holds into a fresh receive
    /// buffer, and report the number of bytes read, or the failure.
    Read(u64),
    /// Let the listener that the entity holds accept one connection, and
    /// report whether it did.
    Accept(u64),
    /// Shut down both halves of the stream that the entity holds.
    Shutdown(u64),
    /// Despawn the entity.
    Despawn(u64),
    /// Write the whole of the encoded packet with the given index to the
    /// stream that the entity holds.
    Write(u64, usize),
    /// Send the event that a peer connected.
    EmitConnected,
    /// Send the event that the peer of a stream went away.
    EmitDisconnected,
    /// Decode these bytes into a packet and send the event that it arrived.
    EmitReceived(Vec<u8>),
}

/// The entities that hold sockets: those that exist (`live`) and those whose
/// socket has not been shut down (`open`).
pub struct Entities {
    pub live: Set<u64>,
    pub open: Set<u64>,
}

/// What one command does to the entities that already exist. Commands that
/// spawn an entity add one whose id the caller learns only then, so the
/// model leaves them out.
pub open spec fn step(w: Entities, c: Command) -> Entities {
    match c {
        Command::Shutdown(e) => Entities { live: w.live, open: w.open.remove(e) },
        Command::Despawn(e) => Entities { live: w.live.remove(e), open: w.open },
        _ => w,
    }
}

/// What a sequence of commands, performed in order, does to the entities.
pub open spec fn apply(w: Entities, cmds: Seq<Command>) -> Entities
    decreases cmds.len(),
{
    if cmds.len() == 0 {
        w
    } else {
        step(apply(w, cmds.drop_last()), cmds.last())
    }
}

/// The commands that shut down and then despawn each of the entities, one
/// entity after the other.
pub open spec fn close_all(entities: Seq<u64>) -> Seq<Command>
    decreases entities.len(),
{
    if entities.len() == 0 {
        seq![]
    } else {
        close_all(entities.drop_last()) + seq![
            Command::Shutdown(entities.last()),
            Command::Despawn(entities.last()),
        ]
    }
}

/// The commands that close a stream whose peer went away: the event, the
/// shutdown, and the despawn of the entity.
pub open spec fn peer_closed(entity: u64) -> Seq<Command> {
    seq![Command::EmitDisconnected, Command::Shutdown(entity), Command::Despawn(entity)]
}

/// The one read from the stream of a query that must match exactly one
/// entity: a read of that entity's stream when the query matched exactly
/// one, nothing when it matched none or several.
pub open spec fn read_single(streams: Seq<u64>) -> Seq<Command> {
    if streams.len() == 1 {
        seq![Command::Read(streams[0])]
    } else {
        seq![]
    }
}

/// The sequence `cmds`, `n` times over.
pub open spec fn repeat(cmds: Seq<Command>, n: nat) -> Seq<Command>
    decreases n,
{
    if n == 0 {
        seq![]
    } else {
        repeat(cmds, (n - 1) as nat) + cmds
    }
}

/// Whether the commands despawn the entity.
pub open spec fn despawns(cmds: Seq<Command>, e: u64) -> bool {
    cmds.contains(Command::Despawn(e))
}

/// Whether the commands shut down the stream of the entity.
pub open spec fn shuts_down(cmds: Seq<Command>, e: u64) -> bool {
    cmds.contains(Command::Shutdown(e))
}

/// An element of a nonempty sequence is an element of all but its last
/// element, or is its last element.
pub proof fn lemma_contains_drop_last<A>(s: Seq<A>, y: A)
    requires
        s.len() > 0,
    ensures
        s.contains(y) <==> (s.drop_last().contains(y) || s.last() == y),
{
    if s.contains(y) {
        let i = choose|i: int| 0 <= i < s.len() && s[i] == y;
        if i < s.len() - 1 {
            assert(s.drop_last()[i] == y);
        }
    }
    if s.drop_last().contains(y) {
        let i = choose|i: int| 0 <= i < s.drop_last().len() && s.drop_last()[i] == y;
        assert(s[i] == y);
    }
    if s.last() == y {
        assert(s[s.len() - 1] == y);
    }
}

/// An element of a concatenation is an element of one of its parts.
pub proof fn lemma_contains_concat<A>(a: Seq<A>, b: Seq<A>, y: A)
    ensures
        (a + b).contains(y) <==> (a.contains(y) || b.contains(y)),
{
    if (a + b).contains(y) {
        let i = choose|i: int| 0 <= i < (a + b).len() && (a + b)[i] == y;
        if i < a.len() {
            assert(a[i] == y);
        } else {
            assert(b[i - a.len()] == y);
        }
    }
    if a.contains(y) {
        let i = choose|i: int| 0 <= i < a.len() && a[i] == y;
        assert((a + b)[i] == y);
    }
    if b.contains(y) {
        let i = choose|i: int| 0 <= i < b.len() && b[i] == y;
        assert((a + b)[a.len() + i] == y);
    }
}

/// A sequence repeated at least once holds the same elements as the
/// sequence.
pub proof fn lemma_repeat_contains(cmds: Seq<Command>, n: nat, y: Command)
    requires
        n >= 1,
    ensures
        repeat(cmds, n).contains(y) <==> cmds.contains(y),
    decreases n,
{
    lemma_contains_concat(repeat(cmds, (n - 1) as nat), cmds, y);
    if n > 1 {
        lemma_repeat_contains(cmds, (n - 1) as nat, y);
    } else {
        assert(repeat(cmds, 0) =~= Seq::<Command>::empty());
    }
}

/// Closing a list of entities shuts down and despawns exactly the entities
/// of the list.
pub proof fn lemma_close_all_contains(entities: Seq<u64>, x: u64)
    ensures
        despawns(close_all(entities), x) <==> entities.contains(x),
        shuts_down(close_all(entities), x) <==> entities.contains(x),
    decreases entities.len(),
{
    if entities.len() > 0 {
        let rest = entities.drop_last();
        let e = entities.last();
        let pair = seq![Command::Shutdown(e), Command::Despawn(e)];
        lemma_close_all_contains(rest, x);
        lemma_contains_drop_last(entities, x);
        lemma_contains_concat(close_all(rest), pair, Command::Despawn(x));
        lemma_contains_concat(close_all(rest), pair, Command::Shutdown(x));
        if pair.contains(Command::Despawn(x)) {
            let i = choose|i: int| 0 <= i < pair.len() && pair[i] == Command::Despawn(x);
        }
        if pair.contains(Command::Shutdown(x)) {
            let i = choose|i: int| 0 <= i < pair.len() && pair[i] == Command::Shutdown(x);
        }
        if x == e {
            assert(pair[0] == Command::Shutdown(x));
            assert(pair[1] == Command::Despawn(x));
        }
    } else {
        assert(!entities.contains(x));
        assert(close_all(entities) =~= Seq::<Command>::empty());
    }
}

/// Performing commands removes from the live entities exactly those that
/// the commands despawn, and from the open ones exactly those whose stream
/// they shut down.
pub proof fn lemma_apply_effect(w: Entities, cmds: Seq<Command>)
    ensures
        forall|x: u64|
            #[trigger] apply(w, cmds).live.contains(x) <==> (w.live.contains(x) && !despawns(
                cmds,
                x,
            )),
        forall|x: u64|
            #[trigger] apply(w, cmds).open.contains(x) <==> (w.open.contains(x) && !shuts_down(
                cmds,
                x,
            )),
    decreases cmds.len(),
{
    if cmds.len() > 0 {
        let prev = apply(w, cmds.drop_last());
        lemma_apply_effect(w, cmds.drop_last());
        assert forall|x: u64|
            (apply(w, cmds).live.contains(x) <==> (w.live.contains(x) && !despawns(cmds, x)))
                && (apply(w, cmds).open.contains(x) <==> (w.open.contains(x) && !shuts_down(
                cmds,
                x,
            ))) by {
            lemma_contains_drop_last(cmds, Command::Despawn(x));
            lemma_contains_drop_last(cmds, Command::Shutdown(x));
            assert(apply(w, cmds) == step(prev, cmds.last()));
            assert(prev.live.contains(x) <==> (w.live.contains(x) && !despawns(
                cmds.drop_last(),
                x,
            )));
            assert(prev.open.contains(x) <==> (w.open.contains(x) && !shuts_down(
                cmds.drop_last(),
                x,
            )));
        }
    } else {
        assert forall|x: u64| !despawns(cmds, x) && !shuts_down(cmds, x) by {}
    }
}

/// Every cell of an earlier row of a table with `n` columns comes before
/// the start of row `p`.
pub proof fn lemma_row_before(q: int, k: int, p: int, n: int)
    requires
        0 <= q < p,
        0 <= k < n,
    ensures
        0 <= q * n + k < p * n,
{
    assert(0 <= q * n) by (nonlinear_arith)
        requires
            0 <= q,
            0 <= n,
    ;
    assert(q * n + n <= p * n) by (nonlinear_arith)
        requires
            q + 1 <= p,
            0 <= n,
    ;
}

/// The `n`-fold repetition of a sequence is `n` copies of it, one after
/// the other: it is `n` times as long, and its cell `j` of copy `r` is cell
/// `j` of the sequence.
pub proof fn lemma_repeat_index(cmds: Seq<Command>, n: nat)
    ensures
        repeat(cmds, n).len() == n * cmds.len(),
        forall|r: int, j: int|
            0 <= r < n && 0 <= j < cmds.len() ==> #[trigger] repeat(cmds, n)[r * cmds.len() + j]
                == cmds[j],
    decreases n,
{
    let len = cmds.len();
    if n > 0 {
        let m = (n - 1) as nat;
        lemma_repeat_index(cmds, m);
        assert(repeat(cmds, n) == repeat(cmds, m) + cmds);
        assert(m * len + len == n * len) by (nonlinear_arith)
            requires
                m + 1 == n,
        ;
        assert forall|r: int, j: int| 0 <= r < n && 0 <= j < len implies #[trigger] repeat(
            cmds,
            n,
        )[r * len + j] == cmds[j] by {
            if r < m {
                lemma_row_before(r, j, m as int, len as int);
            } else {
                assert(r * len == m * len);
            }
        }
    } else {
        assert(repeat(cmds, 0).len() == 0);
        assert(0 * len == 0) by (nonlinear_arith);
    }
}

/// Closing a list of entities is, for each entity in order, its shutdown
/// then its despawn.
pub proof fn lemma_close_all_index(entities: Seq<u64>)
    ensures
        close_all(entities).len() == 2 * entities.len(),
        forall|j: int|
            0 <= j < entities.len() ==> #[trigger] close_all(entities)[2 * j] == Command::Shutdown(
                entities[j],
            ) && close_all(entities)[2 * j + 1] == Command::Despawn(entities[j]),
    decreases entities.len(),
{
    if entities.len() > 0 {
        let rest = entities.drop_last();
        lemma_close_all_index(rest);
        assert forall|j: int| 0 <= j < entities.len() implies #[trigger] close_all(entities)[2 * j]
            == Command::Shutdown(entities[j]) && close_all(entities)[2 * j + 1] == Command::Despawn(
            entities[j],
        ) by {
            if j < rest.len() {
                assert(rest[j] == entities[j]);
            }
        }
    }
}

/// A stream whose peer went away yields, for every entity, the event that
/// the peer disconnected, then the shutdown of the stream, then the despawn
/// of that same entity, and nothing else.
pub proof fn lemma_peer_closed_is_disconnect_shutdown_despawn(entity: u64)
    ensures
        peer_closed(entity) == seq![
            Command::EmitDisconnected,
            Command::Shutdown(entity),
            Command::Despawn(entity),
        ],
        !peer_closed(entity).contains(Command::EmitConnected),
{
    let s = peer_closed(entity);
    if s.contains(Command::EmitConnected) {
        let i = choose|i: int| 0 <= i < s.len() && s[i] == Command::EmitConnected;
    }
}

/// The single read of a query that must match one entity is a read of that
/// very entity, and without exactly one entity there is no read.
pub proof fn lemma_read_single_reads_the_entity(streams: Seq<u64>)
    ensures
        streams.len() == 1 ==> read_single(streams) == seq![Command::Read(streams[0])],
        streams.len() != 1 ==> read_single(streams).len() == 0,
{
}

} // verus!
