# net

The connection logic of a small TCP client/server layer for a voxel game,
verified with Verus, and the game's voxel data types.

- `src/` is the library. Every system of the networking layer is a function
  from plain values (the ids of the entities that hold sockets, the events of
  a frame, the outcome of a socket read) to the list of `Command`s that
  follow. `command.rs` also holds a model of what the commands do to the
  entities, over which the laws of disconnecting, unbinding and losing a
  peer are proved.
- `app/` is the bevy program around it: the plugins and systems that read
  queries and events, call the library, and perform its commands on real
  sockets; the bincode encoding of packets; a test client and server.
- `tests/` runs the library on concrete values.
