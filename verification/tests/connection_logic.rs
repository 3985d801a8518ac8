use net::address::{local_server_address, unspecified_v4, SocketAddress, LOCAL_SERVER_PORT};
use net::client::{
    read_connect_event_system, read_disconnect_event_system, write_send_packet_event_system,
    write_server_disconnected_event_and_recieved_packet_event_system,
    ConnectEvent, DisconnectEvent, RecievedPacket, SendPacketEvent, ServerDisconnectedEvent,
};
use net::command::Command;
use net::frame::{
    buffer_size_in_bounds, react_to_read, received_bytes, single_entity, BUFFER_SIZE,
    MAX_BUFFER_SIZE, MIN_BUFFER_SIZE,
};
use net::server::{
    read_bind_event_system, read_send_packet_to_all_clients_event_system,
    read_unbind_event_system, react_to_accept, write_client_connected_event_system,
    write_client_disconnected_event_and_recieved_packet_from_client_event_system, BindEvent,
    ClientConnectedEvent, ClientDisconnectedEvent, RecievedPacketFromClientEvent,
    SendPacketToAllClients, SendPacketToClient, UnbindEvent,
};

fn v4(a: u8, b: u8, c: u8, d: u8, port: u16) -> SocketAddress {
    SocketAddress::V4 { ip: [a, b, c, d], port }
}

fn is_v4(addr: &SocketAddress, ip: [u8; 4], port: u16) -> bool {
    match addr {
        SocketAddress::V4 { ip: i, port: p } => *i == ip && *p == port,
        SocketAddress::V6 { .. } => false,
    }
}

#[test]
fn buffer_size_bounds() {
    assert!(!buffer_size_in_bounds(0));
    assert!(!buffer_size_in_bounds(127));
    assert!(buffer_size_in_bounds(MIN_BUFFER_SIZE));
    assert!(buffer_size_in_bounds(BUFFER_SIZE));
    assert!(buffer_size_in_bounds(MAX_BUFFER_SIZE));
    assert!(!buffer_size_in_bounds(16385));
    assert_eq!(MIN_BUFFER_SIZE, 128);
    assert_eq!(MAX_BUFFER_SIZE, 16384);
    assert_eq!(BUFFER_SIZE, 1024);
}

#[test]
fn single_entity_of_queries() {
    assert_eq!(single_entity(&vec![]), None);
    assert_eq!(single_entity(&vec![7]), Some(7));
    assert_eq!(single_entity(&vec![7, 8]), None);
}

#[test]
fn received_bytes_is_the_prefix() {
    let buffer = [1u8, 2, 3, 4, 5];
    assert_eq!(received_bytes(&buffer, 0), Vec::<u8>::new());
    assert_eq!(received_bytes(&buffer, 3), vec![1, 2, 3]);
    assert_eq!(received_bytes(&buffer, 5), vec![1, 2, 3, 4, 5]);
}

#[test]
fn read_of_zero_bytes_closes_the_stream() {
    let buffer = [0u8; 16];
    let cmds = react_to_read(42, Some(0), &buffer);
    assert_eq!(cmds.len(), 3);
    assert!(matches!(cmds[0], Command::EmitDisconnected));
    assert!(matches!(cmds[1], Command::Shutdown(42)));
    assert!(matches!(cmds[2], Command::Despawn(42)));
}

#[test]
fn read_of_bytes_hands_on_a_packet() {
    let mut buffer = [0u8; 16];
    buffer[..4].copy_from_slice(&[9, 8, 7, 6]);
    let cmds = react_to_read(42, Some(4), &buffer);
    assert_eq!(cmds.len(), 1);
    match &cmds[0] {
        Command::EmitReceived(bytes) => assert_eq!(bytes, &vec![9, 8, 7, 6]),
        other => panic!("unexpected command {:?}", other),
    }
}

#[test]
fn failed_read_does_nothing() {
    let buffer = [0u8; 16];
    assert!(react_to_read(42, None, &buffer).is_empty());
}

#[test]
fn connect_when_unconnected() {
    let events = vec![ConnectEvent(v4(10, 0, 0, 1, 7777)), ConnectEvent(v4(10, 0, 0, 2, 80))];
    let cmds = read_connect_event_system(0, &events);
    assert_eq!(cmds.len(), 2);
    match (&cmds[0], &cmds[1]) {
        (Command::Connect(a), Command::Connect(b)) => {
            assert!(is_v4(a, [10, 0, 0, 1], 7777));
            assert!(is_v4(b, [10, 0, 0, 2], 80));
        }
        other => panic!("unexpected commands {:?}", other),
    }
}

#[test]
fn no_connect_when_connected() {
    let events = vec![ConnectEvent(v4(127, 0, 0, 1, 7777))];
    assert!(read_connect_event_system(1, &events).is_empty());
    assert!(read_connect_event_system(2, &events).is_empty());
}

#[test]
fn disconnect_closes_the_single_stream() {
    let cmds = read_disconnect_event_system(&vec![5], 1);
    assert_eq!(cmds.len(), 2);
    assert!(matches!(cmds[0], Command::Shutdown(5)));
    assert!(matches!(cmds[1], Command::Despawn(5)));
    let twice = read_disconnect_event_system(&vec![5], 2);
    assert_eq!(twice.len(), 4);
    assert!(matches!(twice[2], Command::Shutdown(5)));
    assert!(matches!(twice[3], Command::Despawn(5)));
}

#[test]
fn disconnect_without_single_stream_does_nothing() {
    assert!(read_disconnect_event_system(&vec![], 3).is_empty());
    assert!(read_disconnect_event_system(&vec![1, 2], 3).is_empty());
    assert!(read_disconnect_event_system(&vec![1], 0).is_empty());
}

#[test]
fn send_writes_each_packet_to_the_stream() {
    let cmds = write_send_packet_event_system(&vec![9], 3);
    assert_eq!(cmds.len(), 3);
    for (i, c) in cmds.iter().enumerate() {
        match c {
            Command::Write(9, p) => assert_eq!(*p, i),
            other => panic!("unexpected command {:?}", other),
        }
    }
    assert!(write_send_packet_event_system(&vec![], 3).is_empty());
    assert!(write_send_packet_event_system(&vec![1, 2], 3).is_empty());
}

#[test]
fn bind_on_every_interface_at_the_port() {
    let cmds = read_bind_event_system(0, &vec![BindEvent(7777), BindEvent(2560)]);
    assert_eq!(cmds.len(), 2);
    match (&cmds[0], &cmds[1]) {
        (Command::Bind(a), Command::Bind(b)) => {
            assert!(is_v4(a, [0, 0, 0, 0], 7777));
            assert!(is_v4(b, [0, 0, 0, 0], 2560));
        }
        other => panic!("unexpected commands {:?}", other),
    }
    assert!(read_bind_event_system(1, &vec![BindEvent(7777)]).is_empty());
}

#[test]
fn unbind_closes_clients_then_listener() {
    let cmds = read_unbind_event_system(&vec![100], &vec![1, 2], 1);
    assert_eq!(cmds.len(), 5);
    assert!(matches!(cmds[0], Command::Shutdown(1)));
    assert!(matches!(cmds[1], Command::Despawn(1)));
    assert!(matches!(cmds[2], Command::Shutdown(2)));
    assert!(matches!(cmds[3], Command::Despawn(2)));
    assert!(matches!(cmds[4], Command::Despawn(100)));
}

#[test]
fn unbind_without_listener_closes_clients_only() {
    let cmds = read_unbind_event_system(&vec![], &vec![3], 2);
    assert_eq!(cmds.len(), 4);
    assert!(matches!(cmds[0], Command::Shutdown(3)));
    assert!(matches!(cmds[3], Command::Despawn(3)));
    assert!(read_unbind_event_system(&vec![100], &vec![3], 0).is_empty());
}

#[test]
fn broadcast_writes_every_packet_to_every_client() {
    let clients = vec![4, 5, 6];
    let cmds = read_send_packet_to_all_clients_event_system(&clients, 2);
    assert_eq!(cmds.len(), 6);
    for p in 0..2usize {
        for c in 0..3usize {
            match &cmds[p * 3 + c] {
                Command::Write(e, q) => {
                    assert_eq!(*e, clients[c]);
                    assert_eq!(*q, p);
                }
                other => panic!("unexpected command {:?}", other),
            }
        }
    }
    assert!(read_send_packet_to_all_clients_event_system(&vec![], 5).is_empty());
}

#[test]
fn accepted_client_is_spawned_and_announced() {
    let cmds = react_to_accept(true);
    assert_eq!(cmds.len(), 2);
    assert!(matches!(cmds[0], Command::SpawnAccepted));
    assert!(matches!(cmds[1], Command::EmitConnected));
    assert!(react_to_accept(false).is_empty());
}

#[test]
fn addresses() {
    assert!(is_v4(&unspecified_v4(7777), [0, 0, 0, 0], 7777));
    assert!(is_v4(&local_server_address(), [127, 0, 0, 1], LOCAL_SERVER_PORT));
    assert_eq!(LOCAL_SERVER_PORT, 2560);
    assert_eq!(unspecified_v4(31).port(), 31);
    let v6 = SocketAddress::V6 { segments: [0, 0, 0, 0, 0, 0, 0, 1], port: 9, flowinfo: 0, scope_id: 0 };
    assert_eq!(v6.port(), 9);
}

#[test]
fn event_types_hold_their_values() {
    let e = SendPacketEvent(5u32);
    assert_eq!(e.0, 5);
    let r = RecievedPacket(String::from("hi"));
    assert_eq!(r.0, "hi");
    let s = SendPacketToAllClients(1u8);
    assert_eq!(s.0, 1);
    let t = SendPacketToClient(2u8);
    assert_eq!(t.0, 2);
    let f = RecievedPacketFromClientEvent(3u8);
    assert_eq!(f.0, 3);
    let _ = (DisconnectEvent, ServerDisconnectedEvent, UnbindEvent);
    let _ = (ClientConnectedEvent(), ClientDisconnectedEvent());
}

#[test]
fn two_connect_events_in_one_frame_open_two_connections() {
    let events = vec![ConnectEvent(v4(127, 0, 0, 1, 1)), ConnectEvent(v4(127, 0, 0, 1, 2))];
    let cmds = read_connect_event_system(0, &events);
    assert_eq!(cmds.iter().filter(|c| matches!(c, Command::Connect(_))).count(), 2);
}

#[test]
fn one_connect_event_opens_one_connection() {
    let events = vec![ConnectEvent(v4(127, 0, 0, 1, 1))];
    assert_eq!(read_connect_event_system(0, &events).len(), 1);
    assert_eq!(read_connect_event_system(1, &events).len(), 0);
}

#[test]
fn one_bind_event_binds_one_listener() {
    assert_eq!(read_bind_event_system(0, &vec![BindEvent(9)]).len(), 1);
    assert_eq!(read_bind_event_system(1, &vec![BindEvent(9)]).len(), 0);
}

#[test]
fn accept_only_with_a_single_listener() {
    let cmds = write_client_connected_event_system(&vec![100]);
    assert_eq!(cmds.len(), 1);
    assert!(matches!(cmds[0], Command::Accept(100)));
    assert!(write_client_connected_event_system(&vec![]).is_empty());
    assert!(write_client_connected_event_system(&vec![100, 101]).is_empty());
}

#[test]
fn server_reads_every_client_in_order() {
    let cmds = write_client_disconnected_event_and_recieved_packet_from_client_event_system(&vec![7, 8]);
    assert_eq!(cmds.len(), 2);
    assert!(matches!(cmds[0], Command::Read(7)));
    assert!(matches!(cmds[1], Command::Read(8)));
    assert!(write_client_disconnected_event_and_recieved_packet_from_client_event_system(&vec![]).is_empty());
}

#[test]
fn client_reads_only_the_single_stream() {
    let cmds = write_server_disconnected_event_and_recieved_packet_event_system(&vec![5]);
    assert_eq!(cmds.len(), 1);
    assert!(matches!(cmds[0], Command::Read(5)));
    assert!(write_server_disconnected_event_and_recieved_packet_event_system(&vec![]).is_empty());
    assert!(write_server_disconnected_event_and_recieved_packet_event_system(&vec![5, 6]).is_empty());
}
