use net::address::{SocketAddress, LOCAL_SERVER_PORT};
use net::command::Command;
use net::util::{
    connect_event_system, listen_for_server_packets_system, react_to_server_read, read_bind_event_system, ConnectEvent,
    Packet, RecievedPacketFromServerEvent, SendPacketToServerEvent,
};

fn is_local(addr: &SocketAddress) -> bool {
    match addr {
        SocketAddress::V4 { ip, port } => *ip == [127, 0, 0, 1] && *port == LOCAL_SERVER_PORT,
        SocketAddress::V6 { .. } => false,
    }
}

#[test]
fn send_packet_to_server_event_holds_the_packet() {
    let e = SendPacketToServerEvent::new(Packet::MyPacket(String::from("Packet from client")));
    match e.packet {
        Packet::MyPacket(s) => assert_eq!(s, "Packet from client"),
    }
}

#[test]
fn recieved_packet_from_server_event_holds_the_packet() {
    let e = RecievedPacketFromServerEvent::new(Packet::MyPacket(String::from("KeyA")));
    match e.packet {
        Packet::MyPacket(s) => assert_eq!(s, "KeyA"),
    }
}

#[test]
fn connect_event_new() {
    let _ = ConnectEvent::new(SocketAddress::V4 { ip: [1, 2, 3, 4], port: 5 });
}

#[test]
fn connect_goes_to_the_fixed_address() {
    let cmds = connect_event_system(0, 2);
    assert_eq!(cmds.len(), 2);
    for c in &cmds {
        match c {
            Command::Connect(a) => assert!(is_local(a)),
            other => panic!("unexpected command {:?}", other),
        }
    }
    assert!(connect_event_system(1, 2).is_empty());
}

#[test]
fn bind_goes_to_the_fixed_address() {
    let cmds = read_bind_event_system(0, 1);
    assert_eq!(cmds.len(), 1);
    match &cmds[0] {
        Command::Bind(a) => assert!(is_local(a)),
        other => panic!("unexpected command {:?}", other),
    }
    assert!(read_bind_event_system(1, 1).is_empty());
}

#[test]
fn server_going_away_shuts_down_but_keeps_the_entity() {
    let buffer = [0u8; 8];
    let cmds = react_to_server_read(3, Some(0), &buffer);
    assert_eq!(cmds.len(), 2);
    assert!(matches!(cmds[0], Command::EmitDisconnected));
    assert!(matches!(cmds[1], Command::Shutdown(3)));
}

#[test]
fn listen_hands_on_the_bytes_read() {
    let buffer = [1u8, 2, 3, 4, 5, 6, 7, 8];
    let cmds = react_to_server_read(3, Some(2), &buffer);
    assert_eq!(cmds.len(), 1);
    match &cmds[0] {
        Command::EmitReceived(bytes) => assert_eq!(bytes, &vec![1, 2]),
        other => panic!("unexpected command {:?}", other),
    }
    assert!(react_to_server_read(3, None, &buffer).is_empty());
}

#[test]
fn listen_reads_only_the_single_stream() {
    let cmds = listen_for_server_packets_system(&vec![3]);
    assert_eq!(cmds.len(), 1);
    assert!(matches!(cmds[0], Command::Read(3)));
    assert!(listen_for_server_packets_system(&vec![]).is_empty());
    assert!(listen_for_server_packets_system(&vec![3, 4]).is_empty());
}
