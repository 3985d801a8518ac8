//! Socket addresses as plain values.
//!
//! The connection logic only decides *which* address a socket is opened on;
//! the sockets themselves live outside the library.

use vstd::prelude::*;

verus! {

/// The port of the fixed server address [`local_server_address`].
pub const LOCAL_SERVER_PORT: u16 = 2560;

/// An IPv4 or IPv6 socket address, held as plain values.
#[derive(Clone, Copy, Debug)]
pub enum SocketAddress {
    /// An IPv4 address (its four octets) and a port.
    V4 { ip: [u8; 4], port: u16 },
    /// An IPv6 address (its eight segments), a port, the flow information
    /// and the scope id.
    V6 { segments: [u16; 8], port: u16, flowinfo: u32, scope_id: u32 },
}

impl SocketAddress {
    /// The port of the address.
    pub open spec fn spec_port(&self) -> u16 {
        match *self {
            SocketAddress::V4 { port, .. } => port,
            SocketAddress::V6 { port, .. } => port,
        }
    }

    /// Whether the address is the IPv4 address `a.b.c.d` with port `port`.
    pub open spec fn is_v4(&self, a: u8, b: u8, c: u8, d: u8, port: u16) -> bool {
        match *self {
            SocketAddress::V4 { ip, port: p } => ip@ == seq![a, b, c, d] && p == port,
            SocketAddress::V6 { .. } => false,
        }
    }

    /// The port of the address.
    #[verifier::when_used_as_spec(spec_port)]
    pub fn port(&self) -> (p: u16)
        ensures
            p == self.spec_port(),
            p == match *self {
                SocketAddress::V4 { port, .. } => port,
                SocketAddress::V6 { port, .. } => port,
            },
    {
        match self {
            SocketAddress::V4 { port, .. } => *port,
            SocketAddress::V6 { port, .. } => *port,
        }
    }
}

/// The address a server binds to for a given port: every IPv4 interface
/// (`0.0.0.0`) on that port.
pub fn unspecified_v4(port: u16) -> (a: SocketAddress)
    ensures
        a.is_v4(0, 0, 0, 0, port),
        a matches SocketAddress::V4 { ip, port: p } && ip@ == seq![0u8, 0u8, 0u8, 0u8] && p == port,
{
    let a = SocketAddress::V4 { ip: [0u8, 0u8, 0u8, 0u8], port };
    proof {
        let ip: [u8; 4] = [0u8, 0u8, 0u8, 0u8];
        assert(ip@ =~= seq![0u8, 0u8, 0u8, 0u8]);
    }
    a
}

/// The fixed loopback address `127.0.0.1:2560`, on which the server of
/// [`crate::util`] listens and to which its client connects.
pub fn local_server_address() -> (a: SocketAddress)
    ensures
        a.is_v4(127, 0, 0, 1, LOCAL_SERVER_PORT),
        a matches SocketAddress::V4 { ip, port } && ip@ == seq![127u8, 0u8, 0u8, 1u8] && port == 2560,
{
    let a = SocketAddress::V4 { ip: [127u8, 0u8, 0u8, 1u8], port: LOCAL_SERVER_PORT };
    proof {
        let ip: [u8; 4] = [127u8, 0u8, 0u8, 1u8];
        assert(ip@ =~= seq![127u8, 0u8, 0u8, 1u8]);
    }
    a
}

} // verus!
