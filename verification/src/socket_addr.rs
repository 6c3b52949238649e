//! Socket addresses, as the guest's sockets and as the peer core write them.

use vstd::prelude::*;

use crate::text::concat3;

verus! {

/// An address as the peer core writes it.
#[derive(Debug, Clone, Copy, PartialEq, Eq)]
pub enum SocketAddr {
    V4 { octets: (u8, u8, u8, u8), port: u16 },
    V6 {
        segments: (u16, u16, u16, u16, u16, u16, u16, u16),
        port: u16,
        flowinfo: u32,
        scope_id: u32,
    },
}

/// An address as the guest's sockets write it.
#[allow(inconsistent_fields)]
#[derive(Debug, Clone, Copy, PartialEq, Eq)]
pub enum IpSocketAddress {
    Ipv4 { port: u16, address: (u8, u8, u8, u8) },
    Ipv6 {
        port: u16,
        flow_info: u32,
        address: (u16, u16, u16, u16, u16, u16, u16, u16),
        scope_id: u32,
    },
}

/// An address family.
#[derive(Debug, Clone, Copy, PartialEq, Eq, Structural)]
pub enum IpAddressFamily {
    Ipv4,
    Ipv6,
}

/// The address as the sockets write it.
pub open spec fn as_wasi(addr: SocketAddr) -> IpSocketAddress {
    match addr {
        SocketAddr::V4 { octets, port } => IpSocketAddress::Ipv4 { port, address: octets },
        SocketAddr::V6 { segments, port, flowinfo, scope_id } => IpSocketAddress::Ipv6 {
            port,
            flow_info: flowinfo,
            address: segments,
            scope_id,
        },
    }
}

/// The address as the core writes it. Flow label and scope of an IPv6 address are not
/// carried over.
pub open spec fn as_core(addr: IpSocketAddress) -> SocketAddr {
    match addr {
        IpSocketAddress::Ipv4 { port, address } => SocketAddr::V4 { octets: address, port },
        IpSocketAddress::Ipv6 { port, address, .. } => SocketAddr::V6 {
            segments: address,
            port,
            flowinfo: 0,
            scope_id: 0,
        },
    }
}

/// Convert an address of the core into one of the sockets.
pub fn to_wasi_addr(addr: SocketAddr) -> (r: IpSocketAddress)
    ensures
        r == as_wasi(addr),
{
    match addr {
        SocketAddr::V4 { octets, port } => IpSocketAddress::Ipv4 { port, address: octets },
        SocketAddr::V6 { segments, port, flowinfo, scope_id } => IpSocketAddress::Ipv6 {
            port,
            flow_info: flowinfo,
            address: segments,
            scope_id,
        },
    }
}

/// Convert an address of the sockets into one of the core.
pub fn from_wasi_addr(addr: IpSocketAddress) -> (r: SocketAddr)
    ensures
        r == as_core(addr),
{
    match addr {
        IpSocketAddress::Ipv4 { port, address } => SocketAddr::V4 { octets: address, port },
        IpSocketAddress::Ipv6 { port, address, .. } => SocketAddr::V6 {
            segments: address,
            port,
            flowinfo: 0,
            scope_id: 0,
        },
    }
}

/// The family of the socket that is created for an address.
pub fn family_of(addr: SocketAddr) -> (r: IpAddressFamily)
    ensures
        r == (match addr {
            SocketAddr::V4 { .. } => IpAddressFamily::Ipv4,
            SocketAddr::V6 { .. } => IpAddressFamily::Ipv6,
        }),
{
    match addr {
        SocketAddr::V4 { .. } => IpAddressFamily::Ipv4,
        SocketAddr::V6 { .. } => IpAddressFamily::Ipv6,
    }
}

/// A step of binding a socket.
#[derive(Debug, Clone, Copy, PartialEq, Eq, Structural)]
pub enum BindStep {
    Create,
    Bind,
    ReadAddress,
}

impl BindStep {
    /// What this step is called in an error.
    pub open spec fn name(self) -> Seq<char> {
        match self {
            BindStep::Create => "create UDP socket"@,
            BindStep::Bind => "bind UDP socket"@,
            BindStep::ReadAddress => "read bound address"@,
        }
    }
}

/// The message of a socket error, whose code reads `code`, in a step of binding.
pub fn net_err(step: BindStep, code: &str) -> (r: String)
    ensures
        r@ == step.name() + ": "@ + code@,
{
    let what = match step {
        BindStep::Create => "create UDP socket",
        BindStep::Bind => "bind UDP socket",
        BindStep::ReadAddress => "read bound address",
    };
    concat3(what, ": ", code)
}

/// An address survives the way to the sockets and back, unless it is an IPv6 address with
/// a flow label or a scope.
pub proof fn law_addresses_round_trip(addr: SocketAddr)
    requires
        addr matches SocketAddr::V6 { flowinfo, scope_id, .. } ==> flowinfo == 0 && scope_id == 0,
    ensures
        as_core(as_wasi(addr)) == addr,
{
}

/// Host and port survive the way to the sockets and back in any case.
pub proof fn law_host_and_port_round_trip(addr: SocketAddr)
    ensures
        match (addr, as_core(as_wasi(addr))) {
            (SocketAddr::V4 { octets, port }, SocketAddr::V4 { octets: back, port: again }) => octets
                == back && port == again,
            (
                SocketAddr::V6 { segments, port, .. },
                SocketAddr::V6 { segments: back, port: again, .. },
            ) => segments == back && port == again,
            _ => false,
        },
{
}

/// The sockets are given everything that an address of the core says, family, host, port,
/// flow label and scope; the core is given family, host and port.
pub proof fn law_what_addresses_carry(addr: SocketAddr, back: IpSocketAddress)
    ensures
        addr matches SocketAddr::V4 { octets, port } ==> as_wasi(addr) == (IpSocketAddress::Ipv4 {
            port,
            address: octets,
        }),
        addr matches SocketAddr::V6 { segments, port, flowinfo, scope_id } ==> (as_wasi(
            addr,
        ) matches IpSocketAddress::Ipv6 { port: p, flow_info: f, address: a, scope_id: s } && p
            == port && f == flowinfo && a == segments && s == scope_id),
        back matches IpSocketAddress::Ipv4 { port, address } ==> as_core(back) == (SocketAddr::V4 {
            octets: address,
            port,
        }),
        back matches IpSocketAddress::Ipv6 { port, address, .. } ==> (as_core(
            back,
        ) matches SocketAddr::V6 { segments, port: p, flowinfo, scope_id } && p == port && segments
            == address && flowinfo == 0 && scope_id == 0),
{
}

/// The steps of binding are told apart by name.
pub proof fn law_bind_steps_have_their_names(step: BindStep)
    ensures
        step.name() == "create UDP socket"@ <==> step == BindStep::Create,
        step.name() == "bind UDP socket"@ <==> step == BindStep::Bind,
        step.name() == "read bound address"@ <==> step == BindStep::ReadAddress,
{
    reveal_strlit("create UDP socket");
    reveal_strlit("bind UDP socket");
    reveal_strlit("read bound address");
    assert("create UDP socket"@[0] == 'c' && "bind UDP socket"@[0] == 'b'
        && "read bound address"@[0] == 'r');
}

} // verus!
