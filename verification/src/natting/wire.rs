//! The entries of the data path with their ports and addresses as bytes in
//! network order, the high byte first.
use vstd::prelude::*;
use crate::natting::entries::{
    Gress, Nat4StMappingValue, NatMappingKeyV4, StaticNat6MappingKey, StaticNat6MappingValue,
};
use crate::net::{Ipv4Addr, Ipv6Addr};

verus! {

/// The bytes of a port.
pub open spec fn port_octets(port: u16) -> Seq<u8> {
    seq![(port / 0x100) as u8, (port % 0x100) as u8]
}

/// The bytes of a port, the high one first.
pub fn port_bytes(port: u16) -> (r: [u8; 2])
    ensures
        r@ == port_octets(port),
{
    let r = [(port / 0x100) as u8, (port % 0x100) as u8];
    assert(r@ =~= port_octets(port));
    r
}

/// What an IPv4 entry is found by, in bytes.
#[derive(Debug, Clone, Copy, PartialEq, Eq)]
pub struct NatWireKeyV4 {
    pub gress: Gress,
    pub l4proto: u8,
    pub from_port: [u8; 2],
    pub from_addr: [u8; 4],
}

/// What an IPv4 packet is rewritten to, in bytes.
#[derive(Debug, Clone, Copy, PartialEq, Eq)]
pub struct NatWireValueV4 {
    pub port: [u8; 2],
    pub addr: [u8; 4],
}

/// What an IPv6 entry is found by, in bytes.
#[derive(Debug, Clone, Copy, PartialEq, Eq)]
pub struct NatWireKeyV6 {
    pub prefixlen: u32,
    pub gress: Gress,
    pub l4_protocol: u8,
    pub port: [u8; 2],
    pub addr: [u8; 16],
}

/// What an IPv6 packet is rewritten to, in bytes.
#[derive(Debug, Clone, Copy, PartialEq, Eq)]
pub struct NatWireValueV6 {
    pub port: [u8; 2],
    pub is_static: u8,
    pub addr: [u8; 16],
}

impl NatMappingKeyV4 {
    /// Whether `wire` is this key in bytes.
    pub open spec fn is_sent_as(self, wire: NatWireKeyV4) -> bool {
        &&& wire.gress == self.gress
        &&& wire.l4proto == self.l4proto
        &&& wire.from_port@ == port_octets(self.from_port)
        &&& wire.from_addr@ == (Ipv4Addr { bits: self.from_addr }).spec_octets()
    }

    pub fn to_wire(&self) -> (r: NatWireKeyV4)
        ensures
            self.is_sent_as(r),
    {
        NatWireKeyV4 {
            gress: self.gress,
            l4proto: self.l4proto,
            from_port: port_bytes(self.from_port),
            from_addr: (Ipv4Addr { bits: self.from_addr }).octets(),
        }
    }
}

impl Nat4StMappingValue {
    pub fn to_wire(&self) -> (r: NatWireValueV4)
        ensures
            r.port@ == port_octets(self.port),
            r.addr@ == (Ipv4Addr { bits: self.addr }).spec_octets(),
    {
        NatWireValueV4 {
            port: port_bytes(self.port),
            addr: (Ipv4Addr { bits: self.addr }).octets(),
        }
    }
}

impl StaticNat6MappingKey {
    /// Whether `wire` is this key in bytes.
    pub open spec fn is_sent_as(self, wire: NatWireKeyV6) -> bool {
        &&& wire.prefixlen == self.prefixlen
        &&& wire.gress == self.gress
        &&& wire.l4_protocol == self.l4_protocol
        &&& wire.port@ == port_octets(self.port)
        &&& wire.addr@ == (Ipv6Addr { bits: self.addr }).spec_octets()
    }

    pub fn to_wire(&self) -> (r: NatWireKeyV6)
        ensures
            self.is_sent_as(r),
    {
        NatWireKeyV6 {
            prefixlen: self.prefixlen,
            gress: self.gress,
            l4_protocol: self.l4_protocol,
            port: port_bytes(self.port),
            addr: (Ipv6Addr { bits: self.addr }).octets(),
        }
    }
}

impl StaticNat6MappingValue {
    pub fn to_wire(&self) -> (r: NatWireValueV6)
        ensures
            r.port@ == port_octets(self.port),
            r.is_static == self.is_static,
            r.addr@ == (Ipv6Addr { bits: self.addr }).spec_octets(),
    {
        NatWireValueV6 {
            port: port_bytes(self.port),
            is_static: self.is_static,
            addr: (Ipv6Addr { bits: self.addr }).octets(),
        }
    }
}

proof fn lemma_port_octets(a: u16, b: u16)
    requires
        port_octets(a) == port_octets(b),
    ensures
        a == b,
{
    assert(port_octets(a)[0] == (a / 0x100) as u8 && port_octets(a)[1] == (a % 0x100) as u8);
    assert(port_octets(b)[0] == (b / 0x100) as u8 && port_octets(b)[1] == (b % 0x100) as u8);
}

/// Different IPv4 keys stay different in bytes.
pub proof fn law_wire_keys_differ_v4(a: NatMappingKeyV4, b: NatMappingKeyV4, wire: NatWireKeyV4)
    requires
        a.is_sent_as(wire),
        b.is_sent_as(wire),
    ensures
        a == b,
{
    lemma_port_octets(a.from_port, b.from_port);
    let x = Ipv4Addr { bits: a.from_addr };
    let y = Ipv4Addr { bits: b.from_addr };
    x.lemma_octets_tell_apart(y);
}

/// Different IPv6 keys stay different in bytes.
pub proof fn law_wire_keys_differ_v6(
    a: StaticNat6MappingKey,
    b: StaticNat6MappingKey,
    wire: NatWireKeyV6,
)
    requires
        a.is_sent_as(wire),
        b.is_sent_as(wire),
    ensures
        a == b,
{
    lemma_port_octets(a.port, b.port);
    let x = Ipv6Addr { bits: a.addr };
    let y = Ipv6Addr { bits: b.addr };
    x.lemma_octets_tell_apart(y);
}

} // verus!
