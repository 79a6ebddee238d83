//! Endpoints, flows and hardware addresses as the datapath stores them.

use byteorder::BigEndian;
use byteorder::ByteOrder;
use crate::notification::Notification;
use crate::order::spec_swap16;
use crate::order::spec_swap32;
use crate::order::swap16;
use crate::order::swap32;
use crate::order::lemma_swap_involutive;
use std::collections::HashSet;
use vstd::prelude::*;

verus! {

broadcast use vstd::std_specs::hash::group_hash_axioms;

/// An IPv4 address and a port, both in network order.
///
/// The port is declared first so that the derived order is that of the
/// 64-bit key.
#[derive(Debug, Clone, Copy, Default, PartialEq, Eq, PartialOrd, Ord, Hash, Structural)]
pub struct KEndpoint {
    pub port: u16,
    pub ip: u32,
}

impl KEndpoint {
    /// The 64-bit key of the endpoint: the port above the address.
    pub open spec fn spec_key(&self) -> u64 {
        (self.port as u64 * 0x1_0000_0000 + self.ip as u64) as u64
    }

    /// The endpoint that a 64-bit key stands for; bits above the port are dropped.
    pub open spec fn spec_from_key(k: u64) -> Self {
        KEndpoint { port: ((k / 0x1_0000_0000) % 0x1_0000) as u16, ip: (k % 0x1_0000_0000) as u32 }
    }

    pub fn new(ip: u32, port: u16) -> (e: Self)
        ensures
            e == (KEndpoint { port, ip }),
    {
        KEndpoint { port, ip }
    }

    pub fn ip(&self) -> (r: u32)
        ensures
            r == self.ip,
    {
        self.ip
    }

    pub fn port(&self) -> (r: u16)
        ensures
            r == self.port,
    {
        self.port
    }

    #[verifier::when_used_as_spec(spec_key)]
    pub fn key(&self) -> (k: u64)
        ensures
            k == self.spec_key(),
    {
        (self.port as u64) * 0x1_0000_0000 + self.ip as u64
    }

    #[verifier::when_used_as_spec(spec_from_key)]
    pub fn from_key(k: u64) -> (e: Self)
        ensures
            e == Self::spec_from_key(k),
    {
        KEndpoint { port: ((k / 0x1_0000_0000) % 0x1_0000) as u16, ip: (k % 0x1_0000_0000) as u32 }
    }

    /// Equality of endpoints is equality of their keys, and a key gives its
    /// endpoint back.
    pub proof fn lemma_key(a: Self, b: Self)
        ensures
            (a == b) <==> (a.spec_key() == b.spec_key()),
            Self::spec_from_key(a.spec_key()) == a,
            a.spec_key() < 0x1_0000_0000_0000,
    {
    }
}

/// One direction of a connection: who sends and who receives.
#[derive(Debug, Clone, Copy, Default, PartialEq, Eq, PartialOrd, Ord, Hash, Structural)]
pub struct KConnection {
    pub from: KEndpoint,
    pub to: KEndpoint,
}

impl KConnection {
    /// The same connection seen from the other side.
    pub open spec fn spec_reverse(&self) -> Self {
        KConnection { from: self.to, to: self.from }
    }

    /// The 16-byte key of the flow: the sender's key above the receiver's.
    pub open spec fn spec_key(&self) -> u128 {
        (self.from.spec_key() as u128 * 0x1_0000_0000_0000_0000 + self.to.spec_key() as u128) as u128
    }

    #[verifier::when_used_as_spec(spec_reverse)]
    pub fn reverse(&self) -> (r: Self)
        ensures
            r == self.spec_reverse(),
    {
        KConnection { from: self.to, to: self.from }
    }

    #[verifier::when_used_as_spec(spec_key)]
    pub fn key(&self) -> (k: u128)
        ensures
            k == self.spec_key(),
    {
        (self.from.key() as u128) * 0x1_0000_0000_0000_0000 + self.to.key() as u128
    }

    /// Reversing twice gives the flow back, and equal keys mean equal flows.
    pub proof fn lemma_key(a: Self, b: Self)
        ensures
            a.spec_reverse().spec_reverse() == a,
            (a == b) <==> (a.spec_key() == b.spec_key()),
    {
        KEndpoint::lemma_key(a.from, b.from);
        KEndpoint::lemma_key(a.to, b.to);
    }
}

/// A source and a destination port side by side in one 32-bit word, the
/// source in the upper half.
#[derive(Debug, Clone, Copy)]
pub struct BiPort(pub u32);

impl BiPort {
    pub open spec fn spec_new(src_port: u16, dst_port: u16) -> Self {
        BiPort((src_port as u32 * 0x1_0000 + dst_port as u32) as u32)
    }

    pub open spec fn spec_split_net(&self) -> (u16, u16) {
        ((self.0 / 0x1_0000) as u16, (self.0 % 0x1_0000) as u16)
    }

    #[verifier::when_used_as_spec(spec_new)]
    pub fn new(src_port: u16, dst_port: u16) -> (p: Self)
        ensures
            p == Self::spec_new(src_port, dst_port),
            p.spec_split_net() == (src_port, dst_port),
    {
        BiPort((src_port as u32) * 0x1_0000 + dst_port as u32)
    }

    /// The two ports, source first.
    #[verifier::when_used_as_spec(spec_split_net)]
    pub fn split_net(&self) -> (r: (u16, u16))
        ensures
            r == self.spec_split_net(),
            Self::spec_new(r.0, r.1) == *self,
    {
        ((self.0 / 0x1_0000) as u16, (self.0 % 0x1_0000) as u16)
    }

    /// The word itself.
    pub fn into(self) -> (r: u32)
        ensures
            r == self.0,
    {
        self.0
    }
}

/// Byte `i` of the big-endian form of a 64-bit value, byte 0 being the most
/// significant.
pub open spec fn be_byte(v: u64, i: int) -> u8 {
    if i == 0 {
        (v / 0x100_0000_0000_0000) as u8
    } else if i == 1 {
        ((v / 0x1_0000_0000_0000) % 256) as u8
    } else if i == 2 {
        ((v / 0x100_0000_0000) % 256) as u8
    } else if i == 3 {
        ((v / 0x1_0000_0000) % 256) as u8
    } else if i == 4 {
        ((v / 0x100_0000) % 256) as u8
    } else if i == 5 {
        ((v / 0x1_0000) % 256) as u8
    } else if i == 6 {
        ((v / 0x100) % 256) as u8
    } else {
        (v % 256) as u8
    }
}

/// `byteorder::BigEndian::write_u64` on a buffer of eight bytes: the buffer
/// then holds the value's bytes, most significant first.
#[verifier::external_body]
fn write_u64_be(v: u64) -> (arr: [u8; 8])
    ensures
        forall|i: int| 0 <= i < 8 ==> arr@[i] == be_byte(v, i),
{
    let mut arr = [0u8; 8];
    BigEndian::write_u64(&mut arr, v);
    arr
}

/// A 48-bit hardware address, right-justified in 64 bits: the first byte of
/// the address is the most significant of the six.
#[derive(Clone, Copy, Debug, Default, PartialEq, Eq, Structural)]
pub struct Mac(pub u64);

impl Mac {
    /// The value that six address bytes stand for.
    pub open spec fn spec_val_of(a: Seq<u8>) -> u64 {
        (a[0] * 0x100_0000_0000 + a[1] * 0x1_0000_0000 + a[2] * 0x100_0000 + a[3] * 0x1_0000 + a[4]
            * 0x100 + a[5]) as u64
    }

    /// The six address bytes of the value; what stands above 48 bits is dropped.
    pub open spec fn spec_bytes(&self) -> Seq<u8> {
        seq![
            be_byte(self.0, 2),
            be_byte(self.0, 3),
            be_byte(self.0, 4),
            be_byte(self.0, 5),
            be_byte(self.0, 6),
            be_byte(self.0, 7),
        ]
    }

    pub fn new(addr: &[u8; 6]) -> (m: Self)
        ensures
            m.0 == Self::spec_val_of(addr@),
            m.spec_bytes() == addr@,
    {
        let val = (addr[0] as u64) * 0x100_0000_0000 + (addr[1] as u64) * 0x1_0000_0000 + (
        addr[2] as u64) * 0x100_0000 + (addr[3] as u64) * 0x1_0000 + (addr[4] as u64) * 0x100
            + addr[5] as u64;
        proof {
            Self::lemma_round_trip(addr@);
        }
        Mac(val)
    }

    pub fn val(&self) -> (v: u64)
        ensures
            v == self.0,
    {
        self.0
    }

    /// The address as an array of its six bytes.
    pub open spec fn spec_octets(m: Mac) -> [u8; 6] {
        [
            be_byte(m.0, 2),
            be_byte(m.0, 3),
            be_byte(m.0, 4),
            be_byte(m.0, 5),
            be_byte(m.0, 6),
            be_byte(m.0, 7),
        ]
    }

    /// The six address bytes, first byte first.
    pub fn octets(&self) -> (a: [u8; 6])
        ensures
            a == Self::spec_octets(*self),
            a@ == self.spec_bytes(),
    {
        let arr = write_u64_be(self.0);
        let a = [arr[2], arr[3], arr[4], arr[5], arr[6], arr[7]];
        assert(a@ =~= self.spec_bytes());
        assert(a@ =~= Self::spec_octets(*self)@);
        a
    }

    /// An address survives the way into a `Mac` and back.
    pub proof fn lemma_round_trip(a: Seq<u8>)
        requires
            a.len() == 6,
        ensures
            Mac(Self::spec_val_of(a)).spec_bytes() == a,
            Self::spec_val_of(a) < 0x1_0000_0000_0000,
    {
        let v = Self::spec_val_of(a);
        let (a0, a1, a2, a3, a4, a5) = (a[0], a[1], a[2], a[3], a[4], a[5]);
        assert({
            let w = a0 as u64 * 0x100_0000_0000 + a1 as u64 * 0x1_0000_0000 + a2 as u64
                * 0x100_0000 + a3 as u64 * 0x1_0000 + a4 as u64 * 0x100 + a5 as u64;
            &&& w < 0x1_0000_0000_0000
            &&& (w / 0x100_0000_0000) % 256 == a0
            &&& (w / 0x1_0000_0000) % 256 == a1
            &&& (w / 0x100_0000) % 256 == a2
            &&& (w / 0x1_0000) % 256 == a3
            &&& (w / 0x100) % 256 == a4
            &&& w % 256 == a5
        }) by (bit_vector);
        assert(Mac(v).spec_bytes() =~= a);
    }
}

impl From<[u8; 6]> for Mac {
    fn from(value: [u8; 6]) -> (m: Self) {
        Mac::new(&value)
    }
}

impl vstd::std_specs::convert::FromSpecImpl<[u8; 6]> for Mac {
    open spec fn obeys_from_spec() -> bool {
        true
    }

    open spec fn from_spec(value: [u8; 6]) -> Self {
        Mac(Mac::spec_val_of(value@))
    }
}

impl From<&[u8; 6]> for Mac {
    fn from(value: &[u8; 6]) -> (m: Self) {
        Mac::new(value)
    }
}

impl vstd::std_specs::convert::FromSpecImpl<&[u8; 6]> for Mac {
    open spec fn obeys_from_spec() -> bool {
        true
    }

    open spec fn from_spec(value: &[u8; 6]) -> Self {
        Mac(Mac::spec_val_of(value@))
    }
}

impl From<Mac> for [u8; 6] {
    fn from(value: Mac) -> (a: Self) {
        value.octets()
    }
}

impl vstd::std_specs::convert::FromSpecImpl<Mac> for [u8; 6] {
    open spec fn obeys_from_spec() -> bool {
        true
    }

    open spec fn from_spec(value: Mac) -> Self {
        Mac::spec_octets(value)
    }
}

/// An endpoint as the control plane hands it to the shared maps.
#[derive(Clone, Copy, Debug, Eq, Hash, PartialEq, Structural)]
pub struct UEndpoint(pub KEndpoint);

impl UEndpoint {
    pub fn new(e: KEndpoint) -> (u: Self)
        ensures
            u.0 == e,
    {
        UEndpoint(e)
    }
}

/// An IPv4 address and a port as the control plane sees them, both in host
/// order. The address `a.b.c.d` is the number with `a` in its highest byte.
#[derive(Clone, Copy, Debug, Eq, Hash, PartialEq, PartialOrd, Ord, Structural)]
pub struct Endpoint {
    pub ip: u32,
    pub port: u16,
}

impl Endpoint {
    /// Whether the endpoint's address is one of the servers' addresses.
    pub fn is_server_side(&self, server_ips: &HashSet<u32>) -> (r: bool)
        ensures
            r == server_ips@.contains(self.ip),
    {
        server_ips.contains(&self.ip)
    }

    /// The endpoint in network order.
    pub open spec fn spec_to_k_endpoint(&self) -> KEndpoint {
        KEndpoint { ip: spec_swap32(self.ip), port: spec_swap16(self.port) }
    }

    /// The endpoint that stands in network order in `endpoint`.
    pub open spec fn spec_new(endpoint: KEndpoint) -> Endpoint {
        Endpoint { ip: spec_swap32(endpoint.ip), port: spec_swap16(endpoint.port) }
    }

    /// The 48-bit key of the endpoint: the address above the port.
    pub open spec fn spec_key(&self) -> u64 {
        (self.ip as u64 * 0x1_0000 + self.port as u64) as u64
    }

    #[verifier::when_used_as_spec(spec_to_k_endpoint)]
    pub fn to_k_endpoint(&self) -> (k: KEndpoint)
        ensures
            k == self.spec_to_k_endpoint(),
            Self::spec_new(k) == *self,
    {
        proof {
            lemma_swap_involutive(self.port, self.ip);
        }
        let ip = swap32(self.ip);
        let port = swap16(self.port);
        KEndpoint::new(ip, port)
    }

    pub fn to_u_endpoint(&self) -> (u: UEndpoint)
        ensures
            u.0 == self.spec_to_k_endpoint(),
    {
        UEndpoint(self.to_k_endpoint())
    }

    #[verifier::when_used_as_spec(spec_new)]
    pub fn new(endpoint: KEndpoint) -> (e: Self)
        ensures
            e == Self::spec_new(endpoint),
            e.spec_to_k_endpoint() == endpoint,
    {
        proof {
            lemma_swap_involutive(endpoint.port, endpoint.ip);
        }
        Endpoint { ip: swap32(endpoint.ip()), port: swap16(endpoint.port()) }
    }

    #[verifier::when_used_as_spec(spec_key)]
    pub fn key(&self) -> (k: u64)
        ensures
            k == self.spec_key(),
    {
        (self.ip as u64) * 0x1_0000 + self.port as u64
    }

    /// Whether `self` comes before `other`: by address, then by port.
    pub open spec fn spec_lt(&self, other: &Endpoint) -> bool {
        self.ip < other.ip || (self.ip == other.ip && self.port < other.port)
    }

    /// Equal keys mean equal endpoints, and the keys are ordered as the
    /// endpoints are.
    pub proof fn lemma_key(a: Self, b: Self)
        ensures
            (a == b) <==> (a.spec_key() == b.spec_key()),
            a.spec_lt(&b) <==> a.spec_key() < b.spec_key(),
            a.spec_key() < 0x1_0000_0000_0000,
    {
    }
}

/// The two endpoints of the flow that a notification is about.
pub fn endpoint_pair_from_notification(notification: &Notification) -> (r: (Endpoint, Endpoint))
    ensures
        r.0 == Endpoint::spec_new(notification.connection.from),
        r.1 == Endpoint::spec_new(notification.connection.to),
{
    (Endpoint::new(notification.connection.from), Endpoint::new(notification.connection.to))
}

/// A flow as the control plane hands it to the shared maps.
#[derive(Clone, Copy, Debug, PartialEq, Eq, Structural)]
pub struct UConnection(pub KConnection);

impl UConnection {
    pub open spec fn spec_new(from: Endpoint, to: Endpoint) -> UConnection {
        UConnection(KConnection { from: from.spec_to_k_endpoint(), to: to.spec_to_k_endpoint() })
    }

    #[verifier::when_used_as_spec(spec_new)]
    pub fn new(from: Endpoint, to: Endpoint) -> (u: Self)
        ensures
            u == Self::spec_new(from, to),
    {
        UConnection(KConnection { from: from.to_k_endpoint(), to: to.to_k_endpoint() })
    }
}

/// A connection between two endpoints, whichever of them is named first.
#[derive(Clone, Copy, Debug, Eq)]
pub struct Connection {
    pub from: Endpoint,
    pub to: Endpoint,
}

impl PartialEq for Connection {
    fn eq(&self, other: &Self) -> (r: bool) {
        (self.from == other.from && self.to == other.to) || (self.to == other.from && self.from
            == other.to)
    }
}

impl vstd::std_specs::cmp::PartialEqSpecImpl for Connection {
    open spec fn obeys_eq_spec() -> bool {
        true
    }

    open spec fn eq_spec(&self, other: &Self) -> bool {
        self.same(other)
    }
}

impl Connection {
    /// Whether two connections join the same two endpoints.
    pub open spec fn same(&self, other: &Connection) -> bool {
        (self.from == other.from && self.to == other.to) || (self.to == other.from && self.from
            == other.to)
    }

    /// The key that a connection is filed under: the keys of its two
    /// endpoints, the smaller one above the other.
    pub open spec fn spec_key(&self) -> u128 {
        if self.from.spec_key() <= self.to.spec_key() {
            (self.from.spec_key() as u128 * 0x1_0000_0000_0000_0000 + self.to.spec_key() as u128) as u128
        } else {
            (self.to.spec_key() as u128 * 0x1_0000_0000_0000_0000 + self.from.spec_key() as u128) as u128
        }
    }

    #[verifier::when_used_as_spec(spec_key)]
    pub fn key(&self) -> (k: u128)
        ensures
            k == self.spec_key(),
    {
        let a = self.from.key();
        let b = self.to.key();
        if a <= b {
            (a as u128) * 0x1_0000_0000_0000_0000 + b as u128
        } else {
            (b as u128) * 0x1_0000_0000_0000_0000 + a as u128
        }
    }

    /// Two connections have the same key exactly when they join the same
    /// two endpoints.
    pub proof fn lemma_key(a: Self, b: Self)
        ensures
            a.same(&b) <==> a.spec_key() == b.spec_key(),
    {
        Endpoint::lemma_key(a.from, b.from);
        Endpoint::lemma_key(a.from, b.to);
        Endpoint::lemma_key(a.to, b.from);
        Endpoint::lemma_key(a.to, b.to);
        Endpoint::lemma_key(a.from, a.to);
        Endpoint::lemma_key(b.from, b.to);
    }

    /// The flow from the first endpoint to the second, in network order.
    pub fn to_k_connection(self) -> (k: KConnection)
        ensures
            k == (KConnection {
                from: self.from.spec_to_k_endpoint(),
                to: self.to.spec_to_k_endpoint(),
            }),
    {
        KConnection { from: self.from.to_k_endpoint(), to: self.to.to_k_endpoint() }
    }
}

/// Whether a packet leaves a peer or reaches it.
#[derive(Clone, Copy, Debug, Eq, Hash, PartialEq, Structural)]
pub enum Direction {
    From,
    To,
}

} // verus!
