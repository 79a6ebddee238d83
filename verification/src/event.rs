//! What the datapath tells the control plane about a packet: its flags and
//! sequence numbers, and their 128-bit form.

use crate::frame::TcpHdr;
use crate::order::spec_swap32;
use crate::order::swap32;
use vstd::prelude::*;

verus! {

/// A set of TCP flags: SYN is bit 0, FIN bit 1, ACK bit 2.
#[derive(Debug, Clone, Copy, Default, PartialEq, Eq, PartialOrd, Ord, Hash, Structural)]
pub struct PacketFlag(pub u32);

impl PacketFlag {
    /// The bit of SYN.
    pub const SYN: u32 = 1;

    /// The bit of FIN.
    pub const FIN: u32 = 2;

    /// The bit of ACK.
    pub const ACK: u32 = 4;

    pub open spec fn has_syn(&self) -> bool {
        self.0 % 2 == 1
    }

    pub open spec fn has_fin(&self) -> bool {
        (self.0 / 2) % 2 == 1
    }

    pub open spec fn has_ack(&self) -> bool {
        (self.0 / 4) % 2 == 1
    }

    /// The set made of the three flags as given.
    pub open spec fn of(syn: bool, fin: bool, ack: bool) -> PacketFlag {
        PacketFlag(
            ((if syn {
                1int
            } else {
                0
            }) + (if fin {
                2int
            } else {
                0
            }) + (if ack {
                4int
            } else {
                0
            })) as u32,
        )
    }

    pub fn empty() -> (f: Self)
        ensures
            f == Self::of(false, false, false),
    {
        PacketFlag(0)
    }

    pub fn bits(&self) -> (b: u32)
        ensures
            b == self.0,
    {
        self.0
    }

    /// The set whose bits are the three lowest of `bits`.
    pub fn from_bits_truncate(bits: u32) -> (f: Self)
        ensures
            f.0 == bits % 8,
            f == Self::of(bits % 2 == 1, (bits / 2) % 2 == 1, (bits / 4) % 2 == 1),
    {
        PacketFlag(bits % 8)
    }

    /// The set with the flags of both.
    pub fn union(self, other: Self) -> (f: Self)
        ensures
            f.0 == self.0 | other.0,
            f.0 % 8 == Self::of(
                self.has_syn() || other.has_syn(),
                self.has_fin() || other.has_fin(),
                self.has_ack() || other.has_ack(),
            ).0,
    {
        let a = self.0;
        let b = other.0;
        assert(((a | b) % 2 == 1 <==> (a % 2 == 1 || b % 2 == 1)) && (((a | b) / 2) % 2 == 1 <==> ((
        a / 2) % 2 == 1 || (b / 2) % 2 == 1)) && (((a | b) / 4) % 2 == 1 <==> ((a / 4) % 2 == 1 || (b
            / 4) % 2 == 1))) by (bit_vector);
        PacketFlag(self.0 | other.0)
    }

    /// Adds the flags whose bits are set in `mask` to the set.
    pub fn insert(&mut self, mask: u32)
        ensures
            final(self).0 == old(self).0 | mask,
            final(self).0 % 8 == Self::of(
                old(self).has_syn() || PacketFlag(mask).has_syn(),
                old(self).has_fin() || PacketFlag(mask).has_fin(),
                old(self).has_ack() || PacketFlag(mask).has_ack(),
            ).0,
    {
        let u = self.union(PacketFlag(mask));
        self.0 = u.0;
    }

    /// Whether every flag whose bit is set in `mask` is in the set.
    pub fn contains(&self, mask: u32) -> (r: bool)
        ensures
            r == (self.0 & mask == mask),
            mask == Self::SYN ==> r == self.has_syn(),
            mask == Self::FIN ==> r == self.has_fin(),
            mask == Self::ACK ==> r == self.has_ack(),
    {
        let a = self.0;
        assert((a & 1 == 1 <==> a % 2 == 1) && (a & 2 == 2 <==> (a / 2) % 2 == 1) && (a & 4 == 4
            <==> (a / 4) % 2 == 1)) by (bit_vector);
        self.0 & mask == mask
    }
}

/// The flags and sequence numbers of one observed TCP segment, numbers in
/// host order.
#[derive(Debug, Clone, Copy, Default, PartialEq, Eq, PartialOrd, Ord, Hash, Structural)]
pub struct Packet {
    pub flag: PacketFlag,
    pub ack_seq: u32,
    pub seq: u32,
}

impl Packet {
    /// The packet that a TCP header stands for.
    pub open spec fn spec_new(tcphdr: TcpHdr) -> Packet {
        Packet {
            flag: PacketFlag::of(tcphdr.syn() != 0, tcphdr.fin() != 0, tcphdr.ack() != 0),
            ack_seq: spec_swap32(tcphdr.ack_seq),
            seq: spec_swap32(tcphdr.seq),
        }
    }

    pub fn new(tcphdr: &TcpHdr) -> (p: Self)
        ensures
            p == Self::spec_new(*tcphdr),
    {
        let mut bits: u32 = 0;
        if tcphdr.syn() != 0 {
            bits = bits + PacketFlag::SYN;
        }
        if tcphdr.fin() != 0 {
            bits = bits + PacketFlag::FIN;
        }
        if tcphdr.ack() != 0 {
            bits = bits + PacketFlag::ACK;
        }
        let flag = PacketFlag::from_bits_truncate(bits);
        Packet { flag, ack_seq: swap32(tcphdr.ack_seq), seq: swap32(tcphdr.seq) }
    }

    pub open spec fn spec_is_syn(&self) -> bool {
        self.flag.has_syn()
    }

    pub open spec fn spec_is_fin(&self) -> bool {
        self.flag.has_fin()
    }

    pub open spec fn spec_is_ack(&self) -> bool {
        self.flag.has_ack()
    }

    #[verifier::when_used_as_spec(spec_is_syn)]
    pub fn is_syn(&self) -> (r: bool)
        ensures
            r == self.spec_is_syn(),
    {
        return self.flag.contains(PacketFlag::SYN);
    }

    #[verifier::when_used_as_spec(spec_is_fin)]
    pub fn is_fin(&self) -> (r: bool)
        ensures
            r == self.spec_is_fin(),
    {
        return self.flag.contains(PacketFlag::FIN);
    }

    #[verifier::when_used_as_spec(spec_is_ack)]
    pub fn is_ack(&self) -> (r: bool)
        ensures
            r == self.spec_is_ack(),
    {
        return self.flag.contains(PacketFlag::ACK);
    }

    /// The 96 bits of the packet: the flags above the acknowledgement number
    /// above the sequence number.
    pub open spec fn spec_to_bits(&self) -> u128 {
        (self.flag.0 as u128 * 0x1_0000_0000_0000_0000 + self.ack_seq as u128 * 0x1_0000_0000
            + self.seq as u128) as u128
    }

    /// The packet in the low 96 bits of `value`; unknown flag bits are dropped.
    pub open spec fn spec_from_bits(value: u128) -> Packet {
        Packet {
            flag: PacketFlag((((value / 0x1_0000_0000_0000_0000) % 0x1_0000_0000) % 8) as u32),
            ack_seq: ((value / 0x1_0000_0000) % 0x1_0000_0000) as u32,
            seq: (value % 0x1_0000_0000) as u32,
        }
    }

    #[verifier::when_used_as_spec(spec_to_bits)]
    pub fn to_bits(&self) -> (v: u128)
        ensures
            v == self.spec_to_bits(),
            v < 0x1_0000_0000_0000_0000_0000_0000,
    {
        (self.flag.0 as u128) * 0x1_0000_0000_0000_0000 + (self.ack_seq as u128) * 0x1_0000_0000
            + self.seq as u128
    }

    #[verifier::when_used_as_spec(spec_from_bits)]
    pub fn from_bits(value: u128) -> (p: Self)
        ensures
            p == Self::spec_from_bits(value),
    {
        let ack_seq = ((value / 0x1_0000_0000) % 0x1_0000_0000) as u32;
        let seq = (value % 0x1_0000_0000) as u32;
        let flag = PacketFlag::from_bits_truncate(
            ((value / 0x1_0000_0000_0000_0000) % 0x1_0000_0000) as u32,
        );
        Packet { flag, ack_seq, seq }
    }

    /// A packet whose flags are among SYN, FIN and ACK survives the way into
    /// 128 bits and back.
    pub proof fn lemma_bits_round_trip(p: Packet)
        requires
            p.flag.0 < 8,
        ensures
            Self::spec_from_bits(p.spec_to_bits()) == p,
    {
        let (f, a, s) = (p.flag.0, p.ack_seq, p.seq);
        assert({
            let v = f as u128 * 0x1_0000_0000_0000_0000 + a as u128 * 0x1_0000_0000 + s as u128;
            &&& v % 0x1_0000_0000 == s
            &&& (v / 0x1_0000_0000) % 0x1_0000_0000 == a
            &&& (v / 0x1_0000_0000_0000_0000) % 0x1_0000_0000 == f
        }) by (bit_vector);
    }
}

impl From<&Packet> for u128 {
    fn from(value: &Packet) -> (v: Self) {
        value.to_bits()
    }
}

impl vstd::std_specs::convert::FromSpecImpl<&Packet> for u128 {
    open spec fn obeys_from_spec() -> bool {
        true
    }

    open spec fn from_spec(value: &Packet) -> Self {
        value.spec_to_bits()
    }
}

impl From<u128> for Packet {
    fn from(value: u128) -> (p: Self) {
        Packet::from_bits(value)
    }
}

impl vstd::std_specs::convert::FromSpecImpl<u128> for Packet {
    open spec fn obeys_from_spec() -> bool {
        true
    }

    open spec fn from_spec(value: u128) -> Self {
        Packet::spec_from_bits(value)
    }
}

/// What was observed: a TCP segment with its flags and numbers, or a UDP
/// datagram.
#[derive(Debug, Clone, Copy, PartialEq, Eq, PartialOrd, Ord, Hash, Structural)]
pub enum Event {
    TcpPacket(Packet),
    UdpPacket,
}

impl Event {
    pub open spec fn spec_type_id(&self) -> u8 {
        match self {
            Event::TcpPacket(_) => 1,
            Event::UdpPacket => 2,
        }
    }

    /// The tag of the variant: 1 for TCP, 2 for UDP.
    #[verifier::when_used_as_spec(spec_type_id)]
    pub fn type_id(&self) -> (id: u8)
        ensures
            id == self.spec_type_id(),
    {
        match self {
            Event::TcpPacket(_) => 1,
            Event::UdpPacket => 2,
        }
    }

    pub fn new_packet_event(tcphdr: &TcpHdr) -> (e: Self)
        ensures
            e == Event::TcpPacket(Packet::spec_new(*tcphdr)),
    {
        let packet = Packet::new(tcphdr);
        Event::TcpPacket(packet)
    }

    /// The 128-bit form: the tag in the high 8 bits, the payload below.
    pub open spec fn spec_to_bits(&self) -> u128 {
        match self {
            Event::TcpPacket(p) => (0x0100_0000_0000_0000_0000_0000_0000_0000 + p.spec_to_bits()) as u128,
            Event::UdpPacket => 0x0200_0000_0000_0000_0000_0000_0000_0000,
        }
    }

    /// The event that 128 bits stand for, if the tag is known.
    pub open spec fn spec_from_bits(v: u128) -> Option<Event> {
        let tag = v / 0x0100_0000_0000_0000_0000_0000_0000_0000;
        if tag == 1 {
            Some(Event::TcpPacket(Packet::spec_from_bits(v)))
        } else if tag == 2 {
            Some(Event::UdpPacket)
        } else {
            None
        }
    }

    #[verifier::when_used_as_spec(spec_to_bits)]
    pub fn to_bits(&self) -> (v: u128)
        ensures
            v == self.spec_to_bits(),
    {
        match self {
            Event::TcpPacket(p) => 0x0100_0000_0000_0000_0000_0000_0000_0000 + p.to_bits(),
            Event::UdpPacket => 0x0200_0000_0000_0000_0000_0000_0000_0000,
        }
    }

    /// Decodes the 128-bit form; an unknown tag gives `None`.
    #[verifier::when_used_as_spec(spec_from_bits)]
    pub fn from_bits(v: u128) -> (e: Option<Self>)
        ensures
            e == Self::spec_from_bits(v),
    {
        let tag = v / 0x0100_0000_0000_0000_0000_0000_0000_0000;
        if tag == 1 {
            Some(Event::TcpPacket(Packet::from_bits(v)))
        } else if tag == 2 {
            Some(Event::UdpPacket)
        } else {
            None
        }
    }

    /// An event whose flags are among SYN, FIN and ACK survives the way into
    /// 128 bits and back.
    pub proof fn lemma_bits_round_trip(e: Event)
        requires
            e matches Event::TcpPacket(p) ==> p.flag.0 < 8,
        ensures
            Self::spec_from_bits(e.spec_to_bits()) == Some(e),
    {
        match e {
            Event::TcpPacket(p) => {
                Packet::lemma_bits_round_trip(p);
                let (f, a, s) = (p.flag.0, p.ack_seq, p.seq);
                assert(f < 8 ==> {
                    let v = f as u128 * 0x1_0000_0000_0000_0000 + a as u128 * 0x1_0000_0000
                        + s as u128;
                    let w = (0x0100_0000_0000_0000_0000_0000_0000_0000 + v) as u128;
                    &&& w / 0x0100_0000_0000_0000_0000_0000_0000_0000 == 1
                    &&& w % 0x1_0000_0000 == s
                    &&& (w / 0x1_0000_0000) % 0x1_0000_0000 == a
                    &&& (w / 0x1_0000_0000_0000_0000) % 0x1_0000_0000 == f
                }) by (bit_vector);
            },
            Event::UdpPacket => {},
        }
    }
}

} // verus!
