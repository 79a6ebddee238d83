//! The record that the datapath publishes on the packet-event ring.

use crate::endpoint::KConnection;
use crate::endpoint::KEndpoint;
use crate::event::Event;
use crate::event::Packet;
use crate::event::PacketFlag;
use crate::frame::spec_load16;
use crate::frame::spec_load32;
use crate::frame::spec_store16;
use crate::frame::spec_store32;
use crate::frame::store16;
use crate::frame::store32;
use crate::frame::lemma_store16;
use crate::frame::lemma_store32;
use vstd::prelude::*;

verus! {

/// One packet event: the virtual service the packet came in for, the local
/// endpoint it left from, the flow between client and backend, and what was
/// seen.
#[derive(Debug, Clone, Copy, PartialEq, Eq, PartialOrd, Ord, Hash, Structural)]
pub struct Notification {
    pub local_in_endpoint: KEndpoint,
    pub lcoal_out_endpoint: KEndpoint,
    pub connection: KConnection,
    pub event: Event,
}

/// Size of a ring record.
pub const NOTIFICATION_SIZE: usize = 48;

/// The record with the 8 bytes of an endpoint's key written at `off`, least
/// significant byte first: the address, the port, two zero bytes.
pub open spec fn spec_put_endpoint(s: Seq<u8>, off: int, e: KEndpoint) -> Seq<u8> {
    spec_store16(spec_store16(spec_store32(s, off, e.ip), off + 4, e.port), off + 6, 0)
}

/// The endpoint whose key lies at `off`.
pub open spec fn spec_get_endpoint(s: Seq<u8>, off: int) -> KEndpoint {
    KEndpoint { ip: spec_load32(s, off), port: spec_load16(s, off + 4) }
}

/// The record with the 16 bytes of an event written at `off`, least
/// significant byte first: sequence number, acknowledgement number, flags,
/// three zero bytes, and the tag in the last byte.
pub open spec fn spec_put_event(s: Seq<u8>, off: int, e: Event) -> Seq<u8> {
    let p = match e {
        Event::TcpPacket(p) => p,
        Event::UdpPacket => Packet { flag: PacketFlag(0), ack_seq: 0, seq: 0 },
    };
    spec_store32(
        spec_store32(spec_store32(s, off, p.seq), off + 4, p.ack_seq),
        off + 8,
        p.flag.0,
    ).update(off + 12, 0u8).update(off + 13, 0u8).update(off + 14, 0u8).update(
        off + 15,
        e.spec_type_id(),
    )
}

/// The event that lies at `off`, if its tag is known. Flag bits other than
/// SYN, FIN and ACK are dropped.
pub open spec fn spec_get_event(s: Seq<u8>, off: int) -> Option<Event> {
    if s[off + 15] == 1 {
        Some(
            Event::TcpPacket(
                Packet {
                    flag: PacketFlag((spec_load32(s, off + 8) % 8) as u32),
                    ack_seq: spec_load32(s, off + 4),
                    seq: spec_load32(s, off),
                },
            ),
        )
    } else if s[off + 15] == 2 {
        Some(Event::UdpPacket)
    } else {
        None
    }
}

fn put_endpoint(buf: &mut Vec<u8>, off: usize, e: KEndpoint)
    requires
        off + 8 <= old(buf).len(),
    ensures
        final(buf)@ == spec_put_endpoint(old(buf)@, off as int, e),
        final(buf).len() == old(buf).len(),
{
    store32(buf, off, e.ip);
    store16(buf, off + 4, e.port);
    store16(buf, off + 6, 0);
}

fn get_endpoint(bs: &[u8], off: usize) -> (e: KEndpoint)
    requires
        off + 8 <= bs.len(),
    ensures
        e == spec_get_endpoint(bs@, off as int),
{
    KEndpoint { ip: slice_load32(bs, off), port: bs[off + 4] as u16 + 256 * (bs[off + 5] as u16) }
}

fn slice_load32(bs: &[u8], off: usize) -> (v: u32)
    requires
        off + 4 <= bs.len(),
    ensures
        v == spec_load32(bs@, off as int),
{
    bs[off] as u32 + 256 * (bs[off + 1] as u32) + 65536 * (bs[off + 2] as u32) + 16777216 * (bs[off
        + 3] as u32)
}

impl Notification {
    /// The 48 bytes of the record: the two local endpoints, the flow's two
    /// endpoints, and the event.
    pub open spec fn spec_to_bytes(&self) -> Seq<u8> {
        spec_put_event(
            spec_put_endpoint(
                spec_put_endpoint(
                    spec_put_endpoint(
                        spec_put_endpoint(Seq::new(48, |i: int| 0u8), 0, self.local_in_endpoint),
                        8,
                        self.lcoal_out_endpoint,
                    ),
                    16,
                    self.connection.from,
                ),
                24,
                self.connection.to,
            ),
            32,
            self.event,
        )
    }

    /// The notification that a record holds: `None` when the record is short
    /// or the event's tag is unknown.
    pub open spec fn spec_from_bytes(bs: Seq<u8>) -> Option<Notification> {
        if bs.len() < NOTIFICATION_SIZE {
            None
        } else {
            match spec_get_event(bs, 32) {
                None => None,
                Some(event) => Some(
                    Notification {
                        local_in_endpoint: spec_get_endpoint(bs, 0),
                        lcoal_out_endpoint: spec_get_endpoint(bs, 8),
                        connection: KConnection {
                            from: spec_get_endpoint(bs, 16),
                            to: spec_get_endpoint(bs, 24),
                        },
                        event,
                    },
                ),
            }
        }
    }

    pub fn to_bytes(&self) -> (bs: Vec<u8>)
        ensures
            bs@ == self.spec_to_bytes(),
            bs.len() == NOTIFICATION_SIZE,
    {
        let mut bs: Vec<u8> = Vec::new();
        while bs.len() < NOTIFICATION_SIZE
            invariant
                bs.len() <= NOTIFICATION_SIZE,
                forall|i: int| 0 <= i < bs.len() ==> bs@[i] == 0u8,
            decreases NOTIFICATION_SIZE - bs.len(),
        {
            bs.push(0u8);
        }
        assert(bs@ =~= Seq::new(48, |i: int| 0u8));
        put_endpoint(&mut bs, 0, self.local_in_endpoint);
        put_endpoint(&mut bs, 8, self.lcoal_out_endpoint);
        put_endpoint(&mut bs, 16, self.connection.from);
        put_endpoint(&mut bs, 24, self.connection.to);
        let p = match self.event {
            Event::TcpPacket(p) => p,
            Event::UdpPacket => Packet { flag: PacketFlag(0), ack_seq: 0, seq: 0 },
        };
        store32(&mut bs, 32, p.seq);
        store32(&mut bs, 36, p.ack_seq);
        store32(&mut bs, 40, p.flag.0);
        bs.set(44, 0u8);
        bs.set(45, 0u8);
        bs.set(46, 0u8);
        bs.set(47, self.event.type_id());
        bs
    }

    pub fn from_bytes(bs: &[u8]) -> (n: Option<Self>)
        ensures
            n == Self::spec_from_bytes(bs@),
    {
        if bs.len() < NOTIFICATION_SIZE {
            return None;
        }
        let event = if bs[47] == 1 {
            Event::TcpPacket(
                Packet {
                    flag: PacketFlag(slice_load32(bs, 40) % 8),
                    ack_seq: slice_load32(bs, 36),
                    seq: slice_load32(bs, 32),
                },
            )
        } else if bs[47] == 2 {
            Event::UdpPacket
        } else {
            return None;
        };
        Some(
            Notification {
                local_in_endpoint: get_endpoint(bs, 0),
                lcoal_out_endpoint: get_endpoint(bs, 8),
                connection: KConnection { from: get_endpoint(bs, 16), to: get_endpoint(bs, 24) },
                event,
            },
        )
    }

    pub open spec fn spec_is_tcp(&self) -> bool {
        self.event is TcpPacket
    }

    #[verifier::when_used_as_spec(spec_is_tcp)]
    pub fn is_tcp(&self) -> (r: bool)
        ensures
            r == self.spec_is_tcp(),
    {
        match self.event {
            Event::TcpPacket(_) => true,
            Event::UdpPacket => false,
        }
    }

    /// Whether the record form keeps everything: a TCP event holds no flag
    /// bits other than SYN, FIN and ACK, and a UDP event's payload is empty.
    pub open spec fn encodable(&self) -> bool {
        self.event matches Event::TcpPacket(p) ==> p.flag.0 < 8
    }

    /// A notification read back from its record is the notification.
    pub proof fn lemma_round_trip(n: Notification)
        requires
            n.encodable(),
        ensures
            n.spec_to_bytes().len() == NOTIFICATION_SIZE,
            Self::spec_from_bytes(n.spec_to_bytes()) == Some(n),
    {
        let s0 = Seq::new(48, |i: int| 0u8);
        let s1 = spec_put_endpoint(s0, 0, n.local_in_endpoint);
        let s2 = spec_put_endpoint(s1, 8, n.lcoal_out_endpoint);
        let s3 = spec_put_endpoint(s2, 16, n.connection.from);
        let s4 = spec_put_endpoint(s3, 24, n.connection.to);
        let s5 = spec_put_event(s4, 32, n.event);
        assert(s5 == n.spec_to_bytes());
        assert(s5.len() == 48);
        lemma_endpoint_at(s0, 0, n.local_in_endpoint);
        lemma_endpoint_at(s1, 8, n.lcoal_out_endpoint);
        lemma_endpoint_at(s2, 16, n.connection.from);
        lemma_endpoint_at(s3, 24, n.connection.to);
        assert(spec_get_endpoint(s5, 0) == n.local_in_endpoint);
        assert(spec_get_endpoint(s5, 8) == n.lcoal_out_endpoint);
        assert(spec_get_endpoint(s5, 16) == n.connection.from);
        assert(spec_get_endpoint(s5, 24) == n.connection.to);
        let p = match n.event {
            Event::TcpPacket(p) => p,
            Event::UdpPacket => Packet { flag: PacketFlag(0), ack_seq: 0, seq: 0 },
        };
        let e1 = spec_store32(s4, 32, p.seq);
        let e2 = spec_store32(e1, 36, p.ack_seq);
        let e3 = spec_store32(e2, 40, p.flag.0);
        lemma_store32(s4, 32, p.seq);
        lemma_store32(e1, 36, p.ack_seq);
        lemma_store32(e2, 40, p.flag.0);
        assert(spec_load32(s5, 32) == p.seq);
        assert(spec_load32(s5, 36) == p.ack_seq);
        assert(spec_load32(s5, 40) == p.flag.0);
    }
}

/// An endpoint written at `off` is read back from there, and nothing else
/// in the record changes.
proof fn lemma_endpoint_at(s: Seq<u8>, off: int, e: KEndpoint)
    requires
        0 <= off,
        off + 8 <= s.len(),
    ensures
        spec_put_endpoint(s, off, e).len() == s.len(),
        spec_get_endpoint(spec_put_endpoint(s, off, e), off) == e,
        forall|i: int|
            0 <= i < s.len() && !(off <= i < off + 8) ==> #[trigger] spec_put_endpoint(s, off, e)[i]
                == s[i],
{
    let a = spec_store32(s, off, e.ip);
    let b = spec_store16(a, off + 4, e.port);
    lemma_store32(s, off, e.ip);
    lemma_store16(a, off + 4, e.port);
    lemma_store16(b, off + 6, 0);
}

} // verus!
