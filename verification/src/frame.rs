//! The layout of an Ethernet / IPv4 / TCP or UDP frame, read and written
//! byte by byte.
//!
//! Multi-byte fields are loaded in network order (see [`crate::order`]), so a
//! loaded address or port can be stored in an endpoint as it is.

use crate::checksum::verifies;
use crate::checksum::word_sum;
use crate::endpoint::BiPort;
use crate::endpoint::KConnection;
use crate::endpoint::KEndpoint;
use crate::order::net16;
use crate::order::net32;
use network_types::eth::EthHdr;
use network_types::ip::Ipv4Hdr;
use network_types::tcp::TcpHdr as WireTcpHdr;
use network_types::udp::UdpHdr as WireUdpHdr;
use vstd::prelude::*;

verus! {

/// Length of the Ethernet header.
pub const ETH_HDR_LEN: usize = 14;

/// Length of the IPv4 header; options are not looked at.
pub const IPV4_HDR_LEN: usize = 20;

/// Length of the TCP header without options.
pub const TCP_HDR_LEN: usize = 20;

/// Length of the UDP header.
pub const UDP_HDR_LEN: usize = 8;

/// Offset of the EtherType field.
pub const ETHER_TYPE_OFFSET: usize = 12;

/// Offset of the IPv4 total length.
pub const IP_TOT_LEN_OFFSET: usize = 16;

/// Offset of the IPv4 protocol number.
pub const IP_PROTO_OFFSET: usize = 23;

/// Offset of the IPv4 header checksum.
pub const IP_CHECK_OFFSET: usize = 24;

/// Offset of the IPv4 source address.
pub const IP_SRC_OFFSET: usize = 26;

/// Offset of the IPv4 destination address.
pub const IP_DST_OFFSET: usize = 30;

/// Offset of the L4 header, and of the source port in it.
pub const L4_OFFSET: usize = 34;

/// Offset of the destination port.
pub const L4_DEST_OFFSET: usize = 36;

/// Offset of the TCP sequence number.
pub const TCP_SEQ_OFFSET: usize = 38;

/// Offset of the TCP acknowledgement number.
pub const TCP_ACK_SEQ_OFFSET: usize = 42;

/// Offset of the byte that holds the TCP flags FIN, SYN, RST, PSH, ACK.
pub const TCP_FLAGS_OFFSET: usize = 47;

/// Offset of the TCP checksum.
pub const TCP_CHECK_OFFSET: usize = 50;

/// Offset of the UDP checksum.
pub const UDP_CHECK_OFFSET: usize = 40;

/// IPv4 protocol number of TCP.
pub const IPPROTO_TCP: u8 = 6;

/// IPv4 protocol number of UDP.
pub const IPPROTO_UDP: u8 = 17;

/// `network_types::eth::EthHdr::LEN`, the size of the packed Ethernet
/// header: two 6-byte addresses and a 2-byte type make 14 bytes.
#[verifier::external_body]
fn eth_hdr_len() -> (n: usize)
    ensures
        n == ETH_HDR_LEN,
{
    EthHdr::LEN
}

/// `network_types::ip::Ipv4Hdr::LEN`, the size of the IPv4 header without
/// options: 20 bytes.
#[verifier::external_body]
fn ipv4_hdr_len() -> (n: usize)
    ensures
        n == IPV4_HDR_LEN,
{
    Ipv4Hdr::LEN
}

/// `network_types::tcp::TcpHdr::LEN`, the size of the TCP header without
/// options: 20 bytes.
#[verifier::external_body]
fn tcp_hdr_len() -> (n: usize)
    ensures
        n == TCP_HDR_LEN,
{
    WireTcpHdr::LEN
}

/// `network_types::udp::UdpHdr::LEN`, the size of the UDP header: four
/// 2-byte fields make 8 bytes.
#[verifier::external_body]
fn udp_hdr_len() -> (n: usize)
    ensures
        n == UDP_HDR_LEN,
{
    WireUdpHdr::LEN
}

/// The 16-bit field at `off`, in network order.
pub open spec fn spec_load16(s: Seq<u8>, off: int) -> u16 {
    net16(s[off], s[off + 1])
}

/// The 32-bit field at `off`, in network order.
pub open spec fn spec_load32(s: Seq<u8>, off: int) -> u32 {
    net32(s[off], s[off + 1], s[off + 2], s[off + 3])
}

/// The frame with the 16-bit field at `off` replaced by `v`.
pub open spec fn spec_store16(s: Seq<u8>, off: int, v: u16) -> Seq<u8> {
    s.update(off, (v % 256) as u8).update(off + 1, (v / 256) as u8)
}

/// The frame with the 32-bit field at `off` replaced by `v`.
pub open spec fn spec_store32(s: Seq<u8>, off: int, v: u32) -> Seq<u8> {
    s.update(off, (v % 256) as u8).update(off + 1, ((v / 256) % 256) as u8).update(
        off + 2,
        ((v / 65536) % 256) as u8,
    ).update(off + 3, (v / 16777216) as u8)
}

/// The frame with the six bytes at `off` replaced by the address `a`.
pub open spec fn spec_store_mac(s: Seq<u8>, off: int, a: Seq<u8>) -> Seq<u8> {
    s.update(off, a[0]).update(off + 1, a[1]).update(off + 2, a[2]).update(off + 3, a[3]).update(
        off + 4,
        a[4],
    ).update(off + 5, a[5])
}

pub fn load16(frame: &Vec<u8>, off: usize) -> (v: u16)
    requires
        off + 2 <= frame.len(),
    ensures
        v == spec_load16(frame@, off as int),
{
    frame[off] as u16 + 256 * (frame[off + 1] as u16)
}

pub fn load32(frame: &Vec<u8>, off: usize) -> (v: u32)
    requires
        off + 4 <= frame.len(),
    ensures
        v == spec_load32(frame@, off as int),
{
    frame[off] as u32 + 256 * (frame[off + 1] as u32) + 65536 * (frame[off + 2] as u32) + 16777216
        * (frame[off + 3] as u32)
}

pub fn store16(frame: &mut Vec<u8>, off: usize, v: u16)
    requires
        off + 2 <= old(frame).len(),
    ensures
        final(frame)@ == spec_store16(old(frame)@, off as int, v),
{
    frame.set(off, (v % 256) as u8);
    frame.set(off + 1, (v / 256) as u8);
}

pub fn store32(frame: &mut Vec<u8>, off: usize, v: u32)
    requires
        off + 4 <= old(frame).len(),
    ensures
        final(frame)@ == spec_store32(old(frame)@, off as int, v),
{
    frame.set(off, (v % 256) as u8);
    frame.set(off + 1, ((v / 256) % 256) as u8);
    frame.set(off + 2, ((v / 65536) % 256) as u8);
    frame.set(off + 3, (v / 16777216) as u8);
}

/// The six address bytes at `off`.
pub fn load_mac(frame: &Vec<u8>, off: usize) -> (a: [u8; 6])
    requires
        off + 6 <= frame.len(),
    ensures
        a@ == frame@.subrange(off as int, off + 6),
{
    let a = [
        frame[off],
        frame[off + 1],
        frame[off + 2],
        frame[off + 3],
        frame[off + 4],
        frame[off + 5],
    ];
    assert(a@ =~= frame@.subrange(off as int, off + 6));
    a
}

pub fn store_mac(frame: &mut Vec<u8>, off: usize, a: &[u8; 6])
    requires
        off + 6 <= old(frame).len(),
    ensures
        final(frame)@ == spec_store_mac(old(frame)@, off as int, a@),
{
    frame.set(off, a[0]);
    frame.set(off + 1, a[1]);
    frame.set(off + 2, a[2]);
    frame.set(off + 3, a[3]);
    frame.set(off + 4, a[4]);
    frame.set(off + 5, a[5]);
}

/// A stored 16-bit field reads back as what was stored, and the store
/// changes no byte outside the field nor the length.
pub proof fn lemma_store16(s: Seq<u8>, off: int, v: u16)
    requires
        0 <= off,
        off + 2 <= s.len(),
    ensures
        spec_load16(spec_store16(s, off, v), off) == v,
        spec_store16(s, off, v).len() == s.len(),
        forall|i: int|
            0 <= i < s.len() && !(off <= i < off + 2) ==> #[trigger] spec_store16(s, off, v)[i]
                == s[i],
{
}

/// A stored 32-bit field reads back as what was stored, and the store
/// changes no byte outside the field nor the length.
pub proof fn lemma_store32(s: Seq<u8>, off: int, v: u32)
    requires
        0 <= off,
        off + 4 <= s.len(),
    ensures
        spec_load32(spec_store32(s, off, v), off) == v,
        spec_store32(s, off, v).len() == s.len(),
        forall|i: int|
            0 <= i < s.len() && !(off <= i < off + 4) ==> #[trigger] spec_store32(s, off, v)[i]
                == s[i],
{
}

/// The L4 header that follows the IPv4 header.
#[derive(Debug, Clone, Copy, PartialEq, Eq, Structural)]
pub enum L4Hdr {
    TcpHdr,
    UdpHdr,
}

/// The fields of a TCP header that connection tracking reads, multi-byte
/// fields in network order.
#[derive(Debug, Clone, Copy, PartialEq, Eq, Structural)]
pub struct TcpHdr {
    pub source: u16,
    pub dest: u16,
    pub seq: u32,
    pub ack_seq: u32,
    /// The flags byte: FIN is bit 0, SYN bit 1, ACK bit 4.
    pub flags: u8,
}

impl TcpHdr {
    pub open spec fn spec_fin(&self) -> u16 {
        (self.flags % 2) as u16
    }

    pub open spec fn spec_syn(&self) -> u16 {
        ((self.flags / 2) % 2) as u16
    }

    pub open spec fn spec_ack(&self) -> u16 {
        ((self.flags / 16) % 2) as u16
    }

    /// 1 when FIN is set, else 0.
    #[verifier::when_used_as_spec(spec_fin)]
    pub fn fin(&self) -> (r: u16)
        ensures
            r == self.spec_fin(),
    {
        (self.flags % 2) as u16
    }

    /// 1 when SYN is set, else 0.
    #[verifier::when_used_as_spec(spec_syn)]
    pub fn syn(&self) -> (r: u16)
        ensures
            r == self.spec_syn(),
    {
        ((self.flags / 2) % 2) as u16
    }

    /// 1 when ACK is set, else 0.
    #[verifier::when_used_as_spec(spec_ack)]
    pub fn ack(&self) -> (r: u16)
        ensures
            r == self.spec_ack(),
    {
        ((self.flags / 16) % 2) as u16
    }
}

/// Which L4 header a frame carries, if it is an IPv4 frame with TCP or UDP
/// whose headers lie within the frame.
pub open spec fn spec_classify(s: Seq<u8>) -> Option<L4Hdr> {
    if s.len() < ETH_HDR_LEN {
        None
    } else if !(s[ETHER_TYPE_OFFSET as int] == 0x08 && s[ETHER_TYPE_OFFSET + 1] == 0x00) {
        None
    } else if s.len() < ETH_HDR_LEN + IPV4_HDR_LEN {
        None
    } else if s[IP_PROTO_OFFSET as int] == IPPROTO_TCP {
        if s.len() < L4_OFFSET + TCP_HDR_LEN {
            None
        } else {
            Some(L4Hdr::TcpHdr)
        }
    } else if s[IP_PROTO_OFFSET as int] == IPPROTO_UDP {
        if s.len() < L4_OFFSET + UDP_HDR_LEN {
            None
        } else {
            Some(L4Hdr::UdpHdr)
        }
    } else {
        None
    }
}

/// The sender and receiver that a frame declares.
pub open spec fn spec_tuple(s: Seq<u8>) -> KConnection {
    KConnection {
        from: KEndpoint {
            ip: spec_load32(s, IP_SRC_OFFSET as int),
            port: spec_load16(s, L4_OFFSET as int),
        },
        to: KEndpoint {
            ip: spec_load32(s, IP_DST_OFFSET as int),
            port: spec_load16(s, L4_DEST_OFFSET as int),
        },
    }
}

/// The TCP header fields of a frame.
pub open spec fn spec_tcp_header(s: Seq<u8>) -> TcpHdr {
    TcpHdr {
        source: spec_load16(s, L4_OFFSET as int),
        dest: spec_load16(s, L4_DEST_OFFSET as int),
        seq: spec_load32(s, TCP_SEQ_OFFSET as int),
        ack_seq: spec_load32(s, TCP_ACK_SEQ_OFFSET as int),
        flags: s[TCP_FLAGS_OFFSET as int],
    }
}

/// Bounds-checks and classifies a frame.
pub fn classify(frame: &Vec<u8>) -> (r: Option<L4Hdr>)
    ensures
        r == spec_classify(frame@),
{
    if frame.len() < eth_hdr_len() {
        return None;
    }
    if !(frame[ETHER_TYPE_OFFSET] == 0x08 && frame[ETHER_TYPE_OFFSET + 1] == 0x00) {
        return None;
    }
    if frame.len() < eth_hdr_len() + ipv4_hdr_len() {
        return None;
    }
    let proto = frame[IP_PROTO_OFFSET];
    if proto == IPPROTO_TCP {
        if frame.len() < eth_hdr_len() + ipv4_hdr_len() + tcp_hdr_len() {
            None
        } else {
            Some(L4Hdr::TcpHdr)
        }
    } else if proto == IPPROTO_UDP {
        if frame.len() < eth_hdr_len() + ipv4_hdr_len() + udp_hdr_len() {
            None
        } else {
            Some(L4Hdr::UdpHdr)
        }
    } else {
        None
    }
}

impl L4Hdr {
    /// Offset of the checksum of this kind of header.
    pub open spec fn spec_check_offset(&self) -> usize {
        match self {
            L4Hdr::TcpHdr => TCP_CHECK_OFFSET,
            L4Hdr::UdpHdr => UDP_CHECK_OFFSET,
        }
    }

    /// Whether the frame carries this kind of header, in bounds.
    pub open spec fn fits(&self, s: Seq<u8>) -> bool {
        spec_classify(s) == Some(*self)
    }

    #[verifier::when_used_as_spec(spec_check_offset)]
    pub fn check_offset(&self) -> (off: usize)
        ensures
            off == self.spec_check_offset(),
    {
        match self {
            L4Hdr::TcpHdr => TCP_CHECK_OFFSET,
            L4Hdr::UdpHdr => UDP_CHECK_OFFSET,
        }
    }

    /// The L4 checksum, in network order.
    pub fn get_check(&self, frame: &Vec<u8>) -> (r: u16)
        requires
            self.fits(frame@),
        ensures
            r == spec_load16(frame@, self.spec_check_offset() as int),
    {
        load16(frame, self.check_offset())
    }

    pub fn set_check(&self, frame: &mut Vec<u8>, new_csum: u16)
        requires
            self.fits(old(frame)@),
        ensures
            final(frame)@ == spec_store16(old(frame)@, self.spec_check_offset() as int, new_csum),
    {
        store16(frame, self.check_offset(), new_csum)
    }

    /// The source port, in network order.
    pub fn get_source(&self, frame: &Vec<u8>) -> (r: u16)
        requires
            self.fits(frame@),
        ensures
            r == spec_load16(frame@, L4_OFFSET as int),
    {
        load16(frame, L4_OFFSET)
    }

    /// The destination port, in network order.
    pub fn get_dest(&self, frame: &Vec<u8>) -> (r: u16)
        requires
            self.fits(frame@),
        ensures
            r == spec_load16(frame@, L4_DEST_OFFSET as int),
    {
        load16(frame, L4_DEST_OFFSET)
    }

    /// Writes both ports.
    pub fn set_bi_port(&self, frame: &mut Vec<u8>, bi_port: &BiPort)
        requires
            self.fits(old(frame)@),
        ensures
            final(frame)@ == spec_store16(
                spec_store16(old(frame)@, L4_OFFSET as int, bi_port.spec_split_net().0),
                L4_DEST_OFFSET as int,
                bi_port.spec_split_net().1,
            ),
    {
        let (src, dst) = bi_port.split_net();
        store16(frame, L4_OFFSET, src);
        store16(frame, L4_DEST_OFFSET, dst);
    }

    /// The TCP header fields, when the header is one of TCP.
    pub fn tcp_header(&self, frame: &Vec<u8>) -> (r: Option<TcpHdr>)
        requires
            self.fits(frame@),
        ensures
            r == if *self == L4Hdr::TcpHdr {
                Some(spec_tcp_header(frame@))
            } else {
                None
            },
    {
        match self {
            L4Hdr::TcpHdr => Some(
                TcpHdr {
                    source: load16(frame, L4_OFFSET),
                    dest: load16(frame, L4_DEST_OFFSET),
                    seq: load32(frame, TCP_SEQ_OFFSET),
                    ack_seq: load32(frame, TCP_ACK_SEQ_OFFSET),
                    flags: frame[TCP_FLAGS_OFFSET],
                },
            ),
            L4Hdr::UdpHdr => None,
        }
    }

    /// Whether the header is a TCP header with FIN set.
    pub open spec fn spec_is_fin(&self, s: Seq<u8>) -> bool {
        *self == L4Hdr::TcpHdr && s[TCP_FLAGS_OFFSET as int] % 2 == 1
    }

    pub fn is_fin(&self, frame: &Vec<u8>) -> (r: bool)
        requires
            self.fits(frame@),
        ensures
            r == self.spec_is_fin(frame@),
    {
        match self {
            L4Hdr::TcpHdr => frame[TCP_FLAGS_OFFSET] % 2 == 1,
            L4Hdr::UdpHdr => false,
        }
    }
}

/// The total length that the IPv4 header states.
pub open spec fn spec_tot_len(s: Seq<u8>) -> int {
    s[16] * 256 + s[17]
}

/// The IPv4 header checksum of a frame verifies: the header has no options
/// and the big-endian words of its 20 bytes sum up to `0xFFFF` in one's
/// complement.
pub open spec fn ipv4_checksum_ok(s: Seq<u8>) -> bool {
    &&& s.len() >= 34
    &&& s[14] % 16 == 5
    &&& verifies(word_sum(s, 14, 34, true))
}

/// The TCP or UDP checksum of a frame verifies: the IPv4 header has no
/// options, the datagram lies within the frame and holds the checksum field,
/// and the big-endian words of the pseudo-header (the two addresses, the
/// protocol, the L4 length) and of the L4 header and payload sum up to
/// `0xFFFF` in one's complement. The addresses are summed where they lie, in
/// the IPv4 header just before the L4 header.
pub open spec fn l4_checksum_ok(s: Seq<u8>, l4: L4Hdr) -> bool {
    let end = 14 + spec_tot_len(s);
    &&& s[14] % 16 == 5
    &&& l4.spec_check_offset() + 2 <= end <= s.len()
    &&& verifies(word_sum(s, 26, end, true) + s[23] + (spec_tot_len(s) - 20))
}

/// Sums the big-endian 16-bit words of `frame[lo..hi)`.
fn sum_words(frame: &Vec<u8>, lo: usize, hi: usize) -> (sum: u64)
    requires
        lo <= hi <= frame.len(),
        hi - lo <= 0x1_0000_0000,
    ensures
        sum == word_sum(frame@, lo as int, hi as int, true),
        sum <= (hi - lo) * 65280,
{
    let mut sum: u64 = 0;
    let mut i: usize = lo;
    while i < hi
        invariant
            lo <= i <= hi <= frame.len(),
            hi - lo <= 0x1_0000_0000,
            sum == word_sum(frame@, lo as int, i as int, true),
            sum <= (i - lo) * 65280,
        decreases hi - i,
    {
        let weight: u64 = if (i - lo) % 2 == 0 {
            256
        } else {
            1
        };
        assert(weight * frame@[i as int] <= 65280) by (nonlinear_arith)
            requires
                weight <= 256,
                frame@[i as int] <= 255,
        ;
        sum = sum + weight * (frame[i] as u64);
        i = i + 1;
    }
    sum
}

/// Whether the IPv4 header checksum of a frame verifies.
pub fn ipv4_checksum_verifies(frame: &Vec<u8>) -> (r: bool)
    ensures
        r == ipv4_checksum_ok(frame@),
{
    if frame.len() < L4_OFFSET || frame[ETH_HDR_LEN] % 16 != 5 {
        return false;
    }
    let total = sum_words(frame, ETH_HDR_LEN, L4_OFFSET);
    total > 0 && total % 65535 == 0
}

/// Whether the TCP or UDP checksum of a frame with the given kind of L4
/// header verifies.
pub fn l4_checksum_verifies(frame: &Vec<u8>, l4_hdr: &L4Hdr) -> (r: bool)
    ensures
        r == l4_checksum_ok(frame@, *l4_hdr),
{
    if frame.len() < L4_OFFSET || frame[ETH_HDR_LEN] % 16 != 5 {
        return false;
    }
    let tot_len: usize = (frame[IP_TOT_LEN_OFFSET] as usize) * 256 + frame[IP_TOT_LEN_OFFSET
        + 1] as usize;
    let end: usize = ETH_HDR_LEN + tot_len;
    if end < l4_hdr.check_offset() + 2 || end > frame.len() {
        return false;
    }
    let total = sum_words(frame, IP_SRC_OFFSET, end) + frame[IP_PROTO_OFFSET] as u64 + (
    tot_len as u64 - 20);
    total > 0 && total % 65535 == 0
}

} // verus!
