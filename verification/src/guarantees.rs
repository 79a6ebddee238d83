//! What holds of the datapath whatever frames arrive.

use crate::checksum::lemma_csum_update;
use crate::checksum::lemma_word_sum_agree;
use crate::checksum::lemma_word_sum_endian;
use crate::checksum::lemma_word_sum_lower;
use crate::checksum::lemma_word_sum_nonneg;
use crate::checksum::lemma_word_sum_update;
use crate::checksum::spec_csum_update;
use crate::checksum::verifies;
use crate::checksum::word_sum;
use crate::datapath::spec_admit;
use crate::datapath::spec_in_cold_start_band;
use crate::flows::spec_out_way;
use crate::flows::Admission;
use crate::table::queued;
use crate::datapath::spec_local_ip;
use crate::datapath::spec_publish_cold_start;
use crate::flows::lemma_lease;
use crate::flows::spec_lease;
use crate::datapath::spec_notification;
use crate::message::Message;
use crate::notification::Notification;
use crate::datapath::spec_next_hop;
use crate::datapath::spec_update_csum;
use crate::datapath::spec_update_packet_by_way;
use crate::endpoint::BiPort;
use crate::endpoint::Mac;
use crate::frame::ipv4_checksum_ok;
use crate::frame::l4_checksum_ok;
use crate::frame::spec_tot_len;
use crate::frame::lemma_store16;
use crate::frame::lemma_store32;
use crate::frame::spec_load16;
use crate::frame::spec_load32;
use crate::frame::spec_store16;
use crate::frame::spec_store32;
use crate::frame::spec_store_mac;
use crate::frame::spec_tuple;
use crate::frame::L4Hdr;
use crate::frame::IP_DST_OFFSET;
use crate::frame::IP_SRC_OFFSET;
use crate::frame::L4_DEST_OFFSET;
use crate::frame::L4_OFFSET;
use crate::datapath::spec_datapath;
use crate::datapath::spec_extract_way;
use crate::datapath::spec_notify;
use crate::datapath::spec_tick;
use crate::datapath::XdpAction;
use crate::endpoint::KConnection;
use crate::frame::spec_classify;
use crate::maps::MapsView;
use crate::order::lemma_swap_involutive;
use vstd::prelude::*;

verus! {

/// Looking a flow up or creating it keeps what holds of the shared maps, and
/// a flow that was admitted is in the table with the output tuple returned.
pub proof fn lemma_admit(m: MapsView, d: KConnection, ifindex: u32)
    requires
        m.inv(),
    ensures
        spec_admit(m, d, ifindex).0.inv(),
        spec_admit(m, d, ifindex).1 matches Ok(out) ==> {
            let after = spec_admit(m, d, ifindex).0;
            &&& after.flows.contains_key(d)
            &&& after.flows[d] == out
            &&& after.flows.contains_key(out.spec_reverse())
            &&& after.flows[out.spec_reverse()] == d.spec_reverse()
        },
        spec_admit(m, d, ifindex).1 is Err ==> spec_admit(m, d, ifindex).0.flows == m.flows,
{
    lemma_lease(m.flow_part(), d, spec_local_ip(m, ifindex));
    let (flow, admission) = spec_lease(m.flow_part(), d, spec_local_ip(m, ifindex));
    assert(m.with_flow(flow).flow_part() == flow);
    assert(spec_publish_cold_start(m, d.to).flow_part() == m.flow_part());
}

/// Processing a frame keeps what holds of the shared maps: flows stay
/// paired, and no port of the pool is in use by a flow.
pub proof fn lemma_datapath_keeps_inv(m: MapsView, f: Seq<u8>, ifindex: u32)
    requires
        m.inv(),
    ensures
        spec_datapath(m, f, ifindex).maps.inv(),
{
    match spec_classify(f) {
        None => {},
        Some(l4) => {
            let (m1, way) = spec_extract_way(m, f);
            assert(m1.flow_part() == m.flow_part());
            match way {
                None => {},
                Some(d) => {
                    lemma_admit(m1, d, ifindex);
                    let (m2, admitted) = spec_admit(m1, d, ifindex);
                    match admitted {
                        Err(_) => {},
                        Ok(out) => {
                            let m3 = spec_tick(spec_notify(m2, l4, f, d, out), d, out);
                            assert(m3.flow_part() == m2.flow_part());
                        },
                    }
                },
            }
        },
    }
}

/// What a 32-bit word counts for in a little-endian sum of 16-bit words.
spec fn halves(x: u32) -> int {
    x % 65536 + x / 65536
}

#[verifier::rlimit(50)]
proof fn lemma_store16_sum(s: Seq<u8>, lo: int, hi: int, off: int, v: u16)
    requires
        0 <= lo <= hi <= s.len(),
        0 <= off,
        off + 2 <= s.len(),
    ensures
        spec_store16(s, off, v).len() == s.len(),
        (lo <= off && off + 2 <= hi && (off - lo) % 2 == 0) ==> word_sum(
            spec_store16(s, off, v),
            lo,
            hi,
            false,
        ) == word_sum(s, lo, hi, false) + v - spec_load16(s, off),
        (off + 2 <= lo || hi <= off) ==> word_sum(spec_store16(s, off, v), lo, hi, false)
            == word_sum(s, lo, hi, false),
{
    let b0 = (v % 256) as u8;
    let b1 = (v / 256) as u8;
    let s1 = s.update(off, b0);
    let s2 = s1.update(off + 1, b1);
    assert(s2 == spec_store16(s, off, v));
    lemma_word_sum_update(s, lo, hi, false, off, b0);
    lemma_word_sum_update(s1, lo, hi, false, off + 1, b1);
    assert(s1[off + 1] == s[off + 1]);
    if lo <= off && off + 2 <= hi && (off - lo) % 2 == 0 {
        let w0 = word_sum(s, lo, hi, false);
        let w1 = word_sum(s1, lo, hi, false);
        let w2 = word_sum(s2, lo, hi, false);
        assert(w1 == w0 + (b0 - s[off]));
        assert(w2 == w1 + 256 * (b1 - s[off + 1]));
        assert(v == b0 + 256 * b1);
        assert(spec_load16(s, off) == s[off] + 256 * s[off + 1]);
    }
}

#[verifier::rlimit(50)]
proof fn lemma_store32_sum(s: Seq<u8>, lo: int, hi: int, off: int, v: u32)
    requires
        0 <= lo <= hi <= s.len(),
        0 <= off,
        off + 4 <= s.len(),
    ensures
        spec_store32(s, off, v).len() == s.len(),
        (lo <= off && off + 4 <= hi && (off - lo) % 2 == 0) ==> (word_sum(
            spec_store32(s, off, v),
            lo,
            hi,
            false,
        ) - word_sum(s, lo, hi, false) - v + spec_load32(s, off)) % 65535 == 0,
        (off + 4 <= lo || hi <= off) ==> word_sum(spec_store32(s, off, v), lo, hi, false)
            == word_sum(s, lo, hi, false),
{
    let b0 = (v % 256) as u8;
    let b1 = ((v / 256) % 256) as u8;
    let b2 = ((v / 65536) % 256) as u8;
    let b3 = (v / 16777216) as u8;
    let s1 = s.update(off, b0);
    let s2 = s1.update(off + 1, b1);
    let s3 = s2.update(off + 2, b2);
    let s4 = s3.update(off + 3, b3);
    assert(s4 == spec_store32(s, off, v));
    let w0 = word_sum(s, lo, hi, false);
    let w1 = word_sum(s1, lo, hi, false);
    let w2 = word_sum(s2, lo, hi, false);
    let w3 = word_sum(s3, lo, hi, false);
    let w4 = word_sum(s4, lo, hi, false);
    lemma_word_sum_update(s, lo, hi, false, off, b0);
    lemma_word_sum_update(s1, lo, hi, false, off + 1, b1);
    lemma_word_sum_update(s2, lo, hi, false, off + 2, b2);
    lemma_word_sum_update(s3, lo, hi, false, off + 3, b3);
    assert(s1[off + 1] == s[off + 1] && s2[off + 2] == s[off + 2] && s3[off + 3] == s[off + 3]);
    if lo <= off && off + 4 <= hi && (off - lo) % 2 == 0 {
        let (o0, o1, o2, o3) = (s[off] as int, s[off + 1] as int, s[off + 2] as int, s[off
            + 3] as int);
        assert(w1 == w0 + (b0 - o0));
        assert(w2 == w1 + 256 * (b1 - o1));
        assert(w3 == w2 + (b2 - o2));
        assert(w4 == w3 + 256 * (b3 - o3));
        lemma_u32_bytes(v);
        assert(spec_load32(s, off) == o0 + 256 * o1 + 65536 * o2 + 16777216 * o3);
        let k = (b2 + 256 * b3) - (o2 + 256 * o3);
        assert(w4 - w0 - v + spec_load32(s, off) == 65535 * (-k));
        vstd::arithmetic::div_mod::lemma_mod_multiples_vanish(-k, 0, 65535);
    }
}

/// A 32-bit value is made of its four bytes.
proof fn lemma_u32_bytes(v: u32)
    ensures
        v == (v % 256) + 256 * ((v / 256) % 256) + 65536 * ((v / 65536) % 256) + 16777216 * (v
            / 16777216),
{
    assert(v == (v % 256) + 256 * ((v / 256) % 256) + 65536 * ((v / 65536) % 256) + 16777216 * (v
        / 16777216)) by (bit_vector);
}

/// The sum of two multiples of `0xFFFF` is one.
proof fn lemma_mod_sum(a: int, b: int)
    requires
        a % 65535 == 0,
        b % 65535 == 0,
    ensures
        (a + b) % 65535 == 0,
        (a - b) % 65535 == 0,
        (256 * a) % 65535 == 0,
{
    vstd::arithmetic::div_mod::lemma_fundamental_div_mod(a, 65535);
    vstd::arithmetic::div_mod::lemma_fundamental_div_mod(b, 65535);
    let ka = a / 65535;
    let kb = b / 65535;
    assert(a + b == 65535 * (ka + kb));
    assert(a - b == 65535 * (ka - kb));
    assert(256 * a == 65535 * (256 * ka));
    vstd::arithmetic::div_mod::lemma_mod_multiples_vanish(ka + kb, 0, 65535);
    vstd::arithmetic::div_mod::lemma_mod_multiples_vanish(ka - kb, 0, 65535);
    vstd::arithmetic::div_mod::lemma_mod_multiples_vanish(256 * ka, 0, 65535);
}

/// A checksum that is updated for a change of a word keeps the little-endian
/// sum of a range that holds both, modulo `0xFFFF`, once words are written
/// that differ from the old ones by that change.
proof fn lemma_update_then_write(
    s: Seq<u8>,
    g: Seq<u8>,
    lo: int,
    hi: int,
    c: int,
    from: u32,
    to: u32,
)
    requires
        0 <= lo <= c,
        c + 2 <= hi <= s.len(),
        (c - lo) % 2 == 0,
        g.len() == s.len(),
        (word_sum(g, lo, hi, false) - word_sum(
            spec_store16(s, c, spec_csum_update(spec_load16(s, c), from, to)),
            lo,
            hi,
            false,
        ) - to + from) % 65535 == 0,
    ensures
        (word_sum(g, lo, hi, false) - word_sum(s, lo, hi, false)) % 65535 == 0,
{
    let check = spec_load16(s, c);
    let updated = spec_csum_update(check, from, to);
    let s1 = spec_store16(s, c, updated);
    lemma_store16_sum(s, lo, hi, c, updated);
    lemma_csum_update(check, from, to);
    let a = word_sum(g, lo, hi, false) - word_sum(s1, lo, hi, false) - to + from;
    let b = updated - check - from + to;
    lemma_mod_sum(a, b);
    assert(a + b == word_sum(g, lo, hi, false) - word_sum(s, lo, hi, false));
}

/// Two frames whose little-endian sums over a range agree modulo `0xFFFF`
/// have big-endian sums that agree modulo `0xFFFF`.
proof fn lemma_endian_transfer(s: Seq<u8>, g: Seq<u8>, lo: int, hi: int)
    requires
        0 <= lo <= hi <= s.len(),
        g.len() == s.len(),
        (word_sum(g, lo, hi, false) - word_sum(s, lo, hi, false)) % 65535 == 0,
    ensures
        (word_sum(g, lo, hi, true) - word_sum(s, lo, hi, true)) % 65535 == 0,
{
    lemma_word_sum_endian(s, lo, hi);
    lemma_word_sum_endian(g, lo, hi);
    let dl = word_sum(g, lo, hi, false) - word_sum(s, lo, hi, false);
    let eg = word_sum(g, lo, hi, true) - 256 * word_sum(g, lo, hi, false);
    let es = word_sum(s, lo, hi, true) - 256 * word_sum(s, lo, hi, false);
    lemma_mod_sum(dl, 0);
    lemma_mod_sum(eg, es);
    lemma_mod_sum(eg - es, 256 * dl);
    assert((eg - es) + 256 * dl == word_sum(g, lo, hi, true) - word_sum(s, lo, hi, true));
}

/// The frame after the two checksums were updated for a change of the word
/// at `off` and the word was written.
spec fn address_step(f: Seq<u8>, l4: L4Hdr, off: int, to: u32) -> Seq<u8> {
    spec_store32(spec_update_csum(f, l4, off, to, true), off, to)
}

/// Which bytes two stored checksums and a stored word touch.
#[verifier::rlimit(50)]
proof fn lemma_three_stores(f: Seq<u8>, c: int, v0: u16, v1: u16, off: int, to: u32)
    requires
        c == 40 || c == 50,
        c + 2 <= f.len(),
        off == IP_SRC_OFFSET || off == IP_DST_OFFSET,
    ensures
        ({
            let g = spec_store32(spec_store16(spec_store16(f, c, v0), 24, v1), off, to);
            &&& g.len() == f.len()
            &&& spec_load32(g, off) == to
            &&& spec_load16(spec_store16(f, c, v0), 24) == spec_load16(f, 24)
            &&& spec_load32(spec_store16(spec_store16(f, c, v0), 24, v1), off) == spec_load32(
                f,
                off,
            )
            &&& forall|i: int|
                0 <= i < f.len() && !(off <= i < off + 4) && !(c <= i < c + 2) && !(24 <= i < 26)
                    ==> #[trigger] g[i] == f[i]
        }),
{
    let a0 = spec_store16(f, c, v0);
    let a1 = spec_store16(a0, 24, v1);
    lemma_store16(f, c, v0);
    lemma_store16(a0, 24, v1);
    lemma_store32(a1, off, to);
}

/// Which bytes an address step touches.
proof fn lemma_address_bytes(f: Seq<u8>, l4: L4Hdr, off: int, to: u32)
    requires
        l4.fits(f),
        off == IP_SRC_OFFSET || off == IP_DST_OFFSET,
    ensures
        ({
            let g = address_step(f, l4, off, to);
            let c = l4.spec_check_offset() as int;
            &&& g.len() == f.len()
            &&& spec_load32(g, off) == to
            &&& forall|i: int|
                0 <= i < f.len() && !(off <= i < off + 4) && !(c <= i < c + 2) && !(24 <= i < 26)
                    ==> #[trigger] g[i] == f[i]
        }),
{
    let c = l4.spec_check_offset() as int;
    let from = spec_load32(f, off);
    let v0 = spec_csum_update(spec_load16(f, c), from, to);
    let v1 = spec_csum_update(spec_load16(spec_store16(f, c, v0), 24), from, to);
    lemma_three_stores(f, c, v0, v1, off, to);
}

/// An address step keeps the little-endian sum of the IPv4 header modulo
/// `0xFFFF`.
#[verifier::rlimit(50)]
proof fn lemma_address_header_sum(f: Seq<u8>, l4: L4Hdr, off: int, to: u32)
    requires
        l4.fits(f),
        off == IP_SRC_OFFSET || off == IP_DST_OFFSET,
    ensures
        (word_sum(address_step(f, l4, off, to), 14, 34, false) - word_sum(f, 14, 34, false))
            % 65535 == 0,
{
    let c = l4.spec_check_offset() as int;
    let from = spec_load32(f, off);
    let v0 = spec_csum_update(spec_load16(f, c), from, to);
    let a0 = spec_store16(f, c, v0);
    let v1 = spec_csum_update(spec_load16(a0, 24), from, to);
    let a1 = spec_store16(a0, 24, v1);
    let a2 = spec_store32(a1, off, to);
    lemma_store16_sum(f, 14, 34, c, v0);
    assert(word_sum(a0, 14, 34, false) == word_sum(f, 14, 34, false));
    lemma_three_stores(f, c, v0, v1, off, to);
    assert(spec_load32(a1, off) == from);
    lemma_store32_sum(a1, 14, 34, off, to);
    lemma_update_then_write(a0, a2, 14, 34, 24, from, to);
}

/// An address step keeps the little-endian sum of the addresses and the
/// datagram modulo `0xFFFF`.
#[verifier::rlimit(50)]
proof fn lemma_address_datagram_sum(f: Seq<u8>, l4: L4Hdr, off: int, to: u32, end: int)
    requires
        l4.fits(f),
        off == IP_SRC_OFFSET || off == IP_DST_OFFSET,
        l4.spec_check_offset() + 2 <= end <= f.len(),
    ensures
        (word_sum(address_step(f, l4, off, to), 26, end, false) - word_sum(f, 26, end, false))
            % 65535 == 0,
{
    let c = l4.spec_check_offset() as int;
    let from = spec_load32(f, off);
    let v0 = spec_csum_update(spec_load16(f, c), from, to);
    let a0 = spec_store16(f, c, v0);
    let v1 = spec_csum_update(spec_load16(a0, 24), from, to);
    let a1 = spec_store16(a0, 24, v1);
    let a2 = spec_store32(a1, off, to);
    lemma_store16_sum(a0, 26, end, 24, v1);
    assert(word_sum(a1, 26, end, false) == word_sum(a0, 26, end, false));
    lemma_three_stores(f, c, v0, v1, off, to);
    assert(spec_load32(a1, off) == from);
    lemma_store32_sum(a1, 26, end, off, to);
    lemma_update_then_write(f, a2, 26, end, c, from, to);
}

/// The frame after the L4 checksum was updated for a change of the ports
/// and the ports were written.
spec fn ports_step(f: Seq<u8>, l4: L4Hdr, src: u16, dst: u16) -> Seq<u8> {
    spec_store16(
        spec_store16(
            spec_update_csum(f, l4, L4_OFFSET as int, BiPort::spec_new(src, dst).0, false),
            L4_OFFSET as int,
            src,
        ),
        L4_DEST_OFFSET as int,
        dst,
    )
}

/// The two ports rewritten, the L4 checksum first: the ports read as the new
/// ones, the bytes that are neither a port nor the L4 checksum stay, and the
/// sum that the L4 checksum covers keeps its value modulo `0xFFFF`.
#[verifier::rlimit(50)]
proof fn lemma_ports_step(f: Seq<u8>, l4: L4Hdr, src: u16, dst: u16, end: int)
    requires
        l4.fits(f),
        l4.spec_check_offset() + 2 <= end <= f.len(),
    ensures
        ({
            let g = ports_step(f, l4, src, dst);
            let c = l4.spec_check_offset() as int;
            &&& g.len() == f.len()
            &&& spec_load16(g, L4_OFFSET as int) == src
            &&& spec_load16(g, L4_DEST_OFFSET as int) == dst
            &&& forall|i: int|
                0 <= i < f.len() && !(34 <= i < 38) && !(c <= i < c + 2) ==> #[trigger] g[i] == f[i]
            &&& (word_sum(g, 26, end, false) - word_sum(f, 26, end, false)) % 65535 == 0
        }),
{
    let c = l4.spec_check_offset() as int;
    let from = spec_load32(f, 34);
    let to = BiPort::spec_new(src, dst).0;
    let c1 = spec_store16(f, c, spec_csum_update(spec_load16(f, c), from, to));
    let mid1 = spec_store16(c1, 34, src);
    let mid2 = spec_store16(mid1, 36, dst);
    lemma_store16(f, c, spec_csum_update(spec_load16(f, c), from, to));
    lemma_store16(c1, 34, src);
    lemma_store16(mid1, 36, dst);
    lemma_store16_sum(c1, 26, end, 34, src);
    lemma_store16_sum(mid1, 26, end, 36, dst);
    let old_src = spec_load16(f, 34);
    let old_dst = spec_load16(f, 36);
    assert(spec_load16(c1, 34) == old_src);
    assert(spec_load16(mid1, 36) == old_dst);
    assert(from == old_src + 65536 * old_dst);
    assert(to == src * 65536 + dst);
    let d = word_sum(mid2, 26, end, false) - word_sum(c1, 26, end, false) - to + from;
    assert(d == 65535 * (old_dst - src));
    vstd::arithmetic::div_mod::lemma_mod_multiples_vanish(old_dst - src, 0, 65535);
    lemma_update_then_write(f, mid2, 26, end, c, from, to);
}

/// The frame with its addresses and ports rewritten, before the hardware
/// addresses are.
spec fn l3_l4_rewritten(f: Seq<u8>, l4: L4Hdr, way: KConnection) -> Seq<u8> {
    ports_step(
        address_step(
            address_step(f, l4, IP_DST_OFFSET as int, way.to.ip),
            l4,
            IP_SRC_OFFSET as int,
            way.from.ip,
        ),
        l4,
        way.from.port,
        way.to.port,
    )
}

/// What rewriting addresses and ports does to the bytes and to the sums.
#[verifier::rlimit(50)]
proof fn lemma_l3_l4(f: Seq<u8>, l4: L4Hdr, way: KConnection, end: int)
    requires
        l4.fits(f),
        l4.spec_check_offset() + 2 <= end <= f.len(),
    ensures
        ({
            let p = l3_l4_rewritten(f, l4, way);
            let c = l4.spec_check_offset() as int;
            &&& p.len() == f.len()
            &&& spec_tuple(p) == way
            &&& forall|i: int|
                0 <= i < f.len() && !(24 <= i < 38) && !(c <= i < c + 2) ==> #[trigger] p[i] == f[i]
            &&& (word_sum(p, 14, 34, false) - word_sum(f, 14, 34, false)) % 65535 == 0
            &&& (word_sum(p, 26, end, false) - word_sum(f, 26, end, false)) % 65535 == 0
        }),
{
    let c = l4.spec_check_offset() as int;
    let a = address_step(f, l4, IP_DST_OFFSET as int, way.to.ip);
    lemma_address_bytes(f, l4, IP_DST_OFFSET as int, way.to.ip);
    lemma_address_header_sum(f, l4, IP_DST_OFFSET as int, way.to.ip);
    lemma_address_datagram_sum(f, l4, IP_DST_OFFSET as int, way.to.ip, end);
    assert(a[12] == f[12] && a[13] == f[13] && a[23] == f[23]);
    assert(l4.fits(a));
    let b = address_step(a, l4, IP_SRC_OFFSET as int, way.from.ip);
    lemma_address_bytes(a, l4, IP_SRC_OFFSET as int, way.from.ip);
    lemma_address_header_sum(a, l4, IP_SRC_OFFSET as int, way.from.ip);
    lemma_address_datagram_sum(a, l4, IP_SRC_OFFSET as int, way.from.ip, end);
    assert(b[12] == a[12] && b[13] == a[13] && b[23] == a[23]);
    assert(l4.fits(b));
    assert(spec_load32(b, 30) == way.to.ip) by {
        assert(b[30] == a[30] && b[31] == a[31] && b[32] == a[32] && b[33] == a[33]);
    }
    let p = ports_step(b, l4, way.from.port, way.to.port);
    lemma_ports_step(b, l4, way.from.port, way.to.port, end);
    assert(spec_load32(p, 30) == way.to.ip && spec_load32(p, 26) == way.from.ip) by {
        assert(p[30] == b[30] && p[31] == b[31] && p[32] == b[32] && p[33] == b[33]);
        assert(p[26] == b[26] && p[27] == b[27] && p[28] == b[28] && p[29] == b[29]);
    }
    lemma_word_sum_agree(b, p, 14, 34, false);
    lemma_mod_sum(
        word_sum(a, 14, 34, false) - word_sum(f, 14, 34, false),
        word_sum(b, 14, 34, false) - word_sum(a, 14, 34, false),
    );
    lemma_mod_sum(
        word_sum(a, 26, end, false) - word_sum(f, 26, end, false),
        word_sum(b, 26, end, false) - word_sum(a, 26, end, false),
    );
    lemma_mod_sum(
        word_sum(b, 26, end, false) - word_sum(f, 26, end, false),
        word_sum(p, 26, end, false) - word_sum(b, 26, end, false),
    );
}

/// Which bytes a stored hardware address touches.
proof fn lemma_store_mac(s: Seq<u8>, off: int, a: Seq<u8>)
    requires
        0 <= off,
        off + 6 <= s.len(),
        a.len() == 6,
    ensures
        spec_store_mac(s, off, a).len() == s.len(),
        spec_store_mac(s, off, a).subrange(off, off + 6) == a,
        forall|i: int|
            0 <= i < s.len() && !(off <= i < off + 6) ==> #[trigger] spec_store_mac(s, off, a)[i]
                == s[i],
{
    assert(spec_store_mac(s, off, a).subrange(off, off + 6) =~= a);
}

/// The rewritten frame carries the output tuple and valid checksums.
///
/// For a frame `f` that the datapath takes, rewritten to `way`: the frame
/// keeps its length, its EtherType and its protocol; its addresses and ports
/// are those of `way`; its source hardware address is the old destination
/// and its destination the next hop; every other byte but the two checksums
/// is as before; and each of the two checksums verifies exactly if it did
/// before.
#[verifier::rlimit(50)]
pub proof fn lemma_rewrite(f: Seq<u8>, l4: L4Hdr, way: KConnection, ip_mac: Map<u32, Mac>)
    requires
        l4.fits(f),
    ensures
        ({
            let g = spec_update_packet_by_way(f, l4, way, ip_mac);
            let c = l4.spec_check_offset() as int;
            &&& g.len() == f.len()
            &&& l4.fits(g)
            &&& spec_tuple(g) == way
            &&& g.subrange(6, 12) == f.subrange(0, 6)
            &&& g.subrange(0, 6) == spec_next_hop(f, way, ip_mac)
            &&& forall|i: int|
                12 <= i < f.len() && !(24 <= i < 38) && !(c <= i < c + 2) ==> #[trigger] g[i]
                    == f[i]
            &&& ipv4_checksum_ok(f) == ipv4_checksum_ok(g)
            &&& l4_checksum_ok(f, l4) == l4_checksum_ok(g, l4)
        }),
{
    let c = l4.spec_check_offset() as int;
    let g = spec_update_packet_by_way(f, l4, way, ip_mac);
    let p = l3_l4_rewritten(f, l4, way);
    let hop = spec_next_hop(f, way, ip_mac);
    let m1 = spec_store_mac(p, 6, f.subrange(0, 6));
    assert(g == spec_store_mac(m1, 0, hop));
    let end = if l4.spec_check_offset() + 2 <= 14 + spec_tot_len(f) <= f.len() {
        14 + spec_tot_len(f)
    } else {
        f.len() as int
    };
    lemma_l3_l4(f, l4, way, end);
    assert(hop.len() == 6);
    lemma_store_mac(p, 6, f.subrange(0, 6));
    lemma_store_mac(m1, 0, hop);
    assert(g.subrange(6, 12) =~= m1.subrange(6, 12));
    lemma_rewrite_tail(f, p, g, l4, way, end);
}

/// The last step of [`lemma_rewrite`]: from the bytes and the sums of the
/// frame with addresses and ports rewritten to the frame as it leaves.
#[verifier::rlimit(50)]
proof fn lemma_rewrite_tail(
    f: Seq<u8>,
    p: Seq<u8>,
    g: Seq<u8>,
    l4: L4Hdr,
    way: KConnection,
    end: int,
)
    requires
        l4.fits(f),
        l4.spec_check_offset() + 2 <= end <= f.len(),
        l4.spec_check_offset() + 2 <= 14 + spec_tot_len(f) <= f.len() ==> end == 14 + spec_tot_len(
            f,
        ),
        p.len() == f.len(),
        g.len() == f.len(),
        spec_tuple(p) == way,
        forall|i: int|
            0 <= i < f.len() && !(24 <= i < 38) && !(l4.spec_check_offset() <= i
                < l4.spec_check_offset() + 2) ==> #[trigger] p[i] == f[i],
        forall|i: int| 12 <= i < f.len() ==> #[trigger] g[i] == p[i],
        (word_sum(p, 14, 34, false) - word_sum(f, 14, 34, false)) % 65535 == 0,
        (word_sum(p, 26, end, false) - word_sum(f, 26, end, false)) % 65535 == 0,
    ensures
        l4.fits(g),
        spec_tuple(g) == way,
        forall|i: int|
            12 <= i < f.len() && !(24 <= i < 38) && !(l4.spec_check_offset() <= i
                < l4.spec_check_offset() + 2) ==> #[trigger] g[i] == f[i],
        ipv4_checksum_ok(f) == ipv4_checksum_ok(g),
        l4_checksum_ok(f, l4) == l4_checksum_ok(g, l4),
{
    assert(g[12] == f[12] && g[13] == f[13] && g[23] == f[23] && g[14] == f[14] && g[16] == f[16]
        && g[17] == f[17]) by {
        assert(g[12] == p[12] && g[13] == p[13] && g[23] == p[23] && g[14] == p[14] && g[16]
            == p[16] && g[17] == p[17]);
        assert(p[12] == f[12] && p[13] == f[13] && p[23] == f[23] && p[14] == f[14] && p[16]
            == f[16] && p[17] == f[17]);
    }
    assert(spec_tuple(g) == spec_tuple(p)) by {
        assert(g[26] == p[26] && g[27] == p[27] && g[28] == p[28] && g[29] == p[29]);
        assert(g[30] == p[30] && g[31] == p[31] && g[32] == p[32] && g[33] == p[33]);
        assert(g[34] == p[34] && g[35] == p[35] && g[36] == p[36] && g[37] == p[37]);
    }
    lemma_word_sum_agree(p, g, 14, 34, false);
    lemma_word_sum_agree(p, g, 26, end, false);
    lemma_checksums_kept(f, g, l4, end);
}

/// Two frames of one length that agree on the bytes that say where the
/// checksums' ranges lie, and whose little-endian sums over the two ranges
/// agree modulo `0xFFFF`, have checksums that verify alike.
#[verifier::rlimit(50)]
proof fn lemma_checksums_kept(f: Seq<u8>, g: Seq<u8>, l4: L4Hdr, end: int)
    requires
        l4.fits(f),
        l4.spec_check_offset() + 2 <= end <= f.len(),
        l4.spec_check_offset() + 2 <= 14 + spec_tot_len(f) <= f.len() ==> end == 14 + spec_tot_len(
            f,
        ),
        g.len() == f.len(),
        g[14] == f[14] && g[16] == f[16] && g[17] == f[17] && g[23] == f[23],
        (word_sum(g, 14, 34, false) - word_sum(f, 14, 34, false)) % 65535 == 0,
        (word_sum(g, 26, end, false) - word_sum(f, 26, end, false)) % 65535 == 0,
    ensures
        ipv4_checksum_ok(f) == ipv4_checksum_ok(g),
        l4_checksum_ok(f, l4) == l4_checksum_ok(g, l4),
{
    lemma_endian_transfer(f, g, 14, 34);
    lemma_endian_transfer(f, g, 26, end);
    {
        let tf = word_sum(f, 14, 34, true);
        let tg = word_sum(g, 14, 34, true);
        lemma_word_sum_lower(g, 14, 34, true, 23);
        lemma_word_sum_lower(f, 14, 34, true, 23);
        if tf % 65535 == 0 {
            lemma_mod_sum(tg - tf, -tf);
            assert(tg - tf - (-tf) == tg);
        }
        if tg % 65535 == 0 {
            lemma_mod_sum(tg - tf, tg);
            assert(tg - tf - tg == -tf);
            lemma_mod_sum(0, -tf);
            assert(0 - (-tf) == tf);
        }
        assert(tg > 0 && tf > 0);
        assert((tf % 65535 == 0) == (tg % 65535 == 0));
    }
    if l4.spec_check_offset() + 2 <= 14 + spec_tot_len(f) <= f.len() {
        let extra = f[23] + (spec_tot_len(f) - 20);
        let tf = word_sum(f, 26, end, true) + extra;
        let tg = word_sum(g, 26, end, true) + extra;
        lemma_word_sum_nonneg(g, 26, end, true);
        lemma_word_sum_nonneg(f, 26, end, true);
        if tf % 65535 == 0 {
            lemma_mod_sum(tg - tf, -tf);
            assert(tg - tf - (-tf) == tg);
        }
        if tg % 65535 == 0 {
            lemma_mod_sum(tg - tf, tg);
            assert(tg - tf - tg == -tf);
            lemma_mod_sum(0, -tf);
            assert(0 - (-tf) == tf);
        }
        assert(tg > 0 && tf > 0);
        assert((tf % 65535 == 0) == (tg % 65535 == 0));
    }
}

/// An address replaced after `update_csum` leaves both checksums as valid
/// as they were.
///
/// For a frame that the datapath takes and the source or destination
/// address at `off`: once the checksums are updated for the new word and the
/// word is written, the field reads as the new word, no byte but the field
/// and the two checksums has changed, and each checksum verifies exactly if
/// it did before.
pub proof fn lemma_update_csum_address(f: Seq<u8>, l4: L4Hdr, off: int, to: u32)
    requires
        l4.fits(f),
        off == IP_SRC_OFFSET || off == IP_DST_OFFSET,
    ensures
        ({
            let g = spec_store32(spec_update_csum(f, l4, off, to, true), off, to);
            let c = l4.spec_check_offset() as int;
            &&& g.len() == f.len()
            &&& l4.fits(g)
            &&& spec_load32(g, off) == to
            &&& forall|i: int|
                0 <= i < f.len() && !(off <= i < off + 4) && !(c <= i < c + 2) && !(24 <= i < 26)
                    ==> #[trigger] g[i] == f[i]
            &&& ipv4_checksum_ok(f) == ipv4_checksum_ok(g)
            &&& l4_checksum_ok(f, l4) == l4_checksum_ok(g, l4)
        }),
{
    let g = address_step(f, l4, off, to);
    let end = if l4.spec_check_offset() + 2 <= 14 + spec_tot_len(f) <= f.len() {
        14 + spec_tot_len(f)
    } else {
        f.len() as int
    };
    lemma_address_bytes(f, l4, off, to);
    lemma_address_header_sum(f, l4, off, to);
    lemma_address_datagram_sum(f, l4, off, to, end);
    assert(g[12] == f[12] && g[13] == f[13] && g[14] == f[14] && g[16] == f[16] && g[17] == f[17]
        && g[23] == f[23]);
    lemma_checksums_kept(f, g, l4, end);
}

/// The ports replaced after `update_csum` leave both checksums as valid as
/// they were.
///
/// For a frame that the datapath takes: once the L4 checksum is updated for
/// the new pair of ports and the ports are written, the ports read as the
/// new ones, no byte but the ports and the L4 checksum has changed, and each
/// checksum verifies exactly if it did before.
pub proof fn lemma_update_csum_ports(f: Seq<u8>, l4: L4Hdr, src: u16, dst: u16)
    requires
        l4.fits(f),
    ensures
        ({
            let g = spec_store16(
                spec_store16(
                    spec_update_csum(f, l4, L4_OFFSET as int, BiPort::spec_new(src, dst).0, false),
                    L4_OFFSET as int,
                    src,
                ),
                L4_DEST_OFFSET as int,
                dst,
            );
            let c = l4.spec_check_offset() as int;
            &&& g.len() == f.len()
            &&& l4.fits(g)
            &&& spec_load16(g, L4_OFFSET as int) == src
            &&& spec_load16(g, L4_DEST_OFFSET as int) == dst
            &&& forall|i: int|
                0 <= i < f.len() && !(34 <= i < 38) && !(c <= i < c + 2) ==> #[trigger] g[i] == f[i]
            &&& ipv4_checksum_ok(f) == ipv4_checksum_ok(g)
            &&& l4_checksum_ok(f, l4) == l4_checksum_ok(g, l4)
        }),
{
    let g = ports_step(f, l4, src, dst);
    let end = if l4.spec_check_offset() + 2 <= 14 + spec_tot_len(f) <= f.len() {
        14 + spec_tot_len(f)
    } else {
        f.len() as int
    };
    lemma_ports_step(f, l4, src, dst, end);
    assert(g[12] == f[12] && g[13] == f[13] && g[14] == f[14] && g[16] == f[16] && g[17] == f[17]
        && g[23] == f[23]);
    lemma_word_sum_agree(f, g, 14, 34, false);
    lemma_mod_sum(0, 0);
    lemma_checksums_kept(f, g, l4, end);
}

/// What the datapath leaves alone.
///
/// Processing a frame never changes the Backend Table, the local addresses,
/// the doorbells, the managed range or a capacity. A frame that is not
/// transmitted is not changed, and it leaves the Flow Table, the
/// Packet-Event Ring and the Performance Table as they were. Only a frame
/// that is dropped may have taken a port from the pool or been published on
/// the Cold-Start Ring. No frame is announced more than once, publishes more
/// than its receiver, or takes more than the oldest port of the pool.
pub proof fn lemma_datapath_frame(m: MapsView, f: Seq<u8>, ifindex: u32)
    ensures
        ({
            let o = spec_datapath(m, f, ifindex);
            &&& o.maps.backends == m.backends
            &&& o.maps.local_ips == m.local_ips
            &&& o.maps.doorbell == m.doorbell
            &&& o.maps.port_first == m.port_first
            &&& o.maps.port_count == m.port_count
            &&& o.maps.flows_capacity == m.flows_capacity
            &&& o.maps.ports_capacity == m.ports_capacity
            &&& o.action != XdpAction::Tx ==> {
                &&& o.frame == f
                &&& o.maps.flows == m.flows
                &&& o.maps.packet_events == m.packet_events
                &&& o.maps.performance == m.performance
            }
            &&& (o.action == XdpAction::Pass || o.action == XdpAction::Aborted) ==> {
                &&& o.maps.ports == m.ports
                &&& o.maps.cold_start == m.cold_start
            }
            &&& o.action != XdpAction::Drop ==> o.maps.cold_start == m.cold_start
            &&& o.maps.packet_events == m.packet_events || (exists|n: Notification|
                o.maps.packet_events == m.packet_events.push(n))
            &&& o.maps.cold_start == m.cold_start || o.maps.cold_start == m.cold_start.push(
                spec_tuple(f).to,
            )
            &&& o.maps.ports == m.ports || (m.ports.len() > 0 && o.maps.ports == m.ports.subrange(
                1,
                m.ports.len() as int,
            ))
        }),
{
    match spec_classify(f) {
        None => {},
        Some(l4) => {
            let (m1, way) = spec_extract_way(m, f);
            match way {
                None => {},
                Some(d) => {
                    let (m2, admitted) = spec_admit(m1, d, ifindex);
                    let (flow, admission) = spec_lease(
                        m1.flow_part(),
                        d,
                        spec_local_ip(m1, ifindex),
                    );
                    if m1.flows.contains_key(d) {
                    } else if !m1.backends.contains_key(d.to) {
                    } else if m1.ports.len() == 0 {
                    } else {
                        assert(!(admission is Flow) ==> flow.flows == m1.flows);
                    }
                    match admitted {
                        Ok(out) => {
                            let m3 = spec_notify(m2, l4, f, d, out);
                            if m3.packet_events != m2.packet_events {
                                assert(m3.packet_events == m2.packet_events.push(
                                    spec_notification(f, d, out),
                                ));
                            }
                        },
                        Err(_) => {},
                    }
                },
            }
        },
    }
}

/// A frame whose tuple has a flow is sent out with the flow's output tuple.
///
/// If a frame that the datapath takes declares a tuple `t` with an entry
/// `t -> o` in the Flow Table, and the IP to MAC Table can take its
/// addresses, the frame is transmitted, the table keeps its flows, the
/// emitted frame carries the tuple `o` and the protocol of the frame, and
/// each checksum verifies on the way out exactly if it did on the way in.
pub proof fn lemma_known_flow(m: MapsView, f: Seq<u8>, ifindex: u32)
    requires
        spec_classify(f) is Some,
        spec_extract_way(m, f).1 is Some,
        m.flows.contains_key(spec_tuple(f)),
    ensures
        ({
            let o = spec_datapath(m, f, ifindex);
            let l4 = spec_classify(f)->Some_0;
            &&& o.action == XdpAction::Tx
            &&& o.maps.flows == m.flows
            &&& o.maps.ports == m.ports
            &&& spec_tuple(o.frame) == m.flows[spec_tuple(f)]
            &&& spec_classify(o.frame) == Some(l4)
            &&& ipv4_checksum_ok(f) == ipv4_checksum_ok(o.frame)
            &&& l4_checksum_ok(f, l4) == l4_checksum_ok(o.frame, l4)
        }),
{
    let l4 = spec_classify(f)->Some_0;
    let (m1, way) = spec_extract_way(m, f);
    let d = way->Some_0;
    assert(d == spec_tuple(f));
    assert(m1.flows == m.flows && m1.ports == m.ports);
    let (m2, admitted) = spec_admit(m1, d, ifindex);
    let out = admitted->Ok_0;
    let m3 = spec_tick(spec_notify(m2, l4, f, d, out), d, out);
    lemma_rewrite(f, l4, out, m3.ip_mac);
}

/// A frame for an endpoint without flow and without backend triggers a cold
/// start inside the band and is none of the gateway's business outside it.
///
/// If a frame that the datapath takes declares a tuple without a flow whose
/// receiver has no backend, and the IP to MAC Table can take its addresses,
/// then with the receiver's port in the cold-start band the frame is dropped
/// and the receiver published on the Cold-Start Ring, unless the ring is
/// full; with the port outside the band the frame is passed and nothing is
/// published. Either way the Flow Table and the pool stay as they are.
pub proof fn lemma_unknown_receiver(m: MapsView, f: Seq<u8>, ifindex: u32)
    requires
        spec_classify(f) is Some,
        spec_extract_way(m, f).1 is Some,
        !m.flows.contains_key(spec_tuple(f)),
        !m.backends.contains_key(spec_tuple(f).to),
    ensures
        ({
            let o = spec_datapath(m, f, ifindex);
            let e = spec_tuple(f).to;
            &&& o.frame == f
            &&& o.maps.flows == m.flows
            &&& o.maps.ports == m.ports
            &&& if spec_in_cold_start_band(e.port) {
                o.action == XdpAction::Drop && o.maps.cold_start == queued(
                    m.cold_start,
                    m.cold_start_capacity,
                    e,
                )
            } else {
                o.action == XdpAction::Pass && o.maps.cold_start == m.cold_start
            }
        }),
{
    let (m1, way) = spec_extract_way(m, f);
    assert(m1.flow_part() == m.flow_part());
    assert(m1.cold_start == m.cold_start && m1.cold_start_capacity == m.cold_start_capacity);
}

/// A frame for a virtual service with a backend gets a flow and is sent to
/// the backend from the oldest port of the pool.
///
/// If a frame that the datapath takes declares a tuple without a flow whose
/// receiver has a backend, the IP to MAC Table can take its addresses, the
/// pool is not empty, the interface has a local address, the Flow Table has
/// room for two entries and the way back is not the key of an entry, then
/// the frame is transmitted from the local address and the oldest port of
/// the pool to the backend, that port is out of the pool, and the Flow Table
/// has gained the flow's two entries and no other.
pub proof fn lemma_new_flow(m: MapsView, f: Seq<u8>, ifindex: u32)
    requires
        spec_classify(f) is Some,
        spec_extract_way(m, f).1 is Some,
        !m.flows.contains_key(spec_tuple(f)),
        m.backends.contains_key(spec_tuple(f).to),
        m.ports.len() > 0,
        m.local_ips.contains_key(ifindex),
        m.flows.dom().finite(),
        m.flows.dom().len() + 2 <= m.flows_capacity,
        !m.flows.contains_key(
            spec_out_way(
                m.local_ips[ifindex],
                m.ports[0],
                m.backends[spec_tuple(f).to],
            ).spec_reverse(),
        ),
        spec_out_way(m.local_ips[ifindex], m.ports[0], m.backends[spec_tuple(f).to]).spec_reverse()
            != spec_tuple(f),
    ensures
        ({
            let o = spec_datapath(m, f, ifindex);
            let d = spec_tuple(f);
            let out = spec_out_way(m.local_ips[ifindex], m.ports[0], m.backends[d.to]);
            &&& o.action == XdpAction::Tx
            &&& spec_tuple(o.frame) == out
            &&& o.maps.ports == m.ports.subrange(1, m.ports.len() as int)
            &&& o.maps.flows == m.flows.insert(d, out).insert(out.spec_reverse(), d.spec_reverse())
            &&& o.maps.leased == m.leased.insert(out.spec_reverse())
        }),
{
    let l4 = spec_classify(f)->Some_0;
    let (m1, way) = spec_extract_way(m, f);
    let d = spec_tuple(f);
    assert(m1.flow_part() == m.flow_part());
    assert(m1.local_ips == m.local_ips);
    let out = spec_out_way(m.local_ips[ifindex], m.ports[0], m.backends[d.to]);
    let (flow, admission) = spec_lease(m1.flow_part(), d, spec_local_ip(m1, ifindex));
    assert(m.flows.insert(d, out).dom() =~= m.flows.dom().insert(d));
    assert(admission == Admission::Flow(out));
    let (m2, admitted) = spec_admit(m1, d, ifindex);
    let m3 = spec_tick(spec_notify(m2, l4, f, d, out), d, out);
    assert(m3.flow_part() == m2.flow_part());
    lemma_rewrite(f, l4, out, m3.ip_mac);
}

/// A frame that is transmitted carries the output tuple of its flow.
///
/// Whenever the datapath transmits a frame, the Flow Table then maps the
/// frame's declared tuple to the tuple of the emitted frame, the protocol is
/// kept, and each checksum verifies on the way out exactly if it did on the
/// way in.
pub proof fn lemma_transmitted(m: MapsView, f: Seq<u8>, ifindex: u32)
    requires
        spec_datapath(m, f, ifindex).action == XdpAction::Tx,
    ensures
        ({
            let o = spec_datapath(m, f, ifindex);
            &&& spec_classify(f) matches Some(l4)
            &&& o.maps.flows.contains_key(spec_tuple(f))
            &&& spec_tuple(o.frame) == o.maps.flows[spec_tuple(f)]
            &&& spec_classify(o.frame) == Some(l4)
            &&& ipv4_checksum_ok(f) == ipv4_checksum_ok(o.frame)
            &&& l4_checksum_ok(f, l4) == l4_checksum_ok(o.frame, l4)
        }),
{
    let l4 = spec_classify(f)->Some_0;
    let (m1, way) = spec_extract_way(m, f);
    let d = way->Some_0;
    assert(d == spec_tuple(f));
    let (m2, admitted) = spec_admit(m1, d, ifindex);
    let out = admitted->Ok_0;
    let m3 = spec_tick(spec_notify(m2, l4, f, d, out), d, out);
    assert(m3.flows == m2.flows);
    lemma_rewrite(f, l4, out, m3.ip_mac);
}

/// The way back: where the Flow Table maps `t` to `o`, a frame that declares
/// `o` reversed is sent out with `t` reversed.
pub proof fn lemma_way_back(m: MapsView, t: KConnection, f: Seq<u8>, ifindex: u32)
    requires
        m.inv(),
        m.flows.contains_key(t),
        spec_classify(f) is Some,
        spec_extract_way(m, f).1 is Some,
        spec_tuple(f) == m.flows[t].spec_reverse(),
    ensures
        spec_datapath(m, f, ifindex).action == XdpAction::Tx,
        spec_tuple(spec_datapath(m, f, ifindex).frame) == t.spec_reverse(),
{
    lemma_known_flow(m, f, ifindex);
}

/// Round trip: if the datapath transmits a frame that declared `t`, then a
/// frame that comes next and declares the reverse of the emitted tuple is
/// transmitted with `t` reversed.
pub proof fn lemma_round_trip(m: MapsView, f1: Seq<u8>, if1: u32, f2: Seq<u8>, if2: u32)
    requires
        m.inv(),
        spec_datapath(m, f1, if1).action == XdpAction::Tx,
        spec_classify(f2) is Some,
        spec_extract_way(spec_datapath(m, f1, if1).maps, f2).1 is Some,
        spec_tuple(f2) == spec_tuple(spec_datapath(m, f1, if1).frame).spec_reverse(),
    ensures
        spec_datapath(spec_datapath(m, f1, if1).maps, f2, if2).action == XdpAction::Tx,
        spec_tuple(spec_datapath(spec_datapath(m, f1, if1).maps, f2, if2).frame) == spec_tuple(
            f1,
        ).spec_reverse(),
{
    let o1 = spec_datapath(m, f1, if1);
    lemma_datapath_keeps_inv(m, f1, if1);
    lemma_transmitted(m, f1, if1);
    lemma_way_back(o1.maps, spec_tuple(f1), f2, if2);
}

/// What the datapath announces about a flow names the flow's lease.
///
/// Where the Flow Table maps `d` to `out` and `d` is no way back, the
/// message made of the notification about a frame that declared
/// `d`, the frame coming from the client, names the port and the two keys of
/// the flow: a connection that is closed on such a message gives up a whole
/// flow. The same holds of the notification about a frame on the way back,
/// the frame then coming from the server.
pub proof fn lemma_notification_names_lease(
    m: MapsView,
    f: Seq<u8>,
    d: KConnection,
    out: KConnection,
)
    requires
        m.inv(),
        m.flows.contains_key(d),
        m.flows[d] == out,
        !m.leased.contains(d),
    ensures
        ({
            let msg = Message::spec_from_notification(spec_notification(f, d, out), true);
            m.leases(
                msg.local_out.port,
                msg.spec_to_u_connections().0.0,
                msg.spec_to_u_connections().1.0,
            )
        }),
        ({
            let msg = Message::spec_from_notification(
                spec_notification(f, out.spec_reverse(), d.spec_reverse()),
                false,
            );
            m.leases(
                msg.local_out.port,
                msg.spec_to_u_connections().0.0,
                msg.spec_to_u_connections().1.0,
            )
        }),
{
    lemma_swap_involutive(d.from.port, d.from.ip);
    lemma_swap_involutive(d.to.port, d.to.ip);
    lemma_swap_involutive(out.from.port, out.from.ip);
    lemma_swap_involutive(out.to.port, out.to.ip);
}

} // verus!
