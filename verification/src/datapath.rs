//! The fast path: what happens to one received frame.
//!
//! A frame whose declared tuple is in the Flow Table is rewritten to the
//! output tuple and sent back out. A frame for a known virtual service gets
//! a flow of its own first; one for an unknown service in the cold-start band
//! is announced to the control plane and dropped.

use crate::checksum::csum_update;
use crate::checksum::spec_csum_update;
use crate::endpoint::BiPort;
use crate::endpoint::KConnection;
use crate::endpoint::KEndpoint;
use crate::endpoint::Mac;
use crate::event::Event;
use crate::event::Packet;
use crate::frame::classify;
use crate::frame::ipv4_checksum_ok;
use crate::frame::l4_checksum_ok;
use crate::frame::load16;
use crate::frame::load32;
use crate::frame::load_mac;
use crate::frame::spec_classify;
use crate::frame::spec_load16;
use crate::frame::spec_load32;
use crate::frame::spec_store16;
use crate::frame::spec_store32;
use crate::frame::spec_store_mac;
use crate::frame::spec_tcp_header;
use crate::frame::spec_tuple;
use crate::frame::store16;
use crate::frame::store32;
use crate::frame::store_mac;
use crate::frame::L4Hdr;
use crate::frame::IP_CHECK_OFFSET;
use crate::frame::IP_DST_OFFSET;
use crate::frame::IP_SRC_OFFSET;
use crate::frame::L4_DEST_OFFSET;
use crate::frame::L4_OFFSET;
use crate::table::accepts;
use crate::flows::spec_lease;
use crate::flows::Admission;
use crate::maps::MapsView;
use crate::maps::SharedMaps;
use crate::maps::COLD_START_PORT_MAX;
use crate::maps::COLD_START_PORT_MIN;
use crate::notification::Notification;
use crate::order::spec_swap16;
use crate::order::swap16;
use crate::table::Table;
use vstd::prelude::*;

verus! {

/// What is to be done with a frame.
#[derive(Debug, Clone, Copy, PartialEq, Eq, Structural)]
pub enum XdpAction {
    /// Processing failed; the frame is discarded and the failure counted.
    Aborted,
    /// The frame is discarded.
    Drop,
    /// The frame goes on to the host's network stack.
    Pass,
    /// The frame is sent back out of the interface it came in on.
    Tx,
}

impl XdpAction {
    pub open spec fn spec_code(&self) -> u32 {
        match self {
            XdpAction::Aborted => 0,
            XdpAction::Drop => 1,
            XdpAction::Pass => 2,
            XdpAction::Tx => 3,
        }
    }

    /// The number that the kernel knows the action by.
    #[verifier::when_used_as_spec(spec_code)]
    pub fn code(&self) -> (c: u32)
        ensures
            c == self.spec_code(),
    {
        match self {
            XdpAction::Aborted => 0,
            XdpAction::Drop => 1,
            XdpAction::Pass => 2,
            XdpAction::Tx => 3,
        }
    }
}

/// The maps and the frame after a frame was processed, and the action.
pub struct Outcome {
    pub maps: MapsView,
    pub frame: Seq<u8>,
    pub action: XdpAction,
}

/// Whether a port, given in network order, lies in the cold-start band.
pub open spec fn spec_in_cold_start_band(port: u16) -> bool {
    COLD_START_PORT_MIN <= spec_swap16(port) <= COLD_START_PORT_MAX
}

#[verifier::when_used_as_spec(spec_in_cold_start_band)]
pub fn in_cold_start_band(port: u16) -> (r: bool)
    ensures
        r == spec_in_cold_start_band(port),
{
    let port = swap16(port);
    !(port < COLD_START_PORT_MIN || port > COLD_START_PORT_MAX)
}

/// The IP to MAC Table after `ip` was seen with `mac`: an address that is
/// known keeps its entry, a new one is entered, and `None` says that the
/// table was full.
pub open spec fn spec_learn(m: MapsView, ip: u32, mac: Mac) -> Option<MapsView> {
    if m.ip_mac.contains_key(ip) {
        Some(m)
    } else if accepts(m.ip_mac, m.ip_mac_capacity, ip) {
        Some(MapsView { ip_mac: m.ip_mac.insert(ip, mac), ..m })
    } else {
        None
    }
}

/// The hardware address in the six bytes at `off`.
pub open spec fn spec_mac_at(f: Seq<u8>, off: int) -> Mac {
    Mac(Mac::spec_val_of(f.subrange(off, off + 6)))
}

/// The maps after the frame's addresses were learned, and the declared
/// tuple; `None` in its place when learning failed.
pub open spec fn spec_extract_way(m: MapsView, f: Seq<u8>) -> (MapsView, Option<KConnection>) {
    let d = spec_tuple(f);
    match spec_learn(m, d.from.ip, spec_mac_at(f, 6)) {
        None => (m, None),
        Some(m1) => match spec_learn(m1, d.to.ip, spec_mac_at(f, 0)) {
            None => (m1, None),
            Some(m2) => (m2, Some(d)),
        },
    }
}

/// The maps after an endpoint was published on the Cold-Start Ring; a full
/// ring stays as it is.
pub open spec fn spec_publish_cold_start(m: MapsView, e: KEndpoint) -> MapsView {
    if m.cold_start.len() < m.cold_start_capacity {
        MapsView { cold_start: m.cold_start.push(e), ..m }
    } else {
        m
    }
}

/// The local address, in host order, of an interface, if it has one.
pub open spec fn spec_local_ip(m: MapsView, ifindex: u32) -> Option<u32> {
    if m.local_ips.contains_key(ifindex) {
        Some(m.local_ips[ifindex])
    } else {
        None
    }
}

/// The maps after the flow of a declared tuple was looked up or created, and
/// either its output tuple or the action that ends the frame's processing.
///
/// A frame for an endpoint without a backend is dropped and its receiver
/// published on the Cold-Start Ring if the port lies in the cold-start band,
/// and passed otherwise. A frame for which no flow could be created is
/// dropped.
pub open spec fn spec_admit(m: MapsView, d: KConnection, ifindex: u32) -> (
    MapsView,
    Result<KConnection, XdpAction>,
) {
    let (flow, admission) = spec_lease(m.flow_part(), d, spec_local_ip(m, ifindex));
    match admission {
        Admission::Flow(out) => (m.with_flow(flow), Ok(out)),
        Admission::NoBackend => if spec_in_cold_start_band(d.to.port) {
            (spec_publish_cold_start(m, d.to), Err(XdpAction::Drop))
        } else {
            (m, Err(XdpAction::Pass))
        },
        _ => (m.with_flow(flow), Err(XdpAction::Drop)),
    }
}

/// The notification about a frame with declared tuple `d` and output tuple
/// `out`: the local endpoints on both sides, and the flow between the
/// sender and the final receiver.
pub open spec fn spec_notification(f: Seq<u8>, d: KConnection, out: KConnection) -> Notification {
    Notification {
        local_in_endpoint: d.to,
        lcoal_out_endpoint: out.from,
        connection: KConnection { from: d.from, to: out.to },
        event: Event::TcpPacket(Packet::spec_new(spec_tcp_header(f))),
    }
}

/// The maps after a TCP segment with FIN was announced on the Packet-Event
/// Ring; other frames announce nothing, and a full ring stays as it is.
pub open spec fn spec_notify(
    m: MapsView,
    l4: L4Hdr,
    f: Seq<u8>,
    d: KConnection,
    out: KConnection,
) -> MapsView {
    if l4.spec_is_fin(f) && m.packet_events.len() < m.packet_events_capacity {
        MapsView { packet_events: m.packet_events.push(spec_notification(f, d, out)), ..m }
    } else {
        m
    }
}

/// The endpoint whose doorbell a frame rings: the declared receiver if its
/// doorbell is armed, else the output sender if its doorbell is.
pub open spec fn spec_rung(m: MapsView, d: KConnection, out: KConnection) -> Option<KEndpoint> {
    if m.doorbell.contains_key(d.to) && m.doorbell[d.to] == 1 {
        Some(d.to)
    } else if m.doorbell.contains_key(out.from) && m.doorbell[out.from] == 1 {
        Some(out.from)
    } else {
        None
    }
}

/// The maps after the frame was counted in the Performance Table. A full
/// table that does not know the endpoint stays as it is.
pub open spec fn spec_tick(m: MapsView, d: KConnection, out: KConnection) -> MapsView {
    match spec_rung(m, d, out) {
        Some(e) => if accepts(m.performance, m.performance_capacity, e) {
            MapsView { performance: m.performance.insert(e, 1u8), ..m }
        } else {
            m
        },
        None => m,
    }
}

/// The frame with its L4 checksum, and its IPv4 header checksum if asked
/// for, updated for a change of the 32-bit word at `offset` to `new_val`.
/// The word itself is not written.
pub open spec fn spec_update_csum(
    f: Seq<u8>,
    l4: L4Hdr,
    offset: int,
    new_val: u32,
    update_ip_csum: bool,
) -> Seq<u8> {
    let from = spec_load32(f, offset);
    let c = l4.spec_check_offset() as int;
    let f1 = spec_store16(f, c, spec_csum_update(spec_load16(f, c), from, new_val));
    if update_ip_csum {
        spec_store16(
            f1,
            IP_CHECK_OFFSET as int,
            spec_csum_update(spec_load16(f1, IP_CHECK_OFFSET as int), from, new_val),
        )
    } else {
        f1
    }
}

/// The bytes of the destination hardware address of the rewritten frame:
/// those known for the new destination address, else the frame's old source.
pub open spec fn spec_next_hop(f: Seq<u8>, way: KConnection, ip_mac: Map<u32, Mac>) -> Seq<u8> {
    if ip_mac.contains_key(way.to.ip) {
        ip_mac[way.to.ip].spec_bytes()
    } else {
        f.subrange(6, 12)
    }
}

/// The frame rewritten to the output tuple `way`: destination address, source
/// address and ports replaced, each with its checksums updated before, then
/// the source hardware address set to the old destination and the
/// destination to the next hop.
pub open spec fn spec_update_packet_by_way(
    f: Seq<u8>,
    l4: L4Hdr,
    way: KConnection,
    ip_mac: Map<u32, Mac>,
) -> Seq<u8> {
    let a1 = spec_update_csum(f, l4, IP_DST_OFFSET as int, way.to.ip, true);
    let a2 = spec_store32(a1, IP_DST_OFFSET as int, way.to.ip);
    let b1 = spec_update_csum(a2, l4, IP_SRC_OFFSET as int, way.from.ip, true);
    let b2 = spec_store32(b1, IP_SRC_OFFSET as int, way.from.ip);
    let bi_port = BiPort::spec_new(way.from.port, way.to.port);
    let c1 = spec_update_csum(b2, l4, L4_OFFSET as int, bi_port.0, false);
    let c2 = spec_store16(
        spec_store16(c1, L4_OFFSET as int, way.from.port),
        L4_DEST_OFFSET as int,
        way.to.port,
    );
    spec_store_mac(spec_store_mac(c2, 6, f.subrange(0, 6)), 0, spec_next_hop(f, way, ip_mac))
}

/// What the datapath does with a frame that came in on interface `ifindex`.
pub open spec fn spec_datapath(m: MapsView, f: Seq<u8>, ifindex: u32) -> Outcome {
    match spec_classify(f) {
        None => Outcome { maps: m, frame: f, action: XdpAction::Pass },
        Some(l4) => {
            let (m1, way) = spec_extract_way(m, f);
            match way {
                None => Outcome { maps: m1, frame: f, action: XdpAction::Aborted },
                Some(d) => {
                    let (m2, admitted) = spec_admit(m1, d, ifindex);
                    match admitted {
                        Err(action) => Outcome { maps: m2, frame: f, action },
                        Ok(out) => {
                            let m3 = spec_tick(spec_notify(m2, l4, f, d, out), d, out);
                            Outcome {
                                maps: m3,
                                frame: spec_update_packet_by_way(f, l4, out, m3.ip_mac),
                                action: XdpAction::Tx,
                            }
                        },
                    }
                },
            }
        },
    }
}

fn learn(maps: &mut SharedMaps, ip: u32, mac: Mac) -> (r: Result<(), ()>)
    ensures
        match spec_learn(old(maps)@, ip, mac) {
            Some(m) => r is Ok && final(maps)@ == m,
            None => r is Err && final(maps)@ == old(maps)@,
        },
{
    if maps.ip_mac.get(&ip).is_none() {
        if !maps.ip_mac.insert(ip, mac) {
            return Err(());
        }
    }
    Ok(())
}

/// Reads the declared tuple of a frame and learns the hardware addresses of
/// its two IP addresses where they are not known yet. Fails when the IP to
/// MAC Table has no room for an address.
pub fn extract_way(maps: &mut SharedMaps, frame: &Vec<u8>, l4_hdr: &L4Hdr) -> (r: Result<
    KConnection,
    (),
>)
    requires
        l4_hdr.fits(frame@),
    ensures
        final(maps)@ == spec_extract_way(old(maps)@, frame@).0,
        match r {
            Ok(d) => spec_extract_way(old(maps)@, frame@).1 == Some(d),
            Err(_) => spec_extract_way(old(maps)@, frame@).1 is None,
        },
{
    let src_ip = load32(frame, IP_SRC_OFFSET);
    let dst_ip = load32(frame, IP_DST_OFFSET);
    let src_port = l4_hdr.get_source(frame);
    let dst_port = l4_hdr.get_dest(frame);
    let connection = KConnection {
        from: KEndpoint::new(src_ip, src_port),
        to: KEndpoint::new(dst_ip, dst_port),
    };
    // learn the hardware addresses of both ends
    let src_mac = Mac::new(&load_mac(frame, 6));
    if learn(maps, src_ip, src_mac).is_err() {
        return Err(());
    }
    let dst_mac = Mac::new(&load_mac(frame, 0));
    if learn(maps, dst_ip, dst_mac).is_err() {
        return Err(());
    }
    Ok(connection)
}

/// Updates the L4 checksum, and the IPv4 header checksum if asked for, for a
/// change of the 32-bit word at `offset` to `new_val`; the word itself is
/// left for the caller to write. Fails, and leaves the frame as it is, when
/// the word does not lie within the frame. That the checksums verify once
/// the word is written is
/// [`crate::guarantees::lemma_update_csum_address`] and
/// [`crate::guarantees::lemma_update_csum_ports`].
pub fn update_csum(
    frame: &mut Vec<u8>,
    l4_hdr: &L4Hdr,
    offset: usize,
    new_val: u32,
    update_ip_csum: bool,
) -> (r: Result<(), ()>)
    requires
        l4_hdr.fits(old(frame)@),
    ensures
        r is Ok <==> offset + 4 <= old(frame).len(),
        r is Ok ==> final(frame)@ == spec_update_csum(
            old(frame)@,
            *l4_hdr,
            offset as int,
            new_val,
            update_ip_csum,
        ),
        r is Err ==> final(frame)@ == old(frame)@,
{
    let old_l4_csum = l4_hdr.get_check(frame);
    if offset > frame.len() || frame.len() - offset < 4 {
        return Err(());
    }
    let from = load32(frame, offset);
    l4_hdr.set_check(frame, csum_update(old_l4_csum, from, new_val));
    if update_ip_csum {
        let old_ip_csum = load16(frame, IP_CHECK_OFFSET);
        store16(frame, IP_CHECK_OFFSET, csum_update(old_ip_csum, from, new_val));
    }
    Ok(())
}

/// Rewrites a frame to the output tuple `way`.
pub fn update_packet_by_way(
    frame: &mut Vec<u8>,
    l4_hdr: &L4Hdr,
    way: &KConnection,
    ip_mac: &Table<u32, Mac>,
) -> (r: Result<(), ()>)
    requires
        l4_hdr.fits(old(frame)@),
    ensures
        r is Ok,
        final(frame)@ == spec_update_packet_by_way(old(frame)@, *l4_hdr, *way, ip_mac@),
        final(frame)@.len() == old(frame)@.len(),
        l4_hdr.fits(final(frame)@),
        spec_tuple(final(frame)@) == *way,
        ipv4_checksum_ok(old(frame)@) == ipv4_checksum_ok(final(frame)@),
        l4_checksum_ok(old(frame)@, *l4_hdr) == l4_checksum_ok(final(frame)@, *l4_hdr),
{
    proof {
        crate::guarantees::lemma_rewrite(frame@, *l4_hdr, *way, ip_mac@);
    }
    let dst = way.to;
    let src = way.from;
    let src_mac: Mac = Mac::new(&load_mac(frame, 0));
    let src_mac: [u8; 6] = src_mac.octets();
    let dst_mac: [u8; 6] = match ip_mac.get(&dst.ip()) {
        Some(mac) => mac.octets(),
        None => load_mac(frame, 6),
    };

    // destination address
    let r = update_csum(frame, l4_hdr, IP_DST_OFFSET, dst.ip(), true);
    if r.is_err() {
        return r;
    }
    store32(frame, IP_DST_OFFSET, dst.ip());

    // source address
    let r = update_csum(frame, l4_hdr, IP_SRC_OFFSET, src.ip(), true);
    if r.is_err() {
        return r;
    }
    store32(frame, IP_SRC_OFFSET, src.ip());

    // ports
    let bi_port = BiPort::new(src.port(), dst.port());
    let r = update_csum(frame, l4_hdr, L4_OFFSET, bi_port.into(), false);
    if r.is_err() {
        return r;
    }
    l4_hdr.set_bi_port(frame, &bi_port);

    // hardware addresses
    store_mac(frame, 6, &src_mac);
    store_mac(frame, 0, &dst_mac);
    Ok(())
}

/// Looks up the flow of a declared tuple, creating it for a known virtual
/// service, and returns its output tuple or the action that ends the
/// frame's processing.
pub fn admit_flow(maps: &mut SharedMaps, declare_way: &KConnection, ifindex: u32) -> (r: Result<
    KConnection,
    XdpAction,
>)
    ensures
        (final(maps)@, r) == spec_admit(old(maps)@, *declare_way, ifindex),
        final(maps)@.inv(),
{
    let local_ip = maps.local_ips.get(&ifindex);
    match maps.flow.lease(declare_way, local_ip) {
        Admission::Flow(output_way) => Ok(output_way),
        Admission::NoBackend => {
            if !in_cold_start_band(declare_way.to.port()) {
                // outside the band the frame is none of our business
                return Err(XdpAction::Pass);
            }
            let _ = maps.cold_start.push(declare_way.to);
            Err(XdpAction::Drop)
        },
        _ => Err(XdpAction::Drop),
    }
}

/// Processes one frame that came in on interface `ifindex`: changes the
/// shared maps and the frame as the datapath prescribes and returns the
/// action. What holds of the shared maps before holds of them after.
pub fn try_xdp_firewall(maps: &mut SharedMaps, frame: &mut Vec<u8>, ifindex: u32) -> (action:
    XdpAction)
    ensures
        final(maps)@ == spec_datapath(old(maps)@, old(frame)@, ifindex).maps,
        final(frame)@ == spec_datapath(old(maps)@, old(frame)@, ifindex).frame,
        action == spec_datapath(old(maps)@, old(frame)@, ifindex).action,
        final(maps)@.inv(),
        action == XdpAction::Tx ==> {
            &&& spec_classify(old(frame)@) matches Some(l4)
            &&& spec_classify(final(frame)@) == Some(l4)
            &&& final(maps)@.flows.contains_key(spec_tuple(old(frame)@))
            &&& spec_tuple(final(frame)@) == final(maps)@.flows[spec_tuple(old(frame)@)]
            &&& ipv4_checksum_ok(old(frame)@) == ipv4_checksum_ok(final(frame)@)
            &&& l4_checksum_ok(old(frame)@, l4) == l4_checksum_ok(final(frame)@, l4)
        },
        action != XdpAction::Tx ==> final(frame)@ == old(frame)@,
{
    proof {
        use_type_invariant(&maps.flow);
        maps.flow.lemma_wf();
    }
    proof {
        if spec_datapath(maps@, frame@, ifindex).action == XdpAction::Tx {
            crate::guarantees::lemma_transmitted(maps@, frame@, ifindex);
        }
    }
    let l4_hdr = match classify(frame) {
        Some(l4_hdr) => l4_hdr,
        None => {
            return XdpAction::Pass;
        },
    };
    let declare_way = match extract_way(maps, frame, &l4_hdr) {
        Ok(way) => way,
        Err(_) => {
            return XdpAction::Aborted;
        },
    };
    let output_way = match admit_flow(maps, &declare_way, ifindex) {
        Ok(way) => way,
        Err(action) => {
            return action;
        },
    };
    // tell the control plane of a FIN
    if l4_hdr.is_fin(frame) {
        match l4_hdr.tcp_header(frame) {
            Some(tcphdr) => {
                let notification = Notification {
                    local_in_endpoint: declare_way.to,
                    lcoal_out_endpoint: output_way.from,
                    connection: KConnection { from: declare_way.from, to: output_way.to },
                    event: Event::new_packet_event(&tcphdr),
                };
                let _ = maps.packet_events.push(notification);
            },
            None => {},
        }
    }
    let target_endpoint = if maps.doorbell.get(&declare_way.to) == Some(1u8) {
        Some(declare_way.to)
    } else if maps.doorbell.get(&output_way.from) == Some(1u8) {
        Some(output_way.from)
    } else {
        None
    };
    if let Some(target_endpoint) = target_endpoint {
        let _ = maps.performance.insert(target_endpoint, 1u8);
    }
    match update_packet_by_way(frame, &l4_hdr, &output_way, &maps.ip_mac) {
        Ok(_) => XdpAction::Tx,
        Err(_) => XdpAction::Aborted,
    }
}

/// The entry point of the datapath: processes one frame and returns the
/// action's number.
pub fn folonet(maps: &mut SharedMaps, frame: &mut Vec<u8>, ifindex: u32) -> (code: u32)
    ensures
        final(maps)@ == spec_datapath(old(maps)@, old(frame)@, ifindex).maps,
        final(frame)@ == spec_datapath(old(maps)@, old(frame)@, ifindex).frame,
        code == spec_datapath(old(maps)@, old(frame)@, ifindex).action.spec_code(),
        final(maps)@.inv(),
{
    try_xdp_firewall(maps, frame, ifindex).code()
}

} // verus!
