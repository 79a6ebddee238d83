use folonet::checksum::csum_diff;
use folonet::checksum::csum_fold_helper;
use folonet::checksum::csum_update;
use folonet::datapath::folonet;
use folonet::datapath::try_xdp_firewall;
use folonet::datapath::update_csum;
use folonet::datapath::XdpAction;
use folonet::endpoint::Endpoint;
use folonet::endpoint::KConnection;
use folonet::endpoint::Mac;
use folonet::event::Event;
use folonet::frame::classify;
use folonet::frame::ipv4_checksum_verifies;
use folonet::frame::l4_checksum_verifies as l4_verifies;
use folonet::frame::L4Hdr;
use folonet::maps::MapsConfig;
use folonet::maps::SharedMaps;

const CLIENT_MAC: [u8; 6] = [0x02, 0, 0, 0, 0, 0x01];
const GATEWAY_MAC: [u8; 6] = [0x02, 0, 0, 0, 0, 0x02];
const BACKEND_MAC: [u8; 6] = [0x02, 0, 0, 0, 0, 0xc8];

fn ip(a: u8, b: u8, c: u8, d: u8) -> u32 {
    u32::from_be_bytes([a, b, c, d])
}

fn ep(a: u8, b: u8, c: u8, d: u8, port: u16) -> Endpoint {
    Endpoint { ip: ip(a, b, c, d), port }
}

fn sum_words(bytes: &[u8]) -> u32 {
    let mut sum: u32 = 0;
    let mut i = 0;
    while i < bytes.len() {
        let hi = bytes[i] as u32;
        let lo = if i + 1 < bytes.len() { bytes[i + 1] as u32 } else { 0 };
        sum += (hi << 8) | lo;
        i += 2;
    }
    sum
}

fn fold(mut sum: u32) -> u16 {
    while sum >> 16 != 0 {
        sum = (sum & 0xffff) + (sum >> 16);
    }
    sum as u16
}

fn ip_checksum_verifies(frame: &[u8]) -> bool {
    fold(sum_words(&frame[14..34])) == 0xffff
}

fn l4_checksum_verifies(frame: &[u8]) -> bool {
    let tot_len = u16::from_be_bytes([frame[16], frame[17]]) as usize;
    let l4 = &frame[34..14 + tot_len];
    let pseudo = sum_words(&frame[26..34]) + frame[23] as u32 + l4.len() as u32;
    fold(pseudo + sum_words(l4)) == 0xffff
}

fn tcp_frame(from: Endpoint, to: Endpoint, flags: u8, seq: u32, ack: u32, payload: &[u8]) -> Vec<u8> {
    let mut f = Vec::new();
    f.extend_from_slice(&GATEWAY_MAC);
    f.extend_from_slice(&CLIENT_MAC);
    f.extend_from_slice(&[0x08, 0x00]);
    let tot_len = (20 + 20 + payload.len()) as u16;
    f.extend_from_slice(&[0x45, 0x00]);
    f.extend_from_slice(&tot_len.to_be_bytes());
    f.extend_from_slice(&[0x12, 0x34, 0x40, 0x00, 64, 6, 0, 0]);
    f.extend_from_slice(&from.ip.to_be_bytes());
    f.extend_from_slice(&to.ip.to_be_bytes());
    f.extend_from_slice(&from.port.to_be_bytes());
    f.extend_from_slice(&to.port.to_be_bytes());
    f.extend_from_slice(&seq.to_be_bytes());
    f.extend_from_slice(&ack.to_be_bytes());
    f.extend_from_slice(&[0x50, flags, 0xff, 0xff, 0, 0, 0, 0]);
    f.extend_from_slice(payload);
    let c = !fold(sum_words(&f[14..34]));
    f[24..26].copy_from_slice(&c.to_be_bytes());
    let l4_len = f.len() - 34;
    let pseudo = sum_words(&f[26..34]) + 6 + l4_len as u32;
    let c = !fold(pseudo + sum_words(&f[34..]));
    f[50..52].copy_from_slice(&c.to_be_bytes());
    f
}

fn udp_frame(from: Endpoint, to: Endpoint, payload: &[u8]) -> Vec<u8> {
    let mut f = Vec::new();
    f.extend_from_slice(&GATEWAY_MAC);
    f.extend_from_slice(&CLIENT_MAC);
    f.extend_from_slice(&[0x08, 0x00]);
    let tot_len = (20 + 8 + payload.len()) as u16;
    f.extend_from_slice(&[0x45, 0x00]);
    f.extend_from_slice(&tot_len.to_be_bytes());
    f.extend_from_slice(&[0x12, 0x34, 0x40, 0x00, 64, 17, 0, 0]);
    f.extend_from_slice(&from.ip.to_be_bytes());
    f.extend_from_slice(&to.ip.to_be_bytes());
    f.extend_from_slice(&from.port.to_be_bytes());
    f.extend_from_slice(&to.port.to_be_bytes());
    f.extend_from_slice(&((8 + payload.len()) as u16).to_be_bytes());
    f.extend_from_slice(&[0, 0]);
    f.extend_from_slice(payload);
    let c = !fold(sum_words(&f[14..34]));
    f[24..26].copy_from_slice(&c.to_be_bytes());
    let l4_len = f.len() - 34;
    let pseudo = sum_words(&f[26..34]) + 17 + l4_len as u32;
    let c = !fold(pseudo + sum_words(&f[34..]));
    f[40..42].copy_from_slice(&c.to_be_bytes());
    f
}

fn tuple_of(frame: &[u8]) -> (Endpoint, Endpoint) {
    (
        Endpoint {
            ip: u32::from_be_bytes([frame[26], frame[27], frame[28], frame[29]]),
            port: u16::from_be_bytes([frame[34], frame[35]]),
        },
        Endpoint {
            ip: u32::from_be_bytes([frame[30], frame[31], frame[32], frame[33]]),
            port: u16::from_be_bytes([frame[36], frame[37]]),
        },
    )
}

fn client() -> Endpoint {
    ep(10, 0, 0, 1, 40000)
}

fn service() -> Endpoint {
    ep(10, 0, 0, 100, 8080)
}

fn backend() -> Endpoint {
    ep(10, 0, 0, 200, 80)
}

fn local(port: u16) -> Endpoint {
    ep(10, 0, 0, 2, port)
}

fn gateway(ports: u32) -> SharedMaps {
    let mut config = MapsConfig::standard();
    config.port_count = ports;
    let mut maps = SharedMaps::new(config);
    assert!(maps.local_ips.insert(1, ip(10, 0, 0, 2)));
    maps
}

fn gateway_with_backend(ports: u32) -> SharedMaps {
    let mut maps = gateway(ports);
    assert!(maps.install_backend(service().to_k_endpoint(), backend().to_k_endpoint()));
    maps
}

fn key(from: Endpoint, to: Endpoint) -> KConnection {
    KConnection { from: from.to_k_endpoint(), to: to.to_k_endpoint() }
}

#[test]
fn fold_helper_complements_the_folded_sum() {
    assert_eq!(csum_fold_helper(0), 0xffff);
    assert_eq!(csum_fold_helper(0x1234), 0xedcb);
    assert_eq!(csum_fold_helper(0xffff), 0);
    assert_eq!(csum_fold_helper(0x1_0000), 0xfffe);
    assert_eq!(csum_fold_helper(0x1234_5678), 0x9753);
    assert_eq!(csum_fold_helper(0x1_ffff), 0xfffe);
    assert_eq!(csum_fold_helper(u64::MAX), 0);
    assert_eq!(csum_fold_helper(0xffff_ffff_ffff_fffe), 1);
}

#[test]
fn csum_diff_adds_complement_new_word_and_seed() {
    assert_eq!(csum_diff(0, 0, 0), 0xffff_ffff);
    assert_eq!(csum_diff(0xffff_ffff, 5, 7), 12);
    assert_eq!(csum_diff(1, 0xffff_ffff, 0xffff_ffff), 0xffff_fffe + 0xffff_ffff + 0xffff_ffff);
}

#[test]
fn csum_update_follows_the_changed_word() {
    // A header word changes from 0x0a000064 to 0x0a0000c8 (read in network order).
    let old_word = u32::from_le_bytes([10, 0, 0, 100]);
    let new_word = u32::from_le_bytes([10, 0, 0, 200]);
    let check = u16::from_le_bytes([0x12, 0x34]);
    let updated = csum_update(check, old_word, new_word);
    // Big-endian arithmetic: HC' = ~(~HC + ~m + m').
    let hc = 0x1234u32;
    let expect = !fold((!hc & 0xffff) + (0xffff - 0x0a00) + (0xffff - 0x0064) + 0x0a00 + 0x00c8);
    assert_eq!(updated.to_le_bytes(), expect.to_be_bytes());
}

#[test]
fn classify_takes_ipv4_tcp_and_udp_within_bounds() {
    let tcp = tcp_frame(client(), service(), 0x02, 1, 0, &[]);
    assert_eq!(tcp.len(), 54);
    assert_eq!(classify(&tcp), Some(L4Hdr::TcpHdr));
    assert_eq!(classify(&tcp[..53].to_vec()), None);
    let udp = udp_frame(client(), service(), &[]);
    assert_eq!(udp.len(), 42);
    assert_eq!(classify(&udp), Some(L4Hdr::UdpHdr));
    assert_eq!(classify(&udp[..41].to_vec()), None);
    assert_eq!(classify(&tcp[..33].to_vec()), None);
    assert_eq!(classify(&tcp[..13].to_vec()), None);
    assert_eq!(classify(&Vec::new()), None);
    let mut arp = tcp.clone();
    arp[13] = 0x06;
    assert_eq!(classify(&arp), None);
    let mut icmp = tcp.clone();
    icmp[23] = 1;
    assert_eq!(classify(&icmp), None);
}

#[test]
fn short_or_foreign_frames_pass_untouched() {
    let mut maps = gateway_with_backend(50000);
    let mut short = tcp_frame(client(), service(), 0x02, 1, 0, &[])[..40].to_vec();
    let before = short.clone();
    assert_eq!(try_xdp_firewall(&mut maps, &mut short, 1), XdpAction::Pass);
    assert_eq!(short, before);
    let mut v6 = tcp_frame(client(), service(), 0x02, 1, 0, &[]);
    v6[12] = 0x86;
    v6[13] = 0xdd;
    let before = v6.clone();
    assert_eq!(try_xdp_firewall(&mut maps, &mut v6, 1), XdpAction::Pass);
    assert_eq!(v6, before);
    assert_eq!(maps.flow.flow_count(), 0);
    assert_eq!(maps.ip_mac.len(), 0);
    assert_eq!(maps.flow.free_ports(), 50000);
}

#[test]
fn new_flow_is_rewritten_to_the_backend() {
    let mut maps = gateway_with_backend(50000);
    assert!(maps.ip_mac.insert(ip(10, 0, 0, 200).swap_bytes(), Mac::new(&BACKEND_MAC)));
    let mut frame = tcp_frame(client(), service(), 0x02, 1000, 0, b"hello");
    let sent = frame.clone();
    assert!(ip_checksum_verifies(&frame) && l4_checksum_verifies(&frame));
    assert_eq!(try_xdp_firewall(&mut maps, &mut frame, 1), XdpAction::Tx);
    assert_eq!(tuple_of(&frame), (local(10000), backend()));
    assert_eq!(frame[23], 6);
    assert!(ip_checksum_verifies(&frame));
    assert!(l4_checksum_verifies(&frame));
    assert_eq!(&frame[6..12], &GATEWAY_MAC);
    assert_eq!(&frame[0..6], &BACKEND_MAC);
    assert_eq!(&frame[12..24], &sent[12..24]);
    assert_eq!(&frame[38..50], &sent[38..50]);
    assert_eq!(&frame[52..], &sent[52..]);
    assert_eq!(frame.len(), sent.len());
    // both entries are there
    assert_eq!(maps.flow.flow(&key(client(), service())), Some(key(local(10000), backend())));
    assert_eq!(maps.flow.flow(&key(backend(), local(10000))), Some(key(service(), client())));
    assert_eq!(maps.flow.flow_count(), 2);
    assert_eq!(maps.flow.free_ports(), 49999);
    assert_eq!(maps.flow.free_port(0), Some(10001));
    // the addresses of the frame were learned
    assert_eq!(maps.ip_mac.get(&ip(10, 0, 0, 1).swap_bytes()), Some(Mac::new(&CLIENT_MAC)));
    assert_eq!(maps.ip_mac.get(&ip(10, 0, 0, 100).swap_bytes()), Some(Mac::new(&GATEWAY_MAC)));
    // a SYN is not announced
    assert_eq!(maps.packet_events.len(), 0);
}

#[test]
fn unknown_next_hop_falls_back_to_the_old_source() {
    let mut maps = gateway_with_backend(50000);
    let mut frame = tcp_frame(client(), service(), 0x02, 1000, 0, &[]);
    assert_eq!(try_xdp_firewall(&mut maps, &mut frame, 1), XdpAction::Tx);
    assert_eq!(&frame[6..12], &GATEWAY_MAC);
    assert_eq!(&frame[0..6], &CLIENT_MAC);
}

#[test]
fn reply_is_rewritten_back_to_the_client() {
    let mut maps = gateway_with_backend(50000);
    let mut syn = tcp_frame(client(), service(), 0x02, 1000, 0, &[]);
    assert_eq!(try_xdp_firewall(&mut maps, &mut syn, 1), XdpAction::Tx);
    let (out_from, out_to) = tuple_of(&syn);
    let mut reply = tcp_frame(out_to, out_from, 0x12, 5000, 1001, b"ok");
    assert_eq!(try_xdp_firewall(&mut maps, &mut reply, 1), XdpAction::Tx);
    assert_eq!(tuple_of(&reply), (service(), client()));
    assert!(ip_checksum_verifies(&reply));
    assert!(l4_checksum_verifies(&reply));
    // the client's address was learned from the first frame
    assert_eq!(&reply[0..6], &CLIENT_MAC);
    assert_eq!(maps.flow.flow_count(), 2);
    assert_eq!(maps.flow.free_ports(), 49999);
}

#[test]
fn udp_flow_is_rewritten_with_valid_checksums() {
    let mut maps = gateway_with_backend(50000);
    let mut frame = udp_frame(client(), service(), b"datagram!");
    assert_eq!(try_xdp_firewall(&mut maps, &mut frame, 1), XdpAction::Tx);
    assert_eq!(tuple_of(&frame), (local(10000), backend()));
    assert_eq!(frame[23], 17);
    assert!(ip_checksum_verifies(&frame));
    assert!(l4_checksum_verifies(&frame));
    assert_eq!(maps.packet_events.len(), 0);
}

#[test]
fn odd_payload_keeps_its_checksum_valid() {
    let mut maps = gateway_with_backend(50000);
    let mut frame = tcp_frame(client(), service(), 0x18, 7, 9, b"odd");
    // trailing bytes after the datagram are not covered by the checksum
    frame.extend_from_slice(&[0xaa, 0xbb, 0xcc]);
    assert!(l4_checksum_verifies(&frame));
    assert_eq!(try_xdp_firewall(&mut maps, &mut frame, 1), XdpAction::Tx);
    assert!(ip_checksum_verifies(&frame));
    assert!(l4_checksum_verifies(&frame));
    assert_eq!(&frame[frame.len() - 3..], &[0xaa, 0xbb, 0xcc]);
}

#[test]
fn cold_start_band_publishes_and_drops() {
    let mut maps = gateway(50000);
    let mut frame = tcp_frame(client(), service(), 0x02, 1, 0, &[]);
    let before = frame.clone();
    assert_eq!(try_xdp_firewall(&mut maps, &mut frame, 1), XdpAction::Drop);
    assert_eq!(frame, before);
    assert_eq!(maps.cold_start.len(), 1);
    assert_eq!(maps.cold_start.pop(), Some(service().to_k_endpoint()));
    assert_eq!(maps.flow.flow_count(), 0);
    assert_eq!(maps.flow.free_ports(), 50000);
    for port in [8000u16, 9999] {
        let mut frame = tcp_frame(client(), ep(10, 0, 0, 100, port), 0x02, 1, 0, &[]);
        assert_eq!(try_xdp_firewall(&mut maps, &mut frame, 1), XdpAction::Drop);
    }
    assert_eq!(maps.cold_start.len(), 2);
}

#[test]
fn out_of_band_destination_passes() {
    let mut maps = gateway(50000);
    for port in [22u16, 7999, 10000] {
        let mut frame = tcp_frame(client(), ep(10, 0, 0, 100, port), 0x02, 1, 0, &[]);
        let before = frame.clone();
        assert_eq!(try_xdp_firewall(&mut maps, &mut frame, 1), XdpAction::Pass);
        assert_eq!(frame, before);
    }
    assert_eq!(maps.cold_start.len(), 0);
    assert_eq!(maps.flow.flow_count(), 0);
    assert_eq!(maps.flow.free_ports(), 50000);
}

#[test]
fn full_cold_start_ring_still_drops() {
    let mut config = MapsConfig::standard();
    config.cold_start = 1;
    let mut maps = SharedMaps::new(config);
    for _ in 0..2 {
        let mut frame = tcp_frame(client(), service(), 0x02, 1, 0, &[]);
        assert_eq!(try_xdp_firewall(&mut maps, &mut frame, 1), XdpAction::Drop);
    }
    assert_eq!(maps.cold_start.len(), 1);
}

#[test]
fn port_exhaustion_drops_the_second_flow() {
    let mut maps = gateway_with_backend(1);
    assert_eq!(maps.flow.free_ports(), 1);
    let mut first = tcp_frame(client(), service(), 0x02, 1, 0, &[]);
    assert_eq!(try_xdp_firewall(&mut maps, &mut first, 1), XdpAction::Tx);
    assert_eq!(tuple_of(&first), (local(10000), backend()));
    let mut second = tcp_frame(ep(10, 0, 0, 1, 40001), service(), 0x02, 1, 0, &[]);
    let before = second.clone();
    assert_eq!(try_xdp_firewall(&mut maps, &mut second, 1), XdpAction::Drop);
    assert_eq!(second, before);
    assert_eq!(maps.flow.flow_count(), 2);
    assert_eq!(maps.flow.flow(&key(ep(10, 0, 0, 1, 40001), service())), None);
    assert_eq!(maps.flow.free_ports(), 0);
}

#[test]
fn missing_local_address_drops_after_taking_a_port() {
    let mut maps = gateway_with_backend(50000);
    let mut frame = tcp_frame(client(), service(), 0x02, 1, 0, &[]);
    let before = frame.clone();
    assert_eq!(try_xdp_firewall(&mut maps, &mut frame, 7), XdpAction::Drop);
    assert_eq!(frame, before);
    assert_eq!(maps.flow.flow_count(), 0);
    assert_eq!(maps.flow.free_ports(), 49999);
}

#[test]
fn full_flow_table_rolls_the_first_entry_back() {
    let mut config = MapsConfig::standard();
    config.flows = 1;
    let mut maps = SharedMaps::new(config);
    assert!(maps.local_ips.insert(1, ip(10, 0, 0, 2)));
    assert!(maps.install_backend(service().to_k_endpoint(), backend().to_k_endpoint()));
    let mut frame = tcp_frame(client(), service(), 0x02, 1, 0, &[]);
    let before = frame.clone();
    assert_eq!(try_xdp_firewall(&mut maps, &mut frame, 1), XdpAction::Drop);
    assert_eq!(frame, before);
    assert_eq!(maps.flow.flow_count(), 0);

    let mut config = MapsConfig::standard();
    config.flows = 0;
    let mut maps = SharedMaps::new(config);
    assert!(maps.local_ips.insert(1, ip(10, 0, 0, 2)));
    assert!(maps.install_backend(service().to_k_endpoint(), backend().to_k_endpoint()));
    let mut frame = tcp_frame(client(), service(), 0x02, 1, 0, &[]);
    assert_eq!(try_xdp_firewall(&mut maps, &mut frame, 1), XdpAction::Drop);
    assert_eq!(maps.flow.flow_count(), 0);
}

#[test]
fn full_mac_table_aborts() {
    let mut config = MapsConfig::standard();
    config.ip_mac = 1;
    let mut maps = SharedMaps::new(config);
    assert!(maps.local_ips.insert(1, ip(10, 0, 0, 2)));
    assert!(maps.install_backend(service().to_k_endpoint(), backend().to_k_endpoint()));
    let mut frame = tcp_frame(client(), service(), 0x02, 1, 0, &[]);
    let before = frame.clone();
    assert_eq!(try_xdp_firewall(&mut maps, &mut frame, 1), XdpAction::Aborted);
    assert_eq!(frame, before);
    // the source was learned before the table was found full
    assert_eq!(maps.ip_mac.len(), 1);
    assert_eq!(maps.ip_mac.get(&ip(10, 0, 0, 1).swap_bytes()), Some(Mac::new(&CLIENT_MAC)));
    assert_eq!(maps.flow.flow_count(), 0);
    let mut frame = tcp_frame(client(), service(), 0x02, 1, 0, &[]);
    assert_eq!(folonet(&mut maps, &mut frame, 1), 0);
}

#[test]
fn action_codes_are_the_kernels() {
    assert_eq!(XdpAction::Aborted.code(), 0);
    assert_eq!(XdpAction::Drop.code(), 1);
    assert_eq!(XdpAction::Pass.code(), 2);
    assert_eq!(XdpAction::Tx.code(), 3);
    let mut maps = gateway_with_backend(50000);
    let mut frame = tcp_frame(client(), service(), 0x02, 1, 0, &[]);
    assert_eq!(folonet(&mut maps, &mut frame, 1), 3);
    let mut frame = tcp_frame(client(), ep(10, 0, 0, 100, 22), 0x02, 1, 0, &[]);
    assert_eq!(folonet(&mut maps, &mut frame, 1), 2);
    let mut frame = tcp_frame(client(), ep(10, 0, 0, 100, 8081), 0x02, 1, 0, &[]);
    assert_eq!(folonet(&mut maps, &mut frame, 1), 1);
}

#[test]
fn fin_is_announced_with_both_tuples() {
    let mut maps = gateway_with_backend(50000);
    let mut syn = tcp_frame(client(), service(), 0x02, 1000, 0, &[]);
    assert_eq!(try_xdp_firewall(&mut maps, &mut syn, 1), XdpAction::Tx);
    let mut fin = tcp_frame(client(), service(), 0x11, 1001, 5001, &[]);
    assert_eq!(try_xdp_firewall(&mut maps, &mut fin, 1), XdpAction::Tx);
    assert_eq!(maps.packet_events.len(), 1);
    let n = maps.packet_events.pop().unwrap();
    assert_eq!(Endpoint::new(n.local_in_endpoint), service());
    assert_eq!(Endpoint::new(n.lcoal_out_endpoint), local(10000));
    assert_eq!(Endpoint::new(n.connection.from), client());
    assert_eq!(Endpoint::new(n.connection.to), backend());
    match n.event {
        Event::TcpPacket(p) => {
            assert!(p.is_fin() && p.is_ack() && !p.is_syn());
            assert_eq!(p.seq, 1001);
            assert_eq!(p.ack_seq, 5001);
        }
        Event::UdpPacket => panic!("a TCP event was expected"),
    }
    // the way back is announced from the server's side
    let mut fin = tcp_frame(backend(), local(10000), 0x11, 5001, 1002, &[]);
    assert_eq!(try_xdp_firewall(&mut maps, &mut fin, 1), XdpAction::Tx);
    let n = maps.packet_events.pop().unwrap();
    assert_eq!(Endpoint::new(n.local_in_endpoint), local(10000));
    assert_eq!(Endpoint::new(n.lcoal_out_endpoint), service());
    assert_eq!(Endpoint::new(n.connection.from), backend());
    assert_eq!(Endpoint::new(n.connection.to), client());
}

#[test]
fn full_event_ring_skips_the_announcement() {
    let mut config = MapsConfig::standard();
    config.packet_events = 1;
    let mut maps = SharedMaps::new(config);
    assert!(maps.local_ips.insert(1, ip(10, 0, 0, 2)));
    assert!(maps.install_backend(service().to_k_endpoint(), backend().to_k_endpoint()));
    for seq in [1u32, 2] {
        let mut fin = tcp_frame(client(), service(), 0x01, seq, 0, &[]);
        assert_eq!(try_xdp_firewall(&mut maps, &mut fin, 1), XdpAction::Tx);
    }
    assert_eq!(maps.packet_events.len(), 1);
}

#[test]
fn doorbell_ticks_the_performance_table() {
    let mut maps = gateway_with_backend(50000);
    let vip = service().to_k_endpoint();
    let mut frame = tcp_frame(client(), service(), 0x02, 1, 0, &[]);
    assert_eq!(try_xdp_firewall(&mut maps, &mut frame, 1), XdpAction::Tx);
    assert_eq!(maps.performance.get(&vip), None);
    assert!(maps.doorbell.insert(vip, 1));
    let mut frame = tcp_frame(client(), service(), 0x10, 2, 0, &[]);
    assert_eq!(try_xdp_firewall(&mut maps, &mut frame, 1), XdpAction::Tx);
    assert_eq!(maps.performance.get(&vip), Some(1));
    // an unarmed doorbell counts nothing
    assert!(maps.performance.insert(vip, 0));
    assert!(maps.doorbell.insert(vip, 0));
    let mut frame = tcp_frame(client(), service(), 0x10, 3, 0, &[]);
    assert_eq!(try_xdp_firewall(&mut maps, &mut frame, 1), XdpAction::Tx);
    assert_eq!(maps.performance.get(&vip), Some(0));
    // the reply rings the doorbell of the endpoint it leaves from
    assert!(maps.doorbell.insert(vip, 1));
    let mut reply = tcp_frame(backend(), local(10000), 0x10, 9, 4, &[]);
    assert_eq!(try_xdp_firewall(&mut maps, &mut reply, 1), XdpAction::Tx);
    assert_eq!(maps.performance.get(&vip), Some(1));
    assert_eq!(maps.performance.get(&local(10000).to_k_endpoint()), None);
}

#[test]
fn update_csum_refuses_a_word_outside_the_frame() {
    let mut frame = udp_frame(client(), service(), &[]);
    let before = frame.clone();
    assert_eq!(update_csum(&mut frame, &L4Hdr::UdpHdr, 39, 1, false), Err(()));
    assert_eq!(update_csum(&mut frame, &L4Hdr::UdpHdr, usize::MAX, 1, false), Err(()));
    assert_eq!(frame, before);
    assert_eq!(update_csum(&mut frame, &L4Hdr::UdpHdr, 38, 1, false), Ok(()));
    assert_ne!(frame, before);
    assert_eq!(&frame[..40], &before[..40]);
}

#[test]
fn many_flows_keep_the_tables_paired() {
    let mut maps = gateway_with_backend(50000);
    for i in 0..200u16 {
        let c = ep(10, 0, 1, (i % 250) as u8, 20000 + i);
        let mut frame = tcp_frame(c, service(), 0x02, 1, 0, &[]);
        assert_eq!(try_xdp_firewall(&mut maps, &mut frame, 1), XdpAction::Tx);
        let (from, to) = tuple_of(&frame);
        assert_eq!(from, local(10000 + i));
        assert_eq!(maps.flow.flow(&key(c, service())), Some(key(from, to)));
        assert_eq!(maps.flow.flow(&key(to, from)), Some(key(service(), c)));
    }
    assert_eq!(maps.flow.flow_count(), 400);
    assert_eq!(maps.flow.free_ports(), 50000 - 200);
    // no port of the pool is in use by a flow
    for i in 0..maps.flow.free_ports() {
        let p = maps.flow.free_port(i).unwrap();
        assert!(p >= 10200);
        let back = key(backend(), local(p));
        assert_eq!(maps.flow.flow(&back), None);
    }
}

#[test]
fn checksum_verifiers_agree_with_the_definition() {
    let tcp = tcp_frame(client(), service(), 0x18, 1, 2, b"payload");
    assert!(ipv4_checksum_verifies(&tcp));
    assert!(l4_verifies(&tcp, &L4Hdr::TcpHdr));
    assert_eq!(ip_checksum_verifies(&tcp), ipv4_checksum_verifies(&tcp));
    let udp = udp_frame(client(), service(), b"odd");
    assert!(ipv4_checksum_verifies(&udp));
    assert!(l4_verifies(&udp, &L4Hdr::UdpHdr));
    // a flipped bit anywhere under a checksum is noticed
    for i in 14..tcp.len() {
        let mut broken = tcp.clone();
        broken[i] ^= 0x10;
        let header = i < 34;
        let lengths = i == 16 || i == 17;
        if header {
            assert!(!ipv4_checksum_verifies(&broken), "byte {}", i);
        } else {
            assert!(ipv4_checksum_verifies(&broken), "byte {}", i);
        }
        if i >= 26 || lengths || i == 23 {
            assert!(!l4_verifies(&broken, &L4Hdr::TcpHdr), "byte {}", i);
        }
    }
    // a header with options, a short frame and a datagram that ends outside
    // the frame do not verify
    let mut options = tcp.clone();
    options[14] = 0x46;
    assert!(!ipv4_checksum_verifies(&options));
    assert!(!l4_verifies(&options, &L4Hdr::TcpHdr));
    assert!(!ipv4_checksum_verifies(&tcp[..33].to_vec()));
    assert!(!l4_verifies(&tcp[..tcp.len() - 1].to_vec(), &L4Hdr::TcpHdr));
    assert!(!ipv4_checksum_verifies(&vec![0u8; 60]));
    assert!(!l4_verifies(&vec![0u8; 60], &L4Hdr::TcpHdr));
    // rewritten frames verify by the library's own measure
    let mut maps = gateway_with_backend(50000);
    let mut frame = tcp.clone();
    assert_eq!(try_xdp_firewall(&mut maps, &mut frame, 1), XdpAction::Tx);
    assert!(ipv4_checksum_verifies(&frame));
    assert!(l4_verifies(&frame, &L4Hdr::TcpHdr));
    let mut frame = udp.clone();
    assert_eq!(try_xdp_firewall(&mut maps, &mut frame, 1), XdpAction::Tx);
    assert!(ipv4_checksum_verifies(&frame));
    assert!(l4_verifies(&frame, &L4Hdr::UdpHdr));
}

#[test]
fn invalid_checksum_is_not_repaired() {
    let mut maps = gateway_with_backend(50000);
    let mut frame = tcp_frame(client(), service(), 0x02, 1, 0, &[]);
    frame[50] ^= 0xff;
    frame[24] ^= 0x01;
    assert!(!l4_verifies(&frame, &L4Hdr::TcpHdr));
    assert!(!ipv4_checksum_verifies(&frame));
    assert_eq!(try_xdp_firewall(&mut maps, &mut frame, 1), XdpAction::Tx);
    assert_eq!(tuple_of(&frame), (local(10000), backend()));
    assert!(!l4_verifies(&frame, &L4Hdr::TcpHdr));
    assert!(!ipv4_checksum_verifies(&frame));
}
