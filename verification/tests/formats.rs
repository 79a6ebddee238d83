use std::collections::HashMap;

use folonet::config::ServiceConfig;
use folonet::endpoint::endpoint_pair_from_notification;
use folonet::endpoint::Connection;
use folonet::endpoint::Endpoint;
use folonet::endpoint::KConnection;
use folonet::endpoint::KEndpoint;
use folonet::endpoint::Mac;
use folonet::endpoint::UConnection;
use folonet::endpoint::UEndpoint;
use folonet::event::Event;
use folonet::event::Packet;
use folonet::event::PacketFlag;
use folonet::frame::TcpHdr;
use folonet::message::Message;
use folonet::message::MessageType;
use folonet::message::PacketMsg;
use folonet::message::PacketMsgType;
use folonet::notification::Notification;
use folonet::notification::NOTIFICATION_SIZE;
use folonet::order::swap16;
use folonet::order::swap32;
use folonet::parse::mac_from_string;
use folonet::parse::parse_endpoint;
use folonet::parse::parse_ipv4;
use folonet::parse::parse_mac;
use folonet::parse::set_server_ip;
use folonet::queue::Queue;
use folonet::queue::UQueue;
use folonet::endpoint::Direction;

fn build_ip_u32(a: i32, b: i32, c: i32, d: i32) -> u32 {
    ((a as u32) << 24) | ((b as u32) << 16) | ((c as u32) << 8) | (d as u32)
}

#[test]
fn map_test() {
    let mut map: HashMap<i32, i32> = HashMap::new();

    map.insert(4, 5);

    let v = map.get(&3).or_else(|| map.get(&4)).unwrap();

    assert_eq!(*v, 5);
}

#[test]
fn test_notification_write_read_bytes() {
    let ip = build_ip_u32(192, 168, 174, 140);
    let port: u16 = 80;
    let endpoint = KEndpoint::new(ip.to_be(), port.to_be());
    let connection = KConnection { from: endpoint, to: endpoint };

    let packet = Packet {
        flag: PacketFlag::from_bits_truncate(PacketFlag::ACK | PacketFlag::SYN),
        ack_seq: 128,
        seq: 129,
    };

    let notification = Notification {
        local_in_endpoint: endpoint,
        lcoal_out_endpoint: endpoint,
        connection,
        event: Event::TcpPacket(packet),
    };

    let buffer = notification.to_bytes();

    let bs: &[u8] = &buffer[..];

    let got_notification = Notification::from_bytes(bs).unwrap();

    assert_eq!(notification, got_notification);
}

#[test]
fn test_connection_map() {
    let endpoint1 = Endpoint { ip: build_ip_u32(1, 2, 3, 4), port: 80 };
    let endpoint2 = Endpoint { ip: build_ip_u32(4, 2, 3, 4), port: 89 };

    let connection = Connection { from: endpoint1, to: endpoint2 };

    let other_connection = Connection { from: endpoint2, to: endpoint1 };

    let map = HashMap::from([(connection.key(), 2)]);

    assert_eq!(connection.from, other_connection.to);
    assert_eq!(connection.to, other_connection.from);

    assert!(connection == other_connection);

    let self3 = &connection;
    let other = &other_connection;
    assert!(
        (self3.from == other.from && self3.to == other.to)
            || (self3.to == other.from && self3.from == other.to)
    );

    assert!(map.get(&connection.key()).is_some());

    assert!(map.get(&other_connection.key()).is_some());
}

#[test]
fn notification_record_layout() {
    let n = Notification {
        local_in_endpoint: KEndpoint::new(0x04030201, 0x0605),
        lcoal_out_endpoint: KEndpoint::new(0x14131211, 0x1615),
        connection: KConnection {
            from: KEndpoint::new(0x24232221, 0x2625),
            to: KEndpoint::new(0x34333231, 0x3635),
        },
        event: Event::TcpPacket(Packet { flag: PacketFlag(6), ack_seq: 0x48474645, seq: 0x44434241 }),
    };
    let bytes = n.to_bytes();
    assert_eq!(bytes.len(), NOTIFICATION_SIZE);
    assert_eq!(NOTIFICATION_SIZE, 48);
    let expected: Vec<u8> = vec![
        1, 2, 3, 4, 5, 6, 0, 0, //
        0x11, 0x12, 0x13, 0x14, 0x15, 0x16, 0, 0, //
        0x21, 0x22, 0x23, 0x24, 0x25, 0x26, 0, 0, //
        0x31, 0x32, 0x33, 0x34, 0x35, 0x36, 0, 0, //
        0x41, 0x42, 0x43, 0x44, 0x45, 0x46, 0x47, 0x48, //
        6, 0, 0, 0, 0, 0, 0, 1,
    ];
    assert_eq!(bytes, expected);
    // the record is the little-endian form of the packed keys and event
    assert_eq!(&bytes[0..8], &n.local_in_endpoint.key().to_le_bytes());
    let mut flow = Vec::new();
    flow.extend_from_slice(&n.connection.from.key().to_le_bytes());
    flow.extend_from_slice(&n.connection.to.key().to_le_bytes());
    assert_eq!(&bytes[16..32], &flow[..]);
    assert_eq!(&bytes[32..48], &n.event.to_bits().to_le_bytes());
    assert_eq!(Notification::from_bytes(&bytes), Some(n));
    assert!(n.is_tcp());
}

#[test]
fn notification_decoding_rejects_short_and_unknown() {
    let n = Notification {
        local_in_endpoint: KEndpoint::new(1, 2),
        lcoal_out_endpoint: KEndpoint::new(3, 4),
        connection: KConnection { from: KEndpoint::new(5, 6), to: KEndpoint::new(7, 8) },
        event: Event::UdpPacket,
    };
    let bytes = n.to_bytes();
    assert_eq!(bytes[47], 2);
    assert_eq!(Notification::from_bytes(&bytes), Some(n));
    assert!(!Notification::from_bytes(&bytes).unwrap().is_tcp());
    assert_eq!(Notification::from_bytes(&bytes[..47]), None);
    assert_eq!(Notification::from_bytes(&[]), None);
    for tag in [0u8, 3, 255] {
        let mut unknown = bytes.clone();
        unknown[47] = tag;
        assert_eq!(Notification::from_bytes(&unknown), None);
    }
    // longer records are read from their first 48 bytes
    let mut longer = bytes.clone();
    longer.extend_from_slice(&[9, 9]);
    assert_eq!(Notification::from_bytes(&longer), Some(n));
    // unknown flag bits are dropped
    let mut noisy = n;
    noisy.event = Event::TcpPacket(Packet { flag: PacketFlag(0xf5), ack_seq: 1, seq: 2 });
    let decoded = Notification::from_bytes(&noisy.to_bytes()).unwrap();
    assert_eq!(decoded.event, Event::TcpPacket(Packet { flag: PacketFlag(5), ack_seq: 1, seq: 2 }));
}

#[test]
fn event_bits_carry_the_tag_on_top() {
    let p = Packet { flag: PacketFlag(5), ack_seq: 0x0a0b0c0d, seq: 0x01020304 };
    assert_eq!(p.to_bits(), (5u128 << 64) | (0x0a0b0c0du128 << 32) | 0x01020304);
    let e = Event::TcpPacket(p);
    assert_eq!(e.type_id(), 1);
    assert_eq!(Event::UdpPacket.type_id(), 2);
    assert_eq!(e.to_bits(), (1u128 << 120) | p.to_bits());
    assert_eq!(Event::UdpPacket.to_bits(), 2u128 << 120);
    assert_eq!(Event::from_bits(e.to_bits()), Some(e));
    assert_eq!(Event::from_bits(2u128 << 120), Some(Event::UdpPacket));
    assert_eq!(Event::from_bits(0), None);
    assert_eq!(Event::from_bits(3u128 << 120), None);
    assert_eq!(Packet::from_bits(u128::MAX), Packet { flag: PacketFlag(7), ack_seq: u32::MAX, seq: u32::MAX });
}

#[test]
fn packet_flags() {
    let mut f = PacketFlag::empty();
    assert_eq!(f.bits(), 0);
    assert!(!f.contains(PacketFlag::SYN));
    f.insert(PacketFlag::SYN);
    f.insert(PacketFlag::ACK);
    assert_eq!(f.bits(), 5);
    assert!(f.contains(PacketFlag::SYN) && f.contains(PacketFlag::ACK) && !f.contains(PacketFlag::FIN));
    assert!(f.contains(PacketFlag::SYN | PacketFlag::ACK));
    assert!(!f.contains(PacketFlag::SYN | PacketFlag::FIN));
    assert_eq!(f.union(PacketFlag(2)), PacketFlag(7));
    assert_eq!(PacketFlag::from_bits_truncate(0xffff_fffa), PacketFlag(2));
    let p = Packet { flag: PacketFlag(2), ack_seq: 0, seq: 0 };
    assert!(p.is_fin() && !p.is_syn() && !p.is_ack());
}

#[test]
fn packet_from_tcp_header() {
    let hdr = TcpHdr { source: 1, dest: 2, seq: 0x78563412, ack_seq: 0x01000000, flags: 0x12 };
    assert_eq!((hdr.fin(), hdr.syn(), hdr.ack()), (0, 1, 1));
    let p = Packet::new(&hdr);
    assert_eq!(p, Packet { flag: PacketFlag(5), ack_seq: 1, seq: 0x12345678 });
    assert_eq!(Event::new_packet_event(&hdr), Event::TcpPacket(p));
    let hdr = TcpHdr { source: 1, dest: 2, seq: 0, ack_seq: 0, flags: 0x29 };
    assert_eq!((hdr.fin(), hdr.syn(), hdr.ack()), (1, 0, 0));
    assert_eq!(Packet::new(&hdr).flag, PacketFlag(2));
}

#[test]
fn byte_order_swaps() {
    assert_eq!(swap16(0x1234), 0x3412);
    assert_eq!(swap16(80), 80u16.swap_bytes());
    assert_eq!(swap32(0x12345678), 0x78563412);
    assert_eq!(swap32(0xff000001), 0x010000ff);
    for x in [0u32, 1, 0xdeadbeef, u32::MAX] {
        assert_eq!(swap32(swap32(x)), x);
        assert_eq!(swap32(x), x.swap_bytes());
    }
}

#[test]
fn endpoints_convert_between_host_and_network_order() {
    let e = Endpoint { ip: build_ip_u32(10, 0, 0, 100), port: 8080 };
    let k = e.to_k_endpoint();
    assert_eq!(k.ip().to_le_bytes(), [10, 0, 0, 100]);
    assert_eq!(k.port().to_le_bytes(), 8080u16.to_be_bytes());
    assert_eq!(Endpoint::new(k), e);
    assert_eq!(e.to_u_endpoint(), UEndpoint::new(k));
    assert_eq!(k.key(), ((k.port() as u64) << 32) | k.ip() as u64);
    assert_eq!(KEndpoint::from_key(k.key()), k);
    assert_eq!(KEndpoint::from_key(u64::MAX), KEndpoint::new(u32::MAX, u16::MAX));
    assert_eq!(e.key(), ((e.ip as u64) << 16) | 8080);
    let other = Endpoint { ip: build_ip_u32(10, 0, 0, 1), port: 40000 };
    let u = UConnection::new(other, e);
    assert_eq!(u.0, KConnection { from: other.to_k_endpoint(), to: k });
    assert_eq!(u.0.reverse(), KConnection { from: k, to: other.to_k_endpoint() });
    assert_eq!(u.0.key(), ((other.to_k_endpoint().key() as u128) << 64) | k.key() as u128);
    let c = Connection { from: other, to: e };
    assert_eq!(c.to_k_connection(), u.0);
    assert!(c != Connection { from: other, to: other });
    assert_eq!(c.key(), ((other.key() as u128) << 64) | e.key() as u128);
    assert_eq!((Connection { from: e, to: other }).key(), c.key());
    // the derived order is by port first, as that of the 64-bit key
    assert!(KEndpoint::new(9, 1) < KEndpoint::new(1, 2));
    assert!(KEndpoint::new(1, 2) < KEndpoint::new(2, 2));
}

#[test]
fn endpoint_text() {
    let e = Endpoint { ip: build_ip_u32(10, 0, 0, 100), port: 8080 };
    assert_eq!(e.to_string(), "10.0.0.100:8080");
    assert_eq!(Endpoint { ip: 0, port: 0 }.to_string(), "0.0.0.0:0");
    assert_eq!(Endpoint { ip: u32::MAX, port: u16::MAX }.to_string(), "255.255.255.255:65535");
    assert_eq!(parse_endpoint("10.0.0.100:8080"), Some(e));
    assert_eq!(parse_endpoint(&e.to_string()), Some(e));
    assert_eq!(parse_endpoint("255.255.255.255:65535"), Some(Endpoint { ip: u32::MAX, port: 65535 }));
    assert_eq!(parse_endpoint("0.0.0.0:0"), Some(Endpoint { ip: 0, port: 0 }));
    assert_eq!(parse_endpoint("1.2.3.4:00080"), Some(Endpoint { ip: 0x01020304, port: 80 }));
    for bad in [
        "", "1.2.3.4", "1.2.3.4:", ":80", "1.2.3:80", "1.2.3.4.5:80", "256.1.1.1:80", "1.2.3.4:65536",
        "01.2.3.4:80", "1.2.3.4:8a", "1.2.3.4 :80", " 1.2.3.4:80", "1..3.4:80", "1.2.3.4:80:90",
        "[::1]:80", "1.2.3.4:-1", "1.2.3.4:+1", "1.2.3.1000:80", "a.b.c.d:80", "1.2.3.4:99999999999",
    ] {
        assert_eq!(parse_endpoint(bad), None, "{:?}", bad);
    }
    assert_eq!(Endpoint::from_string(&"192.168.174.140:80".to_string()), Endpoint {
        ip: build_ip_u32(192, 168, 174, 140),
        port: 80,
    });
}

#[test]
fn ipv4_text() {
    assert_eq!(parse_ipv4("10.0.0.2"), Some(build_ip_u32(10, 0, 0, 2)));
    assert_eq!(parse_ipv4("0.0.0.0"), Some(0));
    assert_eq!(parse_ipv4("255.255.255.255"), Some(u32::MAX));
    for bad in ["", "1.2.3", "1.2.3.4.5", "1.2.3.256", "1.2.3.04", "1.2.3.4:80", "1.2.3.", ".1.2.3", "1,2,3,4"] {
        assert_eq!(parse_ipv4(bad), None, "{:?}", bad);
    }
    let mut ips = std::collections::HashSet::new();
    set_server_ip(&mut ips, &"10.0.0.200".to_string());
    set_server_ip(&mut ips, &"10.0.0.201".to_string());
    set_server_ip(&mut ips, &"10.0.0.200".to_string());
    assert_eq!(ips.len(), 2);
    assert!(ips.contains(&build_ip_u32(10, 0, 0, 200)));
}

#[test]
fn mac_text() {
    let m = mac_from_string(&"00:1A:2b:3c:4D:ff".to_string());
    assert_eq!(m.val(), 0x001a2b3c4dff);
    assert_eq!(m, Mac::new(&[0x00, 0x1a, 0x2b, 0x3c, 0x4d, 0xff]));
    let bytes: [u8; 6] = m.into();
    assert_eq!(bytes, [0x00, 0x1a, 0x2b, 0x3c, 0x4d, 0xff]);
    assert_eq!(parse_mac("1:2:3:4:5:6"), Some(Mac(0x010203040506)));
    assert_eq!(parse_mac("+1:002:3:4:5:6"), Some(Mac(0x010203040506)));
    for bad in [
        "", "1:2:3:4:5", "1:2:3:4:5:6:7", "1:2:3:4:5:", ":2:3:4:5:6", "1:2:3:4:5:100", "1:2:3:4:5:g",
        "1-2-3-4-5-6", "1:2:3:4:5:+", "1:2:3:4:5:-6", "0x1:2:3:4:5:6",
    ] {
        assert_eq!(parse_mac(bad), None, "{:?}", bad);
    }
    // what stands above 48 bits is dropped on the way out
    assert_eq!(Mac(0xffff_0102_0304_0506).octets(), [1, 2, 3, 4, 5, 6]);
    let from_ref: Mac = (&[1u8, 2, 3, 4, 5, 6]).into();
    assert_eq!(from_ref.val(), 0x010203040506);
}

#[test]
fn service_config_validity() {
    let good = ServiceConfig {
        name: "web".to_string(),
        local_endpoint: "10.0.0.100:8080".to_string(),
        servers: vec!["10.0.0.200:80".to_string(), "10.0.0.201:80".to_string()],
        is_tcp: true,
    };
    assert!(good.is_valid());
    let bad_local = ServiceConfig {
        name: "web".to_string(),
        local_endpoint: "10.0.0.100".to_string(),
        servers: vec![],
        is_tcp: true,
    };
    assert!(!bad_local.is_valid());
    let bad_server = ServiceConfig {
        name: "web".to_string(),
        local_endpoint: "10.0.0.100:8080".to_string(),
        servers: vec!["10.0.0.200:80".to_string(), "nowhere".to_string()],
        is_tcp: true,
    };
    assert!(!bad_server.is_valid());
}

#[test]
fn messages_name_client_and_server() {
    let client = Endpoint { ip: build_ip_u32(10, 0, 0, 1), port: 40000 };
    let service = Endpoint { ip: build_ip_u32(10, 0, 0, 100), port: 8080 };
    let local = Endpoint { ip: build_ip_u32(10, 0, 0, 2), port: 10000 };
    let backend = Endpoint { ip: build_ip_u32(10, 0, 0, 200), port: 80 };
    let packet = Packet { flag: PacketFlag(2), ack_seq: 0, seq: 9 };
    let forward = Notification {
        local_in_endpoint: service.to_k_endpoint(),
        lcoal_out_endpoint: local.to_k_endpoint(),
        connection: KConnection { from: client.to_k_endpoint(), to: backend.to_k_endpoint() },
        event: Event::TcpPacket(packet),
    };
    assert_eq!(endpoint_pair_from_notification(&forward), (client, backend));
    let m = Message::from_notification(forward, true);
    assert_eq!((m.client, m.server, m.local_in, m.local_out), (client, backend, service, local));
    assert!(m.from_client);
    assert_eq!(m.msg_type, MessageType::Packet(PacketMsgType::TCP(packet)));
    assert!(m.connection() == Connection { from: backend, to: client });
    let back = Notification {
        local_in_endpoint: local.to_k_endpoint(),
        lcoal_out_endpoint: service.to_k_endpoint(),
        connection: KConnection { from: backend.to_k_endpoint(), to: client.to_k_endpoint() },
        event: Event::UdpPacket,
    };
    let b = Message::from_notification(back, false);
    assert_eq!((b.client, b.server, b.local_in, b.local_out), (client, backend, service, local));
    assert_eq!(b.msg_type, MessageType::Packet(PacketMsgType::UDP));
    assert_eq!(m.to_u_connections(), b.to_u_connections());
    assert_eq!(m.to_u_connections(), (UConnection::new(client, service), UConnection::new(backend, local)));

    let pm = PacketMsg::try_from(&m).unwrap();
    assert_eq!(pm, PacketMsg { from: client, to: backend, local_out_port: 10000, packet: Some(packet) });
    assert_eq!(pm.direction(&client), Direction::From);
    assert_eq!(pm.direction(&backend), Direction::To);
    assert_eq!(pm.direction(&service), Direction::To);
    let pb = PacketMsg::try_from(&b).unwrap();
    assert_eq!(pb, PacketMsg { from: backend, to: client, local_out_port: 10000, packet: None });
    assert!(pb.connection() == pm.connection());
    let mut close = m;
    close.msg_type = MessageType::Close;
    assert_eq!(PacketMsg::try_from(&close), Err(()));
}

#[test]
fn ring_is_first_in_first_out() {
    let mut q: Queue<u16> = Queue::new();
    for i in 0..100u16 {
        q.push(10000 + i);
    }
    for i in 0..100u16 {
        assert_eq!(q.pop(), 10000 + i);
    }
    // the ring wraps round
    for round in 0..3u32 {
        for i in 0..9000u32 {
            q.push((round * 9000 + i) as u16);
        }
        for i in 0..9000u32 {
            assert_eq!(q.pop(), (round * 9000 + i) as u16);
        }
    }
    let mut u: UQueue<u16> = UQueue::new();
    u.push(7);
    u.push(8);
    assert_eq!(u.pop(), 7);
    assert_eq!(u.pop(), 8);
}

#[test]
fn ring_overwrites_when_full() {
    let mut q: Queue<u32> = Queue::new();
    for i in 0..10000u32 {
        q.push(i + 1);
    }
    // head and tail meet again: the ring reads as empty, and a pop hands out
    // the slot at the head
    assert_eq!(q.pop(), 1);
    q.push(77777);
    assert_eq!(q.pop(), 2);
}

#[test]
fn endpoint_text_reads_back() {
    for e in [
        Endpoint { ip: 0, port: 0 },
        Endpoint { ip: 0x0100_0000, port: 1 },
        Endpoint { ip: 0x7f00_0001, port: 9 },
        Endpoint { ip: 0xc0a8_ae8c, port: 80 },
        Endpoint { ip: 0x0a0b_0c64, port: 9999 },
        Endpoint { ip: 0x6463_0a01, port: 10000 },
        Endpoint { ip: u32::MAX, port: u16::MAX },
    ] {
        assert_eq!(parse_endpoint(&e.to_string()), Some(e));
    }
}
