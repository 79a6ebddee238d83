use folonet::endpoint::BiPort;
use folonet::endpoint::KEndpoint;
use folonet::endpoint::Mac;
use folonet::event::Packet;
use folonet::event::PacketFlag;
use folonet::notification::Notification;

fn build_ip_u32(a: i32, b: i32, c: i32, d: i32) -> u32 {
    ((a as u32) << 24) | ((b as u32) << 16) | ((c as u32) << 8) | (d as u32)
}

#[test]
fn test_packet() {
    let p = Packet {
        flag: PacketFlag::from_bits_truncate(PacketFlag::ACK | PacketFlag::SYN),
        ack_seq: 128,
        seq: 129,
    };

    let v: u128 = (&p).into();

    let got_p: Packet = v.into();

    assert_eq!(p, got_p);
}

#[test]
fn test_mac_from_into() {
    let addr: [u8; 6] = [0x1, 0x2, 0x3, 0x4, 0x5, 0x6];
    let mac: Mac = addr.into();
    let new_addr: [u8; 6] = mac.into();

    assert_eq!(new_addr, addr);
}

#[test]
fn test_endpoint() {
    let ip = build_ip_u32(192, 168, 174, 140);
    let port: u16 = 80;
    let endpoint = KEndpoint::new(ip.to_be(), port.to_be());

    assert_eq!(ip.to_be(), endpoint.ip());
    assert_eq!(port.to_be(), endpoint.port());
}

#[test]
fn test_bi_port() {
    let src_port = 8899u16.to_be();
    let dst_port = 80u16.to_be();

    let p = BiPort::new(src_port, dst_port);

    let (sp, dp) = p.split_net();

    assert_eq!(src_port, sp);
    assert_eq!(dst_port, dp);
}

#[test]
fn test_notification_align() {
    assert_eq!(8 % core::mem::align_of::<Notification>(), 0);
}
