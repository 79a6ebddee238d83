use std::collections::HashSet;

use folonet::coldstart::service_of_reply;
use folonet::coldstart::ColdStartController;
use folonet::coldstart::Next;
use folonet::coldstart::Phase;
use folonet::coldstart::Request;
use folonet::config::ServiceConfig;
use folonet::datapath::try_xdp_firewall;
use folonet::datapath::XdpAction;
use folonet::endpoint::Connection;
use folonet::endpoint::Endpoint;
use folonet::endpoint::KConnection;
use folonet::endpoint::UConnection;
use folonet::engine::FlowStateEngine;
use folonet::event::Event;
use folonet::event::Packet;
use folonet::event::PacketFlag;
use folonet::maps::MapsConfig;
use folonet::maps::SharedMaps;
use folonet::message::CloseMsg;
use folonet::message::Message;
use folonet::message::MessageType;
use folonet::notification::Notification;
use folonet::roster::Roster;
use folonet::service::Service;
use folonet::state::tcp::Peer;
use folonet::state::ConnectionStateMgr;
use folonet::state::L4ConnState;
use folonet::table::Fifo;
use folonet::table::Table;
use folonet::tcp_fsm::TCPState;

const SYN: u32 = PacketFlag::SYN;
const FIN: u32 = PacketFlag::FIN;
const ACK: u32 = PacketFlag::ACK;

fn ip(a: u8, b: u8, c: u8, d: u8) -> u32 {
    u32::from_be_bytes([a, b, c, d])
}

fn ep(a: u8, b: u8, c: u8, d: u8, port: u16) -> Endpoint {
    Endpoint { ip: ip(a, b, c, d), port }
}

fn client() -> Endpoint {
    ep(10, 0, 0, 1, 40000)
}

fn vip() -> Endpoint {
    ep(10, 0, 0, 100, 8080)
}

fn backend() -> Endpoint {
    ep(10, 0, 0, 200, 80)
}

fn local(port: u16) -> Endpoint {
    ep(10, 0, 0, 2, port)
}

fn key(from: Endpoint, to: Endpoint) -> KConnection {
    KConnection { from: from.to_k_endpoint(), to: to.to_k_endpoint() }
}

fn tcp_frame(from: Endpoint, to: Endpoint, flags: u8, seq: u32, ack: u32) -> Vec<u8> {
    let mut f = Vec::new();
    f.extend_from_slice(&[2, 0, 0, 0, 0, 2, 2, 0, 0, 0, 0, 1, 0x08, 0x00]);
    f.extend_from_slice(&[0x45, 0x00, 0, 40, 0x12, 0x34, 0x40, 0x00, 64, 6, 0, 0]);
    f.extend_from_slice(&from.ip.to_be_bytes());
    f.extend_from_slice(&to.ip.to_be_bytes());
    f.extend_from_slice(&from.port.to_be_bytes());
    f.extend_from_slice(&to.port.to_be_bytes());
    f.extend_from_slice(&seq.to_be_bytes());
    f.extend_from_slice(&ack.to_be_bytes());
    f.extend_from_slice(&[0x50, flags, 0xff, 0xff, 0, 0, 0, 0]);
    f
}

fn tuple_of(frame: &[u8]) -> (Endpoint, Endpoint) {
    (
        Endpoint {
            ip: u32::from_be_bytes([frame[26], frame[27], frame[28], frame[29]]),
            port: u16::from_be_bytes([frame[34], frame[35]]),
        },
        Endpoint {
            ip: u32::from_be_bytes([frame[30], frame[31], frame[32], frame[33]]),
            port: u16::from_be_bytes([frame[36], frame[37]]),
        },
    )
}

fn service_config() -> ServiceConfig {
    ServiceConfig {
        name: "web".to_string(),
        local_endpoint: "10.0.0.100:8080".to_string(),
        servers: vec!["10.0.0.200:80".to_string()],
        is_tcp: true,
    }
}

fn gateway() -> SharedMaps {
    let mut maps = SharedMaps::new(MapsConfig::standard());
    assert!(maps.local_ips.insert(1, ip(10, 0, 0, 2)));
    maps
}

fn engine() -> FlowStateEngine {
    let mut ips = HashSet::new();
    ips.insert(ip(10, 0, 0, 200));
    FlowStateEngine::new(ips)
}

fn configured() -> (SharedMaps, FlowStateEngine) {
    let mut maps = gateway();
    assert!(maps.install_backend(vip().to_k_endpoint(), backend().to_k_endpoint()));
    let mut engine = engine();
    assert!(engine.tcp_service_map.put(vip(), Service::new(&service_config())).is_none());
    (maps, engine)
}

fn packet(flags: u32, seq: u32, ack_seq: u32) -> Event {
    Event::TcpPacket(Packet { flag: PacketFlag::from_bits_truncate(flags), ack_seq, seq })
}

/// The notification about a packet from the client, as the datapath words it.
fn forward(port: u16, event: Event) -> Notification {
    Notification {
        local_in_endpoint: vip().to_k_endpoint(),
        lcoal_out_endpoint: local(port).to_k_endpoint(),
        connection: key(client(), backend()),
        event,
    }
}

/// The notification about a packet from the server, as the datapath words it.
fn back(port: u16, event: Event) -> Notification {
    Notification {
        local_in_endpoint: local(port).to_k_endpoint(),
        lcoal_out_endpoint: vip().to_k_endpoint(),
        connection: key(backend(), client()),
        event,
    }
}

fn state_of(engine: &FlowStateEngine) -> Option<(TCPState, TCPState)> {
    let service = &engine.tcp_service_map.entries[0].item;
    let mgr = &service.server_tracker_map.entries[0].item;
    let conn = Connection { from: client(), to: backend() };
    match mgr.state_map.get(&conn.key()) {
        Some(L4ConnState::TcpConnState(cs)) => Some((cs.client.fsm.state(), cs.server.fsm.state())),
        _ => None,
    }
}

#[test]
fn happy_tcp_handshake_and_teardown() {
    let (mut maps, mut engine) = configured();
    // the datapath translates the flow
    let mut syn = tcp_frame(client(), vip(), 0x02, 1000, 0);
    assert_eq!(try_xdp_firewall(&mut maps, &mut syn, 1), XdpAction::Tx);
    assert_eq!(tuple_of(&syn), (local(10000), backend()));
    let mut syn_ack = tcp_frame(backend(), local(10000), 0x12, 5000, 1001);
    assert_eq!(try_xdp_firewall(&mut maps, &mut syn_ack, 1), XdpAction::Tx);
    assert_eq!(tuple_of(&syn_ack), (vip(), client()));
    assert_eq!(maps.flow.flow_count(), 2);
    assert_eq!(maps.flow.free_ports(), 49999);

    // the engine follows the connection
    assert!(engine.handle_notification(&mut maps, forward(10000, packet(SYN, 1000, 0))).is_some());
    assert_eq!(state_of(&engine), Some((TCPState::SynSent, TCPState::ListenReceiveSyn)));
    engine.handle_notification(&mut maps, back(10000, packet(SYN | ACK, 5000, 1001)));
    engine.handle_notification(&mut maps, forward(10000, packet(ACK, 1001, 5001)));
    assert_eq!(state_of(&engine), Some((TCPState::Established, TCPState::Established)));

    // the FIN of the client goes through the datapath and is announced
    let mut fin = tcp_frame(client(), vip(), 0x11, 1001, 5001);
    assert_eq!(try_xdp_firewall(&mut maps, &mut fin, 1), XdpAction::Tx);
    let announced = maps.packet_events.pop().unwrap();
    assert_eq!(announced, forward(10000, packet(FIN | ACK, 1001, 5001)));
    engine.handle_notification(&mut maps, announced);
    assert_eq!(state_of(&engine), Some((TCPState::FinWait1, TCPState::CloseWait)));
    engine.handle_notification(&mut maps, back(10000, packet(ACK, 5001, 1002)));
    let mut fin = tcp_frame(backend(), local(10000), 0x11, 5001, 1002);
    assert_eq!(try_xdp_firewall(&mut maps, &mut fin, 1), XdpAction::Tx);
    let announced = maps.packet_events.pop().unwrap();
    assert_eq!(announced, back(10000, packet(FIN | ACK, 5001, 1002)));
    engine.handle_notification(&mut maps, announced);
    assert_eq!(state_of(&engine), Some((TCPState::FinWait2ReceiveFin, TCPState::LastAck)));

    let timer = engine.handle_notification(&mut maps, forward(10000, packet(ACK, 1002, 5002))).unwrap();
    assert_eq!(state_of(&engine), Some((TCPState::TimeWait, TCPState::Closed)));
    assert_eq!((timer.service, timer.server), (vip(), backend()));
    assert!(timer.waits.client && !timer.waits.server);
    assert!(timer.waits.connection == Connection { from: client(), to: backend() });
    // nothing is reclaimed before the timer fires
    assert_eq!(maps.flow.flow_count(), 2);
    assert_eq!(maps.flow.free_ports(), 49999);

    engine.handle_time_expired(&mut maps, timer.service, timer.server, timer.waits.connection, Peer::Client);
    assert_eq!(state_of(&engine), None);
    assert_eq!(maps.flow.flow_count(), 0);
    assert_eq!(maps.flow.flow(&key(client(), vip())), None);
    assert_eq!(maps.flow.flow(&key(backend(), local(10000))), None);
    assert_eq!(maps.flow.free_ports(), 50000);
    // the port is back at the end of the pool
    assert_eq!(maps.flow.free_port(0), Some(10001));
    assert_eq!(maps.flow.free_port(49999), Some(10000));
    assert_eq!(maps.flow.free_port(50000), None);
    let mgr = &engine.tcp_service_map.entries[0].item.server_tracker_map.entries[0].item;
    assert_eq!(mgr.port_map.len(), 0);
    assert_eq!(mgr.connection_map.len(), 0);
    assert_eq!(mgr.state_map.len(), 0);
}

#[test]
fn cold_start_then_translation() {
    let mut maps = gateway();
    let mut engine = engine();
    let mut controller = ColdStartController::new();
    assert_eq!(controller.poll(&mut maps), Request::Idle);

    let mut syn = tcp_frame(client(), vip(), 0x02, 1000, 0);
    assert_eq!(try_xdp_firewall(&mut maps, &mut syn, 1), XdpAction::Drop);
    assert_eq!(maps.cold_start.len(), 1);
    assert_eq!(controller.poll(&mut maps), Request::StartServer(vip()));
    assert_eq!(vip().to_string(), "10.0.0.100:8080");
    assert_eq!(maps.cold_start.len(), 0);
    // the client retries while the backend starts
    let mut syn = tcp_frame(client(), vip(), 0x02, 1000, 0);
    assert_eq!(try_xdp_firewall(&mut maps, &mut syn, 1), XdpAction::Drop);
    assert_eq!(controller.poll(&mut maps), Request::Skip(vip()));
    assert_eq!(engine.tcp_service_map.len(), 0);

    let reply = service_config();
    assert_eq!(controller.started(&mut maps, &mut engine, vip(), Some(&reply)), Next::Sleep);
    assert_eq!(maps.flow.backend(&vip().to_k_endpoint()), Some(backend().to_k_endpoint()));
    assert_eq!(engine.tcp_service_map.len(), 1);
    assert!(engine.tcp_service_map.contains(&vip()));
    assert_eq!(maps.doorbell.get(&vip().to_k_endpoint()), Some(1));

    let mut syn = tcp_frame(client(), vip(), 0x02, 1000, 0);
    assert_eq!(try_xdp_firewall(&mut maps, &mut syn, 1), XdpAction::Tx);
    assert_eq!(tuple_of(&syn), (local(10000), backend()));
    assert_eq!(maps.performance.get(&vip().to_k_endpoint()), Some(1));
    assert_eq!(maps.cold_start.len(), 0);
}

#[test]
fn repeated_notification_produces_no_second_worker() {
    let mut maps = gateway();
    let mut engine = engine();
    let mut controller = ColdStartController::new();
    for _ in 0..3 {
        assert!(maps.cold_start.push(vip().to_k_endpoint()));
    }
    assert_eq!(controller.poll(&mut maps), Request::StartServer(vip()));
    assert_eq!(controller.poll(&mut maps), Request::Skip(vip()));
    let reply = service_config();
    assert_eq!(controller.started(&mut maps, &mut engine, vip(), Some(&reply)), Next::Sleep);
    assert_eq!(controller.poll(&mut maps), Request::Skip(vip()));
    assert_eq!(controller.poll(&mut maps), Request::Idle);
    // an answer that nobody waits for changes nothing
    assert_eq!(controller.started(&mut maps, &mut engine, vip(), Some(&reply)), Next::Finished);
    assert_eq!(engine.tcp_service_map.len(), 1);
    assert_eq!(controller.sessions.len(), 1);
    assert_eq!(maps.flow.backend_count(), 1);
    // a stale request after the install sees the backend
    assert!(maps.cold_start.push(vip().to_k_endpoint()));
    assert_eq!(controller.poll(&mut maps), Request::Skip(vip()));
    assert_eq!(engine.tcp_service_map.len(), 1);
    // a request outside the band is not for the controller
    assert!(maps.cold_start.push(ep(10, 0, 0, 100, 22).to_k_endpoint()));
    assert_eq!(controller.poll(&mut maps), Request::Skip(ep(10, 0, 0, 100, 22)));
    assert_eq!(controller.sessions.len(), 1);
}

#[test]
fn failed_start_ends_the_session() {
    let mut maps = gateway();
    let mut engine = engine();
    let mut controller = ColdStartController::new();
    assert!(maps.cold_start.push(vip().to_k_endpoint()));
    assert_eq!(controller.poll(&mut maps), Request::StartServer(vip()));
    assert_eq!(controller.started(&mut maps, &mut engine, vip(), None), Next::Finished);
    assert_eq!(controller.sessions.len(), 0);
    assert_eq!(maps.flow.backend_count(), 0);
    assert_eq!(engine.tcp_service_map.len(), 0);
    // the next packet asks again
    let mut syn = tcp_frame(client(), vip(), 0x02, 1000, 0);
    assert_eq!(try_xdp_firewall(&mut maps, &mut syn, 1), XdpAction::Drop);
    assert_eq!(controller.poll(&mut maps), Request::StartServer(vip()));
    let mut malformed = service_config();
    malformed.servers = vec!["not an endpoint".to_string()];
    assert_eq!(controller.started(&mut maps, &mut engine, vip(), Some(&malformed)), Next::Finished);
    assert_eq!(controller.sessions.len(), 0);
    assert_eq!(maps.flow.backend_count(), 0);
    assert!(maps.cold_start.push(vip().to_k_endpoint()));
    assert_eq!(controller.poll(&mut maps), Request::StartServer(vip()));
    let mut empty = service_config();
    empty.servers = vec![];
    assert_eq!(controller.started(&mut maps, &mut engine, vip(), Some(&empty)), Next::Finished);
    assert_eq!(controller.sessions.len(), 0);
}

#[test]
fn idle_reclamation() {
    let mut maps = gateway();
    let mut engine = engine();
    let mut controller = ColdStartController::new();
    let k = vip().to_k_endpoint();
    assert!(maps.cold_start.push(k));
    assert_eq!(controller.poll(&mut maps), Request::StartServer(vip()));
    let reply = service_config();
    assert_eq!(controller.started(&mut maps, &mut engine, vip(), Some(&reply)), Next::Sleep);
    assert_eq!(controller.sessions.entries[0].item, Phase::Sampling);

    // a window with traffic
    let mut syn = tcp_frame(client(), vip(), 0x02, 1000, 0);
    assert_eq!(try_xdp_firewall(&mut maps, &mut syn, 1), XdpAction::Tx);
    assert_eq!(controller.woke(&mut maps, &mut engine, vip()), Next::Sleep);
    assert_eq!(controller.sessions.entries[0].item, Phase::Resting);
    assert_eq!(maps.doorbell.get(&k), Some(0));
    assert_eq!(maps.performance.get(&k), Some(0));
    // traffic between two windows is not counted
    let mut data = tcp_frame(client(), vip(), 0x10, 1001, 0);
    assert_eq!(try_xdp_firewall(&mut maps, &mut data, 1), XdpAction::Tx);
    assert_eq!(maps.performance.get(&k), Some(0));
    assert_eq!(controller.woke(&mut maps, &mut engine, vip()), Next::Sleep);
    assert_eq!(controller.sessions.entries[0].item, Phase::Sampling);
    assert_eq!(maps.doorbell.get(&k), Some(1));

    // a window without traffic
    assert_eq!(controller.woke(&mut maps, &mut engine, vip()), Next::Finished);
    assert_eq!(maps.flow.backend(&k), None);
    assert_eq!(maps.doorbell.get(&k), Some(0));
    assert_eq!(engine.tcp_service_map.len(), 0);
    assert_eq!(controller.sessions.len(), 0);
    assert_eq!(controller.woke(&mut maps, &mut engine, vip()), Next::Finished);

    // a packet of a new client triggers a cold start again
    let mut syn = tcp_frame(ep(10, 0, 0, 9, 1234), vip(), 0x02, 1, 0);
    assert_eq!(try_xdp_firewall(&mut maps, &mut syn, 1), XdpAction::Drop);
    assert_eq!(controller.poll(&mut maps), Request::StartServer(vip()));
}

#[test]
fn backend_without_any_traffic_is_stopped_after_one_window() {
    let mut maps = gateway();
    let mut engine = engine();
    let mut controller = ColdStartController::new();
    assert!(maps.cold_start.push(vip().to_k_endpoint()));
    assert_eq!(controller.poll(&mut maps), Request::StartServer(vip()));
    let reply = service_config();
    assert_eq!(controller.started(&mut maps, &mut engine, vip(), Some(&reply)), Next::Sleep);
    // the Performance Table has no entry for the endpoint: the read fails
    assert_eq!(controller.woke(&mut maps, &mut engine, vip()), Next::Finished);
    assert_eq!(maps.flow.backend_count(), 0);
    assert_eq!(engine.tcp_service_map.len(), 0);
}

#[test]
fn notifications_without_a_service_are_discarded() {
    let mut maps = gateway();
    let mut engine = engine();
    assert!(engine.handle_notification(&mut maps, forward(10000, packet(SYN, 1, 0))).is_none());
    let (mut maps, mut engine) = configured();
    // a UDP event is looked up among the UDP services
    let mut udp = forward(10000, Event::UdpPacket);
    assert!(engine.handle_notification(&mut maps, udp).is_none());
    udp.local_in_endpoint = ep(1, 1, 1, 1, 1).to_k_endpoint();
    assert!(engine.handle_notification(&mut maps, udp).is_none());
    // a server that the service does not have
    let mut stray = forward(10000, packet(SYN, 1, 0));
    stray.connection.to = ep(10, 0, 0, 201, 80).to_k_endpoint();
    assert!(engine.handle_notification(&mut maps, stray).is_none());
    assert_eq!(state_of(&engine), None);
    // a timer for a connection that is gone
    engine.handle_time_expired(
        &mut maps,
        vip(),
        backend(),
        Connection { from: client(), to: backend() },
        Peer::Client,
    );
    engine.handle_time_expired(
        &mut maps,
        ep(9, 9, 9, 9, 9),
        backend(),
        Connection { from: client(), to: backend() },
        Peer::Client,
    );
    assert_eq!(maps.flow.free_ports(), 50000);
}

#[test]
fn manager_records_port_and_keys_once() {
    let mut maps = gateway();
    assert!(maps.install_backend(vip().to_k_endpoint(), backend().to_k_endpoint()));
    let mut ips = HashSet::new();
    ips.insert(ip(10, 0, 0, 200));
    let mut mgr = ConnectionStateMgr::new(true);
    let conn = Connection { from: client(), to: backend() };
    let m1 = Message::from_notification(forward(10000, packet(SYN, 1, 0)), true);
    let w = mgr.handle_packet_msg(m1, &ips, &mut maps).unwrap();
    assert!(!w.client && !w.server);
    assert_eq!(mgr.port_map.get(&conn.key()), Some(10000));
    // a later message with another port does not change the record
    let m2 = Message::from_notification(back(10001, packet(SYN | ACK, 5, 2)), false);
    mgr.handle_packet_msg(m2, &ips, &mut maps);
    assert_eq!(mgr.port_map.get(&conn.key()), Some(10000));
    let keys = mgr.connection_map.get(&conn.key()).unwrap();
    assert_eq!(keys.forward, UConnection::new(client(), vip()));
    assert_eq!(keys.back, UConnection::new(backend(), local(10001)));
    assert_eq!(mgr.state_map.len(), 1);
    let mut close = m1;
    close.msg_type = MessageType::Close;
    assert!(mgr.handle_packet_msg(close, &ips, &mut maps).is_none());
    assert_eq!(mgr.state_map.len(), 1);
    // a close forgets the connection; what is on record names no flow, so
    // the pool stays as it is
    let ports = maps.flow.free_ports();
    mgr.handle_message(CloseMsg::new(backend(), client()), &mut maps);
    assert_eq!(mgr.state_map.len(), 0);
    assert_eq!(mgr.port_map.len(), 0);
    assert_eq!(mgr.connection_map.len(), 0);
    assert_eq!(maps.flow.free_ports(), ports);
    // a close of an unknown connection changes nothing
    mgr.handle_message(CloseMsg::new(backend(), client()), &mut maps);
    assert_eq!(maps.flow.free_ports(), ports);
}

#[test]
fn udp_manager_keeps_connections_without_state_machines() {
    let mut maps = gateway();
    let ips = HashSet::new();
    let mut mgr = ConnectionStateMgr::new(false);
    let m = Message::from_notification(forward(10000, Event::UdpPacket), true);
    let w = mgr.handle_packet_msg(m, &ips, &mut maps).unwrap();
    assert!(!w.client && !w.server);
    let conn = Connection { from: client(), to: backend() };
    assert_eq!(mgr.state_map.get(&conn.key()), Some(L4ConnState::UdpConnState));
    mgr.handle_time_expired(conn, Peer::Client, &mut maps);
    assert_eq!(mgr.state_map.len(), 1);
}

#[test]
fn service_has_one_manager_per_server() {
    let mut cfg = service_config();
    cfg.servers.push("10.0.0.201:80".to_string());
    cfg.servers.push("10.0.0.200:80".to_string());
    let service = Service::new(&cfg);
    assert_eq!(service.name, "web");
    assert_eq!(service.local_endpoint, vip());
    assert_eq!(service.servers, vec![backend(), ep(10, 0, 0, 201, 80), backend()]);
    assert!(!service.active);
    assert_eq!(service.server_tracker_map.len(), 2);
    assert!(service.server_tracker_map.contains(&backend()));
    assert!(service.server_tracker_map.contains(&ep(10, 0, 0, 201, 80)));
    assert!(service.server_tracker_map.entries[0].item.is_tcp);
}

#[test]
fn roster_is_a_map_by_endpoint() {
    let mut r: Roster<u32> = Roster::new();
    assert_eq!(r.find(&vip()), None);
    assert_eq!(r.put(vip(), 1), None);
    assert_eq!(r.put(backend(), 2), None);
    assert_eq!(r.put(vip(), 3), Some(1));
    assert_eq!(r.len(), 2);
    assert_eq!(r.find(&vip()), Some(0));
    assert_eq!(r.find(&backend()), Some(1));
    assert_eq!(r.entries[0].item, 3);
    assert_eq!(r.take(&vip()), Some(3));
    assert_eq!(r.take(&vip()), None);
    assert_eq!(r.find(&backend()), Some(0));
    assert!(!r.contains(&vip()));
}

#[test]
fn table_refuses_new_keys_when_full() {
    let mut t: Table<u32, u8> = Table::new(2);
    assert_eq!(t.capacity(), 2);
    assert!(t.accepts_key(&1));
    assert!(t.insert(1, 10));
    assert!(t.insert(2, 20));
    assert!(!t.accepts_key(&3));
    assert!(!t.insert(3, 30));
    assert!(t.insert(2, 21));
    assert_eq!(t.get(&2), Some(21));
    assert_eq!(t.get(&3), None);
    assert_eq!(t.len(), 2);
    assert_eq!(t.remove(&1), Some(10));
    assert_eq!(t.remove(&1), None);
    assert!(!t.contains_key(&1));
    assert!(t.insert(3, 30));
    assert!(t.contains_key(&3));
}

#[test]
fn fifo_is_bounded() {
    let mut q: Fifo<u16> = Fifo::new(2);
    assert_eq!(q.capacity(), 2);
    assert_eq!(q.pop(), None);
    assert!(q.push(1));
    assert!(q.push(2));
    assert!(!q.push(3));
    assert_eq!(q.len(), 2);
    assert_eq!(q.pop(), Some(1));
    assert!(q.push(3));
    assert_eq!(q.pop(), Some(2));
    assert_eq!(q.pop(), Some(3));
    assert_eq!(q.pop(), None);
}

#[test]
fn pool_is_filled_with_the_configured_ports() {
    let mut config = MapsConfig::standard();
    config.port_first = 65530;
    config.port_count = 100;
    let maps = SharedMaps::new(config);
    assert_eq!(maps.flow.port_count(), 6);
    let ports: Vec<u16> = (0..maps.flow.free_ports()).map(|i| maps.flow.free_port(i).unwrap()).collect();
    assert_eq!(ports, vec![65530, 65531, 65532, 65533, 65534, 65535]);
    assert!(maps.flow.manages(65535) && !maps.flow.manages(65529));
    let maps = SharedMaps::new(MapsConfig::standard());
    assert_eq!(maps.flow.free_ports(), 50000);
    assert_eq!(maps.flow.free_port(0), Some(10000));
    assert_eq!((maps.flow.port_first(), maps.flow.port_count()), (10000, 50000));
    assert!(maps.flow.manages(10000) && maps.flow.manages(59999));
    assert!(!maps.flow.manages(9999) && !maps.flow.manages(60000));
    assert_eq!(maps.flow.flows_capacity(), 1024);
}

#[test]
fn release_returns_the_port_then_deletes_the_entries() {
    let mut maps = gateway();
    assert!(maps.install_backend(vip().to_k_endpoint(), backend().to_k_endpoint()));
    let mut syn = tcp_frame(client(), vip(), 0x02, 1000, 0);
    assert_eq!(try_xdp_firewall(&mut maps, &mut syn, 1), XdpAction::Tx);
    let forward = UConnection::new(client(), vip());
    let back = UConnection::new(backend(), local(10000));
    assert!(maps.flow.leases(10000, &forward, &back));
    assert!(maps.release(10000, forward, back));
    assert_eq!(maps.flow.flow_count(), 0);
    assert_eq!(maps.flow.free_ports(), 50000);
    assert_eq!(maps.flow.free_port(49999), Some(10000));
    assert!(maps.remove_backend(vip().to_k_endpoint()));
    assert!(!maps.remove_backend(vip().to_k_endpoint()));
}

#[test]
fn release_of_what_is_no_flow_changes_nothing() {
    let mut maps = gateway();
    assert!(maps.install_backend(vip().to_k_endpoint(), backend().to_k_endpoint()));
    let mut syn = tcp_frame(client(), vip(), 0x02, 1000, 0);
    assert_eq!(try_xdp_firewall(&mut maps, &mut syn, 1), XdpAction::Tx);
    let forward = UConnection::new(client(), vip());
    let back = UConnection::new(backend(), local(10000));
    // another port, keys the wrong way round, keys of nothing, a port that
    // the pool does not manage
    assert!(!maps.release(10001, forward, back));
    assert!(!maps.release(10000, back, forward));
    assert!(!maps.release(10000, forward, UConnection::new(backend(), local(10001))));
    assert!(!maps.release(10000, UConnection::new(client(), backend()), back));
    assert_eq!(maps.flow.flow_count(), 2);
    assert_eq!(maps.flow.free_ports(), 49999);
    // a flow is given up once
    assert!(maps.release(10000, forward, back));
    assert!(!maps.release(10000, forward, back));
    assert_eq!(maps.flow.flow_count(), 0);
    assert_eq!(maps.flow.free_ports(), 50000);
}

#[test]
fn stale_notification_after_close_cannot_free_a_port_twice() {
    let (mut maps, _) = configured();
    // neither address is a server's: a connection is closed at its first packet
    let mut engine = FlowStateEngine::new(HashSet::new());
    assert!(engine.tcp_service_map.put(vip(), Service::new(&service_config())).is_none());
    let mut syn = tcp_frame(client(), vip(), 0x02, 1000, 0);
    assert_eq!(try_xdp_firewall(&mut maps, &mut syn, 1), XdpAction::Tx);
    assert_eq!(maps.flow.free_ports(), 49999);
    engine.handle_notification(&mut maps, forward(10000, packet(FIN, 1, 0)));
    assert_eq!(maps.flow.flow_count(), 0);
    assert_eq!(maps.flow.free_ports(), 50000);
    // the same notification once more, and one about a flow that never was
    engine.handle_notification(&mut maps, forward(10000, packet(FIN, 1, 0)));
    engine.handle_notification(&mut maps, forward(10007, packet(FIN, 1, 0)));
    assert_eq!(maps.flow.free_ports(), 50000);
    assert_eq!(maps.flow.free_port(49999), Some(10000));
    assert_eq!(state_of(&engine), None);
}

#[test]
fn service_on_a_port_of_the_pool_is_served() {
    let mut config = MapsConfig::standard();
    config.port_first = 20000;
    config.port_count = 2;
    let mut maps = SharedMaps::new(config);
    assert!(maps.local_ips.insert(1, ip(10, 0, 0, 2)));
    let service = ep(10, 0, 0, 100, 20000);
    assert!(maps.install_backend(service.to_k_endpoint(), backend().to_k_endpoint()));
    assert!(maps.flow.manages(20000));
    let mut syn = tcp_frame(client(), service, 0x02, 1, 0);
    assert_eq!(try_xdp_firewall(&mut maps, &mut syn, 1), XdpAction::Tx);
    assert_eq!(tuple_of(&syn), (local(20000), backend()));
    let mut reply = tcp_frame(backend(), local(20000), 0x12, 9, 2);
    assert_eq!(try_xdp_firewall(&mut maps, &mut reply, 1), XdpAction::Tx);
    assert_eq!(tuple_of(&reply), (service, client()));
    let forward = UConnection::new(client(), service);
    let back = UConnection::new(backend(), local(20000));
    assert!(!maps.flow.is_way_back(&forward.0));
    assert!(maps.flow.is_way_back(&back.0));
    // the entry towards the service is no lease of the service's port
    assert!(!maps.release(20000, back, forward));
    assert_eq!(maps.flow.free_ports(), 1);
    assert!(maps.release(20000, forward, back));
    assert_eq!(maps.flow.flow_count(), 0);
    assert_eq!(maps.flow.free_port(0), Some(20001));
    assert_eq!(maps.flow.free_port(1), Some(20000));
}

#[test]
fn full_backend_table_refuses_a_new_service() {
    let mut config = MapsConfig::standard();
    config.backends = 1;
    let mut maps = SharedMaps::new(config);
    assert!(maps.flow.can_install(&vip().to_k_endpoint()));
    assert!(maps.install_backend(vip().to_k_endpoint(), backend().to_k_endpoint()));
    assert!(!maps.install_backend(ep(10, 0, 0, 100, 8081).to_k_endpoint(), backend().to_k_endpoint()));
    assert!(maps.install_backend(vip().to_k_endpoint(), ep(10, 0, 0, 201, 80).to_k_endpoint()));
    assert_eq!(maps.flow.backend(&vip().to_k_endpoint()), Some(ep(10, 0, 0, 201, 80).to_k_endpoint()));
    assert_eq!(maps.flow.backend_count(), 1);
}

#[test]
fn way_back_that_is_taken_drops_the_frame() {
    // A service on a local address and a port of the pool: the way back of
    // a new flow can be the entry of a flow that is there.
    let mut maps = gateway();
    let service = local(10001);
    assert!(maps.install_backend(service.to_k_endpoint(), backend().to_k_endpoint()));
    // the backend itself asks for the service, and leases port 10000
    let mut first = tcp_frame(backend(), service, 0x02, 1, 0);
    assert_eq!(try_xdp_firewall(&mut maps, &mut first, 1), XdpAction::Tx);
    assert_eq!(tuple_of(&first), (local(10000), backend()));
    assert_eq!(maps.flow.flow_count(), 2);
    // the next flow would lease port 10001: its way back is the first
    // flow's entry
    let mut second = tcp_frame(client(), service, 0x02, 1, 0);
    let before = second.clone();
    assert_eq!(try_xdp_firewall(&mut maps, &mut second, 1), XdpAction::Drop);
    assert_eq!(second, before);
    assert_eq!(maps.flow.flow_count(), 2);
    assert_eq!(maps.flow.flow(&key(backend(), service)), Some(key(local(10000), backend())));
    assert_eq!(maps.flow.flow(&key(client(), service)), None);
    assert_eq!(maps.flow.free_port(0), Some(10002));
    // the first flow is whole and can be given up
    assert!(maps.release(
        10000,
        UConnection::new(backend(), service),
        UConnection::new(backend(), local(10000)),
    ));
    assert_eq!(maps.flow.flow_count(), 0);
}

#[test]
fn every_port_that_is_out_comes_back() {
    let mut config = MapsConfig::standard();
    config.port_count = 3;
    let mut maps = SharedMaps::new(config);
    assert!(maps.local_ips.insert(1, ip(10, 0, 0, 2)));
    assert!(maps.install_backend(vip().to_k_endpoint(), backend().to_k_endpoint()));
    for round in 0..4u16 {
        for i in 0..3u16 {
            let c = ep(10, 0, 1, 1, 100 * round + i);
            let mut syn = tcp_frame(c, vip(), 0x02, 1, 0);
            assert_eq!(try_xdp_firewall(&mut maps, &mut syn, 1), XdpAction::Tx);
        }
        assert_eq!(maps.flow.free_ports(), 0);
        for i in 0..3u16 {
            let c = ep(10, 0, 1, 1, 100 * round + i);
            let port = maps.flow.flow(&key(c, vip())).unwrap().from.port.swap_bytes();
            assert!(maps.release(port, UConnection::new(c, vip()), UConnection::new(backend(), local(port))));
        }
        assert_eq!(maps.flow.free_ports(), 3);
        assert_eq!(maps.flow.flow_count(), 0);
    }
}

#[test]
fn provisioner_answer_becomes_a_service() {
    let reply = service_of_reply(
        "10.0.0.100:8080".to_string(),
        true,
        "web".to_string(),
        "10.0.0.200:80".to_string(),
    );
    assert_eq!(reply, Some(service_config()));
    let reply = service_of_reply(
        "10.0.0.100:8080".to_string(),
        false,
        "web".to_string(),
        "10.0.0.200:80".to_string(),
    );
    assert_eq!(reply, None);
}
