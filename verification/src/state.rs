//! The flow state engine's bookkeeping of the connections of one backend:
//! the state of each, the source port it leased, and the keys of its two
//! entries in the Flow Table.

pub mod tcp;

use crate::endpoint::Connection;
use crate::endpoint::KConnection;
use crate::endpoint::UConnection;
use crate::maps::spec_release;
use crate::maps::MapsView;
use crate::maps::SharedMaps;
use crate::message::CloseMsg;
use crate::message::Message;
use crate::message::PacketMsg;
use crate::state::tcp::ConnectionState;
use crate::state::tcp::Peer;
use crate::state::tcp::Verdict;
use crate::table::offered;
use crate::table::Table;
use crate::tcp_fsm::StateMachine;
use crate::tcp_fsm::TCPInput;
use crate::tcp_fsm::TCPState;
use crate::tcp_fsm::TCP;
use std::collections::HashSet;
use vstd::prelude::*;

verus! {

/// The state of one connection.
#[derive(Debug, Clone, Copy, PartialEq, Eq, Structural)]
pub enum L4ConnState {
    TcpConnState(ConnectionState),
    UdpConnState,
}

/// The keys of a connection's two entries in the Flow Table: from the
/// client to the virtual service, and from the server to the local endpoint.
#[derive(Debug, Clone, Copy, PartialEq, Eq, Structural)]
pub struct FlowKeys {
    pub forward: UConnection,
    pub back: UConnection,
}

/// The peers whose `TimeWait` timer is to be started for a connection.
#[derive(Debug, Clone, Copy)]
pub struct Waits {
    pub connection: Connection,
    pub client: bool,
    pub server: bool,
}

/// The connections of one backend.
pub struct ConnectionStateMgr {
    pub is_tcp: bool,
    pub is_active: bool,
    /// The state of each connection, under the connection's key.
    pub state_map: Table<u128, L4ConnState>,
    /// The source port, in host order, that each connection leased.
    pub port_map: Table<u128, u16>,
    /// The keys of each connection's two entries in the Flow Table.
    pub connection_map: Table<u128, FlowKeys>,
}

/// What a manager holds.
#[verifier::ext_equal]
pub struct MgrView {
    pub is_tcp: bool,
    pub is_active: bool,
    pub state_map: Map<u128, L4ConnState>,
    pub state_capacity: usize,
    pub port_map: Map<u128, u16>,
    pub port_capacity: usize,
    pub connection_map: Map<u128, FlowKeys>,
    pub connection_capacity: usize,
}

impl View for ConnectionStateMgr {
    type V = MgrView;

    open spec fn view(&self) -> MgrView {
        MgrView {
            is_tcp: self.is_tcp,
            is_active: self.is_active,
            state_map: self.state_map@,
            state_capacity: self.state_map.spec_capacity(),
            port_map: self.port_map@,
            port_capacity: self.port_map.spec_capacity(),
            connection_map: self.connection_map@,
            connection_capacity: self.connection_map.spec_capacity(),
        }
    }
}

/// The key of the connection between two endpoints.
pub open spec fn spec_key_of(pm: PacketMsg) -> u128 {
    (Connection { from: pm.from, to: pm.to }).spec_key()
}

/// A fresh connection for a first packet: the sender is the client, and a
/// peer listens if its address is a server's.
pub open spec fn spec_fresh(is_tcp: bool, pm: PacketMsg, server_ips: Set<u32>) -> L4ConnState {
    if is_tcp {
        L4ConnState::TcpConnState(ConnectionState::spec_new(pm.from, pm.to, server_ips))
    } else {
        L4ConnState::UdpConnState
    }
}

impl L4ConnState {
    /// The state after a packet: a TCP connection takes it, a UDP connection
    /// has nothing to follow.
    pub open spec fn spec_handle_packet(&self, packet: PacketMsg) -> L4ConnState {
        match self {
            L4ConnState::TcpConnState(cs) => L4ConnState::TcpConnState(
                cs.spec_handle_message(packet),
            ),
            L4ConnState::UdpConnState => L4ConnState::UdpConnState,
        }
    }

    /// Whether both peers of the connection are closed.
    pub open spec fn spec_is_closed(&self) -> bool {
        self matches L4ConnState::TcpConnState(cs) && cs.spec_is_closed()
    }

    /// Hands a packet to the connection's state.
    pub fn handle_packet(&mut self, packet: PacketMsg) -> (v: Verdict)
        ensures
            *final(self) == old(self).spec_handle_packet(packet),
            v.close is Some <==> final(self).spec_is_closed(),
            v.close matches Some(c) ==> c.from == packet.from && c.to == packet.to,
            match *final(self) {
                L4ConnState::TcpConnState(cs) => v.client_waits == (packet.packet is Some
                    && cs.client.fsm.state == TCPState::TimeWait) && v.server_waits == (
                packet.packet is Some && cs.server.fsm.state == TCPState::TimeWait),
                L4ConnState::UdpConnState => !v.client_waits && !v.server_waits,
            },
    {
        match self {
            L4ConnState::TcpConnState(connection_state) => connection_state.handle_message(packet),
            L4ConnState::UdpConnState => Verdict {
                close: None,
                client_waits: false,
                server_waits: false,
            },
        }
    }
}

/// The manager and the maps after the connection under `key` was closed:
/// its state is gone, and if a port and keys were on record for it and name
/// a flow of the table, the port is back in the pool and the two entries are
/// out of the Flow Table.
pub open spec fn spec_close(v: MgrView, maps: MapsView, key: u128) -> (MgrView, MapsView) {
    (
        MgrView {
            state_map: v.state_map.remove(key),
            port_map: v.port_map.remove(key),
            connection_map: v.connection_map.remove(key),
            ..v
        },
        if v.port_map.contains_key(key) && v.connection_map.contains_key(key) {
            spec_release(
                maps,
                v.port_map[key],
                v.connection_map[key].forward,
                v.connection_map[key].back,
            )
        } else {
            maps
        },
    )
}

/// The manager after a packet message was filed, before a close is acted
/// on: the connection's state has taken the packet, its port is recorded if
/// none was, and its keys are recorded.
pub open spec fn spec_filed(v: MgrView, msg: Message, pm: PacketMsg, server_ips: Set<u32>) -> MgrView {
    let key = spec_key_of(pm);
    let prior = if v.state_map.contains_key(key) {
        v.state_map[key]
    } else {
        spec_fresh(v.is_tcp, pm, server_ips)
    };
    let after = prior.spec_handle_packet(pm);
    MgrView {
        state_map: offered(v.state_map, v.state_capacity, key, after),
        port_map: if v.port_map.contains_key(key) {
            v.port_map
        } else {
            offered(v.port_map, v.port_capacity, key, pm.local_out_port)
        },
        connection_map: offered(
            v.connection_map,
            v.connection_capacity,
            key,
            FlowKeys {
                forward: msg.spec_to_u_connections().0,
                back: msg.spec_to_u_connections().1,
            },
        ),
        ..v
    }
}

/// The state that a connection is in after a packet message, whether or not
/// the manager had room to keep it.
pub open spec fn spec_state_after(v: MgrView, pm: PacketMsg, server_ips: Set<u32>) -> L4ConnState {
    let key = spec_key_of(pm);
    let prior = if v.state_map.contains_key(key) {
        v.state_map[key]
    } else {
        spec_fresh(v.is_tcp, pm, server_ips)
    };
    prior.spec_handle_packet(pm)
}

/// Whether a connection's state says that both peers are closed.
pub open spec fn spec_closed(s: L4ConnState) -> bool {
    s.spec_is_closed()
}

/// The timers that a message asks for: none for a message that is not about
/// a packet; else, under the packet's sender and receiver, one for each peer
/// that is in `TimeWait` after a TCP packet.
pub open spec fn spec_waits(v: MgrView, msg: Message, server_ips: Set<u32>) -> Option<Waits> {
    match PacketMsg::spec_try_from(&msg) {
        Err(_) => None,
        Ok(pm) => Some(
            match spec_state_after(v, pm, server_ips) {
                L4ConnState::TcpConnState(cs) => Waits {
                    connection: Connection { from: pm.from, to: pm.to },
                    client: pm.packet is Some && cs.client.fsm.state == TCPState::TimeWait,
                    server: pm.packet is Some && cs.server.fsm.state == TCPState::TimeWait,
                },
                L4ConnState::UdpConnState => Waits {
                    connection: Connection { from: pm.from, to: pm.to },
                    client: false,
                    server: false,
                },
            },
        ),
    }
}

/// Closing a connection keeps what holds of the shared maps, whatever the
/// manager has on record for it.
pub proof fn lemma_close_keeps_inv(v: MgrView, maps: MapsView, key: u128)
    requires
        maps.inv(),
    ensures
        spec_close(v, maps, key).1.inv(),
{
    if v.port_map.contains_key(key) && v.connection_map.contains_key(key) {
        crate::flows::lemma_release(
            maps.flow_part(),
            v.port_map[key],
            v.connection_map[key].forward,
            v.connection_map[key].back,
        );
    }
}

/// Closing a connection whose record names a flow of the table reclaims the
/// flow: the manager has forgotten the connection, the port is at the end of
/// the pool, the flow's two entries are out of the Flow Table, and every
/// other entry is as it was.
pub proof fn lemma_close_reclaims(v: MgrView, maps: MapsView, key: u128)
    requires
        v.port_map.contains_key(key),
        v.connection_map.contains_key(key),
        maps.leases(
            v.port_map[key],
            v.connection_map[key].forward.0,
            v.connection_map[key].back.0,
        ),
    ensures
        ({
            let (after, maps_after) = spec_close(v, maps, key);
            let forward = v.connection_map[key].forward.0;
            let back = v.connection_map[key].back.0;
            &&& !after.state_map.contains_key(key)
            &&& !after.port_map.contains_key(key)
            &&& !after.connection_map.contains_key(key)
            &&& maps_after.ports == maps.ports.push(v.port_map[key])
            &&& !maps_after.flows.contains_key(forward)
            &&& !maps_after.flows.contains_key(back)
            &&& forall|f: KConnection|
                f != forward && f != back ==> (#[trigger] maps_after.flows.contains_key(f)
                    == maps.flows.contains_key(f)) && (maps.flows.contains_key(f)
                    ==> maps_after.flows[f] == maps.flows[f])
        }),
{
}

/// The manager and the maps after a message was handled.
pub open spec fn spec_handle_packet_msg(
    v: MgrView,
    maps: MapsView,
    msg: Message,
    server_ips: Set<u32>,
) -> (MgrView, MapsView) {
    match PacketMsg::spec_try_from(&msg) {
        Err(_) => (v, maps),
        Ok(pm) => {
            let filed = spec_filed(v, msg, pm, server_ips);
            if spec_closed(spec_state_after(v, pm, server_ips)) {
                spec_close(filed, maps, spec_key_of(pm))
            } else {
                (filed, maps)
            }
        },
    }
}

impl ConnectionStateMgr {
    /// A manager without connections.
    pub fn new(is_tcp: bool) -> (m: Self)
        ensures
            m@.is_tcp == is_tcp,
            !m@.is_active,
            m@.state_map == Map::<u128, L4ConnState>::empty(),
            m@.port_map == Map::<u128, u16>::empty(),
            m@.connection_map == Map::<u128, FlowKeys>::empty(),
            m@.state_capacity == usize::MAX,
            m@.port_capacity == usize::MAX,
            m@.connection_capacity == usize::MAX,
    {
        ConnectionStateMgr {
            is_tcp,
            is_active: false,
            state_map: Table::new(usize::MAX),
            port_map: Table::new(usize::MAX),
            connection_map: Table::new(usize::MAX),
        }
    }

    /// Handles the close of a connection: forgets its state, returns its
    /// source port to the pool, and deletes its two entries from the Flow
    /// Table, in this order.
    pub fn handle_message(&mut self, msg: CloseMsg, maps: &mut SharedMaps)
        ensures
            (final(self)@, final(maps)@) == spec_close(
                old(self)@,
                old(maps)@,
                (Connection { from: msg.from, to: msg.to }).spec_key(),
            ),
            final(maps)@.inv(),
    {
        let conn = msg.connection().key();
        self.close(conn, maps);
    }

    /// Forgets the connection under `conn` and gives its flow up.
    fn close(&mut self, conn: u128, maps: &mut SharedMaps)
        ensures
            (final(self)@, final(maps)@) == spec_close(old(self)@, old(maps)@, conn),
            final(maps)@.inv(),
    {
        proof {
            use_type_invariant(&maps.flow);
            maps.flow.lemma_wf();
        }
        let _ = self.state_map.remove(&conn);
        let port = self.port_map.remove(&conn);
        let u_connections = self.connection_map.remove(&conn);
        match (port, u_connections) {
            (Some(port), Some(keys)) => {
                let _ = maps.release(port, keys.forward, keys.back);
            },
            _ => {},
        }
    }

    /// Handles a message about a packet: files it under its connection, which
    /// is created at its first packet, and closes the connection if both its
    /// peers are closed afterwards. Returns the timers to start.
    pub fn handle_packet_msg(
        &mut self,
        msg: Message,
        server_ips: &HashSet<u32>,
        maps: &mut SharedMaps,
    ) -> (waits: Option<Waits>)
        ensures
            (final(self)@, final(maps)@) == spec_handle_packet_msg(
                old(self)@,
                old(maps)@,
                msg,
                server_ips@,
            ),
            waits == spec_waits(old(self)@, msg, server_ips@),
            final(maps)@.inv(),
    {
        proof {
            use_type_invariant(&maps.flow);
            maps.flow.lemma_wf();
        }
        let packet_msg = match PacketMsg::try_from(&msg) {
            Ok(packet_msg) => packet_msg,
            Err(_) => {
                return None;
            },
        };
        let local_out_port = packet_msg.local_out_port;
        let connection = packet_msg.connection();
        let conn = connection.key();
        let prior = match self.state_map.get(&conn) {
            Some(state) => state,
            None => {
                if self.is_tcp {
                    L4ConnState::TcpConnState(ConnectionState::from_connection(&connection, server_ips))
                } else {
                    L4ConnState::UdpConnState
                }
            },
        };
        let mut connection_state = prior;
        let verdict = connection_state.handle_packet(packet_msg);
        let waits = Waits {
            connection,
            client: verdict.client_waits,
            server: verdict.server_waits,
        };
        let _ = self.state_map.insert(conn, connection_state);
        // the first port seen stays on record
        if !self.port_map.contains_key(&conn) {
            let _ = self.port_map.insert(conn, local_out_port);
        }
        // the keys follow the latest packet
        let (forward, back) = msg.to_u_connections();
        let _ = self.connection_map.insert(conn, FlowKeys { forward, back });
        if let Some(close) = verdict.close {
            self.handle_message(close, maps);
        }
        Some(waits)
    }

    /// The manager and the maps after the `TimeWait` timer of a peer fired.
    pub open spec fn spec_handle_time_expired(
        v: MgrView,
        maps: MapsView,
        key: u128,
        peer: Peer,
    ) -> (MgrView, MapsView) {
        if !v.state_map.contains_key(key) {
            (v, maps)
        } else {
            match v.state_map[key] {
                L4ConnState::UdpConnState => (v, maps),
                L4ConnState::TcpConnState(cs) => {
                    let after = spec_expired(cs, peer);
                    if after.spec_is_closed() {
                        spec_close(v, maps, key)
                    } else {
                        (
                            MgrView {
                                state_map: v.state_map.insert(
                                    key,
                                    L4ConnState::TcpConnState(after),
                                ),
                                ..v
                            },
                            maps,
                        )
                    }
                },
            }
        }
    }

    /// The `TimeWait` timer of one peer of a connection has fired: the peer
    /// is closed if it was waiting, and the connection is closed if both its
    /// peers are closed then. A connection that is gone is left alone.
    pub fn handle_time_expired(&mut self, connection: Connection, peer: Peer, maps: &mut SharedMaps)
        ensures
            (final(self)@, final(maps)@) == Self::spec_handle_time_expired(
                old(self)@,
                old(maps)@,
                connection.spec_key(),
                peer,
            ),
            final(maps)@.inv(),
    {
        proof {
            use_type_invariant(&maps.flow);
            maps.flow.lemma_wf();
        }
        let conn = connection.key();
        match self.state_map.get(&conn) {
            Some(L4ConnState::TcpConnState(mut connection_state)) => {
                match connection_state.handle_time_expired(peer) {
                    Some(_) => {
                        self.close(conn, maps);
                    },
                    None => {
                        let _ = self.state_map.insert(
                            conn,
                            L4ConnState::TcpConnState(connection_state),
                        );
                    },
                }
            },
            _ => {},
        }
    }
}

/// A connection after the `TimeWait` timer of one peer fired.
pub open spec fn spec_expired(cs: ConnectionState, peer: Peer) -> ConnectionState {
    match peer {
        Peer::Client => ConnectionState {
            client: crate::state::tcp::TcpFsmState {
                fsm: StateMachine {
                    state: TCP::spec_step(cs.client.fsm.state, TCPInput::TimeExpired),
                },
                ..cs.client
            },
            ..cs
        },
        Peer::Server => ConnectionState {
            server: crate::state::tcp::TcpFsmState {
                fsm: StateMachine {
                    state: TCP::spec_step(cs.server.fsm.state, TCPInput::TimeExpired),
                },
                ..cs.server
            },
            ..cs
        },
    }
}

} // verus!
