//! A virtual service and the connection managers of its servers.

use crate::config::ServiceConfig;
use crate::endpoint::Connection;
use crate::endpoint::Endpoint;
use crate::maps::MapsView;
use crate::maps::SharedMaps;
use crate::message::Message;
use crate::message::MessageType;
use crate::parse::bytes_of;
use crate::parse::parse_endpoint;
use crate::parse::spec_parse_endpoint;
use crate::roster::Roster;
use crate::state::spec_handle_packet_msg;
use crate::state::tcp::Peer;
use crate::state::ConnectionStateMgr;
use crate::state::L4ConnState;
use crate::state::FlowKeys;
use crate::state::MgrView;
use crate::state::Waits;
use std::collections::HashSet;
use vstd::prelude::*;

verus! {

impl ServiceConfig {
    /// Whether the endpoint and the servers are well-formed texts.
    pub open spec fn spec_valid(&self) -> bool {
        &&& spec_parse_endpoint(bytes_of(self.local_endpoint@)) is Some
        &&& forall|i: int|
            0 <= i < self.servers@.len() ==> spec_parse_endpoint(
                bytes_of(#[trigger] self.servers@[i]@),
            ) is Some
    }

    #[verifier::when_used_as_spec(spec_valid)]
    pub fn is_valid(&self) -> (r: bool)
        ensures
            r == self.spec_valid(),
    {
        if parse_endpoint(self.local_endpoint.as_str()).is_none() {
            return false;
        }
        let mut i: usize = 0;
        while i < self.servers.len()
            invariant
                i <= self.servers@.len(),
                forall|j: int|
                    0 <= j < i ==> spec_parse_endpoint(bytes_of(#[trigger] self.servers@[j]@))
                        is Some,
            decreases self.servers@.len() - i,
        {
            if parse_endpoint(self.servers[i].as_str()).is_none() {
                return false;
            }
            i = i + 1;
        }
        true
    }
}

/// A virtual service: its endpoint, its servers, and for each server the
/// manager of the connections that end there.
pub struct Service {
    pub name: String,
    pub local_endpoint: Endpoint,
    pub servers: Vec<Endpoint>,
    pub active: bool,
    pub server_tracker_map: Roster<ConnectionStateMgr>,
}

/// What a fresh manager holds.
pub open spec fn spec_fresh_mgr(is_tcp: bool) -> MgrView {
    MgrView {
        is_tcp,
        is_active: false,
        state_map: Map::<u128, L4ConnState>::empty(),
        state_capacity: usize::MAX,
        port_map: Map::<u128, u16>::empty(),
        port_capacity: usize::MAX,
        connection_map: Map::<u128, FlowKeys>::empty(),
        connection_capacity: usize::MAX,
    }
}

impl Service {
    /// Whether `after` and `maps_after` are what `self` and `maps` become
    /// when the service handles `msg`: a message about a packet goes to the
    /// manager of the message's server, if the service has that server, and
    /// nothing else changes.
    pub open spec fn handled(
        &self,
        after: &Service,
        maps: MapsView,
        maps_after: MapsView,
        msg: Message,
        server_ips: Set<u32>,
    ) -> bool {
        let before = self.server_tracker_map.entries@;
        let trackers = after.server_tracker_map.entries@;
        &&& after.name == self.name
        &&& after.local_endpoint == self.local_endpoint
        &&& after.servers == self.servers
        &&& after.active == self.active
        &&& trackers.len() == before.len()
        &&& forall|j: int| 0 <= j < before.len() ==> (#[trigger] trackers[j]).key == before[j].key
        &&& match (msg.msg_type, self.server_tracker_map.spec_find(msg.server)) {
            (MessageType::Packet(_), Some(t)) => {
                &&& forall|j: int|
                    0 <= j < before.len() && j != t ==> #[trigger] trackers[j] == before[j]
                &&& (trackers[t].item@, maps_after) == spec_handle_packet_msg(
                    before[t].item@,
                    maps,
                    msg,
                    server_ips,
                )
            },
            _ => trackers == before && maps_after == maps,
        }
    }

    /// The timers that a message asks for: those of the manager that it goes
    /// to, if it goes to one.
    pub open spec fn spec_waits(&self, msg: Message, server_ips: Set<u32>) -> Option<Waits> {
        match (msg.msg_type, self.server_tracker_map.spec_find(msg.server)) {
            (MessageType::Packet(_), Some(t)) => crate::state::spec_waits(
                self.server_tracker_map.entries@[t].item@,
                msg,
                server_ips,
            ),
            _ => None,
        }
    }

    /// Whether the service is what `cfg` describes: it has the
    /// configuration's name, endpoint and servers, is not active, and has
    /// one fresh manager for each of its servers and no other.
    pub open spec fn built_from(&self, cfg: &ServiceConfig) -> bool {
        &&& self.name@ == cfg.name@
        &&& Some(self.local_endpoint) == spec_parse_endpoint(bytes_of(cfg.local_endpoint@))
        &&& self.servers@.len() == cfg.servers@.len()
        &&& forall|i: int|
            0 <= i < cfg.servers@.len() ==> Some(#[trigger] self.servers@[i])
                == spec_parse_endpoint(bytes_of(cfg.servers@[i]@))
        &&& !self.active
        &&& self.server_tracker_map.unique()
        &&& forall|i: int|
            0 <= i < self.servers@.len() ==> self.server_tracker_map.spec_find(
                #[trigger] self.servers@[i],
            ) is Some
        &&& forall|j: int|
            0 <= j < self.server_tracker_map.entries@.len() ==> (
            #[trigger] self.server_tracker_map.entries@[j]).item@ == spec_fresh_mgr(cfg.is_tcp)
                && self.servers@.contains(self.server_tracker_map.entries@[j].key)
    }

    /// The service that a configuration describes, with a fresh manager for
    /// each of its servers.
    pub fn new(cfg: &ServiceConfig) -> (s: Self)
        requires
            cfg.spec_valid(),
        ensures
            s.built_from(cfg),
    {
        let local_endpoint = Endpoint::from_string(&cfg.local_endpoint);
        let mut servers: Vec<Endpoint> = Vec::new();
        let mut server_tracker_map: Roster<ConnectionStateMgr> = Roster::new();
        let mut i: usize = 0;
        while i < cfg.servers.len()
            invariant
                i <= cfg.servers@.len(),
                cfg.spec_valid(),
                servers@.len() == i,
                forall|k: int|
                    0 <= k < i ==> Some(#[trigger] servers@[k]) == spec_parse_endpoint(
                        bytes_of(cfg.servers@[k]@),
                    ),
                server_tracker_map.unique(),
                forall|k: int|
                    0 <= k < i ==> server_tracker_map.spec_find(#[trigger] servers@[k]) is Some,
                forall|j: int|
                    0 <= j < server_tracker_map.entries@.len() ==> (
                    #[trigger] server_tracker_map.entries@[j]).item@ == spec_fresh_mgr(cfg.is_tcp)
                        && servers@.contains(server_tracker_map.entries@[j].key),
            decreases cfg.servers@.len() - i,
        {
            let server = Endpoint::from_string(&cfg.servers[i]);
            let ghost before = server_tracker_map.entries@;
            let ghost before_servers = servers@;
            let ghost before_tracker = server_tracker_map;
            servers.push(server);
            let _ = server_tracker_map.put(server, ConnectionStateMgr::new(cfg.is_tcp));
            proof {
                assert(servers@[i as int] == server);
                assert forall|k: int| 0 <= k < i + 1 implies server_tracker_map.spec_find(
                    #[trigger] servers@[k],
                ) is Some by {
                    if k < i {
                        assert(servers@[k] == before_servers[k]);
                        assert(before_tracker.spec_contains(before_servers[k]));
                    }
                }
                assert forall|j: int|
                    0 <= j < server_tracker_map.entries@.len() implies (
                #[trigger] server_tracker_map.entries@[j]).item@ == spec_fresh_mgr(cfg.is_tcp)
                    && servers@.contains(server_tracker_map.entries@[j].key) by {
                    let e = server_tracker_map.entries@[j];
                    if e.key == server {
                        assert(servers@[i as int] == e.key);
                    } else {
                        assert(e == before[j]);
                        let k = choose|k: int|
                            0 <= k < before_servers.len() && before_servers[k] == before[j].key;
                        assert(servers@[k] == e.key);
                    }
                }
            }
            i = i + 1;
        }
        let service = Service {
            name: cfg.name.clone(),
            local_endpoint,
            servers,
            active: false,
            server_tracker_map,
        };
        service
    }

    /// Handles a message: one about a packet goes to the manager of the
    /// message's server, a close is not for the service to act on.
    pub fn handle_message(
        &mut self,
        msg: Message,
        server_ips: &HashSet<u32>,
        maps: &mut SharedMaps,
    ) -> (waits: Option<Waits>)
        ensures
            old(self).handled(final(self), old(maps)@, final(maps)@, msg, server_ips@),
            waits == old(self).spec_waits(msg, server_ips@),
            final(maps)@.inv(),
    {
        proof {
            use_type_invariant(&maps.flow);
            maps.flow.lemma_wf();
        }
        match msg.msg_type {
            MessageType::Packet(_) => {
                match self.server_tracker_map.find(&msg.server) {
                    Some(t) => {
                        let server_tracker = &mut self.server_tracker_map.entries[t].item;
                        server_tracker.handle_packet_msg(msg, server_ips, maps)
                    },
                    None => None,
                }
            },
            MessageType::Close => None,
        }
    }

    /// Whether `after` and `maps_after` are what `self` and `maps` become
    /// when the `TimeWait` timer of a peer of the connection under `key`
    /// fires: the manager of `server`, if the service has that server,
    /// handles it, and nothing else changes.
    pub open spec fn expired(
        &self,
        after: &Service,
        maps: MapsView,
        maps_after: MapsView,
        server: Endpoint,
        key: u128,
        peer: Peer,
    ) -> bool {
        let before = self.server_tracker_map.entries@;
        let trackers = after.server_tracker_map.entries@;
        &&& after.name == self.name
        &&& after.local_endpoint == self.local_endpoint
        &&& after.servers == self.servers
        &&& after.active == self.active
        &&& trackers.len() == before.len()
        &&& forall|j: int| 0 <= j < before.len() ==> (#[trigger] trackers[j]).key == before[j].key
        &&& match self.server_tracker_map.spec_find(server) {
            Some(t) => {
                &&& forall|j: int|
                    0 <= j < before.len() && j != t ==> #[trigger] trackers[j] == before[j]
                &&& (trackers[t].item@, maps_after)
                    == ConnectionStateMgr::spec_handle_time_expired(
                    before[t].item@,
                    maps,
                    key,
                    peer,
                )
            },
            None => trackers == before && maps_after == maps,
        }
    }

    /// The `TimeWait` timer of a peer has fired.
    pub fn handle_time_expired(
        &mut self,
        server: Endpoint,
        connection: Connection,
        peer: Peer,
        maps: &mut SharedMaps,
    )
        ensures
            old(self).expired(
                final(self),
                old(maps)@,
                final(maps)@,
                server,
                connection.spec_key(),
                peer,
            ),
            final(maps)@.inv(),
    {
        proof {
            use_type_invariant(&maps.flow);
            maps.flow.lemma_wf();
        }
        match self.server_tracker_map.find(&server) {
            Some(t) => {
                let server_tracker = &mut self.server_tracker_map.entries[t].item;
                server_tracker.handle_time_expired(connection, peer, maps);
            },
            None => {},
        }
    }
}

} // verus!
