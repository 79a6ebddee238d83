//! The flow state engine: it takes the notifications of the datapath to the
//! service that each belongs to.

use crate::endpoint::Connection;
use crate::endpoint::Endpoint;
use crate::maps::MapsView;
use crate::maps::SharedMaps;
use crate::message::Message;
use crate::notification::Notification;
use crate::roster::Roster;
use crate::service::Service;
use crate::state::tcp::Peer;
use crate::state::Waits;
use std::collections::HashSet;
use vstd::prelude::*;

verus! {

/// A request to start the `TimeWait` timers of a connection. When a timer
/// fires, the engine is told so with the names given here.
#[derive(Debug, Clone, Copy)]
pub struct TimerRequest {
    /// The endpoint of the service.
    pub service: Endpoint,
    /// The server that the connection ends at.
    pub server: Endpoint,
    pub waits: Waits,
}

/// The services by their endpoints, TCP and UDP apart, and the set of the
/// servers' addresses, which never changes once the engine runs.
pub struct FlowStateEngine {
    pub tcp_service_map: Roster<Service>,
    pub udp_service_map: Roster<Service>,
    pub server_ips: HashSet<u32>,
}

/// Where a notification goes: to the service at the endpoint that the packet
/// came in for, the packet then coming from the client; else to the service
/// at the endpoint that the packet left from, the packet then coming from
/// the server. The position of the service and whether the packet comes from
/// the client.
pub open spec fn spec_route(services: &Roster<Service>, n: Notification) -> Option<(int, bool)> {
    match services.spec_find(Endpoint::spec_new(n.local_in_endpoint)) {
        Some(i) => Some((i, true)),
        None => match services.spec_find(Endpoint::spec_new(n.lcoal_out_endpoint)) {
            Some(i) => Some((i, false)),
            None => None,
        },
    }
}

/// The timers that a notification asks for: those of the service that it
/// goes to, with the names under which the engine is to be told of them.
pub open spec fn spec_timers(services: &Roster<Service>, n: Notification, server_ips: Set<u32>) -> Option<
    TimerRequest,
> {
    match spec_route(services, n) {
        None => None,
        Some((i, from_client)) => {
            let msg = Message::spec_from_notification(n, from_client);
            match services.entries@[i].item.spec_waits(msg, server_ips) {
                Some(waits) => Some(
                    TimerRequest { service: services.entries@[i].key, server: msg.server, waits },
                ),
                None => None,
            }
        },
    }
}

/// Whether `after` and `maps_after` are what the services `before` and
/// `maps` become when a notification is handled: the service it goes to
/// handles its message, and nothing else changes.
pub open spec fn routed(
    before: &Roster<Service>,
    after: &Roster<Service>,
    maps: MapsView,
    maps_after: MapsView,
    n: Notification,
    server_ips: Set<u32>,
) -> bool {
    match spec_route(before, n) {
        None => after.entries@ == before.entries@ && maps_after == maps,
        Some((i, from_client)) => {
            &&& after.entries@.len() == before.entries@.len()
            &&& forall|j: int|
                0 <= j < before.entries@.len() && j != i ==> #[trigger] after.entries@[j]
                    == before.entries@[j]
            &&& after.entries@[i].key == before.entries@[i].key
            &&& before.entries@[i].item.handled(
                &after.entries@[i].item,
                maps,
                maps_after,
                Message::spec_from_notification(n, from_client),
                server_ips,
            )
        },
    }
}

/// Whether `after` and `maps_after` are what the services `before` and
/// `maps` become when a timer fires: the service at `service`, if there is
/// one, handles it, and nothing else changes.
pub open spec fn timed_out(
    before: &Roster<Service>,
    after: &Roster<Service>,
    maps: MapsView,
    maps_after: MapsView,
    service: Endpoint,
    server: Endpoint,
    key: u128,
    peer: Peer,
) -> bool {
    match before.spec_find(service) {
        None => after.entries@ == before.entries@ && maps_after == maps,
        Some(i) => {
            &&& after.entries@.len() == before.entries@.len()
            &&& forall|j: int|
                0 <= j < before.entries@.len() && j != i ==> #[trigger] after.entries@[j]
                    == before.entries@[j]
            &&& after.entries@[i].key == before.entries@[i].key
            &&& before.entries@[i].item.expired(
                &after.entries@[i].item,
                maps,
                maps_after,
                server,
                key,
                peer,
            )
        },
    }
}

fn route(services: &Roster<Service>, notification: &Notification) -> (r: Option<(usize, bool)>)
    ensures
        match r {
            Some((i, from_client)) => spec_route(services, *notification) == Some(
                (i as int, from_client),
            ) && i < services.entries@.len(),
            None => spec_route(services, *notification) is None,
        },
{
    let local_in_endpoint = Endpoint::new(notification.local_in_endpoint);
    let local_out_endpoint = Endpoint::new(notification.lcoal_out_endpoint);
    match services.find(&local_in_endpoint) {
        Some(i) => Some((i, true)),
        None => match services.find(&local_out_endpoint) {
            Some(i) => Some((i, false)),
            None => None,
        },
    }
}

impl FlowStateEngine {
    /// An engine without services.
    pub fn new(server_ips: HashSet<u32>) -> (e: Self)
        ensures
            e.tcp_service_map.entries@.len() == 0,
            e.udp_service_map.entries@.len() == 0,
            e.server_ips == server_ips,
    {
        FlowStateEngine {
            tcp_service_map: Roster::new(),
            udp_service_map: Roster::new(),
            server_ips,
        }
    }

    /// Takes one notification from the Packet-Event Ring to the service that
    /// it belongs to, among the TCP services if it is about TCP and among the
    /// UDP services if not. Returns the timers to start, if any.
    pub fn handle_notification(&mut self, maps: &mut SharedMaps, notification: Notification) -> (r:
        Option<TimerRequest>)
        ensures
            final(self).server_ips == old(self).server_ips,
            final(maps)@.inv(),
            r == spec_timers(
                if notification.is_tcp() {
                    &old(self).tcp_service_map
                } else {
                    &old(self).udp_service_map
                },
                notification,
                old(self).server_ips@,
            ),
            notification.is_tcp() ==> final(self).udp_service_map.entries@ == old(self).udp_service_map.entries@ && routed(
                &old(self).tcp_service_map,
                &final(self).tcp_service_map,
                old(maps)@,
                final(maps)@,
                notification,
                old(self).server_ips@,
            ),
            !notification.is_tcp() ==> final(self).tcp_service_map.entries@ == old(self).tcp_service_map.entries@ && routed(
                &old(self).udp_service_map,
                &final(self).udp_service_map,
                old(maps)@,
                final(maps)@,
                notification,
                old(self).server_ips@,
            ),
    {
        proof {
            use_type_invariant(&maps.flow);
            maps.flow.lemma_wf();
        }
        if notification.is_tcp() {
            match route(&self.tcp_service_map, &notification) {
                Some((i, from_client)) => {
                    let msg = Message::from_notification(notification, from_client);
                    let service_endpoint = self.tcp_service_map.entries[i].key;
                    let service = &mut self.tcp_service_map.entries[i].item;
                    match service.handle_message(msg, &self.server_ips, maps) {
                        Some(waits) => Some(
                            TimerRequest { service: service_endpoint, server: msg.server, waits },
                        ),
                        None => None,
                    }
                },
                None => None,
            }
        } else {
            match route(&self.udp_service_map, &notification) {
                Some((i, from_client)) => {
                    let msg = Message::from_notification(notification, from_client);
                    let service_endpoint = self.udp_service_map.entries[i].key;
                    let service = &mut self.udp_service_map.entries[i].item;
                    match service.handle_message(msg, &self.server_ips, maps) {
                        Some(waits) => Some(
                            TimerRequest { service: service_endpoint, server: msg.server, waits },
                        ),
                        None => None,
                    }
                },
                None => None,
            }
        }
    }

    /// A `TimeWait` timer has fired for a peer of a connection of the TCP
    /// service at `service`.
    pub fn handle_time_expired(
        &mut self,
        maps: &mut SharedMaps,
        service: Endpoint,
        server: Endpoint,
        connection: Connection,
        peer: Peer,
    )
        ensures
            final(self).server_ips == old(self).server_ips,
            final(maps)@.inv(),
            final(self).udp_service_map.entries@ == old(self).udp_service_map.entries@,
            timed_out(
                &old(self).tcp_service_map,
                &final(self).tcp_service_map,
                old(maps)@,
                final(maps)@,
                service,
                server,
                connection.spec_key(),
                peer,
            ),
    {
        proof {
            use_type_invariant(&maps.flow);
            maps.flow.lemma_wf();
        }
        match self.tcp_service_map.find(&service) {
            Some(i) => {
                let target = &mut self.tcp_service_map.entries[i].item;
                target.handle_time_expired(server, connection, peer, maps);
            },
            None => {},
        }
    }
}

} // verus!
