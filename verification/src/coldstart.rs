//! The cold-start controller: it starts a backend when a packet asks for an
//! unknown virtual service, and stops it when no packet came for a while.
//!
//! The controller decides; its caller does what takes time. The caller asks
//! [`ColdStartController::poll`] for the next request, calls the
//! provisioner for it and hands the answer to
//! [`ColdStartController::started`]; whenever the controller answers
//! [`Next::Sleep`], the caller lets one sampling window pass and calls
//! [`ColdStartController::woke`].

use crate::config::ServiceConfig;
use crate::datapath::in_cold_start_band;
use crate::datapath::spec_in_cold_start_band;
use crate::endpoint::Endpoint;
use crate::endpoint::KEndpoint;
use crate::engine::FlowStateEngine;
use crate::maps::MapsView;
use crate::maps::SharedMaps;
use crate::parse::bytes_of;
use crate::parse::spec_parse_endpoint;
use crate::roster::Roster;
use crate::service::Service;
use crate::table::offered;
use vstd::prelude::*;

verus! {

/// Length of one window of the idle monitor, in seconds.
pub const IDLE_WINDOW_SECS: u64 = 15;

/// How long a drained ring is left alone before it is looked at again, in
/// milliseconds.
pub const RING_POLL_MILLIS: u64 = 100;

/// Where the session of an endpoint stands.
#[derive(Debug, Clone, Copy, PartialEq, Eq, Structural)]
pub enum Phase {
    /// The provisioner was asked to start a backend.
    Starting,
    /// The doorbell is armed; the window that samples traffic runs.
    Sampling,
    /// The doorbell is off; the window between two samples runs.
    Resting,
}

/// What the controller wants done about the Cold-Start Ring.
#[derive(Debug, Clone, Copy, PartialEq, Eq, Structural)]
pub enum Request {
    /// The ring is empty.
    Idle,
    /// The endpoint is outside the cold-start band, has a backend or is being
    /// started: nothing is to be done.
    Skip(Endpoint),
    /// The provisioner is to be asked to start a backend for the endpoint.
    StartServer(Endpoint),
}

/// What follows for the session of an endpoint.
#[derive(Debug, Clone, Copy, PartialEq, Eq, Structural)]
pub enum Next {
    /// One window is to pass, then the controller is to be woken.
    Sleep,
    /// The session is over, or there was none.
    Finished,
}

/// The sessions of the endpoints that are being started or watched.
pub struct ColdStartController {
    pub sessions: Roster<Phase>,
}

/// The server that a provisioner's answer names: the first of its servers,
/// if the answer is there and well-formed.
pub open spec fn spec_server_of(reply: Option<&ServiceConfig>) -> Option<Endpoint> {
    match reply {
        Some(cfg) => if cfg.spec_valid() && cfg.servers@.len() > 0 {
            spec_parse_endpoint(bytes_of(cfg.servers@[0]@))
        } else {
            None
        },
        None => None,
    }
}

/// The service that a provisioner's answer describes: none if the backend
/// is not active, else a TCP service at `local_endpoint` with the one server
/// that the answer names.
pub fn service_of_reply(
    local_endpoint: String,
    active: bool,
    name: String,
    server_endpoint: String,
) -> (r: Option<ServiceConfig>)
    ensures
        r is Some <==> active,
        r matches Some(c) ==> c.name@ == name@ && c.local_endpoint@ == local_endpoint@
            && c.servers@.len() == 1 && c.servers@[0]@ == server_endpoint@ && c.is_tcp,
{
    if !active {
        return None;
    }
    let mut servers: Vec<String> = Vec::new();
    servers.push(server_endpoint);
    Some(ServiceConfig { name, local_endpoint, servers, is_tcp: true })
}

impl ColdStartController {
    pub fn new() -> (c: Self)
        ensures
            c.sessions.entries@.len() == 0,
            c.sessions.unique(),
    {
        ColdStartController { sessions: Roster::new() }
    }

    /// Whether a request for `e` is to be skipped: the endpoint is outside
    /// the cold-start band, or it has a backend, or it has a session.
    pub open spec fn skips(&self, maps: MapsView, e: KEndpoint) -> bool {
        ||| !spec_in_cold_start_band(e.port)
        ||| maps.backends.contains_key(e)
        ||| self.sessions.spec_contains(Endpoint::spec_new(e))
    }

    /// Takes the next endpoint off the Cold-Start Ring. A request that is
    /// not skipped opens a session for its endpoint; a repeated request for
    /// an endpoint with a backend or a session opens none.
    pub fn poll(&mut self, maps: &mut SharedMaps) -> (r: Request)
        ensures
            old(maps)@.cold_start.len() == 0 ==> r == Request::Idle && final(maps)@ == old(maps)@
                && final(self).sessions.entries@ == old(self).sessions.entries@,
            old(maps)@.cold_start.len() > 0 ==> {
                let k = old(maps)@.cold_start[0];
                let e = Endpoint::spec_new(k);
                &&& final(maps)@ == (MapsView {
                    cold_start: old(maps)@.cold_start.subrange(
                        1,
                        old(maps)@.cold_start.len() as int,
                    ),
                    ..old(maps)@
                })
                &&& if old(self).skips(old(maps)@, k) {
                    r == Request::Skip(e) && final(self).sessions.entries@ == old(self).sessions.entries@
                } else {
                    &&& r == Request::StartServer(e)
                    &&& final(self).sessions.spec_get(e) == Some(Phase::Starting)
                    &&& forall|o: Endpoint|
                        o != e ==> #[trigger] final(self).sessions.spec_get(o) == old(self).sessions.spec_get(o)
                }
            },
            old(self).sessions.unique() ==> final(self).sessions.unique(),
            final(maps)@.inv(),
    {
        proof {
            use_type_invariant(&maps.flow);
            maps.flow.lemma_wf();
        }
        let k = match maps.cold_start.pop() {
            Some(k) => k,
            None => {
                return Request::Idle;
            },
        };
        let e = Endpoint::new(k);
        if !in_cold_start_band(k.port()) || maps.flow.backend(&k).is_some()
            || self.sessions.contains(&e) {
            return Request::Skip(e);
        }
        let _ = self.sessions.put(e, Phase::Starting);
        Request::StartServer(e)
    }

    /// Takes the provisioner's answer for `endpoint`.
    ///
    /// Without a session that is starting nothing happens. Without a
    /// well-formed answer, or if the Backend Table is full, the session ends.
    /// Otherwise the backend is installed, then the service is registered
    /// under `endpoint` in place of any that was there, then the doorbell is
    /// armed, and the first window is to pass.
    pub fn started(
        &mut self,
        maps: &mut SharedMaps,
        engine: &mut FlowStateEngine,
        endpoint: Endpoint,
        reply: Option<&ServiceConfig>,
    ) -> (next: Next)
        ensures
            final(engine).server_ips == old(engine).server_ips,
            final(engine).udp_service_map.entries@ == old(engine).udp_service_map.entries@,
            forall|o: Endpoint|
                o != endpoint ==> #[trigger] final(self).sessions.spec_get(o) == old(self).sessions.spec_get(o),
            forall|o: Endpoint|
                o != endpoint ==> #[trigger] final(engine).tcp_service_map.spec_get(o) == old(engine).tcp_service_map.spec_get(o),
            old(self).sessions.unique() ==> final(self).sessions.unique(),
            old(engine).tcp_service_map.unique() ==> final(engine).tcp_service_map.unique(),
            final(maps)@.inv(),
            old(self).sessions.spec_get(endpoint) != Some(Phase::Starting) ==> {
                &&& next == Next::Finished
                &&& final(maps)@ == old(maps)@
                &&& final(self).sessions.entries@ == old(self).sessions.entries@
                &&& final(engine).tcp_service_map.entries@ == old(engine).tcp_service_map.entries@
            },
            old(self).sessions.spec_get(endpoint) == Some(Phase::Starting) ==> {
                let k = endpoint.spec_to_k_endpoint();
                match spec_server_of(reply) {
                    Some(server) if old(maps)@.can_install(k) => {
                        &&& next == Next::Sleep
                        &&& final(self).sessions.spec_get(endpoint) == Some(Phase::Sampling)
                        &&& final(maps)@ == (MapsView {
                            backends: old(maps)@.backends.insert(k, server.spec_to_k_endpoint()),
                            doorbell: offered(
                                old(maps)@.doorbell,
                                old(maps)@.doorbell_capacity,
                                k,
                                1u8,
                            ),
                            ..old(maps)@
                        })
                        &&& final(engine).tcp_service_map.spec_get(endpoint) matches Some(service)
                            && service.built_from(reply->Some_0)
                    },
                    _ => {
                        &&& next == Next::Finished
                        &&& final(maps)@ == old(maps)@
                        &&& final(engine).tcp_service_map.entries@ == old(engine).tcp_service_map.entries@
                        &&& old(self).sessions.unique() ==> final(self).sessions.spec_get(endpoint)
                            is None
                    },
                }
            },
    {
        proof {
            use_type_invariant(&maps.flow);
            maps.flow.lemma_wf();
        }
        match self.sessions.find(&endpoint) {
            Some(i) => {
                match self.sessions.entries[i].item {
                    Phase::Starting => {},
                    _ => {
                        return Next::Finished;
                    },
                }
            },
            None => {
                return Next::Finished;
            },
        }
        let k = endpoint.to_k_endpoint();
        let service_cfg = match reply {
            Some(cfg) => {
                if !cfg.is_valid() || cfg.servers.len() == 0 || !maps.flow.can_install(&k) {
                    let _ = self.sessions.take(&endpoint);
                    return Next::Finished;
                }
                cfg
            },
            None => {
                let _ = self.sessions.take(&endpoint);
                return Next::Finished;
            },
        };
        let server_endpoint = Endpoint::from_string(&service_cfg.servers[0]);
        let _ = maps.install_backend(k, server_endpoint.to_k_endpoint());
        let _ = engine.tcp_service_map.put(endpoint, Service::new(service_cfg));
        // arm the doorbell
        let _ = maps.doorbell.insert(k, 1u8);
        let _ = self.sessions.put(endpoint, Phase::Sampling);
        Next::Sleep
    }

    /// A window of the session of `endpoint` has passed.
    ///
    /// After a sampling window the doorbell is switched off and the
    /// Performance Table is read: if it has no entry for the endpoint, or
    /// zero, the backend is removed from the Backend Table, the service is
    /// unregistered and the session ends; else the entry is set to zero and
    /// a resting window is to pass. After a resting window the doorbell is
    /// armed and a sampling window is to pass. Without a session in one of
    /// these phases nothing happens.
    pub fn woke(&mut self, maps: &mut SharedMaps, engine: &mut FlowStateEngine, endpoint: Endpoint) -> (next:
        Next)
        ensures
            final(engine).server_ips == old(engine).server_ips,
            final(engine).udp_service_map.entries@ == old(engine).udp_service_map.entries@,
            forall|o: Endpoint|
                o != endpoint ==> #[trigger] final(self).sessions.spec_get(o) == old(self).sessions.spec_get(o),
            forall|o: Endpoint|
                o != endpoint ==> #[trigger] final(engine).tcp_service_map.spec_get(o) == old(engine).tcp_service_map.spec_get(o),
            old(self).sessions.unique() ==> final(self).sessions.unique(),
            old(engine).tcp_service_map.unique() ==> final(engine).tcp_service_map.unique(),
            final(maps)@.inv(),
            ({
                let k = endpoint.spec_to_k_endpoint();
                let m = old(maps)@;
                match old(self).sessions.spec_get(endpoint) {
                    Some(Phase::Sampling) => {
                        let silenced = MapsView {
                            doorbell: offered(m.doorbell, m.doorbell_capacity, k, 0u8),
                            ..m
                        };
                        if m.performance.contains_key(k) && m.performance[k] != 0 {
                            &&& next == Next::Sleep
                            &&& final(maps)@ == (MapsView {
                                performance: m.performance.insert(k, 0u8),
                                ..silenced
                            })
                            &&& final(self).sessions.spec_get(endpoint) == Some(Phase::Resting)
                            &&& final(engine).tcp_service_map.entries@ == old(engine).tcp_service_map.entries@
                        } else {
                            &&& next == Next::Finished
                            &&& final(maps)@ == (MapsView {
                                backends: m.backends.remove(k),
                                ..silenced
                            })
                            &&& old(self).sessions.unique() ==> final(self).sessions.spec_get(
                                endpoint,
                            ) is None
                            &&& old(engine).tcp_service_map.unique() ==> !final(engine).tcp_service_map.spec_contains(endpoint)
                        }
                    },
                    Some(Phase::Resting) => {
                        &&& next == Next::Sleep
                        &&& final(maps)@ == (MapsView {
                            doorbell: offered(m.doorbell, m.doorbell_capacity, k, 1u8),
                            ..m
                        })
                        &&& final(self).sessions.spec_get(endpoint) == Some(Phase::Sampling)
                        &&& final(engine).tcp_service_map.entries@ == old(engine).tcp_service_map.entries@
                    },
                    _ => {
                        &&& next == Next::Finished
                        &&& final(maps)@ == m
                        &&& final(self).sessions.entries@ == old(self).sessions.entries@
                        &&& final(engine).tcp_service_map.entries@ == old(engine).tcp_service_map.entries@
                    },
                }
            }),
    {
        proof {
            use_type_invariant(&maps.flow);
            maps.flow.lemma_wf();
        }
        let phase = match self.sessions.find(&endpoint) {
            Some(i) => self.sessions.entries[i].item,
            None => {
                return Next::Finished;
            },
        };
        let k = endpoint.to_k_endpoint();
        match phase {
            Phase::Starting => Next::Finished,
            Phase::Resting => {
                // arm the doorbell
                let _ = maps.doorbell.insert(k, 1u8);
                let _ = self.sessions.put(endpoint, Phase::Sampling);
                Next::Sleep
            },
            Phase::Sampling => {
                // switch the doorbell off
                let _ = maps.doorbell.insert(k, 0u8);
                // was there any traffic?
                let cnt = maps.performance.get(&k);
                let idle = match cnt {
                    Some(v) => v == 0,
                    None => true,
                };
                if idle {
                    // none: the backend goes
                    let _ = maps.remove_backend(k);
                    let _ = engine.tcp_service_map.take(&endpoint);
                    let _ = self.sessions.take(&endpoint);
                    return Next::Finished;
                }
                // some: start the count afresh
                let _ = maps.performance.insert(k, 0u8);
                let _ = self.sessions.put(endpoint, Phase::Resting);
                Next::Sleep
            },
        }
    }
}

} // verus!
