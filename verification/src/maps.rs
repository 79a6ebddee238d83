//! The tables and rings that the datapath and the control plane share, and
//! what holds of them at all times.

use crate::endpoint::KConnection;
use crate::endpoint::KEndpoint;
use crate::endpoint::Mac;
use crate::endpoint::UConnection;
use crate::flows::spec_install;
use crate::flows::spec_usable_ports;
use crate::flows::FlowMaps;
use crate::flows::FlowMapsView;
use crate::notification::Notification;
use crate::table::Fifo;
use crate::table::Table;
use vstd::prelude::*;

verus! {

/// Number of source ports that the pool is filled with by default.
pub const PORTS_QUEUE_SIZE: u32 = 50000;

/// First source port that the pool is filled with by default.
pub const FIRST_SERVICE_PORT: u16 = 10000;

/// Lowest port, in host order, whose unknown endpoint triggers a cold start.
pub const COLD_START_PORT_MIN: u16 = 8000;

/// Highest port, in host order, whose unknown endpoint triggers a cold start.
pub const COLD_START_PORT_MAX: u16 = 9999;

/// The sizes of the shared maps.
#[derive(Debug, Clone, Copy, PartialEq, Eq, Structural)]
pub struct MapsConfig {
    pub flows: usize,
    pub backends: usize,
    pub ip_mac: usize,
    pub local_ips: usize,
    pub cold_start: usize,
    pub packet_events: usize,
    pub doorbell: usize,
    pub performance: usize,
    /// First port of the pool, in host order.
    pub port_first: u16,
    /// Number of consecutive ports in the pool.
    pub port_count: u32,
}

impl MapsConfig {
    /// The sizes that the gateway runs with: 1024 flows, backends and
    /// hardware addresses, 10 interfaces, 102400 probes, rings of 256 KiB
    /// times 10 taken as records of 16 and 56 bytes, and the ports from
    /// 10000 to 59999.
    pub open spec fn spec_standard() -> MapsConfig {
        MapsConfig {
            flows: 1024,
            backends: 1024,
            ip_mac: 1024,
            local_ips: 10,
            cold_start: 163840,
            packet_events: 46811,
            doorbell: 102400,
            performance: 102400,
            port_first: FIRST_SERVICE_PORT,
            port_count: PORTS_QUEUE_SIZE,
        }
    }

    #[verifier::when_used_as_spec(spec_standard)]
    pub fn standard() -> (c: MapsConfig)
        ensures
            c == Self::spec_standard(),
    {
        MapsConfig {
            flows: 1024,
            backends: 1024,
            ip_mac: 1024,
            local_ips: 10,
            cold_start: 163840,
            packet_events: 46811,
            doorbell: 102400,
            performance: 102400,
            port_first: FIRST_SERVICE_PORT,
            port_count: PORTS_QUEUE_SIZE,
        }
    }

    /// The number of ports from `port_first` on that are port numbers.
    pub open spec fn spec_usable_ports(&self) -> u32 {
        spec_usable_ports(self.port_first, self.port_count)
    }
}

/// The shared maps.
pub struct SharedMaps {
    /// Flow Table, Backend Table and Service-Port Pool.
    pub flow: FlowMaps,
    /// IP to MAC Table, keyed by the address in network order.
    pub ip_mac: Table<u32, Mac>,
    /// Local IP per interface: interface index to address in host order.
    pub local_ips: Table<u32, u32>,
    /// Cold-Start Ring: unknown virtual services that packets asked for.
    pub cold_start: Fifo<KEndpoint>,
    /// Packet-Event Ring.
    pub packet_events: Fifo<Notification>,
    /// Doorbell Table: 1 while the endpoint's traffic is sampled.
    pub doorbell: Table<KEndpoint, u8>,
    /// Performance Table: 1 once a packet was seen while the doorbell was armed.
    pub performance: Table<KEndpoint, u8>,
}

/// What the shared maps hold.
#[verifier::ext_equal]
pub struct MapsView {
    pub flows: Map<KConnection, KConnection>,
    /// The keys of the Flow Table that are the way back of a flow.
    pub leased: Set<KConnection>,
    pub flows_capacity: usize,
    pub backends: Map<KEndpoint, KEndpoint>,
    pub backends_capacity: usize,
    pub ip_mac: Map<u32, Mac>,
    pub ip_mac_capacity: usize,
    pub local_ips: Map<u32, u32>,
    pub local_ips_capacity: usize,
    pub ports: Seq<u16>,
    pub ports_capacity: usize,
    pub cold_start: Seq<KEndpoint>,
    pub cold_start_capacity: usize,
    pub packet_events: Seq<Notification>,
    pub packet_events_capacity: usize,
    pub doorbell: Map<KEndpoint, u8>,
    pub doorbell_capacity: usize,
    pub performance: Map<KEndpoint, u8>,
    pub performance_capacity: usize,
    pub port_first: u16,
    pub port_count: u32,
}

impl View for SharedMaps {
    type V = MapsView;

    open spec fn view(&self) -> MapsView {
        MapsView {
            flows: self.flow@.flows,
            leased: self.flow@.leased,
            flows_capacity: self.flow@.flows_capacity,
            backends: self.flow@.backends,
            backends_capacity: self.flow@.backends_capacity,
            ip_mac: self.ip_mac@,
            ip_mac_capacity: self.ip_mac.spec_capacity(),
            local_ips: self.local_ips@,
            local_ips_capacity: self.local_ips.spec_capacity(),
            ports: self.flow@.ports,
            ports_capacity: self.flow@.ports_capacity,
            cold_start: self.cold_start@,
            cold_start_capacity: self.cold_start.spec_capacity(),
            packet_events: self.packet_events@,
            packet_events_capacity: self.packet_events.spec_capacity(),
            doorbell: self.doorbell@,
            doorbell_capacity: self.doorbell.spec_capacity(),
            performance: self.performance@,
            performance_capacity: self.performance.spec_capacity(),
            port_first: self.flow@.port_first,
            port_count: self.flow@.port_count,
        }
    }
}

impl MapsView {
    /// The Flow Table, the Backend Table and the pool among the maps.
    pub open spec fn flow_part(&self) -> FlowMapsView {
        FlowMapsView {
            flows: self.flows,
            leased: self.leased,
            flows_capacity: self.flows_capacity,
            backends: self.backends,
            backends_capacity: self.backends_capacity,
            ports: self.ports,
            ports_capacity: self.ports_capacity,
            port_first: self.port_first,
            port_count: self.port_count,
        }
    }

    /// The maps with the Flow Table, the Backend Table and the pool
    /// replaced.
    pub open spec fn with_flow(&self, flow: FlowMapsView) -> MapsView {
        MapsView {
            flows: flow.flows,
            leased: flow.leased,
            flows_capacity: flow.flows_capacity,
            backends: flow.backends,
            backends_capacity: flow.backends_capacity,
            ports: flow.ports,
            ports_capacity: flow.ports_capacity,
            port_first: flow.port_first,
            port_count: flow.port_count,
            ..*self
        }
    }

    /// Whether the pool manages the port `p`, given in host order.
    pub open spec fn manages(&self, p: u16) -> bool {
        self.flow_part().manages(p)
    }

    /// What holds of the shared maps in every state: every entry of the Flow
    /// Table has its mirror, no port of the pool is in use by a flow, and the
    /// pool has room for every port that is out.
    pub open spec fn inv(&self) -> bool {
        self.flow_part().inv()
    }

    /// Whether `port` and the two keys name a flow of the table.
    pub open spec fn leases(&self, port: u16, forward: KConnection, back: KConnection) -> bool {
        self.flow_part().leases(port, forward, back)
    }

    /// Whether a virtual service can be bound.
    pub open spec fn can_install(&self, service: KEndpoint) -> bool {
        self.flow_part().can_install(service)
    }
}

/// The maps after a flow was given up, if `port` and the two keys name a
/// flow of the table.
pub open spec fn spec_release(m: MapsView, port: u16, forward: UConnection, back: UConnection) -> MapsView {
    m.with_flow(crate::flows::spec_release(m.flow_part(), port, forward, back))
}

impl SharedMaps {
    /// Empty tables and rings of the given sizes, and the pool filled with
    /// the configured ports in rising order.
    pub fn new(config: MapsConfig) -> (m: Self)
        ensures
            m@.flows == Map::<KConnection, KConnection>::empty(),
            m@.leased == Set::<KConnection>::empty(),
            m@.backends == Map::<KEndpoint, KEndpoint>::empty(),
            m@.ip_mac == Map::<u32, Mac>::empty(),
            m@.local_ips == Map::<u32, u32>::empty(),
            m@.doorbell == Map::<KEndpoint, u8>::empty(),
            m@.performance == Map::<KEndpoint, u8>::empty(),
            m@.cold_start == Seq::<KEndpoint>::empty(),
            m@.packet_events == Seq::<Notification>::empty(),
            m@.ports == Seq::new(
                config.spec_usable_ports() as nat,
                |i: int| (config.port_first + i) as u16,
            ),
            m@.port_first == config.port_first,
            m@.port_count == config.spec_usable_ports(),
            m@.flows_capacity == config.flows,
            m@.backends_capacity == config.backends,
            m@.ip_mac_capacity == config.ip_mac,
            m@.local_ips_capacity == config.local_ips,
            m@.cold_start_capacity == config.cold_start,
            m@.packet_events_capacity == config.packet_events,
            m@.doorbell_capacity == config.doorbell,
            m@.performance_capacity == config.performance,
            m@.ports_capacity == config.spec_usable_ports(),
            m@.inv(),
    {
        SharedMaps {
            flow: FlowMaps::new(
                config.flows,
                config.backends,
                config.port_first,
                config.port_count,
            ),
            ip_mac: Table::new(config.ip_mac),
            local_ips: Table::new(config.local_ips),
            cold_start: Fifo::new(config.cold_start),
            packet_events: Fifo::new(config.packet_events),
            doorbell: Table::new(config.doorbell),
            performance: Table::new(config.performance),
        }
    }

    /// Gives a flow up: returns its source port to the end of the pool, then
    /// deletes its two entries from the Flow Table. Nothing is done, and
    /// `false` is returned, unless `port` and the two keys name a flow of
    /// the table.
    pub fn release(&mut self, port: u16, forward: UConnection, back: UConnection) -> (ok: bool)
        ensures
            ok == old(self)@.leases(port, forward.0, back.0),
            final(self)@ == spec_release(old(self)@, port, forward, back),
            final(self)@.inv(),
    {
        self.flow.release(port, forward, back)
    }

    /// Binds a virtual service to a backend, and says whether it did. A full
    /// table refuses a new service and stays as it is.
    pub fn install_backend(&mut self, service: KEndpoint, backend: KEndpoint) -> (ok: bool)
        ensures
            ok == old(self)@.can_install(service),
            final(self)@ == old(self)@.with_flow(
                spec_install(old(self)@.flow_part(), service, backend),
            ),
            final(self)@.inv(),
    {
        self.flow.install_backend(service, backend)
    }

    /// Unbinds a virtual service, and says whether it was bound.
    pub fn remove_backend(&mut self, service: KEndpoint) -> (was: bool)
        ensures
            was == old(self)@.backends.contains_key(service),
            final(self)@ == (MapsView {
                backends: old(self)@.backends.remove(service),
                ..old(self)@
            }),
            final(self)@.inv(),
    {
        self.flow.remove_backend(service)
    }
}

} // verus!
