//! The Flow Table, the Backend Table and the Service-Port Pool, kept
//! together: what holds between them holds in every state.
//!
//! The three can only be changed through the operations of [`FlowMaps`], and
//! Verus holds every `FlowMaps` to [`FlowMapsView::inv`]: the entries of the
//! Flow Table come in pairs, no port of the pool is in use by a flow, and
//! the pool has room for every port that is out.

use crate::endpoint::KConnection;
use crate::endpoint::KEndpoint;
use crate::endpoint::UConnection;
use crate::order::lemma_swap_involutive;
use crate::order::spec_swap16;
use crate::order::spec_swap32;
use crate::order::swap16;
use crate::order::swap32;
use crate::table::accepts;
use crate::table::offered;
use crate::table::Fifo;
use crate::table::Table;
use vstd::prelude::*;

verus! {

/// What the flow maps hold.
#[verifier::ext_equal]
pub struct FlowMapsView {
    /// Flow Table: declared tuple to output tuple, both directions.
    pub flows: Map<KConnection, KConnection>,
    /// The keys of the Flow Table that are the way back of a flow: their
    /// receiver is the local endpoint with the port that the flow leased.
    pub leased: Set<KConnection>,
    pub flows_capacity: usize,
    /// Backend Table: virtual service to its current backend.
    pub backends: Map<KEndpoint, KEndpoint>,
    pub backends_capacity: usize,
    /// Service-Port Pool: free source ports in host order, oldest first.
    pub ports: Seq<u16>,
    pub ports_capacity: usize,
    /// First port that the pool manages, in host order.
    pub port_first: u16,
    /// Number of consecutive ports that the pool manages.
    pub port_count: u32,
}

impl FlowMapsView {
    /// Whether the pool manages the port `p`, given in host order.
    pub open spec fn manages(&self, p: u16) -> bool {
        self.port_first <= p < self.port_first + self.port_count
    }

    /// Every entry of the Flow Table has its mirror: where `f` maps to `o`,
    /// `o` reversed maps to `f` reversed.
    pub open spec fn flows_paired(&self) -> bool {
        forall|f: KConnection| #[trigger]
            self.flows.contains_key(f) ==> self.flows.contains_key(self.flows[f].spec_reverse())
                && self.flows[self.flows[f].spec_reverse()] == f.spec_reverse()
    }

    /// Of an entry and its mirror exactly one is the way back, and only
    /// entries are.
    pub open spec fn sides(&self) -> bool {
        &&& forall|f: KConnection| #[trigger] self.leased.contains(f) ==> self.flows.contains_key(f)
        &&& forall|f: KConnection| #[trigger]
            self.flows.contains_key(f) ==> (self.leased.contains(f) != self.leased.contains(
                self.flows[f].spec_reverse(),
            ))
    }

    /// No port of the pool is the port of a leased local endpoint: of no way
    /// back in the table is the receiving port in the pool.
    pub open spec fn ports_free(&self) -> bool {
        forall|f: KConnection, i: int|
            #![trigger self.leased.contains(f), self.ports[i]]
            self.leased.contains(f) && 0 <= i < self.ports.len() ==> spec_swap16(f.to.port)
                != self.ports[i]
    }

    /// The pool holds managed ports only, each at most once, and every
    /// leased port is a managed one.
    pub open spec fn pool_sound(&self) -> bool {
        &&& self.ports.no_duplicates()
        &&& forall|i: int| 0 <= i < self.ports.len() ==> self.manages(#[trigger] self.ports[i])
        &&& forall|f: KConnection| #[trigger]
            self.leased.contains(f) ==> self.manages(spec_swap16(f.to.port))
    }

    /// A port is leased to at most one flow.
    pub open spec fn leases_unique(&self) -> bool {
        forall|f: KConnection, g: KConnection|
            #![trigger self.leased.contains(f), self.leased.contains(g)]
            self.leased.contains(f) && self.leased.contains(g) && f.to.port == g.to.port ==> f
                == g
    }

    /// The pool takes as many ports as it manages.
    pub open spec fn pool_sized(&self) -> bool {
        self.ports_capacity == self.port_count && self.port_first + self.port_count <= 0x1_0000
    }

    /// What holds of the flow maps in every state.
    pub open spec fn inv(&self) -> bool {
        &&& self.flows.dom().finite()
        &&& self.flows_paired()
        &&& self.sides()
        &&& self.ports_free()
        &&& self.pool_sound()
        &&& self.leases_unique()
        &&& self.pool_sized()
    }

    /// Whether `port` and the two keys name a flow of the table: `forward`
    /// is the key of an entry that is no way back, `back` is the key of its
    /// mirror, and `port` is the port, in host order, that the mirror is
    /// received on.
    pub open spec fn leases(&self, port: u16, forward: KConnection, back: KConnection) -> bool {
        &&& self.flows.contains_key(forward)
        &&& !self.leased.contains(forward)
        &&& self.flows[forward].spec_reverse() == back
        &&& spec_swap16(back.to.port) == port
    }

    /// Whether a virtual service can be bound: the Backend Table takes it.
    pub open spec fn can_install(&self, service: KEndpoint) -> bool {
        accepts(self.backends, self.backends_capacity, service)
    }
}

/// How the search for a flow ended.
#[derive(Debug, Clone, Copy, PartialEq, Eq, Structural)]
pub enum Admission {
    /// The flow is in the table, with this output tuple.
    Flow(KConnection),
    /// The receiver is no virtual service with a backend.
    NoBackend,
    /// The pool is empty.
    NoPort,
    /// The interface has no local address; the port taken is lost.
    NoLocalIp,
    /// The Flow Table has no room for two entries; the port taken is lost.
    Full,
    /// The way back of the new flow is the key of an entry already; the
    /// port taken is lost.
    Taken,
}

/// The output tuple of a new flow: from the local address and the leased
/// port, both put in network order, to the backend.
pub open spec fn spec_out_way(local_ip: u32, port: u16, backend: KEndpoint) -> KConnection {
    KConnection {
        from: KEndpoint { ip: spec_swap32(local_ip), port: spec_swap16(port) },
        to: backend,
    }
}

/// The flow maps after the flow of a declared tuple was looked up or
/// created, and how that ended.
///
/// A tuple without a flow needs a backend, then a port from the pool, then
/// the local address of the interface, then room for two entries of which
/// neither is there yet; the port is taken before the address is asked for
/// and is not given back when a later step fails. Of the two entries either
/// both are there afterwards or none, and no entry of another flow is
/// written over.
pub open spec fn spec_lease(v: FlowMapsView, d: KConnection, local_ip: Option<u32>) -> (
    FlowMapsView,
    Admission,
) {
    if v.flows.contains_key(d) {
        (v, Admission::Flow(v.flows[d]))
    } else if !v.backends.contains_key(d.to) {
        (v, Admission::NoBackend)
    } else if v.ports.len() == 0 {
        (v, Admission::NoPort)
    } else {
        let port = v.ports[0];
        let v1 = FlowMapsView { ports: v.ports.subrange(1, v.ports.len() as int), ..v };
        match local_ip {
            None => (v1, Admission::NoLocalIp),
            Some(ip) => {
                let out = spec_out_way(ip, port, v1.backends[d.to]);
                if !accepts(v1.flows, v1.flows_capacity, d) {
                    (v1, Admission::Full)
                } else {
                    let flows1 = v1.flows.insert(d, out);
                    if flows1.contains_key(out.spec_reverse()) {
                        (v1, Admission::Taken)
                    } else if !accepts(flows1, v1.flows_capacity, out.spec_reverse()) {
                        (v1, Admission::Full)
                    } else {
                        (
                            FlowMapsView {
                                flows: flows1.insert(out.spec_reverse(), d.spec_reverse()),
                                leased: v1.leased.insert(out.spec_reverse()),
                                ..v1
                            },
                            Admission::Flow(out),
                        )
                    }
                }
            },
        }
    }
}

/// The flow maps after a flow was given up: if `port` and the two keys name
/// a flow of the table, the port is back at the end of the pool and the two
/// entries are out of the Flow Table; else nothing has changed.
pub open spec fn spec_release(
    v: FlowMapsView,
    port: u16,
    forward: UConnection,
    back: UConnection,
) -> FlowMapsView {
    if v.leases(port, forward.0, back.0) {
        FlowMapsView {
            ports: v.ports.push(port),
            flows: v.flows.remove(forward.0).remove(back.0),
            leased: v.leased.remove(back.0),
            ..v
        }
    } else {
        v
    }
}

/// The flow maps after a virtual service was bound to a backend, if the
/// Backend Table takes it.
pub open spec fn spec_install(v: FlowMapsView, service: KEndpoint, backend: KEndpoint) -> FlowMapsView {
    FlowMapsView {
        backends: offered(v.backends, v.backends_capacity, service, backend),
        ..v
    }
}

/// A pool of managed ports without duplicates that lacks a managed port
/// holds fewer ports than are managed.
pub proof fn lemma_pool_room(ports: Seq<u16>, first: int, count: int, p: u16)
    requires
        ports.no_duplicates(),
        0 <= count,
        forall|i: int| 0 <= i < ports.len() ==> first <= #[trigger] ports[i] < first + count,
        first <= p < first + count,
        forall|i: int| 0 <= i < ports.len() ==> #[trigger] ports[i] != p,
    ensures
        ports.len() < count,
{
    let q = Seq::new(ports.len(), |i: int| ports[i] as int);
    assert(q.no_duplicates()) by {
        assert forall|i: int, j: int| 0 <= i < q.len() && 0 <= j < q.len() && i != j implies q[i]
            != q[j] by {
            assert(ports[i] != ports[j]);
        }
    }
    q.unique_seq_to_set();
    let range = vstd::set_lib::set_int_range(first, first + count);
    vstd::set_lib::lemma_int_range(first, first + count);
    let rest = range.remove(p as int);
    assert(q.to_set().subset_of(rest)) by {
        assert forall|x: int| q.to_set().contains(x) implies rest.contains(x) by {
            let i = choose|i: int| 0 <= i < q.len() && q[i] == x;
            assert(ports[i] as int == x);
        }
    }
    vstd::set_lib::lemma_len_subset(q.to_set(), rest);
}

/// Looking a flow up or creating it keeps what holds of the flow maps, and a
/// flow that was admitted is in the table with its mirror.
#[verifier::rlimit(80)]
pub proof fn lemma_lease(m: FlowMapsView, d: KConnection, local_ip: Option<u32>)
    requires
        m.inv(),
    ensures
        spec_lease(m, d, local_ip).0.inv(),
        spec_lease(m, d, local_ip).1 matches Admission::Flow(out) ==> {
            let after = spec_lease(m, d, local_ip).0;
            &&& after.flows.contains_key(d)
            &&& after.flows[d] == out
            &&& after.flows.contains_key(out.spec_reverse())
            &&& after.flows[out.spec_reverse()] == d.spec_reverse()
            &&& !m.flows.contains_key(d) ==> !after.leased.contains(d) && after.leased.contains(
                out.spec_reverse(),
            )
        },
        !(spec_lease(m, d, local_ip).1 is Flow) ==> spec_lease(m, d, local_ip).0.flows == m.flows
            && spec_lease(m, d, local_ip).0.leased == m.leased,
{
    let (after, res) = spec_lease(m, d, local_ip);
    if m.flows.contains_key(d) {
        let g = m.flows[d].spec_reverse();
        assert(m.flows.contains_key(g) && m.flows[g] == d.spec_reverse());
        assert(d.spec_reverse().spec_reverse() == d);
    } else if !m.backends.contains_key(d.to) {
    } else if m.ports.len() == 0 {
    } else {
        let port = m.ports[0];
        let m1 = FlowMapsView { ports: m.ports.subrange(1, m.ports.len() as int), ..m };
        assert(m.manages(port));
        assert forall|i: int| 0 <= i < m1.ports.len() implies m1.ports[i] == m.ports[i + 1]
            && m1.ports[i] != port by {
            assert(m.ports[i + 1] != m.ports[0]);
        }
        assert(m1.pool_sound()) by {
            assert forall|i: int, j: int|
                0 <= i < m1.ports.len() && 0 <= j < m1.ports.len() && i != j implies m1.ports[i]
                != m1.ports[j] by {
                assert(m.ports[i + 1] != m.ports[j + 1]);
            }
        }
        assert(m1.ports_free()) by {
            assert forall|f: KConnection, i: int|
                m1.leased.contains(f) && 0 <= i < m1.ports.len() implies spec_swap16(f.to.port)
                != m1.ports[i] by {
                assert(spec_swap16(f.to.port) != m.ports[i + 1]);
            }
        }
        assert(m1.inv());
        if let Some(ip) = local_ip {
            let out = spec_out_way(ip, port, m1.backends[d.to]);
            let r = out.spec_reverse();
            lemma_swap_involutive(port, 0);
            assert(spec_swap16(r.to.port) == port);
            if accepts(m1.flows, m1.flows_capacity, d) {
                let flows1 = m1.flows.insert(d, out);
                if !flows1.contains_key(r) && accepts(flows1, m1.flows_capacity, r) {
                    let flows2 = flows1.insert(r, d.spec_reverse());
                    let m2 = FlowMapsView { flows: flows2, leased: m1.leased.insert(r), ..m1 };
                    assert(after == m2);
                    assert(r != d && !m.flows.contains_key(r));
                    assert(flows2[d] == out);
                    assert(r.spec_reverse() == out);
                    assert(m2.flows_paired()) by {
                        assert forall|f: KConnection| #[trigger]
                            m2.flows.contains_key(f) implies m2.flows.contains_key(
                            m2.flows[f].spec_reverse(),
                        ) && m2.flows[m2.flows[f].spec_reverse()] == f.spec_reverse() by {
                            if f == d {
                            } else if f == r {
                            } else {
                                assert(m.flows.contains_key(f));
                                let g = m.flows[f].spec_reverse();
                                assert(m.flows.contains_key(g));
                            }
                        }
                    }
                    assert(m2.sides()) by {
                        assert forall|f: KConnection| #[trigger]
                            m2.leased.contains(f) implies m2.flows.contains_key(f) by {
                            if f != r {
                                assert(m.leased.contains(f));
                            }
                        }
                        assert forall|f: KConnection| #[trigger]
                            m2.flows.contains_key(f) implies (m2.leased.contains(f)
                            != m2.leased.contains(m2.flows[f].spec_reverse())) by {
                            if f == d {
                                assert(!m.leased.contains(d));
                            } else if f == r {
                                assert(!m.leased.contains(d));
                            } else {
                                assert(m.flows.contains_key(f));
                                let g = m.flows[f].spec_reverse();
                                assert(m.flows.contains_key(g));
                            }
                        }
                    }
                    assert(m2.ports_free()) by {
                        assert forall|f: KConnection, i: int|
                            m2.leased.contains(f) && 0 <= i < m2.ports.len() implies spec_swap16(
                            f.to.port,
                        ) != m2.ports[i] by {
                            if f == r {
                            } else {
                                assert(m1.leased.contains(f));
                            }
                        }
                    }
                    assert(m2.pool_sound()) by {
                        assert forall|f: KConnection| #[trigger]
                            m2.leased.contains(f) implies m2.manages(spec_swap16(f.to.port)) by {
                            if f != r {
                                assert(m.leased.contains(f));
                            }
                        }
                    }
                    assert(m2.leases_unique()) by {
                        assert forall|f: KConnection, g: KConnection|
                            m2.leased.contains(f) && m2.leased.contains(g) && f.to.port
                                == g.to.port implies f == g by {
                            if f == r && g == r {
                            } else if f == r {
                                assert(m.leased.contains(g));
                                assert(spec_swap16(g.to.port) != m.ports[0]);
                            } else if g == r {
                                assert(m.leased.contains(f));
                                assert(spec_swap16(f.to.port) != m.ports[0]);
                            } else {
                                assert(m.leased.contains(f) && m.leased.contains(g));
                            }
                        }
                    }
                }
            }
        }
    }
}

/// Giving a flow up keeps what holds of the flow maps: a port goes back to
/// the pool only as the entries that use it go, and the pool has room for
/// it.
#[verifier::rlimit(80)]
pub proof fn lemma_release(m: FlowMapsView, port: u16, a: UConnection, b: UConnection)
    requires
        m.inv(),
    ensures
        spec_release(m, port, a, b).inv(),
        m.leases(port, a.0, b.0) ==> m.ports.len() < m.ports_capacity && m.manages(port)
            && m.leased.contains(b.0),
{
    let after = spec_release(m, port, a, b);
    if m.leases(port, a.0, b.0) {
        let fwd = a.0;
        let back = b.0;
        assert(m.flows.contains_key(back) && m.flows[back] == fwd.spec_reverse());
        assert(m.leased.contains(back));
        assert(m.manages(port));
        assert forall|i: int| 0 <= i < m.ports.len() implies #[trigger] m.ports[i] != port by {
            assert(spec_swap16(back.to.port) != m.ports[i]);
        }
        assert(m.ports.len() < m.ports_capacity) by {
            assert forall|i: int| 0 <= i < m.ports.len() implies m.port_first <= #[trigger] m.ports[i]
                < m.port_first + m.port_count by {
                assert(m.manages(m.ports[i]));
            }
            lemma_pool_room(m.ports, m.port_first as int, m.port_count as int, port);
        }
        assert(after.flows_paired()) by {
            assert forall|f: KConnection| #[trigger] after.flows.contains_key(f) implies
                after.flows.contains_key(after.flows[f].spec_reverse())
                && after.flows[after.flows[f].spec_reverse()] == f.spec_reverse() by {
                assert(m.flows.contains_key(f));
                let g = m.flows[f].spec_reverse();
                assert(m.flows.contains_key(g) && m.flows[g] == f.spec_reverse());
                assert(f.spec_reverse().spec_reverse() == f);
            }
        }
        assert(after.sides()) by {
            assert forall|f: KConnection| #[trigger]
                after.leased.contains(f) implies after.flows.contains_key(f) by {
                assert(m.leased.contains(f) && f != back);
                assert(f != fwd);
            }
            assert forall|f: KConnection| #[trigger]
                after.flows.contains_key(f) implies (after.leased.contains(f)
                != after.leased.contains(after.flows[f].spec_reverse())) by {
                assert(m.flows.contains_key(f));
                let g = m.flows[f].spec_reverse();
                assert(m.flows.contains_key(g) && m.flows[g] == f.spec_reverse());
                assert(f.spec_reverse().spec_reverse() == f);
            }
        }
        assert forall|f: KConnection| #[trigger] after.leased.contains(f) implies spec_swap16(
            f.to.port,
        ) != port by {
            assert(m.leased.contains(f));
            if spec_swap16(f.to.port) == port {
                lemma_swap_involutive(f.to.port, 0);
                lemma_swap_involutive(back.to.port, 0);
                assert(f.to.port == back.to.port);
                assert(f == back);
            }
        }
        assert(after.ports_free()) by {
            assert forall|f: KConnection, i: int|
                after.leased.contains(f) && 0 <= i < after.ports.len() implies spec_swap16(
                f.to.port,
            ) != after.ports[i] by {
                assert(m.leased.contains(f));
                if i < m.ports.len() {
                    assert(after.ports[i] == m.ports[i]);
                }
            }
        }
        assert(after.pool_sound()) by {
            assert forall|i: int, j: int|
                0 <= i < after.ports.len() && 0 <= j < after.ports.len() && i != j implies
                after.ports[i] != after.ports[j] by {
                if i < m.ports.len() && j < m.ports.len() {
                    assert(m.ports[i] != m.ports[j]);
                }
            }
            assert forall|i: int| 0 <= i < after.ports.len() implies after.manages(
                #[trigger] after.ports[i],
            ) by {
                if i < m.ports.len() {
                    assert(m.manages(m.ports[i]));
                }
            }
            assert forall|f: KConnection| #[trigger]
                after.leased.contains(f) implies after.manages(spec_swap16(f.to.port)) by {
                assert(m.leased.contains(f));
            }
        }
        assert(after.leases_unique()) by {
            assert forall|f: KConnection, g: KConnection|
                after.leased.contains(f) && after.leased.contains(g) && f.to.port
                    == g.to.port implies f == g by {
                assert(m.leased.contains(f) && m.leased.contains(g));
            }
        }
    }
}

/// An entry of the Flow Table: the output tuple, and whether the entry is
/// the way back of its flow.
#[derive(Debug, Clone, Copy)]
pub struct FlowEntry {
    pub out: KConnection,
    pub leased: bool,
}

/// The output tuples of a table of entries.
pub open spec fn spec_outs(t: Map<KConnection, FlowEntry>) -> Map<KConnection, KConnection> {
    Map::new(|k: KConnection| t.contains_key(k), |k: KConnection| t[k].out)
}

/// The keys of a table of entries that are the way back of a flow.
pub open spec fn spec_backs(t: Map<KConnection, FlowEntry>) -> Set<KConnection> {
    Set::new(|k: KConnection| t.contains_key(k) && t[k].leased)
}

/// The Flow Table, the Backend Table and the Service-Port Pool.
pub struct FlowMaps {
    flows: Table<KConnection, FlowEntry>,
    backends: Table<KEndpoint, KEndpoint>,
    ports: Fifo<u16>,
    port_first: u16,
    port_count: u32,
}

impl View for FlowMaps {
    type V = FlowMapsView;

    closed spec fn view(&self) -> FlowMapsView {
        assembled(&self.flows, &self.backends, &self.ports, self.port_first, self.port_count)
    }
}

/// The number of ports from `port_first` on that are port numbers.
pub open spec fn spec_usable_ports(port_first: u16, port_count: u32) -> u32 {
    if port_first + port_count <= 0x1_0000 {
        port_count
    } else {
        (0x1_0000 - port_first) as u32
    }
}

/// What three tables and a range of ports hold, taken together.
spec fn assembled(
    flows: &Table<KConnection, FlowEntry>,
    backends: &Table<KEndpoint, KEndpoint>,
    ports: &Fifo<u16>,
    port_first: u16,
    port_count: u32,
) -> FlowMapsView {
    FlowMapsView {
        flows: spec_outs(flows@),
        leased: spec_backs(flows@),
        flows_capacity: flows.spec_capacity(),
        backends: backends@,
        backends_capacity: backends.spec_capacity(),
        ports: ports@,
        ports_capacity: ports.spec_capacity(),
        port_first,
        port_count,
    }
}

/// What inserting and removing an entry does to the output tuples and the
/// ways back.
proof fn lemma_entries(t: Map<KConnection, FlowEntry>, k: KConnection, e: FlowEntry)
    ensures
        spec_outs(t.insert(k, e)) == spec_outs(t).insert(k, e.out),
        spec_backs(t.insert(k, e)) == if e.leased {
            spec_backs(t).insert(k)
        } else {
            spec_backs(t).remove(k)
        },
        spec_outs(t.remove(k)) == spec_outs(t).remove(k),
        spec_backs(t.remove(k)) == spec_backs(t).remove(k),
        spec_outs(t).dom() == t.dom(),
        !t.contains_key(k) ==> spec_backs(t).remove(k) == spec_backs(t),
{
    assert(spec_outs(t.insert(k, e)) =~= spec_outs(t).insert(k, e.out));
    assert(spec_outs(t.remove(k)) =~= spec_outs(t).remove(k));
    assert(spec_backs(t.remove(k)) =~= spec_backs(t).remove(k));
    assert(spec_outs(t).dom() =~= t.dom());
    if e.leased {
        assert(spec_backs(t.insert(k, e)) =~= spec_backs(t).insert(k));
    } else {
        assert(spec_backs(t.insert(k, e)) =~= spec_backs(t).remove(k));
    }
    if !t.contains_key(k) {
        assert(spec_backs(t).remove(k) =~= spec_backs(t));
    }
}

/// The search for a flow, on the tables themselves.
fn lease_in(
    flows: &mut Table<KConnection, FlowEntry>,
    backends: &Table<KEndpoint, KEndpoint>,
    ports: &mut Fifo<u16>,
    declare_way: KConnection,
    local_ip: Option<u32>,
    port_first: Ghost<u16>,
    port_count: Ghost<u32>,
) -> (r: Admission)
    ensures
        (assembled(final(flows), backends, final(ports), port_first@, port_count@), r)
            == spec_lease(
            assembled(old(flows), backends, old(ports), port_first@, port_count@),
            declare_way,
            local_ip,
        ),
{
    let ghost before = flows@;
    if let Some(entry) = flows.get(&declare_way) {
        return Admission::Flow(entry.out);
    }
    let to = match backends.get(&declare_way.to) {
        Some(to) => to,
        None => {
            return Admission::NoBackend;
        },
    };
    let from_port = match ports.pop() {
        Some(from_port) => from_port,
        None => {
            return Admission::NoPort;
        },
    };
    let local_ip = match local_ip {
        Some(local_ip) => local_ip,
        None => {
            return Admission::NoLocalIp;
        },
    };
    let from = KEndpoint::new(swap32(local_ip), swap16(from_port));
    let out_way = KConnection { from, to };
    proof {
        lemma_entries(before, declare_way, FlowEntry { out: out_way, leased: false });
    }
    if !flows.insert(declare_way, FlowEntry { out: out_way, leased: false }) {
        return Admission::Full;
    }
    // the way back
    let return_output_way = out_way.reverse();
    let return_declare_way = declare_way.reverse();
    let ghost first = flows@;
    proof {
        lemma_entries(first, declare_way, FlowEntry { out: out_way, leased: false });
        lemma_entries(
            first,
            return_output_way,
            FlowEntry { out: return_declare_way, leased: true },
        );
    }
    if flows.contains_key(&return_output_way) {
        let _ = flows.remove(&declare_way);
        assert(flows@ =~= before);
        return Admission::Taken;
    }
    if !flows.insert(return_output_way, FlowEntry { out: return_declare_way, leased: true }) {
        let _ = flows.remove(&declare_way);
        assert(flows@ =~= before);
        return Admission::Full;
    }
    Admission::Flow(out_way)
}

impl FlowMaps {
    /// What Verus holds every `FlowMaps` to.
    #[verifier::type_invariant]
    pub closed spec fn wf(&self) -> bool {
        self@.inv()
    }

    /// What holds of the flow maps holds of every `FlowMaps`.
    pub proof fn lemma_wf(&self)
        requires
            self.wf(),
        ensures
            self@.inv(),
    {
    }

    /// Empty tables of the given sizes, and the pool filled with the ports
    /// from `port_first` on, in rising order, as far as they are port
    /// numbers.
    pub fn new(flows: usize, backends: usize, port_first: u16, port_count: u32) -> (m: Self)
        ensures
            m@.flows == Map::<KConnection, KConnection>::empty(),
            m@.leased == Set::<KConnection>::empty(),
            m@.backends == Map::<KEndpoint, KEndpoint>::empty(),
            m@.ports == Seq::new(
                spec_usable_ports(port_first, port_count) as nat,
                |i: int| (port_first + i) as u16,
            ),
            m@.port_first == port_first,
            m@.port_count == spec_usable_ports(port_first, port_count),
            m@.flows_capacity == flows,
            m@.backends_capacity == backends,
            m@.ports_capacity == spec_usable_ports(port_first, port_count),
            m@.inv(),
    {
        let usable: u32 = if port_count <= 0x1_0000 - port_first as u32 {
            port_count
        } else {
            0x1_0000 - port_first as u32
        };
        let mut ports: Fifo<u16> = Fifo::new(usable as usize);
        let mut i: u32 = 0;
        while i < usable
            invariant
                i <= usable,
                port_first + usable <= 0x1_0000,
                ports.spec_capacity() == usable,
                ports@ == Seq::new(i as nat, |j: int| (port_first + j) as u16),
            decreases usable - i,
        {
            let ok = ports.push((port_first as u32 + i) as u16);
            assert(ok);
            i = i + 1;
            assert(ports@ =~= Seq::new(i as nat, |j: int| (port_first + j) as u16));
        }
        let flows: Table<KConnection, FlowEntry> = Table::new(flows);
        proof {
            assert(spec_outs(flows@) =~= Map::<KConnection, KConnection>::empty());
            assert(spec_backs(flows@) =~= Set::<KConnection>::empty());
        }
        FlowMaps { flows, backends: Table::new(backends), ports, port_first, port_count: usable }
    }

    /// The output tuple of the flow under `k`, if there is one.
    pub fn flow(&self, k: &KConnection) -> (r: Option<KConnection>)
        ensures
            r == if self@.flows.contains_key(*k) {
                Some(self@.flows[*k])
            } else {
                None::<KConnection>
            },
    {
        match self.flows.get(k) {
            Some(entry) => Some(entry.out),
            None => None,
        }
    }

    /// Whether the entry under `k` is the way back of a flow.
    pub fn is_way_back(&self, k: &KConnection) -> (r: bool)
        ensures
            r == self@.leased.contains(*k),
    {
        match self.flows.get(k) {
            Some(entry) => entry.leased,
            None => false,
        }
    }

    /// The number of entries of the Flow Table.
    pub fn flow_count(&self) -> (n: usize)
        ensures
            n == self@.flows.dom().len(),
    {
        assert(spec_outs(self.flows@).dom() =~= self.flows@.dom());
        self.flows.len()
    }

    pub fn flows_capacity(&self) -> (n: usize)
        ensures
            n == self@.flows_capacity,
    {
        self.flows.capacity()
    }

    /// The backend of a virtual service, if it has one.
    pub fn backend(&self, service: &KEndpoint) -> (r: Option<KEndpoint>)
        ensures
            r == if self@.backends.contains_key(*service) {
                Some(self@.backends[*service])
            } else {
                None::<KEndpoint>
            },
    {
        self.backends.get(service)
    }

    /// The number of virtual services with a backend.
    pub fn backend_count(&self) -> (n: usize)
        ensures
            n == self@.backends.dom().len(),
    {
        self.backends.len()
    }

    /// The number of ports in the pool.
    pub fn free_ports(&self) -> (n: usize)
        ensures
            n == self@.ports.len(),
    {
        self.ports.len()
    }

    /// The port at position `i` of the pool, the oldest being at 0.
    pub fn free_port(&self, i: usize) -> (r: Option<u16>)
        ensures
            r == if i < self@.ports.len() {
                Some(self@.ports[i as int])
            } else {
                None::<u16>
            },
    {
        self.ports.get(i)
    }

    pub fn port_first(&self) -> (p: u16)
        ensures
            p == self@.port_first,
    {
        self.port_first
    }

    pub fn port_count(&self) -> (n: u32)
        ensures
            n == self@.port_count,
    {
        self.port_count
    }

    /// Whether the pool manages the port `p`, given in host order.
    pub fn manages(&self, p: u16) -> (r: bool)
        ensures
            r == self@.manages(p),
    {
        self.port_first <= p && (p as u64) < self.port_first as u64 + self.port_count as u64
    }

    /// Whether a virtual service can be bound.
    pub fn can_install(&self, service: &KEndpoint) -> (r: bool)
        ensures
            r == self@.can_install(*service),
    {
        self.backends.accepts_key(service)
    }

    /// Binds a virtual service to a backend, and says whether it did. A full
    /// table refuses a new service and stays as it is.
    pub fn install_backend(&mut self, service: KEndpoint, backend: KEndpoint) -> (ok: bool)
        ensures
            ok == old(self)@.can_install(service),
            final(self)@ == spec_install(old(self)@, service, backend),
            final(self)@.inv(),
    {
        proof {
            use_type_invariant(&*self);
        }
        // The table is taken out while it changes, so that what holds of
        // the flow maps holds at every call.
        let mut backends: Table<KEndpoint, KEndpoint> = Table::new(0);
        core::mem::swap(&mut self.backends, &mut backends);
        let ok = backends.insert(service, backend);
        core::mem::swap(&mut self.backends, &mut backends);
        ok
    }

    /// Unbinds a virtual service, and says whether it was bound.
    pub fn remove_backend(&mut self, service: KEndpoint) -> (was: bool)
        ensures
            was == old(self)@.backends.contains_key(service),
            final(self)@ == (FlowMapsView {
                backends: old(self)@.backends.remove(service),
                ..old(self)@
            }),
            final(self)@.inv(),
    {
        proof {
            use_type_invariant(&*self);
        }
        let mut backends: Table<KEndpoint, KEndpoint> = Table::new(0);
        core::mem::swap(&mut self.backends, &mut backends);
        let was = backends.remove(&service).is_some();
        core::mem::swap(&mut self.backends, &mut backends);
        was
    }

    /// Looks up the flow of a declared tuple, creating it for a virtual
    /// service with a backend, and says how that ended. `local_ip` is the
    /// local address, in host order, of the interface that the frame came in
    /// on.
    pub fn lease(&mut self, declare_way: &KConnection, local_ip: Option<u32>) -> (r: Admission)
        ensures
            (final(self)@, r) == spec_lease(old(self)@, *declare_way, local_ip),
            final(self)@.inv(),
    {
        proof {
            use_type_invariant(&*self);
            lemma_lease(self@, *declare_way, local_ip);
        }
        let mut flows: Table<KConnection, FlowEntry> = Table::new(0);
        let mut ports: Fifo<u16> = Fifo::new(self.port_count as usize);
        proof {
            assert(spec_outs(flows@) =~= Map::<KConnection, KConnection>::empty());
            assert(spec_backs(flows@) =~= Set::<KConnection>::empty());
        }
        core::mem::swap(&mut self.flows, &mut flows);
        core::mem::swap(&mut self.ports, &mut ports);
        let r = lease_in(
            &mut flows,
            &self.backends,
            &mut ports,
            *declare_way,
            local_ip,
            Ghost(self.port_first),
            Ghost(self.port_count),
        );
        core::mem::swap(&mut self.ports, &mut ports);
        core::mem::swap(&mut self.flows, &mut flows);
        r
    }

    /// Whether `port` and the two keys name a flow of the table.
    pub fn leases(&self, port: u16, forward: &UConnection, back: &UConnection) -> (r: bool)
        ensures
            r == self@.leases(port, forward.0, back.0),
    {
        match self.flows.get(&forward.0) {
            Some(entry) => {
                let mirror = entry.out.reverse();
                !entry.leased && mirror.from.ip == back.0.from.ip && mirror.from.port
                    == back.0.from.port && mirror.to.ip == back.0.to.ip && mirror.to.port
                    == back.0.to.port && swap16(back.0.to.port()) == port
            },
            None => false,
        }
    }

    /// Gives a flow up: returns its source port to the end of the pool, then
    /// deletes its two entries from the Flow Table. Nothing is done, and
    /// `false` is returned, unless `port` and the two keys name a flow of
    /// the table.
    pub fn release(&mut self, port: u16, forward: UConnection, back: UConnection) -> (ok: bool)
        ensures
            ok == old(self)@.leases(port, forward.0, back.0),
            final(self)@ == spec_release(old(self)@, port, forward, back),
            final(self)@.inv(),
    {
        proof {
            use_type_invariant(&*self);
            lemma_release(self@, port, forward, back);
        }
        if !self.leases(port, &forward, &back) {
            return false;
        }
        let mut flows: Table<KConnection, FlowEntry> = Table::new(0);
        let mut ports: Fifo<u16> = Fifo::new(self.port_count as usize);
        proof {
            assert(spec_outs(flows@) =~= Map::<KConnection, KConnection>::empty());
            assert(spec_backs(flows@) =~= Set::<KConnection>::empty());
        }
        core::mem::swap(&mut self.flows, &mut flows);
        core::mem::swap(&mut self.ports, &mut ports);
        let ghost before = flows@;
        let pushed = ports.push(port);
        assert(pushed);
        proof {
            lemma_entries(before, forward.0, FlowEntry { out: forward.0, leased: false });
            lemma_entries(
                before.remove(forward.0),
                back.0,
                FlowEntry { out: forward.0, leased: false },
            );
            assert(!spec_backs(before).contains(forward.0));
            assert(spec_backs(before).remove(forward.0) =~= spec_backs(before));
        }
        let _ = flows.remove(&forward.0);
        let _ = flows.remove(&back.0);
        core::mem::swap(&mut self.flows, &mut flows);
        core::mem::swap(&mut self.ports, &mut ports);
        true
    }
}

} // verus!
