//! The metrics that the exporter keeps of itself.

use crate::metric::wrapping_sum;
use prometheus_client::metrics::counter::Counter;
use prometheus_client::metrics::gauge::Gauge;
use prometheus_client::registry::Registry;
use vstd::prelude::*;

verus! {

/// prometheus_client's registry of metrics.
#[verifier::external_type_specification]
#[verifier::external_body]
pub struct ExRegistry(prometheus_client::registry::Registry);

/// prometheus_client's counter: a handle to a number that every clone of the handle shares.
#[verifier::external_type_specification]
#[verifier::external_body]
#[verifier::reject_recursive_types(N)]
#[verifier::reject_recursive_types(A)]
pub struct ExCounter<N, A>(prometheus_client::metrics::counter::Counter<N, A>);

/// prometheus_client's gauge: a handle to a number that every clone of the handle shares.
#[verifier::external_type_specification]
#[verifier::external_body]
#[verifier::reject_recursive_types(N)]
#[verifier::reject_recursive_types(A)]
pub struct ExGauge<N, A>(prometheus_client::metrics::gauge::Gauge<N, A>);

/// A counter or a gauge, as the handle that leads to it.
pub enum Instrument {
    Counter(Counter),
    Gauge(Gauge),
}

/// A counter or a gauge, with the name and the help text that it was registered with.
pub struct Registration {
    pub name: Seq<char>,
    pub help: Seq<char>,
    pub instrument: Instrument,
}

/// The counters and gauges that have been registered with a registry itself, in the order of their
/// registration.
pub uninterp spec fn registered(registry: Registry) -> Seq<Registration>;

/// What a registry puts before the names of its metrics, with an underscore in between.
pub uninterp spec fn registry_prefix(registry: Registry) -> Option<Seq<char>>;

/// The registries that have been made within a registry, in the order of their making.
pub uninterp spec fn sub_registries(registry: Registry) -> Seq<Registry>;

/// Whether an instrument is among those of some registrations.
pub open spec fn is_registered(registrations: Seq<Registration>, instrument: Instrument) -> bool {
    exists|i: int|
        0 <= i < registrations.len() && (#[trigger] registrations[i]).instrument == instrument
}

/// What is put before names in a registry that was made with a prefix, within one that may have a
/// prefix of its own.
pub open spec fn joined_prefix(outer: Option<Seq<char>>, prefix: Seq<char>) -> Seq<char> {
    match outer {
        Some(outer) => outer + "_"@ + prefix,
        None => prefix,
    }
}

/// Calls `Registry::sub_registry_with_prefix`: makes a registry within another one. It is empty,
/// its prefix follows that of the other one, and what is done with it is done within the other one,
/// of which nothing else changes.
#[verifier::external_body]
fn sub_registry<'a>(registry: &'a mut Registry, prefix: &str) -> (res: &'a mut Registry)
    ensures
        registered(*res) == Seq::<Registration>::empty(),
        sub_registries(*res) == Seq::<Registry>::empty(),
        registry_prefix(*res) == Some(joined_prefix(registry_prefix(*old(registry)), prefix@)),
        registered(*final(registry)) == registered(*old(registry)),
        registry_prefix(*final(registry)) == registry_prefix(*old(registry)),
        sub_registries(*final(registry)) == sub_registries(*old(registry)).push(*final(res)),
{
    registry.sub_registry_with_prefix(prefix)
}

/// Makes the registry for the metrics of the exporter, within another one.
pub fn exporter_registry<'a>(registry: &'a mut Registry) -> (res: &'a mut Registry)
    ensures
        registered(*res) == Seq::<Registration>::empty(),
        sub_registries(*res) == Seq::<Registry>::empty(),
        registry_prefix(*res) == Some(
            joined_prefix(registry_prefix(*old(registry)), "kademlia_exporter"@),
        ),
        registered(*final(registry)) == registered(*old(registry)),
        registry_prefix(*final(registry)) == registry_prefix(*old(registry)),
        sub_registries(*final(registry)) == sub_registries(*old(registry)).push(*final(res)),
{
    sub_registry(registry, "kademlia_exporter")
}

/// A counter of prometheus_client, and the right to raise it.
///
/// The handle never leaves this type but for the clone that a registry is given, and a registry
/// only reads. So the number that the counter holds changes in no other way than by
/// [`ShownCounter::inc`].
#[verifier::external_body]
pub struct ShownCounter {
    counter: Counter,
}

/// The number that a counter holds, which is what a registry shows for it.
pub uninterp spec fn shown_count(counter: ShownCounter) -> u64;

/// The handle that a counter is, by which a registry knows it.
pub uninterp spec fn counter_handle(counter: ShownCounter) -> Counter;

/// Calls `Counter::default`: a counter at nought. It is a new one, so it is none of those that are
/// registered.
#[verifier::external_body]
fn new_counter(registry: &Registry) -> (res: ShownCounter)
    ensures
        shown_count(res) == 0,
        !is_registered(registered(*registry), Instrument::Counter(counter_handle(res))),
{
    ShownCounter { counter: Counter::default() }
}

/// Calls `Counter::inc`: adds one to the number that the counter holds, modulo its range.
#[verifier::external_body]
fn count_one(counter: &mut ShownCounter)
    ensures
        shown_count(*final(counter)) == wrapping_sum(shown_count(*old(counter)), 1),
        counter_handle(*final(counter)) == counter_handle(*old(counter)),
{
    counter.counter.inc();
}

/// Calls `Registry::register` with a clone of the handle: adds the counter to those that are
/// registered, under a name and with a help text. Nothing else of the registry changes.
#[verifier::external_body]
fn register_counter(registry: &mut Registry, name: &str, help: &str, counter: &ShownCounter)
    ensures
        registered(*final(registry)) == registered(*old(registry)).push(
            (Registration {
                name: name@,
                help: help@,
                instrument: Instrument::Counter(counter_handle(*counter)),
            }),
        ),
        registry_prefix(*final(registry)) == registry_prefix(*old(registry)),
        sub_registries(*final(registry)) == sub_registries(*old(registry)),
{
    registry.register(name, help, counter.counter.clone());
}

/// A [`ShownCounter`] as contracts speak of it.
pub struct CounterView {
    pub handle: Counter,
    pub count: u64,
}

impl CounterView {
    /// The counter after one more occurrence, modulo its range.
    pub open spec fn raised(self) -> CounterView {
        CounterView { count: wrapping_sum(self.count, 1), ..self }
    }
}

impl View for ShownCounter {
    type V = CounterView;

    open spec fn view(&self) -> CounterView {
        CounterView { handle: counter_handle(*self), count: shown_count(*self) }
    }
}

impl ShownCounter {
    /// A counter that has counted nothing, and that a registry does not know yet.
    pub fn new(registry: &Registry) -> (res: Self)
        ensures
            res@.count == 0,
            !is_registered(registered(*registry), Instrument::Counter(res@.handle)),
    {
        new_counter(registry)
    }

    /// Counts one occurrence.
    pub fn inc(&mut self)
        ensures
            final(self)@ == old(self)@.raised(),
    {
        count_one(self);
    }

    /// Has a registry show the counter.
    pub fn register(&self, registry: &mut Registry, name: &str, help: &str)
        ensures
            registered(*final(registry)) == registered(*old(registry)).push(
                (Registration {
                    name: name@,
                    help: help@,
                    instrument: Instrument::Counter(self@.handle),
                }),
            ),
            registry_prefix(*final(registry)) == registry_prefix(*old(registry)),
            sub_registries(*final(registry)) == sub_registries(*old(registry)),
    {
        register_counter(registry, name, help, self);
    }
}

/// A gauge of prometheus_client, and the right to set it.
///
/// The handle never leaves this type but for the clones that registries are given, and a registry
/// only reads. So the number that the gauge holds changes in no other way than by
/// [`ShownGauge::set`].
#[verifier::external_body]
pub struct ShownGauge {
    gauge: Gauge,
}

/// The number that a gauge holds, which is what a registry shows for it.
pub uninterp spec fn shown_value(gauge: ShownGauge) -> i64;

/// The handle that a gauge is, by which a registry knows it.
pub uninterp spec fn gauge_handle(gauge: ShownGauge) -> Gauge;

/// Calls `Gauge::default`: a gauge at nought. It is a new one, so it is none of those that are
/// registered.
#[verifier::external_body]
fn new_gauge(registry: &Registry) -> (res: ShownGauge)
    ensures
        shown_value(res) == 0,
        !is_registered(registered(*registry), Instrument::Gauge(gauge_handle(res))),
{
    ShownGauge { gauge: Gauge::default() }
}

/// Calls `Gauge::set`: sets the number that the gauge holds.
#[verifier::external_body]
fn set_gauge(gauge: &mut ShownGauge, value: i64)
    ensures
        shown_value(*final(gauge)) == value,
        gauge_handle(*final(gauge)) == gauge_handle(*old(gauge)),
{
    gauge.gauge.set(value);
}

/// Calls `Registry::register` with a clone of the handle: adds the gauge to those that are
/// registered, under a name and with a help text. Nothing else of the registry changes.
#[verifier::external_body]
fn register_gauge(registry: &mut Registry, name: &str, help: &str, gauge: &ShownGauge)
    ensures
        registered(*final(registry)) == registered(*old(registry)).push(
            (Registration {
                name: name@,
                help: help@,
                instrument: Instrument::Gauge(gauge_handle(*gauge)),
            }),
        ),
        registry_prefix(*final(registry)) == registry_prefix(*old(registry)),
        sub_registries(*final(registry)) == sub_registries(*old(registry)),
{
    registry.register(name, help, gauge.gauge.clone());
}

/// A [`ShownGauge`] as contracts speak of it.
pub struct GaugeView {
    pub handle: Gauge,
    pub value: i64,
}

impl GaugeView {
    /// The gauge after it was set.
    pub open spec fn set_to(self, value: i64) -> GaugeView {
        GaugeView { value, ..self }
    }
}

impl View for ShownGauge {
    type V = GaugeView;

    open spec fn view(&self) -> GaugeView {
        GaugeView { handle: gauge_handle(*self), value: shown_value(*self) }
    }
}

impl ShownGauge {
    /// A gauge that was not set yet, and that a registry does not know yet.
    pub fn new(registry: &Registry) -> (res: Self)
        ensures
            res@.value == 0,
            !is_registered(registered(*registry), Instrument::Gauge(res@.handle)),
    {
        new_gauge(registry)
    }

    /// Sets the gauge.
    pub fn set(&mut self, value: i64)
        ensures
            final(self)@ == old(self)@.set_to(value),
    {
        set_gauge(self, value);
    }

    /// Has a registry show the gauge.
    pub fn register(&self, registry: &mut Registry, name: &str, help: &str)
        ensures
            registered(*final(registry)) == registered(*old(registry)).push(
                (Registration {
                    name: name@,
                    help: help@,
                    instrument: Instrument::Gauge(self@.handle),
                }),
            ),
            registry_prefix(*final(registry)) == registry_prefix(*old(registry)),
            sub_registries(*final(registry)) == sub_registries(*old(registry)),
    {
        register_gauge(registry, name, help, self);
    }
}

/// The metrics that the exporter keeps of itself.
pub struct Metrics {
    pub meta_random_node_lookup_triggered: ShownCounter,
    pub meta_node_still_online_check_triggered: ShownCounter,
    pub meta_libp2p_network_info_num_peers: ShownGauge,
    pub meta_libp2p_network_info_num_connections: ShownGauge,
    pub meta_libp2p_network_info_num_connections_pending: ShownGauge,
    pub meta_libp2p_network_info_num_connections_established: ShownGauge,
    pub meta_libp2p_bandwidth_inbound: ShownGauge,
    pub meta_libp2p_bandwidth_outbound: ShownGauge,
}

/// The [`Metrics`] as contracts speak of them.
pub struct MetricsView {
    pub meta_random_node_lookup_triggered: CounterView,
    pub meta_node_still_online_check_triggered: CounterView,
    pub meta_libp2p_network_info_num_peers: GaugeView,
    pub meta_libp2p_network_info_num_connections: GaugeView,
    pub meta_libp2p_network_info_num_connections_pending: GaugeView,
    pub meta_libp2p_network_info_num_connections_established: GaugeView,
    pub meta_libp2p_bandwidth_inbound: GaugeView,
    pub meta_libp2p_bandwidth_outbound: GaugeView,
}

impl View for Metrics {
    type V = MetricsView;

    open spec fn view(&self) -> MetricsView {
        MetricsView {
            meta_random_node_lookup_triggered: self.meta_random_node_lookup_triggered@,
            meta_node_still_online_check_triggered: self.meta_node_still_online_check_triggered@,
            meta_libp2p_network_info_num_peers: self.meta_libp2p_network_info_num_peers@,
            meta_libp2p_network_info_num_connections: self.meta_libp2p_network_info_num_connections@,
            meta_libp2p_network_info_num_connections_pending: self.meta_libp2p_network_info_num_connections_pending@,
            meta_libp2p_network_info_num_connections_established: self.meta_libp2p_network_info_num_connections_established@,
            meta_libp2p_bandwidth_inbound: self.meta_libp2p_bandwidth_inbound@,
            meta_libp2p_bandwidth_outbound: self.meta_libp2p_bandwidth_outbound@,
        }
    }
}

/// What the client says of the network.
#[derive(Debug, Clone, Copy, PartialEq, Eq)]
pub struct NetworkInfo {
    pub num_peers: usize,
    pub num_connections: u32,
    pub num_established: u32,
    pub num_pending: u32,
    /// How many bytes have been received.
    pub total_inbound: u64,
    /// How many bytes have been sent.
    pub total_outbound: u64,
}

/// A number of bytes, as a gauge shows it: modulo the range of the gauge.
pub open spec fn gauge_of_bytes(bytes: u64) -> i64 {
    if bytes <= i64::MAX {
        bytes as i64
    } else {
        (bytes - 0x1_0000_0000_0000_0000) as i64
    }
}

fn bytes_to_gauge(bytes: u64) -> (res: i64)
    ensures
        res == gauge_of_bytes(bytes),
{
    if bytes <= i64::MAX as u64 {
        bytes as i64
    } else {
        -((u64::MAX - bytes) as i64) - 1
    }
}

impl MetricsView {
    /// Nothing has been counted or set yet.
    pub open spec fn is_fresh(self) -> bool {
        &&& self.meta_random_node_lookup_triggered.count == 0
        &&& self.meta_node_still_online_check_triggered.count == 0
        &&& self.meta_libp2p_network_info_num_peers.value == 0
        &&& self.meta_libp2p_network_info_num_connections.value == 0
        &&& self.meta_libp2p_network_info_num_connections_pending.value == 0
        &&& self.meta_libp2p_network_info_num_connections_established.value == 0
        &&& self.meta_libp2p_bandwidth_inbound.value == 0
        &&& self.meta_libp2p_bandwidth_outbound.value == 0
    }

    /// The metrics after one more random look-up.
    pub open spec fn lookup_triggered(self) -> MetricsView {
        MetricsView {
            meta_random_node_lookup_triggered: self.meta_random_node_lookup_triggered.raised(),
            ..self
        }
    }

    /// The metrics after one more connection to see whether a node is still online.
    pub open spec fn online_check_triggered(self) -> MetricsView {
        MetricsView {
            meta_node_still_online_check_triggered:
                self.meta_node_still_online_check_triggered.raised(),
            ..self
        }
    }

    /// The metrics after the state of the network was read.
    pub open spec fn network_read(self, info: NetworkInfo) -> MetricsView {
        MetricsView {
            meta_libp2p_network_info_num_peers: self.meta_libp2p_network_info_num_peers.set_to(
                info.num_peers as i64,
            ),
            meta_libp2p_network_info_num_connections:
                self.meta_libp2p_network_info_num_connections.set_to(info.num_connections as i64),
            meta_libp2p_network_info_num_connections_pending:
                self.meta_libp2p_network_info_num_connections_pending.set_to(
                info.num_pending as i64,
            ),
            meta_libp2p_network_info_num_connections_established:
                self.meta_libp2p_network_info_num_connections_established.set_to(
                info.num_established as i64,
            ),
            meta_libp2p_bandwidth_inbound: self.meta_libp2p_bandwidth_inbound.set_to(
                gauge_of_bytes(info.total_inbound),
            ),
            meta_libp2p_bandwidth_outbound: self.meta_libp2p_bandwidth_outbound.set_to(
                gauge_of_bytes(info.total_outbound),
            ),
            ..self
        }
    }

    /// What the metrics are registered as.
    pub open spec fn registrations(self) -> Seq<Registration> {
        seq![
            Registration {
                name: "meta_random_node_lookup_triggered"@,
                help: "Number of times a random Kademlia node lookup was triggered"@,
                instrument: Instrument::Counter(self.meta_random_node_lookup_triggered.handle),
            },
            Registration {
                name: "meta_node_still_online_check_triggered"@,
                help: "Number of times a connection to a node was established to ensure it is still online"@,
                instrument: Instrument::Counter(
                    self.meta_node_still_online_check_triggered.handle,
                ),
            },
            Registration {
                name: "meta_libp2p_network_info_num_peers"@,
                help: "The total number of connected peers"@,
                instrument: Instrument::Gauge(self.meta_libp2p_network_info_num_peers.handle),
            },
            Registration {
                name: "meta_libp2p_network_info_num_connections"@,
                help: "The total number of connections, both established and pending"@,
                instrument: Instrument::Gauge(
                    self.meta_libp2p_network_info_num_connections.handle,
                ),
            },
            Registration {
                name: "meta_libp2p_network_info_num_connections_pending"@,
                help: "The total number of pending connections, both incoming and outgoing"@,
                instrument: Instrument::Gauge(
                    self.meta_libp2p_network_info_num_connections_pending.handle,
                ),
            },
            Registration {
                name: "meta_libp2p_network_info_num_connections_established"@,
                help: "The total number of established connections"@,
                instrument: Instrument::Gauge(
                    self.meta_libp2p_network_info_num_connections_established.handle,
                ),
            },
            Registration {
                name: "meta_libp2p_bandwidth_inbound"@,
                help: "The total number of bytes received on the socket"@,
                instrument: Instrument::Gauge(self.meta_libp2p_bandwidth_inbound.handle),
            },
            Registration {
                name: "meta_libp2p_bandwidth_outbound"@,
                help: "The total number of bytes sent on the socket"@,
                instrument: Instrument::Gauge(self.meta_libp2p_bandwidth_outbound.handle),
            },
        ]
    }

    /// The numbers that the instruments hold, in the order of [`MetricsView::registrations`].
    pub open spec fn numbers(self) -> Seq<int> {
        seq![
            self.meta_random_node_lookup_triggered.count as int,
            self.meta_node_still_online_check_triggered.count as int,
            self.meta_libp2p_network_info_num_peers.value as int,
            self.meta_libp2p_network_info_num_connections.value as int,
            self.meta_libp2p_network_info_num_connections_pending.value as int,
            self.meta_libp2p_network_info_num_connections_established.value as int,
            self.meta_libp2p_bandwidth_inbound.value as int,
            self.meta_libp2p_bandwidth_outbound.value as int,
        ]
    }

    /// The number that a registry shows for an instrument, which is one of these.
    pub open spec fn shown_by(self, instrument: Instrument) -> int {
        self.numbers()[choose|i: int|
            0 <= i < self.registrations().len() && (#[trigger] self.registrations()[i]).instrument
                == instrument]
    }
}

/// Whether no two of some registrations are of the same instrument.
pub open spec fn instruments_differ(registrations: Seq<Registration>) -> bool {
    forall|i: int, j: int|
        0 <= i < j < registrations.len() ==> (#[trigger] registrations[i]).instrument != (
        #[trigger] registrations[j]).instrument
}

/// Whether none of some registrations is of the same instrument as one of others.
pub open spec fn instruments_apart(a: Seq<Registration>, b: Seq<Registration>) -> bool {
    forall|i: int, j: int|
        0 <= i < a.len() && 0 <= j < b.len() ==> (#[trigger] a[i]).instrument != (
        #[trigger] b[j]).instrument
}

/// Where each instrument was new when it was registered, the instruments differ from one another
/// and from those of before.
proof fn lemma_new_instruments_differ(before: Seq<Registration>, added: Seq<Registration>)
    requires
        forall|k: int|
            0 <= k < added.len() ==> !is_registered(
                before + added.take(k),
                (#[trigger] added[k]).instrument,
            ),
    ensures
        instruments_differ(added),
        instruments_apart(before, added),
{
    assert forall|i: int, j: int| 0 <= i < j < added.len() implies (
    #[trigger] added[i]).instrument != (#[trigger] added[j]).instrument by {
        assert((before + added.take(j))[before.len() + i] == added[i]);
    }
    assert forall|i: int, j: int| 0 <= i < before.len() && 0 <= j < added.len() implies (
    #[trigger] before[i]).instrument != (#[trigger] added[j]).instrument by {
        assert((before + added.take(j))[i] == before[i]);
    }
}

impl Metrics {
    /// Makes fresh metrics and registers them.
    pub fn register(registry: &mut Registry) -> (res: Metrics)
        ensures
            res@.is_fresh(),
            registered(*final(registry)) == registered(*old(registry)) + res@.registrations(),
            instruments_differ(res@.registrations()),
            instruments_apart(registered(*old(registry)), res@.registrations()),
            registry_prefix(*final(registry)) == registry_prefix(*old(registry)),
            sub_registries(*final(registry)) == sub_registries(*old(registry)),
    {
        let ghost before = registered(*registry);
        let meta_random_node_lookup_triggered = ShownCounter::new(registry);
        meta_random_node_lookup_triggered.register(
            registry,
            "meta_random_node_lookup_triggered",
            "Number of times a random Kademlia node lookup was triggered",
        );
        let ghost r1 = registered(*registry);
        let meta_node_still_online_check_triggered = ShownCounter::new(registry);
        meta_node_still_online_check_triggered.register(
            registry,
            "meta_node_still_online_check_triggered",
            "Number of times a connection to a node was established to ensure it is still online",
        );
        let ghost r2 = registered(*registry);
        let meta_libp2p_network_info_num_peers = ShownGauge::new(registry);
        meta_libp2p_network_info_num_peers.register(
            registry,
            "meta_libp2p_network_info_num_peers",
            "The total number of connected peers",
        );
        let ghost r3 = registered(*registry);
        let meta_libp2p_network_info_num_connections = ShownGauge::new(registry);
        meta_libp2p_network_info_num_connections.register(
            registry,
            "meta_libp2p_network_info_num_connections",
            "The total number of connections, both established and pending",
        );
        let ghost r4 = registered(*registry);
        let meta_libp2p_network_info_num_connections_pending = ShownGauge::new(registry);
        meta_libp2p_network_info_num_connections_pending.register(
            registry,
            "meta_libp2p_network_info_num_connections_pending",
            "The total number of pending connections, both incoming and outgoing",
        );
        let ghost r5 = registered(*registry);
        let meta_libp2p_network_info_num_connections_established = ShownGauge::new(registry);
        meta_libp2p_network_info_num_connections_established.register(
            registry,
            "meta_libp2p_network_info_num_connections_established",
            "The total number of established connections",
        );
        let ghost r6 = registered(*registry);
        let meta_libp2p_bandwidth_inbound = ShownGauge::new(registry);
        meta_libp2p_bandwidth_inbound.register(
            registry,
            "meta_libp2p_bandwidth_inbound",
            "The total number of bytes received on the socket",
        );
        let ghost r7 = registered(*registry);
        let meta_libp2p_bandwidth_outbound = ShownGauge::new(registry);
        meta_libp2p_bandwidth_outbound.register(
            registry,
            "meta_libp2p_bandwidth_outbound",
            "The total number of bytes sent on the socket",
        );
        let metrics = Metrics {
            meta_random_node_lookup_triggered,
            meta_node_still_online_check_triggered,
            meta_libp2p_network_info_num_peers,
            meta_libp2p_network_info_num_connections,
            meta_libp2p_network_info_num_connections_pending,
            meta_libp2p_network_info_num_connections_established,
            meta_libp2p_bandwidth_inbound,
            meta_libp2p_bandwidth_outbound,
        };
        proof {
            let added = metrics@.registrations();
            assert(registered(*registry) =~= before + added);
            assert(before =~= before + added.take(0));
            assert(r1 =~= before + added.take(1));
            assert(r2 =~= before + added.take(2));
            assert(r3 =~= before + added.take(3));
            assert(r4 =~= before + added.take(4));
            assert(r5 =~= before + added.take(5));
            assert(r6 =~= before + added.take(6));
            assert(r7 =~= before + added.take(7));
            lemma_new_instruments_differ(before, added);
        }
        metrics
    }

    /// Counts a random look-up.
    pub fn count_lookup(&mut self)
        ensures
            final(self)@ == old(self)@.lookup_triggered(),
    {
        self.meta_random_node_lookup_triggered.inc();
    }

    /// Counts a connection to see whether a node is still online.
    pub fn count_online_check(&mut self)
        ensures
            final(self)@ == old(self)@.online_check_triggered(),
    {
        self.meta_node_still_online_check_triggered.inc();
    }

    /// Takes over the state of the network.
    pub fn set_network_info(&mut self, info: &NetworkInfo)
        requires
            info.num_peers <= i64::MAX,
        ensures
            final(self)@ == old(self)@.network_read(*info),
    {
        self.meta_libp2p_network_info_num_peers.set(info.num_peers as i64);
        self.meta_libp2p_network_info_num_connections.set(info.num_connections as i64);
        self.meta_libp2p_network_info_num_connections_established.set(info.num_established as i64);
        self.meta_libp2p_network_info_num_connections_pending.set(info.num_pending as i64);
        self.meta_libp2p_bandwidth_inbound.set(bytes_to_gauge(info.total_inbound));
        self.meta_libp2p_bandwidth_outbound.set(bytes_to_gauge(info.total_outbound));
    }
}

} // verus!
