//! What the functions on the exporter's own metrics give back, said of what goes into them and what
//! comes out.

use crate::exporter_metrics::{
    counter_handle, exporter_registry, gauge_handle, registered, registry_prefix, shown_count,
    shown_value, sub_registries, CounterView, GaugeView, Instrument, Metrics, MetricsView,
    NetworkInfo, Registration, ShownCounter, ShownGauge,
};
use prometheus_client::registry::Registry;
use vstd::prelude::*;

verus! {

/// The registry of the exporter is a new one within another one, and puts the exporter's name
/// before the names of its metrics, after what the other one puts there.
pub proof fn law_exporter_registry(registry: &mut Registry, res: &mut Registry)
    requires
        call_ensures(exporter_registry, (registry,), res),
    ensures
        is_exporter_registry(*old(registry), *old(res)),
        registered(*old(res)).len() == 0,
        sub_registries(*old(res)).len() == 0,
        is_registered_within(*old(registry), *final(registry), *final(res)),
{
}

/// Whether the prefix of a registry is that of the exporter, within another registry.
pub open spec fn is_exporter_registry(outer: Registry, inner: Registry) -> bool {
    match (registry_prefix(outer), registry_prefix(inner)) {
        (None, Some(prefix)) => prefix == "kademlia_exporter"@,
        (Some(before), Some(prefix)) => prefix == before + "_"@ + "kademlia_exporter"@,
        _ => false,
    }
}

/// Whether a registry is another one with one more registry made within it.
pub open spec fn is_registered_within(before: Registry, after: Registry, inner: Registry) -> bool {
    &&& registered(after) == registered(before)
    &&& registry_prefix(after) == registry_prefix(before)
    &&& sub_registries(after).len() == sub_registries(before).len() + 1
    &&& sub_registries(after).take(sub_registries(before).len() as int) =~= sub_registries(before)
    &&& sub_registries(after)[sub_registries(before).len() as int] == inner
}

/// Whether a registry has one more metric than before, and is the same otherwise.
pub open spec fn has_one_more(
    before: Registry,
    after: Registry,
    name: Seq<char>,
    help: Seq<char>,
    instrument: Instrument,
) -> bool {
    let n = registered(before).len() as int;
    &&& registered(after).len() == n + 1
    &&& forall|i: int| 0 <= i < n ==> #[trigger] registered(after)[i] == registered(before)[i]
    &&& registered(after)[n].name == name
    &&& registered(after)[n].help == help
    &&& registered(after)[n].instrument == instrument
    &&& registry_prefix(after) == registry_prefix(before)
    &&& sub_registries(after) == sub_registries(before)
}

/// What contracts say of a counter or a gauge is said of the number that it holds, and of the handle
/// by which a registry knows it.
pub proof fn law_instruments_are_seen(counter: ShownCounter, gauge: ShownGauge)
    ensures
        counter@.count == shown_count(counter),
        counter@.handle == counter_handle(counter),
        gauge@.value == shown_value(gauge),
        gauge@.handle == gauge_handle(gauge),
{
}

/// A counter starts at nought, and is none of those that are registered.
pub proof fn law_new_counter(registry: Registry, res: ShownCounter)
    requires
        call_ensures(ShownCounter::new, (&registry,), res),
    ensures
        res@.count == 0,
        forall|i: int|
            0 <= i < registered(registry).len() ==> (#[trigger] registered(registry)[i]).instrument
                != Instrument::Counter(res@.handle),
{
}

/// Counting adds one, up to the range of the counter, and stays with the same counter.
pub proof fn law_inc(counter: &mut ShownCounter)
    requires
        call_ensures(ShownCounter::inc, (counter,), ()),
    ensures
        has_counted_one(old(counter)@, final(counter)@),
{
}

/// Whether a counter has counted one more than before.
pub open spec fn has_counted_one(before: CounterView, after: CounterView) -> bool {
    &&& after.handle == before.handle
    &&& before.count < u64::MAX ==> after.count == before.count + 1
    &&& before.count == u64::MAX ==> after.count == 0
}

/// Registering a counter has the registry show it under the name and with the help text.
pub proof fn law_register_counter(
    counter: ShownCounter,
    registry: &mut Registry,
    name: &str,
    help: &str,
)
    requires
        call_ensures(ShownCounter::register, (&counter, registry, name, help), ()),
    ensures
        has_one_more(
            *old(registry),
            *final(registry),
            name@,
            help@,
            Instrument::Counter(counter@.handle),
        ),
{
}

/// A gauge starts at nought, and is none of those that are registered.
pub proof fn law_new_gauge(registry: Registry, res: ShownGauge)
    requires
        call_ensures(ShownGauge::new, (&registry,), res),
    ensures
        res@.value == 0,
        forall|i: int|
            0 <= i < registered(registry).len() ==> (#[trigger] registered(registry)[i]).instrument
                != Instrument::Gauge(res@.handle),
{
}

/// Setting a gauge sets it to the value, and stays with the same gauge.
pub proof fn law_set(gauge: &mut ShownGauge, value: i64)
    requires
        call_ensures(ShownGauge::set, (gauge, value), ()),
    ensures
        is_set_to(old(gauge)@, final(gauge)@, value as int),
{
}

/// Whether a gauge was set to a value.
pub open spec fn is_set_to(before: GaugeView, after: GaugeView, value: int) -> bool {
    after.handle == before.handle && after.value == value
}

/// Registering a gauge has the registry show it under the name and with the help text.
pub proof fn law_register_gauge(gauge: ShownGauge, registry: &mut Registry, name: &str, help: &str)
    requires
        call_ensures(ShownGauge::register, (&gauge, registry, name, help), ()),
    ensures
        has_one_more(
            *old(registry),
            *final(registry),
            name@,
            help@,
            Instrument::Gauge(gauge@.handle),
        ),
{
}

/// Whether an entry of a registry shows a counter under a name, with a help text.
pub open spec fn shows_counter(
    entry: Registration,
    name: Seq<char>,
    help: Seq<char>,
    counter: CounterView,
) -> bool {
    entry.name == name && entry.help == help && entry.instrument == Instrument::Counter(
        counter.handle,
    )
}

/// Whether an entry of a registry shows a gauge under a name, with a help text.
pub open spec fn shows_gauge(
    entry: Registration,
    name: Seq<char>,
    help: Seq<char>,
    gauge: GaugeView,
) -> bool {
    entry.name == name && entry.help == help && entry.instrument == Instrument::Gauge(gauge.handle)
}

/// Whether entries show each of the metrics under its own name, and no two of them the same
/// instrument.
pub open spec fn shows_metrics(entries: Seq<Registration>, metrics: MetricsView) -> bool {
    &&& entries.len() == 8
    &&& shows_counter(
        entries[0],
        "meta_random_node_lookup_triggered"@,
        "Number of times a random Kademlia node lookup was triggered"@,
        metrics.meta_random_node_lookup_triggered,
    )
    &&& shows_counter(
        entries[1],
        "meta_node_still_online_check_triggered"@,
        "Number of times a connection to a node was established to ensure it is still online"@,
        metrics.meta_node_still_online_check_triggered,
    )
    &&& shows_gauge(
        entries[2],
        "meta_libp2p_network_info_num_peers"@,
        "The total number of connected peers"@,
        metrics.meta_libp2p_network_info_num_peers,
    )
    &&& shows_gauge(
        entries[3],
        "meta_libp2p_network_info_num_connections"@,
        "The total number of connections, both established and pending"@,
        metrics.meta_libp2p_network_info_num_connections,
    )
    &&& shows_gauge(
        entries[4],
        "meta_libp2p_network_info_num_connections_pending"@,
        "The total number of pending connections, both incoming and outgoing"@,
        metrics.meta_libp2p_network_info_num_connections_pending,
    )
    &&& shows_gauge(
        entries[5],
        "meta_libp2p_network_info_num_connections_established"@,
        "The total number of established connections"@,
        metrics.meta_libp2p_network_info_num_connections_established,
    )
    &&& shows_gauge(
        entries[6],
        "meta_libp2p_bandwidth_inbound"@,
        "The total number of bytes received on the socket"@,
        metrics.meta_libp2p_bandwidth_inbound,
    )
    &&& shows_gauge(
        entries[7],
        "meta_libp2p_bandwidth_outbound"@,
        "The total number of bytes sent on the socket"@,
        metrics.meta_libp2p_bandwidth_outbound,
    )
    &&& forall|i: int, j: int|
        0 <= i < j < 8 ==> (#[trigger] entries[i]).instrument != (#[trigger] entries[j]).instrument
}

/// Whether all metrics are at nought.
pub open spec fn all_at_nought(metrics: MetricsView) -> bool {
    &&& metrics.meta_random_node_lookup_triggered.count == 0
    &&& metrics.meta_node_still_online_check_triggered.count == 0
    &&& metrics.meta_libp2p_network_info_num_peers.value == 0
    &&& metrics.meta_libp2p_network_info_num_connections.value == 0
    &&& metrics.meta_libp2p_network_info_num_connections_pending.value == 0
    &&& metrics.meta_libp2p_network_info_num_connections_established.value == 0
    &&& metrics.meta_libp2p_bandwidth_inbound.value == 0
    &&& metrics.meta_libp2p_bandwidth_outbound.value == 0
}

/// The metrics start at nought, and are registered after what is registered already, each under
/// its own name.
pub proof fn law_register_metrics(registry: &mut Registry, res: Metrics)
    requires
        call_ensures(Metrics::register, (registry,), res),
    ensures
        all_at_nought(res@),
        ({
            let n = registered(*old(registry)).len() as int;
            let all = registered(*final(registry));
            &&& all.len() == n + 8
            &&& all.take(n) =~= registered(*old(registry))
            &&& shows_metrics(all.skip(n), res@)
            &&& forall|i: int, j: int|
                0 <= i < n && n <= j < all.len() ==> (#[trigger] all[i]).instrument != (
                #[trigger] all[j]).instrument
        }),
        registry_prefix(*final(registry)) == registry_prefix(*old(registry)),
        sub_registries(*final(registry)) == sub_registries(*old(registry)),
{
    let n = registered(*old(registry)).len() as int;
    let all = registered(*final(registry));
    let added = res@.registrations();
    assert(all.skip(n) =~= added);
    assert forall|i: int, j: int| 0 <= i < n && n <= j < all.len() implies (
    #[trigger] all[i]).instrument != (#[trigger] all[j]).instrument by {
        assert(all[i] == registered(*old(registry))[i]);
        assert(all[j] == added[j - n]);
    }
}

/// Whether metrics have counted one more random look-up, and are the same otherwise.
pub open spec fn counts_a_lookup(before: MetricsView, after: MetricsView) -> bool {
    &&& has_counted_one(
        before.meta_random_node_lookup_triggered,
        after.meta_random_node_lookup_triggered,
    )
    &&& after == MetricsView {
        meta_random_node_lookup_triggered: after.meta_random_node_lookup_triggered,
        ..before
    }
}

/// A random look-up is counted as one, and nothing else is.
pub proof fn law_count_lookup(metrics: &mut Metrics)
    requires
        call_ensures(Metrics::count_lookup, (metrics,), ()),
    ensures
        counts_a_lookup(old(metrics)@, final(metrics)@),
{
}

/// Whether metrics have counted one more check that a node is online, and are the same otherwise.
pub open spec fn counts_a_check(before: MetricsView, after: MetricsView) -> bool {
    &&& has_counted_one(
        before.meta_node_still_online_check_triggered,
        after.meta_node_still_online_check_triggered,
    )
    &&& after == MetricsView {
        meta_node_still_online_check_triggered: after.meta_node_still_online_check_triggered,
        ..before
    }
}

/// A check that a node is still online is counted as one, and nothing else is.
pub proof fn law_count_online_check(metrics: &mut Metrics)
    requires
        call_ensures(Metrics::count_online_check, (metrics,), ()),
    ensures
        counts_a_check(old(metrics)@, final(metrics)@),
{
}

/// Whether metrics show a state of the network. A number of bytes is shown modulo the range of a
/// gauge.
pub open spec fn shows_network(
    before: MetricsView,
    after: MetricsView,
    info: NetworkInfo,
) -> bool {
    &&& after.meta_random_node_lookup_triggered == before.meta_random_node_lookup_triggered
    &&& after.meta_node_still_online_check_triggered
        == before.meta_node_still_online_check_triggered
    &&& is_set_to(
        before.meta_libp2p_network_info_num_peers,
        after.meta_libp2p_network_info_num_peers,
        info.num_peers as int,
    )
    &&& is_set_to(
        before.meta_libp2p_network_info_num_connections,
        after.meta_libp2p_network_info_num_connections,
        info.num_connections as int,
    )
    &&& is_set_to(
        before.meta_libp2p_network_info_num_connections_pending,
        after.meta_libp2p_network_info_num_connections_pending,
        info.num_pending as int,
    )
    &&& is_set_to(
        before.meta_libp2p_network_info_num_connections_established,
        after.meta_libp2p_network_info_num_connections_established,
        info.num_established as int,
    )
    &&& is_set_to(
        before.meta_libp2p_bandwidth_inbound,
        after.meta_libp2p_bandwidth_inbound,
        signed(info.total_inbound),
    )
    &&& is_set_to(
        before.meta_libp2p_bandwidth_outbound,
        after.meta_libp2p_bandwidth_outbound,
        signed(info.total_outbound),
    )
}

/// The number within the range of a gauge that is the same as another one, modulo that range.
pub open spec fn signed(number: u64) -> int {
    if number < 0x8000_0000_0000_0000 {
        number as int
    } else {
        number - 0x1_0000_0000_0000_0000
    }
}

/// Each number of the state of the network is shown by its own metric.
pub proof fn law_set_network_info(metrics: &mut Metrics, info: NetworkInfo)
    requires
        info.num_peers <= i64::MAX,
        call_ensures(Metrics::set_network_info, (metrics, &info), ()),
    ensures
        shows_network(old(metrics)@, final(metrics)@, info),
{
}

} // verus!
