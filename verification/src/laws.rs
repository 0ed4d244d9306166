//! What holds of the exporter as a whole.

use crate::address::{components, ComponentView};
use crate::behaviour::{
    event_labels, is_new_in_table, size_after, BehaviourEvent, IdentifyEvent, KademliaEvent,
    MdnsEvent, COUNT_LIMIT,
};
use crate::client::{
    step_of, Bootnode, ClientEvent, IdentifyEvent as ClientIdentifyEvent,
    KademliaEvent as ClientKademliaEvent, MyBehaviourEvent, SwarmEvent, SwarmStep,
};
use crate::exporter::{
    is_located, lookup_duration, polled, store_recorded, DialOutcome, ExporterView, PollAction,
    PollEvent,
};
use crate::exporter_metrics::{gauge_of_bytes, instruments_differ, MetricsView, NetworkInfo};
use crate::labels::{counted, hours_label};
use crate::metric::{sample_seq, wrapping_sum, Metric, MetricValue, SampleView};
use crate::node::NodeView;
use crate::node_store::{
    barrier_label_name, counts_for, group_of, group_sample, is_barrier_sample, is_census,
    is_census_sample, is_collection, lemma_barrier_label, lemma_barriers_distinct, members,
    time_barriers, Census, NodeStoreView, RETENTION,
};
use crate::peer::PeerId;
use crate::time::{elapsed, Nanos, HOUR};
use libp2p::Multiaddr;
use vstd::prelude::*;

verus! {

/// Observing the same thing of a node once more adds nothing.
pub proof fn law_merge_idempotent(node: NodeView)
    ensures
        node.merged(node) == node,
{
}

/// It makes no difference in which steps observations of a node are put together.
pub proof fn law_merge_associative(a: NodeView, b: NodeView, c: NodeView)
    ensures
        a.merged(b).merged(c) == a.merged(b.merged(c)),
{
}

/// A country that is known, a provider, and the start of an uptime survive every later
/// observation, and the last sighting never moves back.
pub proof fn law_merge_keeps(node: NodeView, other: NodeView)
    ensures
        node.country is Some ==> node.merged(other).country == node.country,
        node.merged(other).provider == node.provider,
        node.up_since is Some ==> node.merged(other).up_since == node.up_since,
        node.merged(other).last_seen >= node.last_seen,
        node.merged(other).last_seen >= other.last_seen,
        node.merged(other).peer_id == node.peer_id,
{
}

/// The uptime of a node that went down starts over with the next observation that it is up.
pub proof fn law_uptime_restarts(store: NodeStoreView, peer: Seq<u8>, node: NodeView)
    requires
        store.nodes.contains_key(peer),
        node.peer_id == peer,
    ensures
        store.down(peer).observed(node).nodes[peer].up_since == node.up_since,
{
}

/// A node that went down counts as up for no span of time.
pub proof fn law_down_is_not_up(
    store: NodeStoreView,
    peer: Seq<u8>,
    now: Nanos,
    barrier: Nanos,
    group: (Seq<char>, Seq<char>),
)
    ensures
        !members(store.down(peer).nodes, Census::UpSince, now, barrier, group).contains(peer),
{
}

/// A node that was observed is shown: as long as it was seen more recently than a span of time
/// which is not longer than nodes are kept, it counts for that span, whatever is removed.
pub proof fn law_observed_node_is_shown(
    store: NodeStoreView,
    node: NodeView,
    now: Nanos,
    barrier: Nanos,
)
    requires
        elapsed(now, node.last_seen) < barrier <= RETENTION,
    ensures
        ({
            let nodes = store.observed(node).without_offline(now).nodes;
            &&& nodes.contains_key(node.peer_id)
            &&& members(
                nodes,
                Census::SeenWithin,
                now,
                barrier,
                group_of(nodes[node.peer_id]),
            ).contains(node.peer_id)
        }),
{
    let observed = store.observed(node);
    assert(!observed.offline(now).contains(node.peer_id));
    assert(observed.without_offline(now).nodes.contains_key(node.peer_id));
}

/// A removal takes out those nodes, and only those, that were not seen for longer than nodes are
/// kept. It leaves what is known of the others as it is.
pub proof fn law_removal_is_exact(store: NodeStoreView, now: Nanos, peer: Seq<u8>)
    ensures
        store.without_offline(now).nodes.contains_key(peer) <==> store.nodes.contains_key(peer)
            && elapsed(now, store.nodes[peer].last_seen) <= RETENTION,
        store.without_offline(now).nodes.contains_key(peer) ==> store.without_offline(
            now,
        ).nodes[peer] == store.nodes[peer],
{
}

/// Every node is either kept or counted as removed.
pub proof fn law_removed_are_counted(store: NodeStoreView, now: Nanos)
    requires
        store.wf(),
    ensures
        store.without_offline(now).nodes.dom().len() + store.offline(now).len()
            == store.nodes.dom().len(),
        store.offline_nodes_removed + store.offline(now).len() <= u64::MAX
            ==> store.without_offline(now).offline_nodes_removed == store.offline_nodes_removed
            + store.offline(now).len(),
{
    let offline = store.offline(now);
    vstd::set_lib::lemma_len_subset(offline, store.nodes.dom());
    vstd::set_lib::lemma_set_difference_len(store.nodes.dom(), offline);
    assert(store.without_offline(now).nodes.dom() =~= store.nodes.dom().difference(offline));
    assert(store.nodes.dom().intersect(offline) =~= offline);
    if store.offline_nodes_removed + offline.len() <= u64::MAX {
        assert((store.offline_nodes_removed + offline.len()) % 0x1_0000_0000_0000_0000
            == store.offline_nodes_removed + offline.len()) by (nonlinear_arith)
            requires
                0 <= store.offline_nodes_removed + offline.len() < 0x1_0000_0000_0000_0000,
        ;
    }
}

/// A second collection at the same time finds nothing to remove, and shows the same store.
pub proof fn law_collection_is_idempotent(store: NodeStoreView, now: Nanos)
    requires
        store.wf(),
    ensures
        store.without_offline(now).without_offline(now) == store.without_offline(now),
        store.without_offline(now).wf(),
{
    let once = store.without_offline(now);
    assert(once.offline(now) =~= Set::<Seq<u8>>::empty());
    assert(once.without_offline(now).nodes =~= once.nodes);
    assert(once.nodes.dom().subset_of(store.nodes.dom()));
    vstd::set_lib::lemma_len_subset(once.nodes.dom(), store.nodes.dom());
}

/// What an earlier collection has removed, a later one would have removed as well.
pub proof fn law_earlier_collections_do_not_matter(
    store: NodeStoreView,
    earlier: Nanos,
    later: Nanos,
)
    requires
        earlier <= later,
    ensures
        store.without_offline(earlier).without_offline(later).nodes == store.without_offline(
            later,
        ).nodes,
{
    assert(store.without_offline(earlier).without_offline(later).nodes =~= store.without_offline(
        later,
    ).nodes);
}

/// Of two spans of time, the longer one counts at least the nodes that the shorter one counts as
/// seen.
pub proof fn law_seen_within_grows(
    nodes: Map<Seq<u8>, NodeView>,
    now: Nanos,
    shorter: Nanos,
    longer: Nanos,
    group: (Seq<char>, Seq<char>),
)
    requires
        nodes.dom().finite(),
        shorter <= longer,
    ensures
        members(nodes, Census::SeenWithin, now, shorter, group).subset_of(
            members(nodes, Census::SeenWithin, now, longer, group),
        ),
        members(nodes, Census::SeenWithin, now, shorter, group).len() <= members(
            nodes,
            Census::SeenWithin,
            now,
            longer,
            group,
        ).len(),
{
    vstd::set_lib::lemma_len_subset(
        members(nodes, Census::SeenWithin, now, shorter, group),
        members(nodes, Census::SeenWithin, now, longer, group),
    );
}

/// Of two spans of time, the longer one counts at most the nodes that the shorter one counts as
/// up.
pub proof fn law_up_since_shrinks(
    nodes: Map<Seq<u8>, NodeView>,
    now: Nanos,
    shorter: Nanos,
    longer: Nanos,
    group: (Seq<char>, Seq<char>),
)
    requires
        nodes.dom().finite(),
        shorter <= longer,
    ensures
        members(nodes, Census::UpSince, now, longer, group).subset_of(
            members(nodes, Census::UpSince, now, shorter, group),
        ),
        members(nodes, Census::UpSince, now, longer, group).len() <= members(
            nodes,
            Census::UpSince,
            now,
            shorter,
            group,
        ).len(),
{
    vstd::set_lib::lemma_len_subset(
        members(nodes, Census::UpSince, now, longer, group),
        members(nodes, Census::UpSince, now, shorter, group),
    );
}

/// A node that counts as up, for whatever span of time, counts as seen within each of the spans
/// that are shown.
pub proof fn law_up_nodes_are_seen(
    nodes: Map<Seq<u8>, NodeView>,
    now: Nanos,
    barrier: Nanos,
    b: int,
    group: (Seq<char>, Seq<char>),
)
    requires
        0 <= b < time_barriers().len(),
    ensures
        members(nodes, Census::UpSince, now, barrier, group).subset_of(
            members(nodes, Census::SeenWithin, now, time_barriers()[b], group),
        ),
{
    assert(HOUR < time_barriers()[b]);
}

/// The longest span of time counts every node that a collection keeps, in the group that the node
/// belongs to and in no other.
pub proof fn law_longest_span_counts_all(
    store: NodeStoreView,
    now: Nanos,
    peer: Seq<u8>,
    group: (Seq<char>, Seq<char>),
)
    ensures
        ({
            let nodes = store.without_offline(now).nodes;
            members(nodes, Census::SeenWithin, now, time_barriers().last(), group).contains(peer)
                <==> nodes.contains_key(peer) && group_of(nodes[peer]) == group
        }),
{
    assert(RETENTION < time_barriers().last());
}

/// The sum of those samples whose third label has a value.
pub open spec fn sum_labelled(samples: Seq<SampleView>, label: Seq<char>) -> int
    decreases samples.len(),
{
    if samples.len() == 0 {
        0
    } else {
        sum_labelled(samples.drop_last(), label) + if samples.last().labels[2].1 == label {
            samples.last().value
        } else {
            0
        }
    }
}

/// The group that a sample shows.
pub open spec fn shown_group(sample: SampleView) -> (Seq<char>, Seq<char>) {
    (sample.labels[0].1, sample.labels[1].1)
}

/// The nodes that count for a span of time, in whatever group.
pub open spec fn counted_nodes(
    nodes: Map<Seq<u8>, NodeView>,
    census: Census,
    now: Nanos,
    barrier: Nanos,
) -> Set<Seq<u8>> {
    nodes.dom().filter(|peer: Seq<u8>| counts_for(census, nodes[peer], now, barrier))
}

/// The samples that a census shows for a span of time add up to the number of nodes that count for
/// it: no node is left out, and none is counted in two groups.
pub proof fn law_samples_add_up(
    samples: Seq<SampleView>,
    nodes: Map<Seq<u8>, NodeView>,
    census: Census,
    now: Nanos,
    b: int,
)
    requires
        nodes.dom().finite(),
        is_census(samples, nodes, census, now),
        0 <= b < time_barriers().len(),
    ensures
        sum_labelled(samples, hours_label(time_barriers()[b])) == counted_nodes(
            nodes,
            census,
            now,
            time_barriers()[b],
        ).len(),
{
    let barrier = time_barriers()[b];
    let shown = shown_nodes(samples, nodes, census, now, barrier);
    assert(samples =~= samples.take(samples.len() as int));
    lemma_partial_sum(samples, samples, nodes, census, now, b);
    assert forall|peer: Seq<u8>| counted_nodes(nodes, census, now, barrier).contains(
        peer,
    ) implies shown.contains(peer) by {
        let group = group_of(nodes[peer]);
        let group_members = members(nodes, census, now, barrier, group);
        let sample = group_sample(nodes, census, now, barrier, group);
        assert(group_members.contains(peer));
        assert(group_members.len() > 0) by {
            vstd::set_lib::lemma_set_empty_equivalency_len(group_members);
        }
        assert(is_barrier_sample(nodes, census, now, time_barriers()[b], sample));
        assert(is_census_sample(nodes, census, now, sample));
        assert(samples.contains(sample));
        assert(sample.labels[0].1 == group.0);
        assert(sample.labels[1].1 == group.1);
        let j = samples.index_of(sample);
        assert(shows(samples[j], nodes[peer], barrier));
    }
    assert(shown =~= counted_nodes(nodes, census, now, barrier));
}

/// Whether a sample shows the group of a node, for a span of time.
spec fn shows(sample: SampleView, node: NodeView, barrier: Nanos) -> bool {
    sample.labels[2].1 == hours_label(barrier) && shown_group(sample) == group_of(node)
}

/// The nodes that count for a span of time and whose group is shown by one of some samples.
spec fn shown_nodes(
    samples: Seq<SampleView>,
    nodes: Map<Seq<u8>, NodeView>,
    census: Census,
    now: Nanos,
    barrier: Nanos,
) -> Set<Seq<u8>> {
    counted_nodes(nodes, census, now, barrier).filter(
        |peer: Seq<u8>|
            exists|j: int|
                0 <= j < samples.len() && shows(#[trigger] samples[j], nodes[peer], barrier),
    )
}

/// A sample that is labelled with a span of time is that of a group for this span.
proof fn lemma_labelled_sample(
    sample: SampleView,
    nodes: Map<Seq<u8>, NodeView>,
    census: Census,
    now: Nanos,
    b: int,
)
    requires
        is_census_sample(nodes, census, now, sample),
        0 <= b < time_barriers().len(),
        sample.labels[2].1 == hours_label(time_barriers()[b]),
    ensures
        sample == group_sample(nodes, census, now, time_barriers()[b], shown_group(sample)),
{
    let c = choose|c: int|
        0 <= c < time_barriers().len() && #[trigger] is_barrier_sample(
            nodes,
            census,
            now,
            time_barriers()[c],
            sample,
        );
    lemma_barrier_label(nodes, census, now, time_barriers()[c], sample);
    if c < b {
        lemma_barriers_distinct(c, b);
    }
    if b < c {
        lemma_barriers_distinct(b, c);
    }
    let group = choose|group: (Seq<char>, Seq<char>)|
        members(nodes, census, now, time_barriers()[c], group).len() > 0 && sample
            == #[trigger] group_sample(nodes, census, now, time_barriers()[c], group);
    assert(sample.labels[0].1 == group.0);
    assert(sample.labels[1].1 == group.1);
}

/// The first samples of a census add up to the number of nodes whose group they show.
proof fn lemma_partial_sum(
    part: Seq<SampleView>,
    samples: Seq<SampleView>,
    nodes: Map<Seq<u8>, NodeView>,
    census: Census,
    now: Nanos,
    b: int,
)
    requires
        nodes.dom().finite(),
        is_census(samples, nodes, census, now),
        0 <= b < time_barriers().len(),
        part.len() <= samples.len(),
        part == samples.take(part.len() as int),
    ensures
        sum_labelled(part, hours_label(time_barriers()[b])) == shown_nodes(
            part,
            nodes,
            census,
            now,
            time_barriers()[b],
        ).len(),
    decreases part.len(),
{
    let barrier = time_barriers()[b];
    let label = hours_label(barrier);
    if part.len() == 0 {
        assert(shown_nodes(part, nodes, census, now, barrier) =~= Set::<Seq<u8>>::empty());
    } else {
        let rest = part.drop_last();
        let last = part.last();
        let n = rest.len() as int;
        assert(rest =~= samples.take(n));
        assert(last == samples[n]);
        assert(samples.contains(last));
        lemma_partial_sum(rest, samples, nodes, census, now, b);
        let before = shown_nodes(rest, nodes, census, now, barrier);
        let after = shown_nodes(part, nodes, census, now, barrier);
        assert forall|peer: Seq<u8>| before.contains(peer) implies after.contains(peer) by {
            let j = choose|j: int|
                0 <= j < rest.len() && shows(#[trigger] rest[j], nodes[peer], barrier);
            assert(shows(part[j], nodes[peer], barrier));
        }
        if last.labels[2].1 == label {
            lemma_labelled_sample(last, nodes, census, now, b);
            let added = members(nodes, census, now, barrier, shown_group(last));
            assert forall|peer: Seq<u8>| added.contains(peer) implies !before.contains(peer) by {
                if before.contains(peer) {
                    let j = choose|j: int|
                        0 <= j < rest.len() && shows(#[trigger] rest[j], nodes[peer], barrier);
                    assert(samples.contains(samples[j]));
                    lemma_labelled_sample(samples[j], nodes, census, now, b);
                    assert(samples[j] == samples[n]);
                }
            }
            assert forall|peer: Seq<u8>| added.contains(peer) implies after.contains(peer) by {
                assert(shows(part[n], nodes[peer], barrier));
            }
            assert forall|peer: Seq<u8>| after.contains(peer) implies before.contains(peer)
                || added.contains(peer) by {
                let j = choose|j: int|
                    0 <= j < part.len() && shows(#[trigger] part[j], nodes[peer], barrier);
                if j < n {
                    assert(shows(rest[j], nodes[peer], barrier));
                }
            }
            assert(after =~= before.union(added));
            vstd::set_lib::lemma_set_disjoint_lens(before, added);
        } else {
            assert forall|peer: Seq<u8>| after.contains(peer) implies before.contains(peer) by {
                let j = choose|j: int|
                    0 <= j < part.len() && shows(#[trigger] part[j], nodes[peer], barrier);
                assert(j < n);
                assert(shows(rest[j], nodes[peer], barrier));
            }
            assert(after =~= before);
        }
    }
}

/// After a collection, the samples for the longest span of time that nodes are counted as seen
/// within add up to the total number of nodes.
pub proof fn law_longest_span_adds_up_to_total(
    samples: Seq<SampleView>,
    store: NodeStoreView,
    now: Nanos,
)
    requires
        store.wf(),
        is_census(samples, store.without_offline(now).nodes, Census::SeenWithin, now),
    ensures
        sum_labelled(samples, hours_label(time_barriers().last())) == store.without_offline(
            now,
        ).nodes.dom().len(),
{
    let nodes = store.without_offline(now).nodes;
    law_collection_is_idempotent(store, now);
    law_samples_add_up(samples, nodes, Census::SeenWithin, now, time_barriers().len() - 1);
    assert(counted_nodes(nodes, Census::SeenWithin, now, time_barriers().last()) =~= nodes.dom());
}

/// The samples of a labelled metric.
pub open spec fn samples_of(metric: Metric) -> Seq<SampleView> {
    match metric.value {
        MetricValue::LabelledGauges(samples) => sample_seq(samples@),
        _ => Seq::empty(),
    }
}

/// In every collection, the samples for the longest span of time that nodes are counted as seen
/// within add up to the total that is shown.
pub proof fn law_collection_adds_up(metrics: Seq<Metric>, store: NodeStoreView, now: Nanos)
    requires
        store.wf(),
        is_collection(metrics, store.without_offline(now), now),
    ensures
        metrics[3].value matches MetricValue::Gauge(total) && sum_labelled(
            samples_of(metrics[0]),
            hours_label(time_barriers().last()),
        ) == total,
        metrics[4].value == metrics[3].value,
{
    law_longest_span_adds_up_to_total(samples_of(metrics[0]), store, now);
    assert(metrics[3].value is Gauge && metrics[4].value is Gauge);
}

/// A census shows no empty group, and no two of its samples have the same labels.
pub proof fn law_samples_are_apart(
    samples: Seq<SampleView>,
    nodes: Map<Seq<u8>, NodeView>,
    census: Census,
    now: Nanos,
)
    requires
        is_census(samples, nodes, census, now),
    ensures
        forall|i: int| 0 <= i < samples.len() ==> (#[trigger] samples[i]).value >= 1,
        forall|i: int, j: int|
            0 <= i < j < samples.len() ==> (#[trigger] samples[i]).labels != (
            #[trigger] samples[j]).labels,
{
    assert forall|i: int| 0 <= i < samples.len() implies (#[trigger] samples[i]).value >= 1 by {
        assert(samples.contains(samples[i]));
        assert(is_census_sample(nodes, census, now, samples[i]));
    }
    assert forall|i: int, j: int| 0 <= i < j < samples.len() implies (
    #[trigger] samples[i]).labels != (#[trigger] samples[j]).labels by {
        if samples[i].labels == samples[j].labels {
            lemma_same_labels(samples, nodes, census, now, i, j);
        }
    }
}

/// Samples of a census that have the same labels are the same.
proof fn lemma_same_labels(
    samples: Seq<SampleView>,
    nodes: Map<Seq<u8>, NodeView>,
    census: Census,
    now: Nanos,
    i: int,
    j: int,
)
    requires
        is_census(samples, nodes, census, now),
        0 <= i < samples.len(),
        0 <= j < samples.len(),
        samples[i].labels == samples[j].labels,
    ensures
        i == j,
{
    assert(samples.contains(samples[i]));
    assert(samples.contains(samples[j]));
    assert(is_census_sample(nodes, census, now, samples[i]));
    let b = choose|b: int|
        0 <= b < time_barriers().len() && #[trigger] is_barrier_sample(
            nodes,
            census,
            now,
            time_barriers()[b],
            samples[i],
        );
    lemma_barrier_label(nodes, census, now, time_barriers()[b], samples[i]);
    lemma_labelled_sample(samples[i], nodes, census, now, b);
    lemma_labelled_sample(samples[j], nodes, census, now, b);
}

/// The labels of a group, for a span of time.
pub open spec fn group_labels(
    census: Census,
    group: (Seq<char>, Seq<char>),
    barrier: Nanos,
) -> Seq<(Seq<char>, Seq<char>)> {
    seq![
        ("country"@, group.0),
        ("cloud_provider"@, group.1),
        (barrier_label_name(census), hours_label(barrier)),
    ]
}

/// The number that is shown under some labels, which is nought where there is no such sample.
pub open spec fn shown_under(
    samples: Seq<SampleView>,
    labels: Seq<(Seq<char>, Seq<char>)>,
) -> int {
    if exists|i: int| 0 <= i < samples.len() && (#[trigger] samples[i]).labels == labels {
        samples[choose|i: int|
            0 <= i < samples.len() && (#[trigger] samples[i]).labels == labels].value
    } else {
        0
    }
}

/// What a census shows for a group and a span of time is how many nodes of the group count for it.
pub proof fn law_group_is_shown(
    samples: Seq<SampleView>,
    nodes: Map<Seq<u8>, NodeView>,
    census: Census,
    now: Nanos,
    b: int,
    group: (Seq<char>, Seq<char>),
)
    requires
        is_census(samples, nodes, census, now),
        0 <= b < time_barriers().len(),
    ensures
        shown_under(samples, group_labels(census, group, time_barriers()[b])) == members(
            nodes,
            census,
            now,
            time_barriers()[b],
            group,
        ).len(),
{
    let barrier = time_barriers()[b];
    let labels = group_labels(census, group, barrier);
    let sample = group_sample(nodes, census, now, barrier, group);
    assert(sample.labels =~= labels);
    if exists|i: int| 0 <= i < samples.len() && (#[trigger] samples[i]).labels == labels {
        let i = choose|i: int|
            0 <= i < samples.len() && (#[trigger] samples[i]).labels == labels;
        assert(samples.contains(samples[i]));
        assert(is_census_sample(nodes, census, now, samples[i]));
        assert(samples[i].labels[2].1 == hours_label(barrier));
        lemma_labelled_sample(samples[i], nodes, census, now, b);
        assert(samples[i].labels[0].1 == group.0);
        assert(samples[i].labels[1].1 == group.1);
    } else if members(nodes, census, now, barrier, group).len() > 0 {
        assert(is_barrier_sample(nodes, census, now, time_barriers()[b], sample));
        assert(is_census_sample(nodes, census, now, sample));
        assert(samples.contains(sample));
        let i = samples.index_of(sample);
        assert(samples[i].labels == labels);
    }
}

/// What is shown is cumulative: for every group, a longer span of time shows at least as many nodes
/// seen as a shorter one, and at most as many up.
pub proof fn law_spans_are_cumulative(
    seen: Seq<SampleView>,
    up: Seq<SampleView>,
    nodes: Map<Seq<u8>, NodeView>,
    now: Nanos,
    shorter: int,
    longer: int,
    group: (Seq<char>, Seq<char>),
)
    requires
        nodes.dom().finite(),
        is_census(seen, nodes, Census::SeenWithin, now),
        is_census(up, nodes, Census::UpSince, now),
        0 <= shorter <= longer < time_barriers().len(),
    ensures
        shown_under(seen, group_labels(Census::SeenWithin, group, time_barriers()[shorter]))
            <= shown_under(seen, group_labels(Census::SeenWithin, group, time_barriers()[longer])),
        shown_under(up, group_labels(Census::UpSince, group, time_barriers()[shorter]))
            >= shown_under(up, group_labels(Census::UpSince, group, time_barriers()[longer])),
{
    law_group_is_shown(seen, nodes, Census::SeenWithin, now, shorter, group);
    law_group_is_shown(seen, nodes, Census::SeenWithin, now, longer, group);
    law_group_is_shown(up, nodes, Census::UpSince, now, shorter, group);
    law_group_is_shown(up, nodes, Census::UpSince, now, longer, group);
    let a = time_barriers()[shorter];
    let b = time_barriers()[longer];
    assert(a <= b);
    law_seen_within_grows(nodes, now, a, b, group);
    law_up_since_shrinks(nodes, now, a, b, group);
}

/// A second collection at the same time shows the same as the first: the same samples, in whatever
/// order, and the same numbers.
pub proof fn law_second_collection_shows_the_same(
    first: Seq<Metric>,
    second: Seq<Metric>,
    store: NodeStoreView,
    now: Nanos,
)
    requires
        store.wf(),
        is_collection(first, store.without_offline(now), now),
        is_collection(second, store.without_offline(now).without_offline(now), now),
    ensures
        forall|m: int, sample: SampleView|
            0 <= m < 2 ==> (#[trigger] samples_of(first[m]).contains(sample) <==> samples_of(
                second[m],
            ).contains(sample)),
        forall|m: int|
            0 <= m < 2 ==> (#[trigger] samples_of(first[m])).len() == samples_of(second[m]).len(),
        forall|m: int| 2 <= m < 5 ==> (#[trigger] first[m]).value == second[m].value,
{
    law_collection_is_idempotent(store, now);
    assert forall|m: int| 0 <= m < 2 implies (#[trigger] samples_of(first[m])).len()
        == samples_of(second[m]).len() by {
        let a = samples_of(first[m]);
        let b = samples_of(second[m]);
        assert forall|sample: SampleView| a.contains(sample) <==> b.contains(sample) by {}
        assert(a.to_set() =~= b.to_set());
        a.unique_seq_to_set();
        b.unique_seq_to_set();
    }
    assert forall|m: int| 2 <= m < 5 implies (#[trigger] first[m]).value == second[m].value by {
        if m > 2 {
            assert(second[m].value is Gauge);
        }
    }
}

/// The peer that an event of the client is about.
pub open spec fn subject(event: ClientEvent) -> Option<Seq<u8>> {
    match event {
        ClientEvent::Behaviour(MyBehaviourEvent::Ping { peer, .. }) => Some(peer@),
        ClientEvent::Behaviour(
            MyBehaviourEvent::Identify(ClientIdentifyEvent::Received { peer_id, .. }),
        ) => Some(peer_id@),
        ClientEvent::Behaviour(
            MyBehaviourEvent::Kademlia(ClientKademliaEvent::RoutablePeer { peer, .. }),
        ) => Some(peer@),
        ClientEvent::Behaviour(
            MyBehaviourEvent::Kademlia(ClientKademliaEvent::PendingRoutablePeer { peer, .. }),
        ) => Some(peer@),
        ClientEvent::Behaviour(
            MyBehaviourEvent::Kademlia(ClientKademliaEvent::RoutingUpdated { peer, .. }),
        ) => Some(peer@),
        ClientEvent::AllConnectionsClosed(peer_id) => Some(peer_id@),
        _ => None,
    }
}

/// An event of the client makes no node forgotten, and changes what is known of no node but that
/// of its own peer. Of a node that was known it keeps the country, where it is known, and the
/// provider, and it does not move the last sighting back.
pub proof fn law_events_forget_nothing<F: Fn(u32) -> Option<String>>(
    before: NodeStoreView,
    after: NodeStoreView,
    ip_db: Option<Seq<u8>>,
    providers: Option<F>,
    event: ClientEvent,
    now: Nanos,
    peer: Seq<u8>,
)
    requires
        store_recorded(before, after, ip_db, providers, event, now),
    ensures
        before.nodes.contains_key(peer) ==> {
            &&& after.nodes.contains_key(peer)
            &&& before.nodes[peer].country is Some ==> after.nodes[peer].country
                == before.nodes[peer].country
            &&& after.nodes[peer].provider == before.nodes[peer].provider
            &&& after.nodes[peer].last_seen >= before.nodes[peer].last_seen
        },
        subject(event) != Some(peer) ==> {
            &&& after.nodes.contains_key(peer) <==> before.nodes.contains_key(peer)
            &&& before.nodes.contains_key(peer) ==> after.nodes[peer] == before.nodes[peer]
        },
        after.offline_nodes_removed == before.offline_nodes_removed,
{
}

/// Whether no node has been up since a time after its last sighting.
pub open spec fn uptimes_precede_sightings(store: NodeStoreView) -> bool {
    forall|peer: Seq<u8>| #[trigger]
        store.nodes.contains_key(peer) ==> precedes_sighting(store.nodes[peer])
}

/// Whether a node has not been up since a time after its last sighting.
pub open spec fn precedes_sighting(node: NodeView) -> bool {
    node.up_since matches Some(up_since) ==> up_since <= node.last_seen
}

/// No node has ever been up since a time after its last sighting: it is so in an empty store, and
/// neither an event of the client nor a removal makes it otherwise.
pub proof fn law_uptimes_precede_sightings<F: Fn(u32) -> Option<String>>(
    before: NodeStoreView,
    after: NodeStoreView,
    ip_db: Option<Seq<u8>>,
    providers: Option<F>,
    event: ClientEvent,
    now: Nanos,
)
    requires
        uptimes_precede_sightings(before),
        store_recorded(before, after, ip_db, providers, event, now),
    ensures
        uptimes_precede_sightings(NodeStoreView::empty()),
        uptimes_precede_sightings(after),
        uptimes_precede_sightings(before.without_offline(now)),
{
    assert forall|peer: Seq<u8>| #[trigger] after.nodes.contains_key(peer) implies
        precedes_sighting(after.nodes[peer]) by {
        if before.nodes.contains_key(peer) {
            assert(precedes_sighting(before.nodes[peer]));
        }
    }
    assert forall|peer: Seq<u8>| #[trigger]
        before.without_offline(now).nodes.contains_key(peer) implies precedes_sighting(
        before.without_offline(now).nodes[peer],
    ) by {
        assert(before.nodes.contains_key(peer));
    }
}

/// That a peer has told where it listens leaves the store as the observation of the peer at those
/// addresses alone does.
pub proof fn law_identify_observes_once<F: Fn(u32) -> Option<String>>(
    store: NodeStoreView,
    node: NodeView,
    ip_db: Option<Seq<u8>>,
    providers: Option<F>,
    peer: Seq<u8>,
    addresses: Seq<Multiaddr>,
    now: Nanos,
)
    requires
        is_located(node, ip_db, providers, peer, addresses, now),
    ensures
        store.observed(node).observed(NodeView::fresh(peer, now)) == store.observed(node),
{
    assert(store.observed(node).observed(NodeView::fresh(peer, now)).nodes =~= store.observed(
        node,
    ).nodes);
}

/// Every peer on the list of peers to probe is dialed, the last one first, before the list is
/// filled again: as many ticks as there are peers on the list dial one of them each and leave the
/// list empty. In between the ticks, anything may happen that leaves the list alone.
pub proof fn law_every_peer_is_probed<F: Fn(u32) -> Option<String>>(
    starts: Seq<ExporterView>,
    ends: Seq<ExporterView>,
    actions: Seq<PollAction>,
    ip_db: Option<Seq<u8>>,
    providers: Option<F>,
    i: int,
)
    requires
        starts.len() == ends.len() == actions.len(),
        starts.len() > 0,
        starts[0].to_probe.len() == starts.len(),
        0 <= i < starts.len(),
        forall|k: int|
            #![trigger starts[k]]
            0 <= k < starts.len() ==> polled(
                starts[k],
                ends[k],
                ip_db,
                providers,
                PollEvent::TickDue,
                actions[k],
            ),
        forall|k: int|
            0 <= k < starts.len() - 1 ==> (#[trigger] ends[k]).to_probe == starts[k + 1].to_probe,
    ensures
        actions[i] matches PollAction::Dial(peer) && peer@ == starts[0].to_probe[starts.len() - 1
            - i],
        starts[i].to_probe == starts[0].to_probe.take(starts.len() - i),
        ends.last().to_probe.len() == 0,
{
    lemma_probe_list(starts, ends, actions, ip_db, providers, i);
    lemma_probe_list(starts, ends, actions, ip_db, providers, starts.len() - 1);
}

proof fn lemma_probe_list<F: Fn(u32) -> Option<String>>(
    starts: Seq<ExporterView>,
    ends: Seq<ExporterView>,
    actions: Seq<PollAction>,
    ip_db: Option<Seq<u8>>,
    providers: Option<F>,
    i: int,
)
    requires
        starts.len() == ends.len() == actions.len(),
        starts.len() > 0,
        starts[0].to_probe.len() == starts.len(),
        0 <= i < starts.len(),
        forall|k: int|
            #![trigger starts[k]]
            0 <= k < starts.len() ==> polled(
                starts[k],
                ends[k],
                ip_db,
                providers,
                PollEvent::TickDue,
                actions[k],
            ),
        forall|k: int|
            0 <= k < starts.len() - 1 ==> (#[trigger] ends[k]).to_probe == starts[k + 1].to_probe,
    ensures
        actions[i] matches PollAction::Dial(peer) && peer@ == starts[0].to_probe[starts.len() - 1
            - i],
        starts[i].to_probe == starts[0].to_probe.take(starts.len() - i),
        ends[i].to_probe == starts[0].to_probe.take(starts.len() - 1 - i),
    decreases i,
{
    if i > 0 {
        lemma_probe_list(starts, ends, actions, ip_db, providers, i - 1);
    } else {
        assert(starts[0].to_probe =~= starts[0].to_probe.take(starts.len() as int));
    }
    assert(polled(starts[i], ends[i], ip_db, providers, PollEvent::TickDue, actions[i]));
    assert(ends[i].to_probe =~= starts[0].to_probe.take(starts.len() - 1 - i));
}

/// When every peer has been probed, a tick puts every known node on the list again, each of them
/// once.
pub proof fn law_list_is_refilled<F: Fn(u32) -> Option<String>>(
    before: ExporterView,
    after: ExporterView,
    ip_db: Option<Seq<u8>>,
    providers: Option<F>,
    action: PollAction,
    peer: Seq<u8>,
)
    requires
        before.store.wf(),
        before.to_probe.len() == 0,
        polled(before, after, ip_db, providers, PollEvent::TickDue, action),
    ensures
        after.to_probe.contains(peer) <==> before.store.nodes.contains_key(peer),
        after.to_probe.len() == before.store.nodes.dom().len(),
{
    assert(after.to_probe.to_set().contains(peer) <==> after.to_probe.contains(peer));
    after.to_probe.unique_seq_to_set();
}

/// A peer that could not be dialed is not lost: it goes back on the list, to be dialed after all
/// the others.
pub proof fn law_failed_dial_is_retried<F: Fn(u32) -> Option<String>>(
    before: ExporterView,
    between: ExporterView,
    after: ExporterView,
    ip_db: Option<Seq<u8>>,
    providers: Option<F>,
    peer: PeerId,
    first: PollAction,
    second: PollAction,
)
    requires
        before.to_probe.len() > 0,
        polled(before, between, ip_db, providers, PollEvent::TickDue, first),
        first == PollAction::Dial(peer),
        polled(
            between,
            after,
            ip_db,
            providers,
            PollEvent::Dialed { peer, outcome: DialOutcome::LimitReached },
            second,
        ),
    ensures
        after.to_probe.first() == before.to_probe.last(),
        after.to_probe.drop_first() == before.to_probe.drop_last(),
        after.to_probe.to_multiset() == before.to_probe.to_multiset(),
{
    broadcast use vstd::seq_lib::group_to_multiset_ensures;

    let rest = before.to_probe.drop_last();
    assert(before.to_probe =~= rest.push(peer@));
    assert(after.to_probe =~= seq![peer@] + rest);
    assert(after.to_probe.drop_first() =~= rest);
    vstd::seq_lib::lemma_multiset_commutative(seq![peer@], rest);
    vstd::seq_lib::lemma_multiset_commutative(rest, seq![peer@]);
    assert(rest.push(peer@) =~= rest + seq![peer@]);
}

/// What a tick comes to, whether it dials a peer or not: one random look-up is started and
/// counted, the state of the network is shown as it was read, a check whether a node is still
/// online is counted if a connection was established, and the client is asked for events next.
/// What is known of the nodes stays as it is.
pub proof fn law_tick_looks_up_once<F: Fn(u32) -> Option<String>>(
    before: ExporterView,
    ticked: ExporterView,
    dialed: ExporterView,
    looked_up: ExporterView,
    after: ExporterView,
    ip_db: Option<Seq<u8>>,
    providers: Option<F>,
    outcome: DialOutcome,
    peer: PeerId,
    now: Nanos,
    info: NetworkInfo,
    actions: Seq<PollAction>,
)
    requires
        actions.len() == 4,
        polled(before, ticked, ip_db, providers, PollEvent::TickDue, actions[0]),
        match actions[0] {
            PollAction::Dial(probed) => polled(
                ticked,
                dialed,
                ip_db,
                providers,
                PollEvent::Dialed { peer: probed, outcome },
                actions[1],
            ),
            _ => dialed == ticked && actions[1] == actions[0],
        },
        polled(
            dialed,
            looked_up,
            ip_db,
            providers,
            PollEvent::LookupStarted { peer, now },
            actions[2],
        ),
        polled(looked_up, after, ip_db, providers, PollEvent::NetworkRead(info), actions[3]),
    ensures
        actions[0] is Dial <==> before.to_probe.len() > 0,
        actions[1] == PollAction::StartLookup,
        actions[2] == PollAction::ReadNetwork,
        actions[3] == PollAction::PollClient,
        after.store == before.store,
        after.in_flight_lookups == before.in_flight_lookups.insert(peer@, now),
        after.metrics == (if actions[0] is Dial && outcome == DialOutcome::Established {
            before.metrics.online_check_triggered()
        } else {
            before.metrics
        }).lookup_triggered().network_read(info),
{
}

/// A look-up is in flight from when it is started until it returns. Its duration is then handed
/// out to be observed, and it is not handed out again.
pub proof fn law_lookup_is_dropped<F: Fn(u32) -> Option<String>>(
    before: ExporterView,
    between: ExporterView,
    after: ExporterView,
    ip_db: Option<Seq<u8>>,
    providers: Option<F>,
    peer: PeerId,
    key: PeerId,
    started: Nanos,
    returned: Nanos,
    first: PollAction,
    second: PollAction,
)
    requires
        key@ == peer@,
        !before.in_flight_lookups.contains_key(peer@),
        polled(
            before,
            between,
            ip_db,
            providers,
            PollEvent::LookupStarted { peer, now: started },
            first,
        ),
        polled(
            between,
            after,
            ip_db,
            providers,
            PollEvent::Client { event: lookup_returned(key), now: returned },
            second,
        ),
    ensures
        between.in_flight_lookups.contains_key(peer@),
        between.in_flight_lookups[peer@] == started,
        second == PollAction::ObserveLookup(elapsed(returned, started) as Nanos),
        after.in_flight_lookups == before.in_flight_lookups,
        after.store == before.store,
        forall|now: Nanos| #[trigger]
            lookup_duration(after.in_flight_lookups, lookup_returned(key), now) is None,
{
    assert(after.in_flight_lookups =~= before.in_flight_lookups);
}

/// The event that the look-up of a peer has returned.
pub open spec fn lookup_returned(key: PeerId) -> ClientEvent {
    ClientEvent::Behaviour(
        MyBehaviourEvent::Kademlia(ClientKademliaEvent::ClosestPeersReturned { key }),
    )
}

/// Which of the kinds of events that are counted apart an event is.
pub open spec fn kind_of(event: BehaviourEvent) -> int {
    match event {
        BehaviourEvent::Mdns(MdnsEvent::Discovered(_)) => 0,
        BehaviourEvent::Mdns(MdnsEvent::Expired) => 1,
        BehaviourEvent::Ping => 2,
        BehaviourEvent::Identify(IdentifyEvent::Error) => 3,
        BehaviourEvent::Identify(IdentifyEvent::Sent) => 4,
        BehaviourEvent::Identify(IdentifyEvent::Received) => 5,
        BehaviourEvent::Kademlia(KademliaEvent::BootstrapResult) => 6,
        BehaviourEvent::Kademlia(KademliaEvent::GetClosestPeersResult) => 7,
        BehaviourEvent::Kademlia(KademliaEvent::GetProvidersResult) => 8,
        BehaviourEvent::Kademlia(KademliaEvent::StartProvidingResult) => 9,
        BehaviourEvent::Kademlia(KademliaEvent::RepublishProviderResult) => 10,
        BehaviourEvent::Kademlia(KademliaEvent::GetRecordResult) => 11,
        BehaviourEvent::Kademlia(KademliaEvent::PutRecordResult) => 12,
        BehaviourEvent::Kademlia(KademliaEvent::RepublishRecordResult) => 13,
        BehaviourEvent::Kademlia(KademliaEvent::Discovered) => 14,
        BehaviourEvent::Kademlia(KademliaEvent::RoutingUpdated { .. }) => 15,
        BehaviourEvent::Kademlia(KademliaEvent::UnroutablePeer) => 16,
    }
}

/// The labels under which events are counted tell events of different kinds apart, and only
/// those.
pub proof fn law_labels_tell_kinds_apart(a: BehaviourEvent, b: BehaviourEvent)
    ensures
        event_labels(a) == event_labels(b) <==> kind_of(a) == kind_of(b),
{
    reveal_strlit("mdns");
    reveal_strlit("ping");
    reveal_strlit("identify");
    reveal_strlit("kad");
    reveal_strlit("discovered");
    reveal_strlit("expired");
    reveal_strlit("error");
    reveal_strlit("sent");
    reveal_strlit("received");
    reveal_strlit("bootstrap");
    reveal_strlit("get_closest_peers");
    reveal_strlit("get_providers");
    reveal_strlit("start_providing");
    reveal_strlit("republish_provider");
    reveal_strlit("get_record");
    reveal_strlit("put_record");
    reveal_strlit("republish_record");
    reveal_strlit("routing_updated");
    reveal_strlit("unroutable_peer");
    let first = event_labels(a);
    let second = event_labels(b);
    if first == second {
        assert(first.0.len() == second.0.len());
        assert(first.0[0] == second.0[0]);
        assert(first.1.len() == second.1.len());
        assert(first.1[0] == second.1[0]);
    }
}

/// How many of some events meet a condition.
pub open spec fn count_where(
    events: Seq<BehaviourEvent>,
    condition: spec_fn(BehaviourEvent) -> bool,
) -> nat
    decreases events.len(),
{
    if events.len() == 0 {
        0
    } else {
        count_where(events.drop_last(), condition) + if condition(events.last()) {
            1nat
        } else {
            0nat
        }
    }
}

/// The sum of all cells of a counter.
pub open spec fn sum_cells(cells: Map<(Seq<char>, Seq<char>), u64>) -> int
    decreases cells.dom().len(),
{
    if cells.dom().finite() && cells.dom().len() > 0 {
        let labels = cells.dom().choose();
        cells[labels] + sum_cells(cells.remove(labels))
    } else {
        0
    }
}

/// The sum of all cells is that of any one of them and of the others.
proof fn lemma_sum_cells(
    cells: Map<(Seq<char>, Seq<char>), u64>,
    labels: (Seq<char>, Seq<char>),
)
    requires
        cells.dom().finite(),
        cells.contains_key(labels),
    ensures
        sum_cells(cells) == cells[labels] + sum_cells(cells.remove(labels)),
    decreases cells.dom().len(),
{
    let chosen = cells.dom().choose();
    if chosen != labels {
        lemma_sum_cells(cells.remove(chosen), labels);
        lemma_sum_cells(cells.remove(labels), chosen);
        assert(cells.remove(chosen).remove(labels) =~= cells.remove(labels).remove(chosen));
    }
}

/// The sum of all cells grows by one with every event that is counted, unless its cell is full.
proof fn lemma_sum_counted(
    cells: Map<(Seq<char>, Seq<char>), u64>,
    labels: (Seq<char>, Seq<char>),
)
    requires
        cells.dom().finite(),
        cells.contains_key(labels) ==> cells[labels] < COUNT_LIMIT,
    ensures
        sum_cells(counted(cells, labels, COUNT_LIMIT)) == sum_cells(cells) + 1,
{
    let after = counted(cells, labels, COUNT_LIMIT);
    lemma_sum_cells(after, labels);
    assert(after.remove(labels) =~= cells.remove(labels));
    if cells.contains_key(labels) {
        lemma_sum_cells(cells, labels);
    } else {
        assert(cells.remove(labels) =~= cells);
    }
}

/// Whether counters have gone through some events, one after the other, from nought.
pub open spec fn have_counted(
    events: Seq<BehaviourEvent>,
    cells: Seq<Map<(Seq<char>, Seq<char>), u64>>,
    sizes: Seq<u64>,
) -> bool {
    &&& cells.len() == events.len() + 1
    &&& sizes.len() == events.len() + 1
    &&& cells[0] == Map::<(Seq<char>, Seq<char>), u64>::empty()
    &&& sizes[0] == 0
    &&& forall|i: int|
        #![trigger events[i]]
        0 <= i < events.len() ==> cells[i + 1] == counted(
            cells[i],
            event_labels(events[i]),
            COUNT_LIMIT,
        ) && sizes[i + 1] == size_after(sizes[i], events[i])
}

/// After any events, as long as there are no more of them than a counter can count, each cell holds
/// the number of events that were counted under its labels, all cells together hold the number of
/// events, and the size of the routing table is the number of peers that were put into it without
/// taking another one's place.
pub proof fn law_events_are_counted(
    events: Seq<BehaviourEvent>,
    cells: Seq<Map<(Seq<char>, Seq<char>), u64>>,
    sizes: Seq<u64>,
)
    requires
        have_counted(events, cells, sizes),
        events.len() <= COUNT_LIMIT,
    ensures
        sizes.last() == count_where(events, |event: BehaviourEvent| is_new_in_table(event)),
        sum_cells(cells.last()) == events.len(),
        cells.last().dom().finite(),
        forall|labels: (Seq<char>, Seq<char>)| #[trigger]
            cells.last().contains_key(labels) <==> count_where(
                events,
                |event: BehaviourEvent| event_labels(event) == labels,
            ) > 0,
        forall|labels: (Seq<char>, Seq<char>)| #[trigger]
            cells.last().contains_key(labels) ==> cells.last()[labels] == count_where(
                events,
                |event: BehaviourEvent| event_labels(event) == labels,
            ),
    decreases events.len(),
{
    if events.len() > 0 {
        let last = events.last();
        let earlier = events.drop_last();
        let cell = event_labels(last);
        assert(have_counted(earlier, cells.drop_last(), sizes.drop_last())) by {
            assert forall|i: int|
                #![trigger earlier[i]]
                0 <= i < earlier.len() implies cells.drop_last()[i + 1] == counted(
                cells.drop_last()[i],
                event_labels(earlier[i]),
                COUNT_LIMIT,
            ) && sizes.drop_last()[i + 1] == size_after(sizes.drop_last()[i], earlier[i]) by {
                assert(earlier[i] == events[i]);
            }
        }
        law_events_are_counted(earlier, cells.drop_last(), sizes.drop_last());
        let before = cells.drop_last().last();
        assert(events[events.len() - 1] == last);
        assert(cells.last() == counted(before, cell, COUNT_LIMIT));
        lemma_count_bound(earlier, |event: BehaviourEvent| event_labels(event) == cell);
        lemma_count_bound(earlier, |event: BehaviourEvent| is_new_in_table(event));
        lemma_sum_counted(before, cell);
        assert forall|labels: (Seq<char>, Seq<char>)| #[trigger]
            cells.last().contains_key(labels) <==> count_where(
                events,
                |event: BehaviourEvent| event_labels(event) == labels,
            ) > 0 by {
            assert(before.contains_key(labels) <==> count_where(
                earlier,
                |event: BehaviourEvent| event_labels(event) == labels,
            ) > 0);
        }
        assert forall|labels: (Seq<char>, Seq<char>)| #[trigger]
            cells.last().contains_key(labels) implies cells.last()[labels] == count_where(
            events,
            |event: BehaviourEvent| event_labels(event) == labels,
        ) by {
            assert(before.contains_key(labels) <==> count_where(
                earlier,
                |event: BehaviourEvent| event_labels(event) == labels,
            ) > 0);
        }
    }
}

/// No more events meet a condition than there are.
proof fn lemma_count_bound(
    events: Seq<BehaviourEvent>,
    condition: spec_fn(BehaviourEvent) -> bool,
)
    ensures
        count_where(events, condition) <= events.len(),
    decreases events.len(),
{
    if events.len() > 0 {
        lemma_count_bound(events.drop_last(), condition);
    }
}

/// What the client reports of an event of the swarm, if it reports it.
pub open spec fn report_of(event: SwarmEvent) -> Option<ClientEvent> {
    match event {
        SwarmEvent::Behaviour(event) => Some(ClientEvent::Behaviour(event)),
        SwarmEvent::ConnectionClosed { peer_id, num_established: 0 } => Some(
            ClientEvent::AllConnectionsClosed(peer_id),
        ),
        _ => None,
    }
}

/// What the client reports of some events of the swarm, in order.
pub open spec fn reported(events: Seq<SwarmEvent>) -> Seq<ClientEvent>
    decreases events.len(),
{
    if events.len() == 0 {
        Seq::empty()
    } else {
        match report_of(events.last()) {
            Some(report) => reported(events.drop_last()).push(report),
            None => reported(events.drop_last()),
        }
    }
}

/// The reports among some steps, in order.
pub open spec fn reports(steps: Seq<SwarmStep>) -> Seq<ClientEvent>
    decreases steps.len(),
{
    if steps.len() == 0 {
        Seq::empty()
    } else {
        match steps.last() {
            SwarmStep::Report(report) => reports(steps.drop_last()).push(report),
            _ => reports(steps.drop_last()),
        }
    }
}

/// Of any events of the swarm, the client reports those of the behaviours and the last closed
/// connections to peers, in order, and leaves out all others.
pub proof fn law_reports_in_order(events: Seq<SwarmEvent>, steps: Seq<SwarmStep>)
    requires
        steps.len() == events.len(),
        forall|i: int| 0 <= i < events.len() ==> #[trigger] steps[i] == step_of(events[i]),
    ensures
        reports(steps) == reported(events),
    decreases events.len(),
{
    if events.len() > 0 {
        law_reports_in_order(events.drop_last(), steps.drop_last());
        assert(steps[events.len() - 1] == step_of(events.last()));
    }
}

/// It makes no difference to what the client reports in how many turns it is asked.
pub proof fn law_reports_go_on(earlier: Seq<SwarmEvent>, later: Seq<SwarmEvent>)
    ensures
        reported(earlier + later) == reported(earlier) + reported(later),
    decreases later.len(),
{
    if later.len() == 0 {
        assert(earlier + later =~= earlier);
    } else {
        law_reports_go_on(earlier, later.drop_last());
        assert((earlier + later).drop_last() =~= earlier + later.drop_last());
        assert((earlier + later).last() == later.last());
    }
    assert(reported(earlier + later) =~= reported(earlier) + reported(later));
}

/// Each of the metrics is shown under its own name, with its own number.
pub proof fn law_each_name_shows_its_own(metrics: MetricsView, i: int)
    requires
        instruments_differ(metrics.registrations()),
        0 <= i < metrics.registrations().len(),
    ensures
        metrics.shown_by(metrics.registrations()[i].instrument) == metrics.numbers()[i],
        metrics.registrations().len() == metrics.numbers().len(),
{
}

/// Counting and reading change the numbers that they are about and no others, and leave what the
/// metrics are registered as.
pub proof fn law_numbers_change_apart(metrics: MetricsView, info: NetworkInfo)
    requires
        info.num_peers <= i64::MAX,
    ensures
        metrics.lookup_triggered().registrations() == metrics.registrations(),
        metrics.lookup_triggered().numbers() == metrics.numbers().update(
            0,
            wrapping_sum(metrics.meta_random_node_lookup_triggered.count, 1) as int,
        ),
        metrics.online_check_triggered().registrations() == metrics.registrations(),
        metrics.online_check_triggered().numbers() == metrics.numbers().update(
            1,
            wrapping_sum(metrics.meta_node_still_online_check_triggered.count, 1) as int,
        ),
        metrics.network_read(info).registrations() == metrics.registrations(),
        metrics.network_read(info).numbers() == metrics.numbers().take(2) + seq![
            info.num_peers as int,
            info.num_connections as int,
            info.num_pending as int,
            info.num_established as int,
            gauge_of_bytes(info.total_inbound) as int,
            gauge_of_bytes(info.total_outbound) as int,
        ],
{
    assert(metrics.lookup_triggered().numbers() =~= metrics.numbers().update(
        0,
        wrapping_sum(metrics.meta_random_node_lookup_triggered.count, 1) as int,
    ));
    assert(metrics.online_check_triggered().numbers() =~= metrics.numbers().update(
        1,
        wrapping_sum(metrics.meta_node_still_online_check_triggered.count, 1) as int,
    ));
    assert(metrics.network_read(info).numbers() =~= metrics.numbers().take(2) + seq![
        info.num_peers as int,
        info.num_connections as int,
        info.num_pending as int,
        info.num_established as int,
        gauge_of_bytes(info.total_inbound) as int,
        gauge_of_bytes(info.total_outbound) as int,
    ]);
}

/// Whatever the exporter is told, its metrics stay registered as they are.
pub proof fn law_registrations_stay<F: Fn(u32) -> Option<String>>(
    before: ExporterView,
    after: ExporterView,
    ip_db: Option<Seq<u8>>,
    providers: Option<F>,
    event: PollEvent,
    action: PollAction,
)
    requires
        polled(before, after, ip_db, providers, event, action),
    ensures
        after.metrics.registrations() == before.metrics.registrations(),
{
}

/// The peer of a bootnode, put back at the end of its address, gives the address that names it.
pub proof fn law_bootnode_rejoins(bootnode: Bootnode, parts: Seq<ComponentView>)
    requires
        bootnode.named_by(parts),
    ensures
        components(bootnode.address).push(ComponentView::P2p(bootnode.peer_id@)) == parts,
{
    assert(components(bootnode.address).push(ComponentView::P2p(bootnode.peer_id@)) =~= parts);
}

} // verus!
