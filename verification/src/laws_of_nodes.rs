//! What the functions on nodes give back, said of what goes into them and what comes out.

use crate::labels::{decimal, hours_label};
use crate::laws::law_samples_are_apart;
use crate::metric::{label_seq, sample_seq, Metric, MetricValue, Sample};
use crate::node::{Node, NodeView};
use crate::node_store::{
    group_sample, is_barrier_sample, is_census, is_census_sample, is_collection, members,
    time_barriers, Census, NodeStore, NodeStoreView,
};
use crate::peer::{peer_seq, PeerId};
use crate::time::{time_since, Nanos};
use vstd::prelude::*;

verus! {

/// A span of time ends at the later of two points in time, and is empty if they are out of order.
pub proof fn law_time_since(now: Nanos, then: Nanos, res: Nanos)
    requires
        call_ensures(time_since, (now, then), res),
    ensures
        then <= now ==> then + res == now,
        now <= then ==> res == 0,
{
}

/// Whether two optional texts are the same.
pub open spec fn same_text(a: Option<String>, b: Option<String>) -> bool {
    match (a, b) {
        (Some(a), Some(b)) => a@ == b@,
        (None, None) => true,
        _ => false,
    }
}

/// A new node is up and was seen just now, and nothing else is known of it.
pub proof fn law_new_node(peer: PeerId, now: Nanos, res: Node)
    requires
        call_ensures(Node::new, (peer, now), res),
    ensures
        res.peer_id.bytes@ == peer.bytes@,
        res.country is None,
        res.provider is None,
        res.last_seen == now,
        res.up_since == Some(now),
{
    assert(res@.peer_id == peer@);
    assert(res@.country is None);
    assert(res@.provider is None);
}

/// Telling a node's country changes its country and no more.
pub proof fn law_with_country(node: Node, country: String, res: Node)
    requires
        call_ensures(Node::with_country, (node, country), res),
    ensures
        res.country matches Some(told) && told@ == country@,
        res.peer_id.bytes@ == node.peer_id.bytes@,
        same_text(res.provider, node.provider),
        res.last_seen == node.last_seen,
        res.up_since == node.up_since,
{
    assert(res@.country == Some(country@));
    assert(res@.provider == node@.provider);
    assert(res@.peer_id == node@.peer_id);
}

/// Telling a node's cloud provider changes its cloud provider and no more.
pub proof fn law_with_cloud_provider(node: Node, provider: String, res: Node)
    requires
        call_ensures(Node::with_cloud_provider, (node, provider), res),
    ensures
        res.provider matches Some(told) && told@ == provider@,
        res.peer_id.bytes@ == node.peer_id.bytes@,
        same_text(res.country, node.country),
        res.last_seen == node.last_seen,
        res.up_since == node.up_since,
{
    assert(res@.provider == Some(provider@));
    assert(res@.country == node@.country);
    assert(res@.peer_id == node@.peer_id);
}

/// Merging keeps a country and an uptime that are known, learns those that are not, leaves the
/// provider alone, and keeps the later sighting.
pub proof fn law_merge(node: &mut Node, other: Node)
    requires
        call_ensures(Node::merge, (node, other), ()),
    ensures
        final(node).peer_id.bytes@ == old(node).peer_id.bytes@,
        old(node).country is Some ==> same_text(final(node).country, old(node).country),
        old(node).country is None ==> same_text(final(node).country, other.country),
        same_text(final(node).provider, old(node).provider),
        old(node).up_since is Some ==> final(node).up_since == old(node).up_since,
        old(node).up_since is None ==> final(node).up_since == other.up_since,
        final(node).last_seen >= old(node).last_seen,
        final(node).last_seen >= other.last_seen,
        final(node).last_seen == old(node).last_seen || final(node).last_seen == other.last_seen,
{
    assert(final(node)@.country == if old(node)@.country is Some {
        old(node)@.country
    } else {
        other@.country
    });
    assert(final(node)@.provider == old(node)@.provider);
    assert(final(node)@.peer_id == old(node)@.peer_id);
}

/// The characters of a text that may be missing.
pub open spec fn chars_of(text: Option<String>) -> Option<Seq<char>> {
    match text {
        Some(text) => Some(text@),
        None => None,
    }
}

/// Whether two stores know the same of every peer but one.
pub open spec fn same_but_for(a: NodeStoreView, b: NodeStoreView, peer: Seq<u8>) -> bool {
    &&& a.offline_nodes_removed == b.offline_nodes_removed
    &&& forall|other: Seq<u8>|
        other != peer ==> (#[trigger] a.nodes.contains_key(other) <==> b.nodes.contains_key(other))
    &&& forall|other: Seq<u8>|
        other != peer && #[trigger] a.nodes.contains_key(other) ==> a.nodes[other]
            == b.nodes[other]
}

/// Whether a store has taken in an observation: that a peer answered at a time, and where it
/// was, as far as that was told.
pub open spec fn knows_of(
    before: NodeStoreView,
    after: NodeStoreView,
    peer: Seq<u8>,
    country: Option<Seq<char>>,
    provider: Option<Seq<char>>,
    last_seen: Nanos,
    up_since: Option<Nanos>,
) -> bool {
    &&& same_but_for(after, before, peer)
    &&& after.nodes.contains_key(peer)
    &&& if before.nodes.contains_key(peer) {
        &&& after.nodes[peer].peer_id == before.nodes[peer].peer_id
        &&& before.nodes[peer].country is Some ==> after.nodes[peer].country
            == before.nodes[peer].country
        &&& before.nodes[peer].country is None ==> after.nodes[peer].country == country
        &&& after.nodes[peer].provider == before.nodes[peer].provider
        &&& before.nodes[peer].up_since is Some ==> after.nodes[peer].up_since
            == before.nodes[peer].up_since
        &&& before.nodes[peer].up_since is None ==> after.nodes[peer].up_since == up_since
        &&& before.nodes[peer].last_seen >= last_seen ==> after.nodes[peer].last_seen
            == before.nodes[peer].last_seen
        &&& before.nodes[peer].last_seen < last_seen ==> after.nodes[peer].last_seen == last_seen
    } else {
        &&& after.nodes[peer].peer_id == peer
        &&& after.nodes[peer].country == country
        &&& after.nodes[peer].provider == provider
        &&& after.nodes[peer].last_seen == last_seen
        &&& after.nodes[peer].up_since == up_since
    }
}

/// A store starts out without nodes.
pub proof fn law_default_store(res: NodeStore)
    requires
        call_ensures(<NodeStore as Default>::default, (), res),
    ensures
        forall|peer: Seq<u8>| !#[trigger] res@.nodes.contains_key(peer),
        res@.offline_nodes_removed == 0,
{
}

/// Observing a node adds what was observed to what is known of its peer, and leaves all other
/// nodes alone.
pub proof fn law_observed_node(store: &mut NodeStore, node: Node)
    requires
        call_ensures(NodeStore::observed_node, (store, node), ()),
    ensures
        knows_of(
            old(store)@,
            final(store)@,
            node.peer_id.bytes@,
            chars_of(node.country),
            chars_of(node.provider),
            node.last_seen,
            node.up_since,
        ),
        final(store).wf(),
{
}

/// Whether a store knows a peer to be down, and the same as before of all else.
pub open spec fn knows_down(before: NodeStoreView, after: NodeStoreView, peer: Seq<u8>) -> bool {
    &&& same_but_for(after, before, peer)
    &&& after.nodes.contains_key(peer) <==> before.nodes.contains_key(peer)
    &&& before.nodes.contains_key(peer) ==> {
        &&& after.nodes[peer].up_since is None
        &&& after.nodes[peer].peer_id == before.nodes[peer].peer_id
        &&& after.nodes[peer].country == before.nodes[peer].country
        &&& after.nodes[peer].provider == before.nodes[peer].provider
        &&& after.nodes[peer].last_seen == before.nodes[peer].last_seen
    }
}

/// That a peer is down ends its uptime, and changes nothing else. A peer that is not known stays
/// unknown.
pub proof fn law_observed_down(store: &mut NodeStore, peer: PeerId)
    requires
        call_ensures(NodeStore::observed_down, (store, &peer), ()),
    ensures
        knows_down(old(store)@, final(store)@, peer.bytes@),
        final(store).wf(),
{
}

/// A sound store takes every observation, and shows its nodes as long as a gauge can show how many
/// there are.
pub proof fn law_store_takes_observations(
    store: &mut NodeStore,
    node: Node,
    peer: PeerId,
    now: Nanos,
)
    requires
        old(store).wf(),
    ensures
        call_requires(NodeStore::observed_node, (store, node)),
        call_requires(NodeStore::observed_down, (store, &peer)),
        call_requires(NodeStore::peers, (old(store),)),
        old(store)@.nodes.dom().len() <= i64::MAX ==> call_requires(
            NodeStore::collect,
            (store, now),
        ),
{
}

/// The peers that are listed are those of all nodes, each of them once.
pub proof fn law_peers(store: NodeStore, res: Vec<PeerId>)
    requires
        call_ensures(NodeStore::peers, (&store,), res),
    ensures
        forall|i: int|
            0 <= i < res@.len() ==> store@.nodes.contains_key((#[trigger] res@[i]).bytes@),
        forall|peer: Seq<u8>| #[trigger]
            store@.nodes.contains_key(peer) ==> exists|i: int|
                0 <= i < res@.len() && (#[trigger] res@[i]).bytes@ == peer,
        forall|i: int, j: int|
            0 <= i < j < res@.len() ==> (#[trigger] res@[i]).bytes@ != (#[trigger] res@[j]).bytes@,
{
    let listed = peer_seq(res@);
    assert forall|i: int| 0 <= i < res@.len() implies store@.nodes.contains_key(
        (#[trigger] res@[i]).bytes@,
    ) by {
        assert(listed[i] == res@[i].bytes@);
        assert(listed.contains(listed[i]));
        assert(listed.to_set().contains(listed[i]));
    }
    assert forall|peer: Seq<u8>| #[trigger] store@.nodes.contains_key(peer) implies exists|i: int|
        0 <= i < res@.len() && (#[trigger] res@[i]).bytes@ == peer by {
        assert(listed.to_set().contains(peer));
        let i = listed.index_of(peer);
        assert(listed[i] == res@[i].bytes@);
    }
    assert forall|i: int, j: int| 0 <= i < j < res@.len() implies (#[trigger] res@[i]).bytes@ != (
    #[trigger] res@[j]).bytes@ by {
        assert(listed[i] == res@[i].bytes@);
        assert(listed[j] == res@[j].bytes@);
    }
}

/// The number of nodes is the number of peers that are known.
pub proof fn law_store_len(store: NodeStore, res: usize)
    requires
        call_ensures(NodeStore::len, (&store,), res),
    ensures
        res == store@.nodes.dom().len(),
{
}

/// The lengths of the spans of time, in hours.
pub open spec fn is_span(hours: int) -> bool {
    hours == 3 || hours == 6 || hours == 12 || hours == 24 || hours == 48 || hours == 96
}

/// How the length of a span of time is written.
pub open spec fn span_text(hours: int) -> Seq<char> {
    if hours == 3 {
        "3h"@
    } else if hours == 6 {
        "6h"@
    } else if hours == 12 {
        "12h"@
    } else if hours == 24 {
        "24h"@
    } else if hours == 48 {
        "48h"@
    } else {
        "96h"@
    }
}

/// Whether a node belongs into a metric for a number of hours: it was seen less than that long ago,
/// or, of nodes that were seen within the last hour, it has been up for longer than that.
pub open spec fn belongs(up: bool, node: NodeView, now: int, hours: int) -> bool {
    if up {
        &&& now - node.last_seen <= 3_600_000_000_000
        &&& node.up_since matches Some(start) && now - start > hours * 3_600_000_000_000
    } else {
        now - node.last_seen < hours * 3_600_000_000_000
    }
}

/// The text of a country or a provider in a label.
pub open spec fn label_text(text: Option<Seq<char>>) -> Seq<char> {
    match text {
        Some(text) => text,
        None => "unknown"@,
    }
}

/// The peers of a country and a provider whose nodes belong into a metric for a number of hours.
pub open spec fn peers_in(
    nodes: Map<Seq<u8>, NodeView>,
    up: bool,
    now: int,
    hours: int,
    country: Seq<char>,
    provider: Seq<char>,
) -> Set<Seq<u8>> {
    nodes.dom().filter(
        |peer: Seq<u8>|
            belongs(up, nodes[peer], now, hours) && label_text(nodes[peer].country) == country
                && label_text(nodes[peer].provider) == provider,
    )
}

/// Whether a sample has the labels of a country, a provider and a number of hours.
pub open spec fn is_labelled(
    sample: Sample,
    up: bool,
    hours: int,
    country: Seq<char>,
    provider: Seq<char>,
) -> bool {
    &&& sample.labels@.len() == 3
    &&& sample.labels@[0].0@ == "country"@
    &&& sample.labels@[0].1@ == country
    &&& sample.labels@[1].0@ == "cloud_provider"@
    &&& sample.labels@[1].1@ == provider
    &&& sample.labels@[2].0@ == if up {
        "up_since"@
    } else {
        "last_seen_within"@
    }
    &&& sample.labels@[2].1@ == span_text(hours)
}

/// Whether a sample shows the number of nodes of a country and a provider, for a number of hours.
pub open spec fn shows_peers(
    sample: Sample,
    nodes: Map<Seq<u8>, NodeView>,
    up: bool,
    now: int,
    hours: int,
    country: Seq<char>,
    provider: Seq<char>,
) -> bool {
    &&& is_labelled(sample, up, hours, country, provider)
    &&& sample.value == peers_in(nodes, up, now, hours, country, provider).len()
    &&& sample.value > 0
}

/// Whether some sample shows the number of nodes of a country and a provider.
pub open spec fn is_shown(
    samples: Seq<Sample>,
    nodes: Map<Seq<u8>, NodeView>,
    up: bool,
    now: int,
    hours: int,
    country: Seq<char>,
    provider: Seq<char>,
) -> bool {
    exists|i: int|
        0 <= i < samples.len() && shows_peers(
            #[trigger] samples[i],
            nodes,
            up,
            now,
            hours,
            country,
            provider,
        )
}

/// Whether a sample shows the number of nodes of some country and provider, for one of the spans.
pub open spec fn shows_some_peers(
    sample: Sample,
    nodes: Map<Seq<u8>, NodeView>,
    up: bool,
    now: int,
) -> bool {
    exists|hours: int, country: Seq<char>, provider: Seq<char>|
        is_span(hours) && #[trigger] shows_peers(sample, nodes, up, now, hours, country, provider)
}

/// Whether two samples differ in a label.
pub open spec fn labels_differ(a: Sample, b: Sample) -> bool {
    ||| a.labels@[0].1@ != b.labels@[0].1@
    ||| a.labels@[1].1@ != b.labels@[1].1@
    ||| a.labels@[2].1@ != b.labels@[2].1@
}

/// Whether a metric shows each non-empty group of nodes once, for each of the spans, and no more.
pub open spec fn shows_groups(
    metric: Metric,
    nodes: Map<Seq<u8>, NodeView>,
    up: bool,
    now: int,
) -> bool {
    metric.value matches MetricValue::LabelledGauges(samples) && {
        &&& forall|hours: int, country: Seq<char>, provider: Seq<char>|
            is_span(hours) && #[trigger] peers_in(nodes, up, now, hours, country, provider).len()
                > 0 ==> is_shown(samples@, nodes, up, now, hours, country, provider)
        &&& forall|i: int|
            0 <= i < samples@.len() ==> shows_some_peers(#[trigger] samples@[i], nodes, up, now)
        &&& forall|i: int, j: int|
            0 <= i < j < samples@.len() ==> labels_differ(
                #[trigger] samples@[i],
                #[trigger] samples@[j],
            )
    }
}

/// Whether metrics show nodes, and how many have been removed.
pub open spec fn shows_nodes(metrics: Seq<Metric>, store: NodeStoreView, now: Nanos) -> bool {
    &&& metrics.len() == 5
    &&& metrics[0].name@ == "nodes_seen_within"@
    &&& metrics[0].help@ == "Unique nodes discovered within the time bound through the Dht"@
    &&& shows_groups(metrics[0], store.nodes, false, now as int)
    &&& metrics[1].name@ == "nodes_up_since"@
    &&& metrics[1].help@ == "Unique nodes discovered through the Dht and up since timebound"@
    &&& shows_groups(metrics[1], store.nodes, true, now as int)
    &&& metrics[2].name@ == "meta_offline_nodes_removed"@
    &&& metrics[2].help@ == "Number of nodes removed due to being offline longer than 48h"@
    &&& metrics[2].value == MetricValue::Counter(store.offline_nodes_removed)
    &&& metrics[3].name@ == "meta_nodes_total"@
    &&& metrics[3].help@ == "Number of nodes tracked"@
    &&& metrics[3].value matches MetricValue::Gauge(total) && total == store.nodes.dom().len()
    &&& metrics[4].name@ == "meta_nodes_total"@
    &&& metrics[4].help@ == "Number of nodes tracked"@
    &&& metrics[4].value matches MetricValue::Gauge(total) && total == store.nodes.dom().len()
}

/// Whether a store is another one without the nodes that were not seen for more than two days,
/// which are counted as removed.
pub open spec fn is_cleared(before: NodeStoreView, after: NodeStoreView, now: Nanos) -> bool {
    &&& forall|peer: Seq<u8>| #[trigger]
        after.nodes.contains_key(peer) <==> before.nodes.contains_key(peer) && now
            - before.nodes[peer].last_seen <= 172_800_000_000_000
    &&& forall|peer: Seq<u8>| #[trigger]
        after.nodes.contains_key(peer) ==> after.nodes[peer] == before.nodes[peer]
    &&& after.nodes.dom().len() <= before.nodes.dom().len()
    &&& after.offline_nodes_removed == (before.offline_nodes_removed + (before.nodes.dom().len()
        - after.nodes.dom().len())) % 0x1_0000_0000_0000_0000
}

/// A collection removes the nodes that were not seen for more than two days, counts them, and shows
/// the others: how many there are, and for each span of time, country and provider how many of them
/// were seen or up.
pub proof fn law_collect(store: &mut NodeStore, now: Nanos, res: Vec<Metric>)
    requires
        old(store).wf(),
        call_ensures(NodeStore::collect, (store, now), res),
    ensures
        is_cleared(old(store)@, final(store)@, now),
        shows_nodes(res@, final(store)@, now),
        final(store).wf(),
{
    old(store).lemma_wf();
    final(store).lemma_wf();
    lemma_cleared(old(store)@, now);
    lemma_collection(res@, final(store)@, now);
}

pub(crate) proof fn lemma_cleared(store: NodeStoreView, now: Nanos)
    requires
        store.wf(),
    ensures
        is_cleared(store, store.without_offline(now), now),
{
    let after = store.without_offline(now);
    let offline = store.offline(now);
    vstd::set_lib::lemma_len_subset(offline, store.nodes.dom());
    vstd::set_lib::lemma_set_difference_len(store.nodes.dom(), offline);
    assert(after.nodes.dom() =~= store.nodes.dom().difference(offline));
    assert(store.nodes.dom().intersect(offline) =~= offline);
}

/// Where the span of a number of hours stands among the spans.
spec fn span_index(hours: int) -> int {
    if hours == 3 {
        0
    } else if hours == 6 {
        1
    } else if hours == 12 {
        2
    } else if hours == 24 {
        3
    } else if hours == 48 {
        4
    } else {
        5
    }
}

proof fn lemma_span(hours: int)
    requires
        is_span(hours),
    ensures
        0 <= span_index(hours) < time_barriers().len(),
        time_barriers()[span_index(hours)] == hours * 3_600_000_000_000,
        hours_label(time_barriers()[span_index(hours)]) == span_text(hours),
{
    reveal_with_fuel(decimal, 2);
    reveal_strlit("h");
    reveal_strlit("3h");
    reveal_strlit("6h");
    reveal_strlit("12h");
    reveal_strlit("24h");
    reveal_strlit("48h");
    reveal_strlit("96h");
    assert(hours_label(time_barriers()[span_index(hours)]) =~= span_text(hours));
}

/// How many hours the span at an index has.
spec fn hours_at(b: int) -> int {
    if b == 0 {
        3
    } else if b == 1 {
        6
    } else if b == 2 {
        12
    } else if b == 3 {
        24
    } else if b == 4 {
        48
    } else {
        96
    }
}

spec fn census_of(up: bool) -> Census {
    if up {
        Census::UpSince
    } else {
        Census::SeenWithin
    }
}

proof fn lemma_members(
    nodes: Map<Seq<u8>, NodeView>,
    up: bool,
    now: Nanos,
    hours: int,
    country: Seq<char>,
    provider: Seq<char>,
)
    requires
        is_span(hours),
    ensures
        members(
            nodes,
            census_of(up),
            now,
            time_barriers()[span_index(hours)],
            (country, provider),
        ) == peers_in(nodes, up, now as int, hours, country, provider),
{
    lemma_span(hours);
    assert(members(
        nodes,
        census_of(up),
        now,
        time_barriers()[span_index(hours)],
        (country, provider),
    ) =~= peers_in(nodes, up, now as int, hours, country, provider));
}

/// A sample that is that of a group shows the group.
proof fn lemma_group_sample(
    sample: Sample,
    nodes: Map<Seq<u8>, NodeView>,
    up: bool,
    now: Nanos,
    hours: int,
    country: Seq<char>,
    provider: Seq<char>,
)
    requires
        is_span(hours),
        sample@ == group_sample(
            nodes,
            census_of(up),
            now,
            time_barriers()[span_index(hours)],
            (country, provider),
        ),
        members(
            nodes,
            census_of(up),
            now,
            time_barriers()[span_index(hours)],
            (country, provider),
        ).len() > 0,
    ensures
        shows_peers(sample, nodes, up, now as int, hours, country, provider),
{
    lemma_span(hours);
    lemma_members(nodes, up, now, hours, country, provider);
    let labels = label_seq(sample.labels@);
    assert(labels == sample@.labels);
    assert(labels[0] == (sample.labels@[0].0@, sample.labels@[0].1@));
    assert(labels[1] == (sample.labels@[1].0@, sample.labels@[1].1@));
    assert(labels[2] == (sample.labels@[2].0@, sample.labels@[2].1@));
}

proof fn lemma_shows_groups(
    samples: Vec<Sample>,
    metric: Metric,
    nodes: Map<Seq<u8>, NodeView>,
    up: bool,
    now: Nanos,
)
    requires
        metric.value == MetricValue::LabelledGauges(samples),
        is_census(sample_seq(samples@), nodes, census_of(up), now),
    ensures
        shows_groups(metric, nodes, up, now as int),
{
    let views = sample_seq(samples@);
    assert forall|hours: int, country: Seq<char>, provider: Seq<char>|
        is_span(hours) && #[trigger] peers_in(
            nodes,
            up,
            now as int,
            hours,
            country,
            provider,
        ).len() > 0 implies is_shown(
        samples@,
        nodes,
        up,
        now as int,
        hours,
        country,
        provider,
    ) by {
        let b = span_index(hours);
        let barrier = time_barriers()[b];
        let group = (country, provider);
        lemma_span(hours);
        lemma_members(nodes, up, now, hours, country, provider);
        let sample = group_sample(nodes, census_of(up), now, barrier, group);
        assert(is_barrier_sample(nodes, census_of(up), now, time_barriers()[b], sample));
        assert(is_census_sample(nodes, census_of(up), now, sample));
        assert(views.contains(sample));
        let i = views.index_of(sample);
        assert(views[i] == samples@[i]@);
        lemma_group_sample(samples@[i], nodes, up, now, hours, country, provider);
    }
    assert forall|i: int| 0 <= i < samples@.len() implies shows_some_peers(
        #[trigger] samples@[i],
        nodes,
        up,
        now as int,
    ) by {
        assert(views[i] == samples@[i]@);
        assert(views.contains(views[i]));
        assert(is_census_sample(nodes, census_of(up), now, views[i]));
        let b = choose|b: int|
            0 <= b < time_barriers().len() && #[trigger] is_barrier_sample(
                nodes,
                census_of(up),
                now,
                time_barriers()[b],
                views[i],
            );
        let group = choose|group: (Seq<char>, Seq<char>)|
            members(nodes, census_of(up), now, time_barriers()[b], group).len() > 0 && views[i]
                == #[trigger] group_sample(nodes, census_of(up), now, time_barriers()[b], group);
        let hours = hours_at(b);
        assert(span_index(hours) == b);
        lemma_group_sample(samples@[i], nodes, up, now, hours, group.0, group.1);
    }
    law_samples_are_apart(views, nodes, census_of(up), now);
    assert forall|i: int, j: int| 0 <= i < j < samples@.len() implies labels_differ(
        #[trigger] samples@[i],
        #[trigger] samples@[j],
    ) by {
        assert(views[i] == samples@[i]@);
        assert(views[j] == samples@[j]@);
        assert(shows_some_peers(samples@[i], nodes, up, now as int));
        assert(shows_some_peers(samples@[j], nodes, up, now as int));
        if !labels_differ(samples@[i], samples@[j]) {
            assert(views[i].labels =~= views[j].labels);
        }
    }
}

pub(crate) proof fn lemma_collection(metrics: Seq<Metric>, store: NodeStoreView, now: Nanos)
    requires
        is_collection(metrics, store, now),
    ensures
        shows_nodes(metrics, store, now),
{
    match (metrics[0].value, metrics[1].value) {
        (MetricValue::LabelledGauges(seen), MetricValue::LabelledGauges(up)) => {
            lemma_shows_groups(seen, metrics[0], store.nodes, false, now);
            lemma_shows_groups(up, metrics[1], store.nodes, true, now);
        },
        _ => {},
    }
    assert(metrics[3].described("meta_nodes_total"@, "Number of nodes tracked"@));
    assert(metrics[4].described("meta_nodes_total"@, "Number of nodes tracked"@));
}

/// A node whose last sighting is as long ago as a span of time, or longer, counts as seen within it
/// in no group, whatever else is known of the node.
pub proof fn law_absent_node_is_not_seen(
    nodes: Map<Seq<u8>, NodeView>,
    now: Nanos,
    barrier: Nanos,
    peer: Seq<u8>,
    group: (Seq<char>, Seq<char>),
)
    requires
        now - nodes[peer].last_seen >= barrier,
    ensures
        !members(nodes, Census::SeenWithin, now, barrier, group).contains(peer),
{
}

/// A node that was seen more recently than a span of time ago counts as seen within it, in its own
/// group and in no other, whatever else is known of the node.
pub proof fn law_recent_node_is_seen(
    nodes: Map<Seq<u8>, NodeView>,
    now: Nanos,
    barrier: Nanos,
    peer: Seq<u8>,
    group: (Seq<char>, Seq<char>),
)
    requires
        nodes.contains_key(peer),
        now - nodes[peer].last_seen < barrier,
        barrier > 0,
    ensures
        members(nodes, Census::SeenWithin, now, barrier, group).contains(peer) <==> group == (
            label_text(nodes[peer].country),
            label_text(nodes[peer].provider),
        ),
{
}

/// A node that was seen within the last hour counts as up for a span of time if it has been up for
/// longer than that, however long, and only then.
pub proof fn law_uptime_counts(
    nodes: Map<Seq<u8>, NodeView>,
    now: Nanos,
    barrier: Nanos,
    peer: Seq<u8>,
    group: (Seq<char>, Seq<char>),
)
    requires
        nodes.contains_key(peer),
        now - nodes[peer].last_seen <= 3_600_000_000_000,
    ensures
        members(nodes, Census::UpSince, now, barrier, group).contains(peer) <==> (
        nodes[peer].up_since matches Some(start) && now - start > barrier && group == (
            label_text(nodes[peer].country),
            label_text(nodes[peer].provider),
        )),
{
}

} // verus!
