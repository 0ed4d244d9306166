//! The nodes of a single Dht.

use crate::assoc_map::AssocMap;
use crate::labels::{count_pair, decimal, hours_label, hours_text, LabelCounts, LabelPair};
use crate::metric::{
    label_seq, sample_seq, wrapping_sum, Metric, MetricValue, Sample, SampleView,
};
use crate::node::{text_of, Node, NodeView};
use crate::peer::{peer_seq, PeerId};
use crate::time::{elapsed, time_since, Nanos, HOUR};
use vstd::prelude::*;

verus! {

/// How long a node that is not seen any more is kept.
pub const RETENTION: Nanos = 172_800_000_000_000;

/// Stores information about a set of nodes for a single Dht.
#[derive(Debug)]
pub struct NodeStore {
    nodes: AssocMap<PeerId, Node>,
    offline_nodes_removed: u64,
}

/// A [`NodeStore`] as contracts speak of it.
pub struct NodeStoreView {
    /// What is known of each node, by its peer.
    pub nodes: Map<Seq<u8>, NodeView>,
    /// How many nodes have been removed for being offline.
    pub offline_nodes_removed: u64,
}

/// Whether a node has not been seen for longer than nodes are kept.
pub open spec fn expired(node: NodeView, now: Nanos) -> bool {
    elapsed(now, node.last_seen) > RETENTION
}

impl NodeStoreView {
    /// A store that knows no node.
    pub open spec fn empty() -> NodeStoreView {
        NodeStoreView { nodes: Map::empty(), offline_nodes_removed: 0 }
    }

    /// Every node stands under its own peer, and there are finitely many of them.
    pub open spec fn wf(self) -> bool {
        &&& self.nodes.dom().finite()
        &&& forall|peer: Seq<u8>| #[trigger]
            self.nodes.contains_key(peer) ==> self.nodes[peer].peer_id == peer
    }

    /// The store after an observation of a node.
    pub open spec fn observed(self, node: NodeView) -> NodeStoreView {
        NodeStoreView {
            nodes: self.nodes.insert(
                node.peer_id,
                if self.nodes.contains_key(node.peer_id) {
                    self.nodes[node.peer_id].merged(node)
                } else {
                    node
                },
            ),
            ..self
        }
    }

    /// The store after a node was found to be down.
    pub open spec fn down(self, peer: Seq<u8>) -> NodeStoreView {
        if self.nodes.contains_key(peer) {
            NodeStoreView {
                nodes: self.nodes.insert(peer, self.nodes[peer].gone_down()),
                ..self
            }
        } else {
            self
        }
    }

    /// The peers whose nodes are to be removed.
    pub open spec fn offline(self, now: Nanos) -> Set<Seq<u8>> {
        self.nodes.dom().filter(|peer: Seq<u8>| expired(self.nodes[peer], now))
    }

    /// The store without the nodes that have been offline for too long.
    ///
    /// The number of removed nodes is counted on top of those of before, modulo the range of the
    /// counter.
    pub open spec fn without_offline(self, now: Nanos) -> NodeStoreView {
        NodeStoreView {
            nodes: self.nodes.remove_keys(self.offline(now)),
            offline_nodes_removed: wrapping_sum(
                self.offline_nodes_removed,
                self.offline(now).len(),
            ),
        }
    }
}

/// The two questions by which nodes are counted.
#[derive(Debug, Clone, Copy, PartialEq, Eq)]
pub enum Census {
    /// Which nodes were seen within a span of time?
    SeenWithin,
    /// Which nodes have been up for longer than a span of time?
    UpSince,
}

/// The spans of time for which nodes are counted.
pub open spec fn time_barriers() -> Seq<Nanos> {
    seq![
        10_800_000_000_000,
        21_600_000_000_000,
        43_200_000_000_000,
        86_400_000_000_000,
        172_800_000_000_000,
        345_600_000_000_000,
    ]
}

/// Whether a node counts for a span of time.
///
/// A node that was not seen for more than an hour does not count as up: it may not have been
/// probed since it went down.
pub open spec fn counts_for(census: Census, node: NodeView, now: Nanos, barrier: Nanos) -> bool {
    match census {
        Census::SeenWithin => elapsed(now, node.last_seen) < barrier,
        Census::UpSince => elapsed(now, node.last_seen) <= HOUR && match node.up_since {
            Some(up_since) => elapsed(now, up_since) > barrier,
            None => false,
        },
    }
}

/// What a label shows for something that may not be known.
pub open spec fn or_unknown(text: Option<Seq<char>>) -> Seq<char> {
    match text {
        Some(text) => text,
        None => "unknown"@,
    }
}

/// The country and the cloud provider under which a node is counted.
pub open spec fn group_of(node: NodeView) -> (Seq<char>, Seq<char>) {
    (or_unknown(node.country), or_unknown(node.provider))
}

/// Those of some peers whose nodes count for a span of time, in one country and at one provider.
pub open spec fn members_among(
    peers: Set<Seq<u8>>,
    nodes: Map<Seq<u8>, NodeView>,
    census: Census,
    now: Nanos,
    barrier: Nanos,
    group: (Seq<char>, Seq<char>),
) -> Set<Seq<u8>> {
    peers.filter(
        |peer: Seq<u8>|
            counts_for(census, nodes[peer], now, barrier) && group_of(nodes[peer]) == group,
    )
}

/// The peers whose nodes count for a span of time, in one country and at one provider.
pub open spec fn members(
    nodes: Map<Seq<u8>, NodeView>,
    census: Census,
    now: Nanos,
    barrier: Nanos,
    group: (Seq<char>, Seq<char>),
) -> Set<Seq<u8>> {
    members_among(nodes.dom(), nodes, census, now, barrier, group)
}

/// The name of the label that shows the span of time.
pub open spec fn barrier_label_name(census: Census) -> Seq<char> {
    match census {
        Census::SeenWithin => "last_seen_within"@,
        Census::UpSince => "up_since"@,
    }
}

/// The sample that shows how many nodes count for a span of time in a group.
pub open spec fn group_sample(
    nodes: Map<Seq<u8>, NodeView>,
    census: Census,
    now: Nanos,
    barrier: Nanos,
    group: (Seq<char>, Seq<char>),
) -> SampleView {
    SampleView {
        labels: seq![
            ("country"@, group.0),
            ("cloud_provider"@, group.1),
            (barrier_label_name(census), hours_label(barrier)),
        ],
        value: members(nodes, census, now, barrier, group).len() as int,
    }
}

/// Whether a sample is that of a group which has nodes that count for a span of time.
pub open spec fn is_barrier_sample(
    nodes: Map<Seq<u8>, NodeView>,
    census: Census,
    now: Nanos,
    barrier: Nanos,
    sample: SampleView,
) -> bool {
    exists|group: (Seq<char>, Seq<char>)|
        members(nodes, census, now, barrier, group).len() > 0 && sample == #[trigger] group_sample(
            nodes,
            census,
            now,
            barrier,
            group,
        )
}

/// Whether a sample belongs to a census: it is that of a non-empty group, for one of the spans of
/// time.
pub open spec fn is_census_sample(
    nodes: Map<Seq<u8>, NodeView>,
    census: Census,
    now: Nanos,
    sample: SampleView,
) -> bool {
    exists|b: int|
        0 <= b < time_barriers().len() && #[trigger] is_barrier_sample(
            nodes,
            census,
            now,
            time_barriers()[b],
            sample,
        )
}

/// Whether a list holds the samples of a census, each of them once and no others.
pub open spec fn is_census(
    samples: Seq<SampleView>,
    nodes: Map<Seq<u8>, NodeView>,
    census: Census,
    now: Nanos,
) -> bool {
    &&& samples.no_duplicates()
    &&& forall|sample: SampleView|
        #[trigger] samples.contains(sample) <==> is_census_sample(nodes, census, now, sample)
}

/// Whether metrics are what a store shows at a point in time, after its removals.
pub open spec fn is_collection(metrics: Seq<Metric>, store: NodeStoreView, now: Nanos) -> bool {
    &&& metrics.len() == 5
    &&& metrics[0].described(
        "nodes_seen_within"@,
        "Unique nodes discovered within the time bound through the Dht"@,
    )
    &&& metrics[0].value matches MetricValue::LabelledGauges(samples) && is_census(
        sample_seq(samples@),
        store.nodes,
        Census::SeenWithin,
        now,
    )
    &&& metrics[1].described(
        "nodes_up_since"@,
        "Unique nodes discovered through the Dht and up since timebound"@,
    )
    &&& metrics[1].value matches MetricValue::LabelledGauges(samples) && is_census(
        sample_seq(samples@),
        store.nodes,
        Census::UpSince,
        now,
    )
    &&& metrics[2].described(
        "meta_offline_nodes_removed"@,
        "Number of nodes removed due to being offline longer than 48h"@,
    )
    &&& metrics[2].value == MetricValue::Counter(store.offline_nodes_removed)
    &&& forall|i: int|
        3 <= i < 5 ==> (#[trigger] metrics[i]).described(
            "meta_nodes_total"@,
            "Number of nodes tracked"@,
        ) && (metrics[i].value matches MetricValue::Gauge(total) && total
            == store.nodes.dom().len())
}

impl View for NodeStore {
    type V = NodeStoreView;

    closed spec fn view(&self) -> NodeStoreView {
        NodeStoreView {
            nodes: self.nodes@.map_values(|node: Node| node@),
            offline_nodes_removed: self.offline_nodes_removed,
        }
    }
}

impl Default for NodeStore {
    /// A store that knows no node.
    fn default() -> (res: Self)
        ensures
            res.wf(),
            res@ == NodeStoreView::empty(),
    {
        let res = NodeStore { nodes: AssocMap::new(), offline_nodes_removed: 0 };
        assert(res@.nodes =~= Map::<Seq<u8>, NodeView>::empty());
        res
    }
}

impl NodeStore {
    /// The store is sound: no peer occurs twice, and every node stands under its own peer.
    pub closed spec fn wf(self) -> bool {
        &&& self.nodes.wf()
        &&& self@.wf()
    }

    /// What a sound store is, in terms of its view.
    pub proof fn lemma_wf(self)
        requires
            self.wf(),
        ensures
            self@.wf(),
    {
    }

    /// How many nodes the store knows.
    pub fn len(&self) -> (res: usize)
        requires
            self.wf(),
        ensures
            res == self@.nodes.dom().len(),
    {
        assert(self@.nodes.dom() =~= self.nodes@.dom());
        self.nodes.len()
    }

    /// Record observation of a specific node.
    pub fn observed_node(&mut self, node: Node)
        requires
            old(self).wf(),
        ensures
            final(self).wf(),
            final(self)@ == old(self)@.observed(node@),
    {
        let ghost before = *self;
        let ghost observed = node@;
        match self.nodes.position(&node.peer_id) {
            Some(i) => {
                let slot = self.nodes.value_at_mut(i);
                slot.merge(node);
                proof {
                    self.nodes.lemma_update(before.nodes, i as int);
                }
            },
            None => {
                let peer_id = node.peer_id.clone();
                self.nodes.insert(peer_id, node);
            },
        }
        proof {
            assert(self@.nodes =~= before@.observed(observed).nodes);
            self.nodes.lemma_len();
            assert(self@.nodes.dom() =~= self.nodes@.dom());
        }
    }

    /// Record that a node was found to be down.
    pub fn observed_down(&mut self, peer_id: &PeerId)
        requires
            old(self).wf(),
        ensures
            final(self).wf(),
            final(self)@ == old(self)@.down(peer_id@),
    {
        let ghost before = *self;
        match self.nodes.position(peer_id) {
            Some(i) => {
                let slot = self.nodes.value_at_mut(i);
                slot.up_since = None;
                proof {
                    self.nodes.lemma_update(before.nodes, i as int);
                }
            },
            None => {},
        }
        proof {
            assert(self@.nodes =~= before@.down(peer_id@).nodes);
            self.nodes.lemma_len();
            assert(self@.nodes.dom() =~= self.nodes@.dom());
        }
    }

    /// The peers of all nodes, each of them once, in no order to rely on.
    pub fn peers(&self) -> (res: Vec<PeerId>)
        requires
            self.wf(),
        ensures
            peer_seq(res@).no_duplicates(),
            peer_seq(res@).to_set() == self@.nodes.dom(),
    {
        let mut res: Vec<PeerId> = Vec::new();
        let n: usize = self.nodes.len();
        let mut i: usize = 0;
        while i < n
            invariant
                self.wf(),
                n == self.nodes.keys().len(),
                i <= n,
                peer_seq(res@) == self.nodes.keys().take(i as int),
            decreases n - i,
        {
            let node = self.nodes.value_at(i);
            proof {
                self.nodes.lemma_entry(i as int);
                assert(self@.nodes.contains_key(self.nodes.keys()[i as int]));
                assert(node@.peer_id == self.nodes.keys()[i as int]);
            }
            let ghost listed = peer_seq(res@);
            res.push(node.peer_id.clone());
            assert(peer_seq(res@) =~= listed.push(node.peer_id@));
            assert(peer_seq(res@) =~= self.nodes.keys().take(i + 1));
            i = i + 1;
        }
        proof {
            assert(peer_seq(res@) =~= self.nodes.keys());
            assert(peer_seq(res@).to_set() =~= self@.nodes.dom());
        }
        res
    }

    /// Removes the nodes that have been offline for too long.
    fn remove_offline(&mut self, now: Nanos)
        requires
            old(self).wf(),
        ensures
            final(self).wf(),
            final(self)@ == old(self)@.without_offline(now),
    {
        let ghost before = *self;
        let length: usize = self.nodes.len();
        let mut i: usize = 0;
        while i < self.nodes.len()
            invariant
                before.wf(),
                self.nodes.wf(),
                self.offline_nodes_removed == before.offline_nodes_removed,
                i <= self.nodes.keys().len() <= length,
                forall|peer: Seq<u8>| #[trigger]
                    self.nodes@.contains_key(peer) ==> before.nodes@.contains_key(peer)
                        && self.nodes@[peer] == before.nodes@[peer],
                forall|peer: Seq<u8>| #[trigger]
                    before.nodes@.contains_key(peer) ==> self.nodes@.contains_key(peer)
                        || expired(before.nodes@[peer]@, now),
                forall|j: int|
                    0 <= j < i ==> !expired((#[trigger] self.nodes.values()[j])@, now),
            decreases self.nodes.keys().len() - i,
        {
            if time_since(now, self.nodes.value_at(i).last_seen) > RETENTION {
                proof {
                    self.nodes.lemma_entry(i as int);
                }
                self.nodes.remove_at(i);
            } else {
                i = i + 1;
            }
        }
        let removed: usize = length - self.nodes.len();
        proof {
            let offline = before@.offline(now);
            assert forall|peer: Seq<u8>| self.nodes@.contains_key(peer) implies !offline.contains(
                peer,
            ) by {
                let j = self.nodes.lemma_index(peer);
            }
            assert(self@.nodes =~= before@.without_offline(now).nodes);
            self.nodes.lemma_len();
            before.nodes.lemma_len();
            assert(before@.nodes.dom() =~= before.nodes@.dom());
            assert(self.nodes@.dom() =~= before.nodes@.dom().difference(offline));
            assert(before.nodes@.dom().intersect(offline) =~= offline);
            vstd::set_lib::lemma_set_difference_len(before.nodes@.dom(), offline);
            assert(removed == offline.len());
        }
        self.offline_nodes_removed = self.offline_nodes_removed.wrapping_add(removed as u64);
        assert(self@.nodes.dom() =~= self.nodes@.dom());
    }

    /// Counts, by country and provider, the nodes that count for a span of time.
    fn count_groups(&self, census: Census, now: Nanos, barrier: Nanos) -> (res: LabelCounts)
        requires
            self.wf(),
        ensures
            res.wf(),
            forall|group: (Seq<char>, Seq<char>)| #[trigger]
                res@.contains_key(group) <==> members(
                    self@.nodes,
                    census,
                    now,
                    barrier,
                    group,
                ).len() > 0,
            forall|group: (Seq<char>, Seq<char>)| #[trigger]
                res@.contains_key(group) ==> res@[group] == members(
                    self@.nodes,
                    census,
                    now,
                    barrier,
                    group,
                ).len(),
    {
        let mut counts: LabelCounts = AssocMap::new();
        let n: usize = self.nodes.len();
        let ghost nodes = self@.nodes;
        let ghost keys = self.nodes.keys();
        let mut i: usize = 0;
        proof {
            assert forall|group: (Seq<char>, Seq<char>)|
                members_among(keys.take(0).to_set(), nodes, census, now, barrier, group).len()
                    == 0 by {
                assert(members_among(keys.take(0).to_set(), nodes, census, now, barrier, group)
                    =~= Set::empty());
            }
        }
        while i < n
            invariant
                self.wf(),
                nodes == self@.nodes,
                keys == self.nodes.keys(),
                n == keys.len(),
                i <= n,
                counts.wf(),
                forall|group: (Seq<char>, Seq<char>)| #[trigger]
                    counts@.contains_key(group) <==> members_among(
                        keys.take(i as int).to_set(),
                        nodes,
                        census,
                        now,
                        barrier,
                        group,
                    ).len() > 0,
                forall|group: (Seq<char>, Seq<char>)| #[trigger]
                    counts@.contains_key(group) ==> counts@[group] == members_among(
                        keys.take(i as int).to_set(),
                        nodes,
                        census,
                        now,
                        barrier,
                        group,
                    ).len(),
            decreases n - i,
        {
            let node = self.nodes.value_at(i);
            proof {
                self.nodes.lemma_entry(i as int);
                assert(nodes[keys[i as int]] == node@);
                lemma_one_more_peer(keys, i as int, nodes, census, now, barrier, group_of(node@));
            }
            if node_counts_for(census, node, now, barrier) {
                count_pair(&mut counts, node_group(node), u64::MAX);
            }
            proof {
                assert forall|group: (Seq<char>, Seq<char>)| #[trigger]
                    members_among(
                        keys.take(i + 1).to_set(),
                        nodes,
                        census,
                        now,
                        barrier,
                        group,
                    ).len() == members_among(
                        keys.take(i as int).to_set(),
                        nodes,
                        census,
                        now,
                        barrier,
                        group,
                    ).len() + if counts_for(census, node@, now, barrier) && group_of(node@)
                        == group {
                        1nat
                    } else {
                        0nat
                    } by {
                    lemma_one_more_peer(keys, i as int, nodes, census, now, barrier, group);
                }
            }
            i = i + 1;
        }
        proof {
            assert(keys.take(n as int) =~= keys);
            assert(keys.to_set() =~= nodes.dom());
        }
        counts
    }

    /// The samples of a census for one span of time.
    fn barrier_samples(&self, census: Census, now: Nanos, barrier: Nanos) -> (res: Vec<Sample>)
        requires
            self.wf(),
            self@.nodes.dom().len() <= i64::MAX,
        ensures
            sample_seq(res@).no_duplicates(),
            forall|sample: SampleView| #[trigger]
                sample_seq(res@).contains(sample) <==> is_barrier_sample(
                    self@.nodes,
                    census,
                    now,
                    barrier,
                    sample,
                ),
    {
        let counts = self.count_groups(census, now, barrier);
        let ghost nodes = self@.nodes;
        let ghost groups = counts.keys();
        let n: usize = counts.len();
        let mut res: Vec<Sample> = Vec::new();
        let mut i: usize = 0;
        while i < n
            invariant
                self.wf(),
                nodes == self@.nodes,
                nodes.dom().len() <= i64::MAX,
                counts.wf(),
                groups == counts.keys(),
                n == groups.len(),
                i <= n,
                forall|group: (Seq<char>, Seq<char>)| #[trigger]
                    counts@.contains_key(group) ==> counts@[group] == members(
                        nodes,
                        census,
                        now,
                        barrier,
                        group,
                    ).len(),
                sample_seq(res@) == Seq::new(
                    i as nat,
                    |j: int| group_sample(nodes, census, now, barrier, groups[j]),
                ),
            decreases n - i,
        {
            let group = counts.key_at(i);
            let count: u64 = *counts.value_at(i);
            proof {
                counts.lemma_entry(i as int);
                nodes.dom().lemma_len_filter(
                    |peer: Seq<u8>|
                        counts_for(census, nodes[peer], now, barrier) && group_of(nodes[peer])
                            == groups[i as int],
                );
            }
            let ghost before = sample_seq(res@);
            let sample = sample_of(census, group, barrier, count as i64);
            res.push(sample);
            proof {
                assert(sample@ == group_sample(nodes, census, now, barrier, groups[i as int]));
                assert(sample_seq(res@) =~= before.push(sample@));
            }
            i = i + 1;
        }
        proof {
            let samples = sample_seq(res@);
            assert forall|j: int, k: int| 0 <= j < k < n implies samples[j] != samples[k] by {
                assert(samples[j].labels[0] == ("country"@, groups[j].0));
                assert(samples[k].labels[0] == ("country"@, groups[k].0));
                assert(samples[j].labels[1] == ("cloud_provider"@, groups[j].1));
                assert(samples[k].labels[1] == ("cloud_provider"@, groups[k].1));
                assert(groups[j] != groups[k]);
            }
            assert forall|sample: SampleView| #[trigger]
                samples.contains(sample) <==> is_barrier_sample(
                    nodes,
                    census,
                    now,
                    barrier,
                    sample,
                ) by {
                if samples.contains(sample) {
                    let j = samples.index_of(sample);
                    counts.lemma_entry(j);
                    assert(sample == group_sample(nodes, census, now, barrier, groups[j]));
                }
                if is_barrier_sample(nodes, census, now, barrier, sample) {
                    let group = choose|group: (Seq<char>, Seq<char>)|
                        members(nodes, census, now, barrier, group).len() > 0 && sample
                            == #[trigger] group_sample(nodes, census, now, barrier, group);
                    assert(counts@.contains_key(group));
                    let j = counts.lemma_index(group);
                    assert(samples[j] == sample);
                }
            }
        }
        res
    }

    /// The samples of a census.
    fn census_samples(&self, census: Census, now: Nanos) -> (res: Vec<Sample>)
        requires
            self.wf(),
            self@.nodes.dom().len() <= i64::MAX,
        ensures
            is_census(sample_seq(res@), self@.nodes, census, now),
    {
        let barriers: Vec<Nanos> = vec![
            10_800_000_000_000,
            21_600_000_000_000,
            43_200_000_000_000,
            86_400_000_000_000,
            172_800_000_000_000,
            345_600_000_000_000,
        ];
        assert(barriers@ =~= time_barriers());
        let ghost nodes = self@.nodes;
        let mut res: Vec<Sample> = Vec::new();
        let mut i: usize = 0;
        while i < barriers.len()
            invariant
                self.wf(),
                nodes == self@.nodes,
                nodes.dom().len() <= i64::MAX,
                barriers@ == time_barriers(),
                i <= barriers@.len(),
                sample_seq(res@).no_duplicates(),
                forall|sample: SampleView| #[trigger]
                    sample_seq(res@).contains(sample) <==> exists|b: int|
                        0 <= b < i && #[trigger] is_barrier_sample(
                            nodes,
                            census,
                            now,
                            time_barriers()[b],
                            sample,
                        ),
            decreases barriers@.len() - i,
        {
            let mut more = self.barrier_samples(census, now, barriers[i]);
            let ghost earlier = sample_seq(res@);
            let ghost added = sample_seq(more@);
            res.append(&mut more);
            proof {
                let all = sample_seq(res@);
                assert(all =~= earlier + added);
                assert forall|sample: SampleView| #[trigger]
                    all.contains(sample) <==> exists|b: int|
                        0 <= b < i + 1 && #[trigger] is_barrier_sample(
                            nodes,
                            census,
                            now,
                            time_barriers()[b],
                            sample,
                        ) by {
                    lemma_contains_in_sum(earlier, added, sample);
                    if is_barrier_sample(nodes, census, now, time_barriers()[i as int], sample) {
                        assert(added.contains(sample));
                    }
                }
                assert forall|sample: SampleView| earlier.contains(sample) implies !added.contains(
                    sample,
                ) by {
                    if added.contains(sample) {
                        let b = choose|b: int|
                            0 <= b < i && #[trigger] is_barrier_sample(
                                nodes,
                                census,
                                now,
                                time_barriers()[b],
                                sample,
                            );
                        lemma_barrier_label(nodes, census, now, time_barriers()[b], sample);
                        lemma_barrier_label(nodes, census, now, time_barriers()[i as int], sample);
                        lemma_barriers_distinct(b, i as int);
                    }
                }
                assert forall|j: int, k: int| 0 <= j < k < all.len() implies all[j] != all[k] by {
                    if j < earlier.len() && k >= earlier.len() {
                        assert(earlier.contains(earlier[j]));
                        assert(added.contains(added[k - earlier.len()]));
                    }
                }
            }
            i = i + 1;
        }
        res
    }

    /// Removes the nodes that have been offline for too long, and shows what is known of the
    /// others.
    ///
    /// One reading of the clock serves the whole collection.
    pub fn collect(&mut self, now: Nanos) -> (res: Vec<Metric>)
        requires
            old(self).wf(),
            old(self)@.nodes.dom().len() <= i64::MAX,
        ensures
            final(self).wf(),
            final(self)@ == old(self)@.without_offline(now),
            is_collection(res@, final(self)@, now),
    {
        let ghost before = *self;
        self.remove_offline(now);
        proof {
            assert(self@.nodes.dom().subset_of(before@.nodes.dom()));
            vstd::set_lib::lemma_len_subset(self@.nodes.dom(), before@.nodes.dom());
        }
        let seen_within = self.census_samples(Census::SeenWithin, now);
        let up_since = self.census_samples(Census::UpSince, now);
        let total = self.len() as i64;
        let mut res: Vec<Metric> = Vec::new();
        res.push(
            Metric {
                name: "nodes_seen_within".to_string(),
                help: "Unique nodes discovered within the time bound through the Dht".to_string(),
                value: MetricValue::LabelledGauges(seen_within),
            },
        );
        res.push(
            Metric {
                name: "nodes_up_since".to_string(),
                help: "Unique nodes discovered through the Dht and up since timebound".to_string(),
                value: MetricValue::LabelledGauges(up_since),
            },
        );
        res.push(
            Metric {
                name: "meta_offline_nodes_removed".to_string(),
                help: "Number of nodes removed due to being offline longer than 48h".to_string(),
                value: MetricValue::Counter(self.offline_nodes_removed),
            },
        );
        res.push(
            Metric {
                name: "meta_nodes_total".to_string(),
                help: "Number of nodes tracked".to_string(),
                value: MetricValue::Gauge(total),
            },
        );
        res.push(
            Metric {
                name: "meta_nodes_total".to_string(),
                help: "Number of nodes tracked".to_string(),
                value: MetricValue::Gauge(total),
            },
        );
        res
    }
}

/// An element of a concatenation is one of its parts'.
proof fn lemma_contains_in_sum(a: Seq<SampleView>, b: Seq<SampleView>, sample: SampleView)
    ensures
        (a + b).contains(sample) <==> a.contains(sample) || b.contains(sample),
{
    if a.contains(sample) {
        let j = a.index_of(sample);
        assert((a + b)[j] == sample);
    }
    if b.contains(sample) {
        let j = b.index_of(sample);
        assert((a + b)[a.len() + j] == sample);
    }
    if (a + b).contains(sample) {
        let j = (a + b).index_of(sample);
        if j < a.len() {
            assert(a[j] == sample);
        } else {
            assert(b[j - a.len()] == sample);
        }
    }
}

/// The third label of a sample shows its span of time.
pub proof fn lemma_barrier_label(
    nodes: Map<Seq<u8>, NodeView>,
    census: Census,
    now: Nanos,
    barrier: Nanos,
    sample: SampleView,
)
    requires
        is_barrier_sample(nodes, census, now, barrier, sample),
    ensures
        sample.labels[2] == (barrier_label_name(census), hours_label(barrier)),
{
}

/// No two spans of time have the same label text.
pub proof fn lemma_barriers_distinct(a: int, b: int)
    requires
        0 <= a < b < time_barriers().len(),
    ensures
        hours_label(time_barriers()[a]) != hours_label(time_barriers()[b]),
{
    reveal_with_fuel(decimal, 2);
    reveal_strlit("h");
    let x = hours_label(time_barriers()[a]);
    let y = hours_label(time_barriers()[b]);
    assert(x[0] != y[0] || x[1] != y[1]);
}

/// The sample of a group.
fn sample_of(census: Census, group: &LabelPair, barrier: Nanos, count: i64) -> (res: Sample)
    ensures
        res@ == (SampleView {
            labels: seq![
                ("country"@, group@.0),
                ("cloud_provider"@, group@.1),
                (barrier_label_name(census), hours_label(barrier)),
            ],
            value: count as int,
        }),
{
    let name = match census {
        Census::SeenWithin => "last_seen_within",
        Census::UpSince => "up_since",
    };
    let mut labels: Vec<(String, String)> = Vec::new();
    labels.push(("country".to_string(), group.first.clone()));
    labels.push(("cloud_provider".to_string(), group.second.clone()));
    labels.push((name.to_string(), hours_text(barrier)));
    assert(label_seq(labels@) =~= seq![
        ("country"@, group@.0),
        ("cloud_provider"@, group@.1),
        (barrier_label_name(census), hours_label(barrier)),
    ]);
    Sample { labels, value: count }
}

/// Going on to the next peer adds it to the members of a group if its node counts there.
proof fn lemma_one_more_peer(
    keys: Seq<Seq<u8>>,
    i: int,
    nodes: Map<Seq<u8>, NodeView>,
    census: Census,
    now: Nanos,
    barrier: Nanos,
    group: (Seq<char>, Seq<char>),
)
    requires
        keys.no_duplicates(),
        0 <= i < keys.len(),
    ensures
        members_among(keys.take(i + 1).to_set(), nodes, census, now, barrier, group).len()
            == members_among(keys.take(i).to_set(), nodes, census, now, barrier, group).len() + if
        counts_for(census, nodes[keys[i]], now, barrier) && group_of(nodes[keys[i]]) == group {
            1nat
        } else {
            0nat
        },
        members_among(keys.take(i).to_set(), nodes, census, now, barrier, group).len() <= i,
{
    let smaller = members_among(keys.take(i).to_set(), nodes, census, now, barrier, group);
    let larger = members_among(keys.take(i + 1).to_set(), nodes, census, now, barrier, group);
    vstd::seq_lib::seq_to_set_is_finite(keys.take(i));
    keys.take(i).unique_seq_to_set();
    keys.take(i).to_set().lemma_len_filter(
        |peer: Seq<u8>|
            counts_for(census, nodes[peer], now, barrier) && group_of(nodes[peer]) == group,
    );
    assert forall|peer: Seq<u8>| keys.take(i + 1).contains(peer) <==> (keys.take(i).contains(peer)
        || peer == keys[i]) by {
        if keys.take(i + 1).contains(peer) {
            let j = keys.take(i + 1).index_of(peer);
            if j < i {
                assert(keys.take(i)[j] == peer);
            }
        }
        if keys.take(i).contains(peer) {
            let j = keys.take(i).index_of(peer);
            assert(keys.take(i + 1)[j] == peer);
        }
        assert(keys.take(i + 1)[i] == keys[i]);
    }
    assert(!keys.take(i).contains(keys[i]));
    if counts_for(census, nodes[keys[i]], now, barrier) && group_of(nodes[keys[i]]) == group {
        assert(larger =~= smaller.insert(keys[i]));
    } else {
        assert(larger =~= smaller);
    }
}

/// Tells whether a node counts for a span of time.
fn node_counts_for(census: Census, node: &Node, now: Nanos, barrier: Nanos) -> (res: bool)
    ensures
        res == counts_for(census, node@, now, barrier),
{
    match census {
        Census::SeenWithin => time_since(now, node.last_seen) < barrier,
        Census::UpSince => {
            if time_since(now, node.last_seen) > HOUR {
                return false;
            }
            match node.up_since {
                Some(up_since) => time_since(now, up_since) > barrier,
                None => false,
            }
        },
    }
}

/// The country and the cloud provider under which a node is counted.
fn node_group(node: &Node) -> (res: LabelPair)
    ensures
        res@ == group_of(node@),
{
    LabelPair { first: known_text(&node.country), second: known_text(&node.provider) }
}

/// The text that a label shows for something that may not be known.
fn known_text(text: &Option<String>) -> (res: String)
    ensures
        res@ == or_unknown(text_of(*text)),
{
    match text {
        Some(text) => text.clone(),
        None => "unknown".to_string(),
    }
}

} // verus!
