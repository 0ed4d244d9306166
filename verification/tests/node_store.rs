//! What the store keeps of nodes, and what it shows of them.

use kademlia_exporter::metric::{Metric, MetricValue, Sample};
use kademlia_exporter::node::Node;
use kademlia_exporter::node_store::{NodeStore, RETENTION};
use kademlia_exporter::peer::PeerId;
use kademlia_exporter::time::{time_since, HOUR};

fn peer(number: u8) -> PeerId {
    PeerId { bytes: vec![number] }
}

fn text(text: &str) -> String {
    text.to_string()
}

/// A node that was last seen at one time and has been up since another.
fn node(number: u8, up_since: u64, last_seen: u64) -> Node {
    let mut node = Node::new(peer(number), up_since);
    node.merge(Node::new(peer(number), last_seen));
    node
}

fn samples(metric: &Metric) -> Vec<(String, String, String, i64)> {
    match &metric.value {
        MetricValue::LabelledGauges(samples) => {
            let mut shown: Vec<(String, String, String, i64)> =
                samples.iter().map(|sample| shown_by(sample)).collect();
            shown.sort();
            shown
        }
        _ => panic!("no labelled gauges"),
    }
}

fn shown_by(sample: &Sample) -> (String, String, String, i64) {
    assert_eq!(sample.labels.len(), 3);
    assert_eq!(sample.labels[0].0, "country");
    assert_eq!(sample.labels[1].0, "cloud_provider");
    (
        sample.labels[0].1.clone(),
        sample.labels[1].1.clone(),
        sample.labels[2].1.clone(),
        sample.value,
    )
}

fn shown(country: &str, provider: &str, span: &str, count: i64) -> (String, String, String, i64) {
    (text(country), text(provider), text(span), count)
}

fn counter(metric: &Metric) -> u64 {
    match metric.value {
        MetricValue::Counter(count) => count,
        _ => panic!("no counter"),
    }
}

fn gauge(metric: &Metric) -> i64 {
    match metric.value {
        MetricValue::Gauge(value) => value,
        _ => panic!("no gauge"),
    }
}

#[test]
fn a_span_of_time_ends_at_the_later_point() {
    assert_eq!(time_since(7, 5), 2);
    assert_eq!(time_since(5, 5), 0);
    assert_eq!(time_since(5, 7), 0);
    assert_eq!(time_since(u64::MAX, 0), u64::MAX);
}

#[test]
fn a_new_node_is_up_and_nowhere() {
    let node = Node::new(peer(1), 42);
    assert_eq!(node.peer_id, peer(1));
    assert_eq!(node.country, None);
    assert_eq!(node.provider, None);
    assert_eq!(node.last_seen, 42);
    assert_eq!(node.up_since, Some(42));
}

#[test]
fn a_node_is_given_a_country_and_a_provider() {
    let node = Node::new(peer(1), 42)
        .with_country(text("DE"))
        .with_cloud_provider(text("cloud"));
    assert_eq!(node.country, Some(text("DE")));
    assert_eq!(node.provider, Some(text("cloud")));
    assert_eq!(node.last_seen, 42);
    assert_eq!(node.up_since, Some(42));
}

#[test]
fn merging_learns_a_country_once() {
    let mut node = Node::new(peer(1), 10);
    node.merge(Node::new(peer(1), 20).with_country(text("DE")));
    assert_eq!(node.country, Some(text("DE")));
    node.merge(Node::new(peer(1), 30).with_country(text("FR")));
    assert_eq!(node.country, Some(text("DE")));
    node.merge(Node::new(peer(1), 40));
    assert_eq!(node.country, Some(text("DE")));
}

#[test]
fn merging_leaves_the_provider_alone() {
    let mut node = Node::new(peer(1), 10);
    node.merge(Node::new(peer(1), 20).with_cloud_provider(text("cloud")));
    assert_eq!(node.provider, None);

    let mut node = Node::new(peer(1), 10).with_cloud_provider(text("cloud"));
    node.merge(Node::new(peer(1), 20).with_cloud_provider(text("other")));
    assert_eq!(node.provider, Some(text("cloud")));
}

#[test]
fn merging_keeps_the_later_sighting_and_the_running_uptime() {
    let mut node = Node::new(peer(1), 20);
    node.merge(Node::new(peer(1), 30));
    assert_eq!((node.last_seen, node.up_since), (30, Some(20)));
    node.merge(Node::new(peer(1), 10));
    assert_eq!((node.last_seen, node.up_since), (30, Some(20)));
    node.up_since = None;
    node.merge(Node::new(peer(1), 15));
    assert_eq!((node.last_seen, node.up_since), (30, Some(15)));
}

#[test]
fn merging_a_node_with_itself_changes_nothing() {
    let mut node = Node::new(peer(1), 20).with_country(text("DE"));
    node.merge(Node::new(peer(1), 20).with_country(text("DE")));
    assert_eq!(node.country, Some(text("DE")));
    assert_eq!(node.provider, None);
    assert_eq!((node.last_seen, node.up_since), (20, Some(20)));
}

#[test]
fn merging_in_two_steps_or_in_one_is_the_same() {
    let mut left = Node::new(peer(1), 20);
    left.up_since = None;
    left.merge(Node::new(peer(1), 10).with_country(text("DE")));
    left.merge(Node::new(peer(1), 30).with_country(text("FR")));

    let mut right = Node::new(peer(1), 10).with_country(text("DE"));
    right.merge(Node::new(peer(1), 30).with_country(text("FR")));
    let mut joined = Node::new(peer(1), 20);
    joined.up_since = None;
    joined.merge(right);

    assert_eq!(left.country, joined.country);
    assert_eq!(left.provider, joined.provider);
    assert_eq!(left.last_seen, joined.last_seen);
    assert_eq!(left.up_since, joined.up_since);
    assert_eq!((left.last_seen, left.up_since), (30, Some(10)));
}

#[test]
fn no_uptime_starts_after_the_last_sighting() {
    let mut node = Node::new(peer(1), 20);
    for sighting in [30, 10, 25] {
        node.up_since = None;
        node.merge(Node::new(peer(1), sighting));
        assert!(node.up_since.unwrap() <= node.last_seen);
    }
    assert_eq!((node.last_seen, node.up_since), (30, Some(25)));
}

#[test]
fn empty_store_has_no_peers() {
    let store = NodeStore::default();
    assert_eq!(store.len(), 0);
    assert_eq!(store.peers(), vec![]);
}

#[test]
fn a_peer_that_is_observed_twice_is_one_node() {
    let mut store = NodeStore::default();
    store.observed_node(Node::new(peer(1), 10));
    store.observed_node(Node::new(peer(2), 20));
    store.observed_node(Node::new(peer(1), 30));
    assert_eq!(store.len(), 2);
    let mut peers: Vec<u8> = store.peers().iter().map(|peer| peer.bytes[0]).collect();
    peers.sort();
    assert_eq!(peers, vec![1, 2]);
}

#[test]
fn an_unknown_peer_that_is_down_stays_unknown() {
    let mut store = NodeStore::default();
    store.observed_down(&peer(1));
    assert_eq!(store.len(), 0);
}

#[test]
fn an_empty_store_shows_its_metrics() {
    let mut store = NodeStore::default();
    let metrics = store.collect(0);
    let described: Vec<(&str, &str)> = metrics
        .iter()
        .map(|metric| (metric.name.as_str(), metric.help.as_str()))
        .collect();
    assert_eq!(
        described,
        vec![
            (
                "nodes_seen_within",
                "Unique nodes discovered within the time bound through the Dht"
            ),
            (
                "nodes_up_since",
                "Unique nodes discovered through the Dht and up since timebound"
            ),
            (
                "meta_offline_nodes_removed",
                "Number of nodes removed due to being offline longer than 48h"
            ),
            ("meta_nodes_total", "Number of nodes tracked"),
            ("meta_nodes_total", "Number of nodes tracked"),
        ]
    );
    assert_eq!(samples(&metrics[0]), vec![]);
    assert_eq!(samples(&metrics[1]), vec![]);
    assert_eq!(counter(&metrics[2]), 0);
    assert_eq!(gauge(&metrics[3]), 0);
    assert_eq!(gauge(&metrics[4]), 0);
}

#[test]
fn nodes_are_counted_by_country_and_provider() {
    let mut store = NodeStore::default();
    store.observed_node(Node::new(peer(1), 0).with_country(text("DE")));
    store.observed_node(Node::new(peer(2), 0).with_country(text("DE")));
    store.observed_node(
        Node::new(peer(3), 0)
            .with_country(text("DE"))
            .with_cloud_provider(text("cloud")),
    );
    store.observed_node(Node::new(peer(4), 0));
    let metrics = store.collect(24 * HOUR);
    assert_eq!(
        samples(&metrics[0]),
        vec![
            shown("DE", "cloud", "48h", 1),
            shown("DE", "cloud", "96h", 1),
            shown("DE", "unknown", "48h", 2),
            shown("DE", "unknown", "96h", 2),
            shown("unknown", "unknown", "48h", 1),
            shown("unknown", "unknown", "96h", 1),
        ]
    );
    assert_eq!(gauge(&metrics[3]), 4);
    assert_eq!(gauge(&metrics[4]), 4);
}

#[test]
fn the_samples_of_the_longest_span_add_up_to_the_total() {
    let mut store = NodeStore::default();
    store.observed_node(Node::new(peer(1), 0).with_country(text("DE")));
    store.observed_node(Node::new(peer(2), 30 * HOUR).with_country(text("FR")));
    store.observed_node(Node::new(peer(3), 40 * HOUR));
    store.observed_node(Node::new(peer(4), 41 * HOUR));
    let metrics = store.collect(42 * HOUR);
    let sum_for = |span: &str| -> i64 {
        samples(&metrics[0])
            .iter()
            .filter(|sample| sample.2 == span)
            .map(|sample| sample.3)
            .sum()
    };
    assert_eq!(sum_for("3h"), 2);
    assert_eq!(sum_for("6h"), 2);
    assert_eq!(sum_for("12h"), 2);
    assert_eq!(sum_for("24h"), 3);
    assert_eq!(sum_for("48h"), 4);
    assert_eq!(sum_for("96h"), 4);
    assert_eq!(gauge(&metrics[3]), 4);
}

#[test]
fn a_node_is_seen_within_a_span_that_is_longer_than_its_absence() {
    let mut store = NodeStore::default();
    store.observed_node(Node::new(peer(1), 0));
    let just_before = store.collect(3 * HOUR - 1);
    assert_eq!(
        samples(&just_before[0]),
        vec![
            shown("unknown", "unknown", "12h", 1),
            shown("unknown", "unknown", "24h", 1),
            shown("unknown", "unknown", "3h", 1),
            shown("unknown", "unknown", "48h", 1),
            shown("unknown", "unknown", "6h", 1),
            shown("unknown", "unknown", "96h", 1),
        ]
    );
    let just_then = store.collect(3 * HOUR);
    assert_eq!(
        samples(&just_then[0]),
        vec![
            shown("unknown", "unknown", "12h", 1),
            shown("unknown", "unknown", "24h", 1),
            shown("unknown", "unknown", "48h", 1),
            shown("unknown", "unknown", "6h", 1),
            shown("unknown", "unknown", "96h", 1),
        ]
    );
}

#[test]
fn a_node_is_up_for_the_spans_that_are_shorter_than_its_uptime() {
    let mut store = NodeStore::default();
    store.observed_node(node(1, 0, 6 * HOUR));
    let just_then = store.collect(6 * HOUR);
    assert_eq!(just_then[1].name, "nodes_up_since");
    assert_eq!(
        samples(&just_then[1]),
        vec![shown("unknown", "unknown", "3h", 1)]
    );
    let just_after = store.collect(6 * HOUR + 1);
    assert_eq!(
        samples(&just_after[1]),
        vec![
            shown("unknown", "unknown", "3h", 1),
            shown("unknown", "unknown", "6h", 1),
        ]
    );
}

#[test]
fn the_labels_of_the_spans_differ_by_census() {
    let mut store = NodeStore::default();
    store.observed_node(node(1, 0, 4 * HOUR));
    let metrics = store.collect(4 * HOUR);
    for (metric, name) in metrics.iter().zip(["last_seen_within", "up_since"]) {
        match &metric.value {
            MetricValue::LabelledGauges(samples) => {
                assert!(samples.len() > 0);
                assert!(samples.iter().all(|sample| sample.labels[2].0 == name));
            }
            _ => panic!("no labelled gauges"),
        }
    }
}

#[test]
fn a_node_that_was_not_seen_for_over_an_hour_is_not_up() {
    let mut store = NodeStore::default();
    store.observed_node(node(1, 0, 10 * HOUR));
    let after_an_hour = store.collect(11 * HOUR);
    assert_eq!(
        samples(&after_an_hour[1]),
        vec![
            shown("unknown", "unknown", "3h", 1),
            shown("unknown", "unknown", "6h", 1),
        ]
    );
    let later = store.collect(11 * HOUR + 1);
    assert_eq!(samples(&later[1]), vec![]);
    assert_eq!(samples(&later[0]).len(), 6);
}

#[test]
fn a_node_that_went_down_is_seen_but_not_up() {
    let mut store = NodeStore::default();
    store.observed_node(node(1, 0, 4 * HOUR));
    store.observed_down(&peer(1));
    let metrics = store.collect(4 * HOUR);
    assert_eq!(samples(&metrics[0]).len(), 6);
    assert_eq!(samples(&metrics[1]), vec![]);
    assert_eq!(store.len(), 1);
}

#[test]
fn an_uptime_starts_over_after_a_node_went_down() {
    let mut store = NodeStore::default();
    store.observed_node(Node::new(peer(1), 0));
    store.observed_down(&peer(1));
    store.observed_node(Node::new(peer(1), 10 * HOUR));
    store.observed_node(Node::new(peer(1), 14 * HOUR));
    let metrics = store.collect(14 * HOUR);
    assert_eq!(
        samples(&metrics[1]),
        vec![shown("unknown", "unknown", "3h", 1)]
    );
}

#[test]
fn a_node_is_removed_after_two_days() {
    assert_eq!(RETENTION, 48 * HOUR);
    let mut store = NodeStore::default();
    store.observed_node(Node::new(peer(1), 0));
    store.observed_node(Node::new(peer(2), HOUR));

    let kept = store.collect(RETENTION);
    assert_eq!(counter(&kept[2]), 0);
    assert_eq!(gauge(&kept[3]), 2);

    let removed = store.collect(RETENTION + 1);
    assert_eq!(counter(&removed[2]), 1);
    assert_eq!(gauge(&removed[3]), 1);
    assert_eq!(store.peers(), vec![peer(2)]);

    let again = store.collect(RETENTION + 1);
    assert_eq!(counter(&again[2]), 1);
    assert_eq!(again, removed);

    let empty = store.collect(RETENTION + HOUR + 1);
    assert_eq!(counter(&empty[2]), 2);
    assert_eq!(gauge(&empty[4]), 0);
    assert_eq!(store.len(), 0);
}

#[test]
fn an_earlier_collection_does_not_change_what_a_later_one_keeps() {
    let observe = |store: &mut NodeStore| {
        for number in 0..10 {
            store.observed_node(Node::new(peer(number), (number as u64) * HOUR));
        }
    };
    let mut twice = NodeStore::default();
    observe(&mut twice);
    twice.collect(51 * HOUR);
    let mut once = NodeStore::default();
    observe(&mut once);
    let numbers = |store: &NodeStore| -> Vec<u8> {
        let mut numbers: Vec<u8> = store.peers().iter().map(|peer| peer.bytes[0]).collect();
        numbers.sort();
        numbers
    };
    let late = twice.collect(54 * HOUR);
    let single = once.collect(54 * HOUR);
    assert_eq!(numbers(&twice), vec![6, 7, 8, 9]);
    assert_eq!(numbers(&once), numbers(&twice));
    assert_eq!(samples(&late[0]), samples(&single[0]));
    assert_eq!(counter(&late[2]), 6);
    assert_eq!(counter(&single[2]), 6);
}

#[test]
fn no_sample_is_empty_and_no_labels_occur_twice() {
    let mut store = NodeStore::default();
    for number in 0..20u8 {
        let mut seen = node(number, 0, (number as u64) * 2 * HOUR);
        if number % 3 > 0 {
            seen = seen.with_country(text(if number % 3 == 1 { "DE" } else { "FR" }));
        }
        store.observed_node(seen);
    }
    let metrics = store.collect(39 * HOUR);
    for metric in &metrics[..2] {
        let shown = samples(metric);
        assert!(shown.iter().all(|sample| sample.3 >= 1));
        for pair in shown.windows(2) {
            assert!((&pair[0].0, &pair[0].1, &pair[0].2) != (&pair[1].0, &pair[1].1, &pair[1].2));
        }
    }
}

#[test]
fn longer_spans_see_more_nodes_and_find_fewer_up() {
    let mut store = NodeStore::default();
    for number in 0..8 {
        let start = (number as u64) * 6 * HOUR;
        store.observed_node(node(number, start, 47 * HOUR));
        store.observed_node(Node::new(peer(100 + number), start));
    }
    let metrics = store.collect(47 * HOUR);
    let count = |metric: usize, span: &str| -> i64 {
        samples(&metrics[metric])
            .iter()
            .filter(|sample| sample.2 == span)
            .map(|sample| sample.3)
            .sum()
    };
    let spans = ["3h", "6h", "12h", "24h", "48h", "96h"];
    let seen: Vec<i64> = spans.iter().map(|span| count(0, span)).collect();
    let up: Vec<i64> = spans.iter().map(|span| count(1, span)).collect();
    assert_eq!(seen, vec![8, 9, 10, 12, 16, 16]);
    assert_eq!(up, vec![8, 7, 6, 4, 0, 0]);
}
