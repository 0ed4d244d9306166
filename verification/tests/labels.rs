//! Label texts, counters by labels, and the map that they stand in.

use kademlia_exporter::assoc_map::AssocMap;
use kademlia_exporter::labels::{count_pair, decimal_text, hours_text, LabelCounts, LabelPair};
use kademlia_exporter::peer::PeerId;
use kademlia_exporter::time::HOUR;

fn pair(first: &str, second: &str) -> LabelPair {
    LabelPair {
        first: first.to_string(),
        second: second.to_string(),
    }
}

fn peer(number: u8) -> PeerId {
    PeerId {
        bytes: vec![number, number],
    }
}

#[test]
fn numbers_are_written_in_decimal() {
    for n in [0, 1, 2, 3, 4, 5, 6, 7, 8, 9, 10, 99, 100, 1234567890, u64::MAX] {
        assert_eq!(decimal_text(n), n.to_string());
    }
}

#[test]
fn spans_are_labelled_by_their_whole_hours() {
    assert_eq!(hours_text(3 * HOUR), "3h");
    assert_eq!(hours_text(96 * HOUR), "96h");
    assert_eq!(hours_text(HOUR - 1), "0h");
    assert_eq!(hours_text(24 * HOUR + 1), "24h");
}

#[test]
fn pairs_are_counted_apart() {
    let mut counts: LabelCounts = AssocMap::new();
    count_pair(&mut counts, pair("a", "b"), u64::MAX);
    count_pair(&mut counts, pair("a", "c"), u64::MAX);
    count_pair(&mut counts, pair("a", "b"), u64::MAX);
    count_pair(&mut counts, pair("ab", ""), u64::MAX);
    assert_eq!(counts.len(), 3);
    let count = |counts: &LabelCounts, of: LabelPair| match counts.position(&of) {
        Some(i) => *counts.value_at(i),
        None => 0,
    };
    assert_eq!(count(&counts, pair("a", "b")), 2);
    assert_eq!(count(&counts, pair("a", "c")), 1);
    assert_eq!(count(&counts, pair("ab", "")), 1);
    assert_eq!(count(&counts, pair("b", "a")), 0);
}

#[test]
fn a_count_stops_at_its_limit() {
    let mut counts: LabelCounts = AssocMap::new();
    for _ in 0..5 {
        count_pair(&mut counts, pair("a", "b"), 3);
    }
    assert_eq!(*counts.value_at(0), 3);
}

#[test]
fn a_map_keeps_one_value_for_a_key() {
    let mut map: AssocMap<PeerId, u64> = AssocMap::new();
    map.insert(peer(1), 10);
    map.insert(peer(2), 20);
    map.insert(peer(1), 11);
    assert_eq!(map.len(), 2);
    let i = map.position(&peer(1)).unwrap();
    assert_eq!(*map.key_at(i), peer(1));
    assert_eq!(*map.value_at(i), 11);
    *map.value_at_mut(i) = 12;
    assert_eq!(*map.value_at(map.position(&peer(1)).unwrap()), 12);
    assert_eq!(map.position(&PeerId { bytes: vec![1] }), None);
}

#[test]
fn a_key_that_was_removed_is_gone() {
    let mut map: AssocMap<PeerId, u64> = AssocMap::new();
    map.insert(peer(1), 10);
    map.insert(peer(2), 20);
    map.insert(peer(3), 30);
    map.remove_at(map.position(&peer(2)).unwrap());
    assert_eq!(map.len(), 2);
    assert_eq!(map.position(&peer(2)), None);
    assert_eq!(*map.value_at(map.position(&peer(3)).unwrap()), 30);
    map.remove_at(0);
    assert_eq!(map.len(), 1);
}
