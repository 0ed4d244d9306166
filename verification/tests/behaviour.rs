//! Counters of what the network behaviours report.

use kademlia_exporter::behaviour::{
    BehaviourEvent, IdentifyEvent, KademliaEvent, MdnsEvent, MyBehaviour, COUNT_LIMIT,
};
use kademlia_exporter::labels::LabelPair;
use kademlia_exporter::peer::PeerId;
use libp2p::Multiaddr;

fn labels(behaviour: &str, kind: &str) -> LabelPair {
    LabelPair {
        first: behaviour.to_string(),
        second: kind.to_string(),
    }
}

fn routing_updated(old_peer: Option<PeerId>) -> BehaviourEvent {
    BehaviourEvent::Kademlia(KademliaEvent::RoutingUpdated { old_peer })
}

#[test]
fn nothing_is_counted_at_first() {
    let behaviour = MyBehaviour::new();
    assert_eq!(behaviour.count_of(&labels("ping", "ping_event")), 0);
    assert_eq!(behaviour.kad_kbuckets_size, 0);
}

#[test]
fn each_kind_of_event_has_labels_of_its_own() {
    let events = vec![
        (BehaviourEvent::Mdns(MdnsEvent::Discovered(vec![])), "mdns", "discovered"),
        (BehaviourEvent::Mdns(MdnsEvent::Expired), "mdns", "expired"),
        (BehaviourEvent::Ping, "ping", "ping_event"),
        (BehaviourEvent::Identify(IdentifyEvent::Error), "identify", "error"),
        (BehaviourEvent::Identify(IdentifyEvent::Sent), "identify", "sent"),
        (BehaviourEvent::Identify(IdentifyEvent::Received), "identify", "received"),
        (BehaviourEvent::Kademlia(KademliaEvent::BootstrapResult), "kad", "bootstrap"),
        (
            BehaviourEvent::Kademlia(KademliaEvent::GetClosestPeersResult),
            "kad",
            "get_closest_peers",
        ),
        (BehaviourEvent::Kademlia(KademliaEvent::GetProvidersResult), "kad", "get_providers"),
        (BehaviourEvent::Kademlia(KademliaEvent::StartProvidingResult), "kad", "start_providing"),
        (
            BehaviourEvent::Kademlia(KademliaEvent::RepublishProviderResult),
            "kad",
            "republish_provider",
        ),
        (BehaviourEvent::Kademlia(KademliaEvent::GetRecordResult), "kad", "get_record"),
        (BehaviourEvent::Kademlia(KademliaEvent::PutRecordResult), "kad", "put_record"),
        (
            BehaviourEvent::Kademlia(KademliaEvent::RepublishRecordResult),
            "kad",
            "republish_record",
        ),
        (BehaviourEvent::Kademlia(KademliaEvent::Discovered), "kad", "discovered"),
        (routing_updated(None), "kad", "routing_updated"),
        (BehaviourEvent::Kademlia(KademliaEvent::UnroutablePeer), "kad", "unroutable_peer"),
    ];
    let mut behaviour = MyBehaviour::new();
    let mut seen = 0;
    for (event, name, kind) in events {
        assert_eq!(behaviour.count_of(&labels(name, kind)), 0);
        assert_eq!(behaviour.inject_event(event), vec![]);
        assert_eq!(behaviour.count_of(&labels(name, kind)), 1);
        seen += 1;
        assert_eq!(behaviour.event_counter.len(), seen);
    }
}

#[test]
fn events_of_one_kind_add_up() {
    let mut behaviour = MyBehaviour::new();
    for _ in 0..3 {
        behaviour.inject_event(BehaviourEvent::Ping);
    }
    behaviour.inject_event(BehaviourEvent::Identify(IdentifyEvent::Sent));
    assert_eq!(behaviour.count_of(&labels("ping", "ping_event")), 3);
    assert_eq!(behaviour.count_of(&labels("identify", "sent")), 1);
}

#[test]
fn only_new_peers_enlarge_the_routing_table() {
    let mut behaviour = MyBehaviour::new();
    behaviour.inject_event(routing_updated(None));
    behaviour.inject_event(routing_updated(Some(PeerId { bytes: vec![1] })));
    behaviour.inject_event(routing_updated(None));
    behaviour.inject_event(BehaviourEvent::Ping);
    assert_eq!(behaviour.kad_kbuckets_size, 2);
    assert_eq!(behaviour.count_of(&labels("kad", "routing_updated")), 3);
    behaviour.kad_kbuckets_size = COUNT_LIMIT;
    behaviour.inject_event(routing_updated(None));
    assert_eq!(behaviour.kad_kbuckets_size, COUNT_LIMIT);
}

#[test]
fn the_cells_add_up_to_the_number_of_events() {
    let mut behaviour = MyBehaviour::new();
    for round in 0..4u8 {
        behaviour.inject_event(BehaviourEvent::Ping);
        behaviour.inject_event(routing_updated(None));
        behaviour.inject_event(routing_updated(Some(PeerId { bytes: vec![round] })));
        behaviour.inject_event(BehaviourEvent::Mdns(MdnsEvent::Expired));
    }
    let sum: u64 = (0..behaviour.event_counter.len())
        .map(|i| *behaviour.event_counter.value_at(i))
        .sum();
    assert_eq!(sum, 16);
    assert_eq!(behaviour.count_of(&labels("kad", "routing_updated")), 8);
    assert_eq!(behaviour.kad_kbuckets_size, 4);
}

#[test]
fn a_count_goes_as_far_as_a_double_does() {
    let limit = COUNT_LIMIT as f64;
    assert_eq!(limit + 1.0, limit);
    assert_eq!((limit - 1.0) + 1.0, limit);
    assert!(limit - 1.0 < limit);
}

#[test]
fn discovered_peers_are_handed_out() {
    let address: Multiaddr = "/ip4/192.168.0.2/tcp/4001".parse().unwrap();
    let list = vec![
        (PeerId { bytes: vec![1] }, address.clone()),
        (PeerId { bytes: vec![2] }, address),
    ];
    let mut behaviour = MyBehaviour::new();
    let given = list.clone();
    assert_eq!(
        behaviour.inject_event(BehaviourEvent::Mdns(MdnsEvent::Discovered(given))),
        list
    );
    assert_eq!(behaviour.count_of(&labels("mdns", "discovered")), 1);
    assert_eq!(
        behaviour.inject_event(BehaviourEvent::Mdns(MdnsEvent::Expired)),
        vec![]
    );
}
