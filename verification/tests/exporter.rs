//! What the exporter learns from events, and what it does on a tick.

use kademlia_exporter::client::{ClientEvent, IdentifyEvent, KademliaEvent, MyBehaviourEvent};
use kademlia_exporter::exporter::{
    dial_outcome, DialOutcome, Exporter, PollAction, PollEvent, TICK_INTERVAL,
};
use kademlia_exporter::exporter_metrics::{
    exporter_registry, Metrics, NetworkInfo, ShownCounter, ShownGauge,
};
use kademlia_exporter::ip_db::IpDb;
use kademlia_exporter::metric::MetricValue;
use kademlia_exporter::peer::PeerId;
use kademlia_exporter::time::HOUR;
use libp2p::Multiaddr;
use prometheus_client::encoding::text::encode;
use prometheus_client::registry::Registry;

type Providers = fn(u32) -> Option<String>;

fn string(text: &str) -> Vec<u8> {
    let mut bytes = vec![0x40 | text.len() as u8];
    bytes.extend_from_slice(text.as_bytes());
    bytes
}

/// The bytes of a MaxMind database that puts the lower half of the IPv4 addresses in Germany.
fn germany() -> IpDb {
    let mut bytes: Vec<u8> = vec![0, 0, 17, 0, 0, 1];
    bytes.extend([0; 16]);
    bytes.push(0xe1);
    bytes.extend(string("country"));
    bytes.push(0xe1);
    bytes.extend(string("iso_code"));
    bytes.extend(string("DE"));
    bytes.extend(b"\xab\xcd\xefMaxMind.com");
    bytes.push(0xe9);
    bytes.extend(string("binary_format_major_version"));
    bytes.extend([0xa1, 2]);
    bytes.extend(string("binary_format_minor_version"));
    bytes.push(0xa0);
    bytes.extend(string("build_epoch"));
    bytes.extend([0x04, 0x02, 0x5f, 0, 0, 0]);
    bytes.extend(string("database_type"));
    bytes.extend(string("Test-City"));
    bytes.extend(string("description"));
    bytes.push(0xe1);
    bytes.extend(string("en"));
    bytes.extend(string("Test"));
    bytes.extend(string("ip_version"));
    bytes.extend([0xa1, 4]);
    bytes.extend(string("languages"));
    bytes.extend([0x01, 0x04]);
    bytes.extend(string("en"));
    bytes.extend(string("node_count"));
    bytes.extend([0xc1, 1]);
    bytes.extend(string("record_size"));
    bytes.extend([0xa1, 24]);
    IpDb::open(bytes).ok().unwrap()
}

/// A look-up that knows one network, 10.0.0.0/8.
fn cloud(ip: u32) -> Option<String> {
    if ip >> 24 == 10 {
        Some("cloud".to_string())
    } else {
        None
    }
}

fn exporter() -> Exporter<Providers> {
    Exporter::new(None, None, &mut Registry::default())
}

/// The number that a registry shows under a name.
fn number(registry: &Registry, name: &str) -> i64 {
    let mut shown = String::new();
    encode(&mut shown, registry).unwrap();
    let line = shown
        .lines()
        .find(|line| line.starts_with(&format!("{} ", name)))
        .unwrap();
    line[name.len() + 1..].parse().unwrap()
}

const LOOKUPS: &str = "kademlia_exporter_meta_random_node_lookup_triggered_total";
const CHECKS: &str = "kademlia_exporter_meta_node_still_online_check_triggered_total";

fn locating_exporter() -> Exporter<Providers> {
    Exporter::new(Some(germany()), Some(cloud), &mut Registry::default())
}

fn peer(number: u8) -> PeerId {
    PeerId {
        bytes: vec![number],
    }
}

fn address(text: &str) -> Multiaddr {
    text.parse().unwrap()
}

fn ping(number: u8, answered: bool) -> ClientEvent {
    ClientEvent::Behaviour(MyBehaviourEvent::Ping {
        peer: peer(number),
        answered,
    })
}

fn kademlia(event: KademliaEvent) -> ClientEvent {
    ClientEvent::Behaviour(MyBehaviourEvent::Kademlia(event))
}

fn identify(event: IdentifyEvent) -> ClientEvent {
    ClientEvent::Behaviour(MyBehaviourEvent::Identify(event))
}

/// The countries and providers that are shown for nodes, for the longest span of time.
fn groups(exporter: &mut Exporter<Providers>, now: u64) -> Vec<(String, String, i64)> {
    groups_shown(exporter, now, 0, "96h")
}

fn groups_up(exporter: &mut Exporter<Providers>, now: u64) -> Vec<(String, String, i64)> {
    groups_shown(exporter, now, 1, "3h")
}

fn groups_shown(
    exporter: &mut Exporter<Providers>,
    now: u64,
    metric: usize,
    span: &str,
) -> Vec<(String, String, i64)> {
    match &exporter.collect(now)[metric].value {
        MetricValue::LabelledGauges(samples) => {
            let mut groups: Vec<(String, String, i64)> = samples
                .iter()
                .filter(|sample| sample.labels[2].1 == span)
                .map(|sample| {
                    (
                        sample.labels[0].1.clone(),
                        sample.labels[1].1.clone(),
                        sample.value,
                    )
                })
                .collect();
            groups.sort();
            groups
        }
        _ => panic!("no labelled gauges"),
    }
}

fn group(country: &str, provider: &str, count: i64) -> (String, String, i64) {
    (country.to_string(), provider.to_string(), count)
}

#[test]
fn a_tick_comes_every_second() {
    assert_eq!(TICK_INTERVAL, 1_000_000_000);
}

#[test]
fn an_answered_ping_observes_a_node() {
    let mut exporter = exporter();
    exporter.record_event(ping(1, true), 0);
    exporter.record_event(ping(1, true), 4 * HOUR);
    assert_eq!(exporter.node_count(), 1);
    assert_eq!(
        groups(&mut exporter, 4 * HOUR),
        vec![group("unknown", "unknown", 1)]
    );
    assert_eq!(
        groups_up(&mut exporter, 4 * HOUR),
        vec![group("unknown", "unknown", 1)]
    );
}

#[test]
fn a_failed_ping_takes_a_node_down() {
    let mut exporter = exporter();
    exporter.record_event(ping(1, false), 0);
    assert_eq!(exporter.node_count(), 0);
    exporter.record_event(ping(1, true), 0);
    exporter.record_event(ping(1, true), 4 * HOUR);
    exporter.record_event(ping(1, false), 4 * HOUR);
    assert_eq!(exporter.node_count(), 1);
    assert_eq!(groups_up(&mut exporter, 4 * HOUR), vec![]);
}

#[test]
fn the_last_closed_connection_takes_a_node_down() {
    let mut exporter = exporter();
    exporter.record_event(ping(1, true), 0);
    exporter.record_event(ping(2, true), 0);
    exporter.record_event(ping(1, true), 4 * HOUR);
    exporter.record_event(ping(2, true), 4 * HOUR);
    exporter.record_event(ClientEvent::AllConnectionsClosed(peer(1)), 4 * HOUR);
    assert_eq!(
        groups_up(&mut exporter, 4 * HOUR),
        vec![group("unknown", "unknown", 1)]
    );
}

#[test]
fn a_node_is_located_by_its_first_address_that_tells_something() {
    let mut exporter = locating_exporter();
    let listen_addrs = vec![
        address("/dns4/example.com/tcp/1"),
        address("/ip4/200.0.0.1/tcp/1"),
        address("/ip4/9.0.0.1/tcp/1"),
        address("/ip4/10.0.0.1/tcp/1"),
    ];
    exporter.record_event(
        identify(IdentifyEvent::Received {
            peer_id: peer(1),
            listen_addrs,
        }),
        0,
    );
    assert_eq!(groups(&mut exporter, 0), vec![group("DE", "cloud", 1)]);
}

#[test]
fn events_of_the_routing_table_observe_nodes() {
    let mut exporter = locating_exporter();
    exporter.record_event(
        kademlia(KademliaEvent::RoutablePeer {
            peer: peer(1),
            address: address("/ip4/10.0.0.1/tcp/1"),
        }),
        0,
    );
    exporter.record_event(
        kademlia(KademliaEvent::PendingRoutablePeer {
            peer: peer(2),
            address: address("/ip4/9.0.0.1/tcp/1"),
        }),
        0,
    );
    exporter.record_event(
        kademlia(KademliaEvent::RoutingUpdated {
            peer: peer(3),
            addresses: vec![
                address("/ip4/200.0.0.1/tcp/1"),
                address("/ip6/::1/tcp/1"),
            ],
        }),
        0,
    );
    assert_eq!(
        groups(&mut exporter, 0),
        vec![
            group("DE", "cloud", 1),
            group("DE", "unknown", 1),
            group("unknown", "unknown", 1),
        ]
    );
}

#[test]
fn a_country_is_learnt_later_and_a_provider_is_not() {
    let mut exporter = locating_exporter();
    exporter.record_event(ping(1, true), 0);
    exporter.record_event(
        kademlia(KademliaEvent::RoutablePeer {
            peer: peer(1),
            address: address("/ip4/10.0.0.1/tcp/1"),
        }),
        1,
    );
    assert_eq!(groups(&mut exporter, 1), vec![group("DE", "unknown", 1)]);
}

#[test]
fn an_event_leaves_the_other_nodes_alone() {
    let mut exporter = locating_exporter();
    for number in 1..4 {
        exporter.record_event(
            kademlia(KademliaEvent::RoutablePeer {
                peer: peer(number),
                address: address("/ip4/10.0.0.1/tcp/1"),
            }),
            0,
        );
    }
    exporter.record_event(ping(2, true), 5);
    exporter.record_event(ClientEvent::AllConnectionsClosed(peer(3)), 6);
    assert_eq!(groups(&mut exporter, 6), vec![group("DE", "cloud", 3)]);
}

#[test]
fn events_that_say_nothing_of_a_node_change_nothing() {
    let mut exporter = exporter();
    exporter.record_event(identify(IdentifyEvent::Error), 0);
    exporter.record_event(identify(IdentifyEvent::Sent), 0);
    exporter.record_event(kademlia(KademliaEvent::Other), 0);
    exporter.record_event(
        kademlia(KademliaEvent::ClosestPeersReturned { key: peer(1) }),
        0,
    );
    assert_eq!(exporter.node_count(), 0);
    assert_eq!(groups(&mut exporter, 0), vec![]);
}

#[test]
fn addresses_have_countries() {
    let exporter = locating_exporter();
    let country = |text: &str| exporter.multiaddress_to_country_code(&address(text));
    assert_eq!(country("/ip4/9.0.0.1/tcp/1"), Some("DE".to_string()));
    assert_eq!(country("/ip4/200.0.0.1/tcp/1"), None);
    assert_eq!(country("/ip6/::1/tcp/1"), None);
    assert_eq!(country("/dns4/example.com/tcp/1"), None);
    let addresses = vec![address("/ip4/200.0.0.1"), address("/ip4/9.0.0.1")];
    assert_eq!(
        exporter.multiaddresses_to_country_code(&addresses),
        Some("DE".to_string())
    );
    assert_eq!(exporter.multiaddresses_to_country_code(&vec![]), None);
}

#[test]
fn addresses_have_providers() {
    let exporter = locating_exporter();
    let provider = |text: &str| exporter.multiaddress_to_cloud_provider(&address(text));
    assert_eq!(provider("/ip4/10.1.2.3/tcp/1"), Some("cloud".to_string()));
    assert_eq!(provider("/ip4/9.0.0.1/tcp/1"), None);
    assert_eq!(provider("/ip6/::a00:1/tcp/1"), None);
    assert_eq!(provider("/tcp/1"), None);
    let addresses = vec![address("/ip4/9.0.0.1"), address("/ip4/10.0.0.1")];
    assert_eq!(
        exporter.multiaddresses_to_cloud_provider(&addresses),
        Some("cloud".to_string())
    );
    assert_eq!(exporter.multiaddresses_to_cloud_provider(&vec![]), None);
}

#[test]
fn without_databases_nothing_is_located() {
    let exporter = exporter();
    let there = address("/ip4/10.0.0.1/tcp/1");
    assert_eq!(exporter.multiaddress_to_country_code(&there), None);
    assert_eq!(exporter.multiaddress_to_cloud_provider(&there), None);
}

#[test]
fn a_tick_without_peers_goes_on_to_a_lookup() {
    let mut registry = Registry::default();
    let mut exporter: Exporter<Providers> = Exporter::new(None, None, &mut registry);
    assert_eq!(exporter.poll(PollEvent::TickPending), PollAction::PollClient);
    assert_eq!(exporter.poll(PollEvent::TickDue), PollAction::StartLookup);
    let started = PollEvent::LookupStarted {
        peer: peer(9),
        now: 5,
    };
    assert_eq!(exporter.poll(started), PollAction::ReadNetwork);
    assert_eq!(number(&registry, LOOKUPS), 1);
    let read = PollEvent::NetworkRead(NetworkInfo {
        num_peers: 1,
        num_connections: 5,
        num_established: 3,
        num_pending: 2,
        total_inbound: 6,
        total_outbound: 7,
    });
    assert_eq!(exporter.poll(read), PollAction::PollClient);
    let returned = PollEvent::Client {
        event: kademlia(KademliaEvent::ClosestPeersReturned { key: peer(9) }),
        now: 6,
    };
    assert_eq!(exporter.poll(returned), PollAction::ObserveLookup(1));
    assert_eq!(exporter.poll(PollEvent::LookupObserved), PollAction::PollClient);
    assert_eq!(exporter.poll(PollEvent::ClientPending), PollAction::Wait);
    assert_eq!(exporter.poll(PollEvent::ClientClosed), PollAction::Finish);
    assert_eq!(number(&registry, LOOKUPS), 1);
    assert_eq!(number(&registry, CHECKS), 0);
    let shown = |name: &str| number(&registry, &format!("kademlia_exporter_meta_libp2p_{}", name));
    assert_eq!(shown("network_info_num_peers"), 1);
    assert_eq!(shown("network_info_num_connections"), 5);
    assert_eq!(shown("network_info_num_connections_established"), 3);
    assert_eq!(shown("network_info_num_connections_pending"), 2);
    assert_eq!(shown("bandwidth_inbound"), 6);
    assert_eq!(shown("bandwidth_outbound"), 7);
}

#[test]
fn a_lookup_is_in_flight_until_it_returns() {
    let mut exporter = exporter();
    for number in 1..4 {
        exporter.poll(PollEvent::LookupStarted {
            peer: peer(number),
            now: 2,
        });
    }
    assert_eq!(exporter.lookups_in_flight(), 3);
    let returned = |number: u8| kademlia(KademliaEvent::ClosestPeersReturned { key: peer(number) });
    assert_eq!(exporter.record_event(returned(2), 7), Some(5));
    assert_eq!(exporter.lookups_in_flight(), 2);
    assert_eq!(exporter.record_event(returned(2), 8), None);
    assert_eq!(exporter.record_event(returned(9), 8), None);
    assert_eq!(exporter.lookups_in_flight(), 2);
    assert_eq!(exporter.record_event(ping(1, true), 9), None);
    assert_eq!(exporter.record_event(returned(3), 1), Some(0));
    assert_eq!(exporter.lookups_in_flight(), 1);
}

#[test]
fn identify_observes_as_the_routing_table_does() {
    let there = vec![address("/ip4/10.0.0.1/tcp/1"), address("/ip6/::1/tcp/1")];
    let mut identified = locating_exporter();
    identified.record_event(
        identify(IdentifyEvent::Received {
            peer_id: peer(1),
            listen_addrs: there.clone(),
        }),
        HOUR,
    );
    let mut routed = locating_exporter();
    routed.record_event(
        kademlia(KademliaEvent::RoutingUpdated {
            peer: peer(1),
            addresses: there,
        }),
        HOUR,
    );
    for now in [HOUR, 2 * HOUR, 5 * HOUR, 48 * HOUR] {
        assert_eq!(identified.collect(now), routed.collect(now));
    }
    assert_eq!(identified.node_count(), 1);
}

fn dialed(action: PollAction) -> PeerId {
    match action {
        PollAction::Dial(peer) => peer,
        _ => panic!("nobody is dialed"),
    }
}

#[test]
fn every_peer_is_probed_in_turn() {
    let mut registry = Registry::default();
    let mut exporter: Exporter<Providers> = Exporter::new(None, None, &mut registry);
    for number in 1..4 {
        let event = PollEvent::Client {
            event: ping(number, true),
            now: 0,
        };
        assert_eq!(exporter.poll(event), PollAction::PollClient);
    }
    for _ in 0..2 {
        // The list is empty and is filled.
        assert_eq!(exporter.poll(PollEvent::TickDue), PollAction::StartLookup);
        let mut probed: Vec<u8> = vec![];
        for _ in 0..3 {
            let peer = dialed(exporter.poll(PollEvent::TickDue));
            probed.push(peer.bytes[0]);
            let outcome = DialOutcome::Established;
            assert_eq!(
                exporter.poll(PollEvent::Dialed { peer, outcome }),
                PollAction::StartLookup
            );
        }
        probed.sort();
        assert_eq!(probed, vec![1, 2, 3]);
    }
    assert_eq!(number(&registry, CHECKS), 6);
}

#[test]
fn a_dial_comes_out_one_way_or_another() {
    assert_eq!(dial_outcome::<u8>(Ok(true)), DialOutcome::Established);
    assert_eq!(dial_outcome::<u8>(Ok(false)), DialOutcome::AlreadyConnected);
    assert_eq!(dial_outcome::<u8>(Err(1)), DialOutcome::LimitReached);
}

#[test]
fn a_peer_that_could_not_be_dialed_is_dialed_last() {
    let mut registry = Registry::default();
    let mut exporter: Exporter<Providers> = Exporter::new(None, None, &mut registry);
    for number in 1..4 {
        exporter.record_event(ping(number, true), 0);
    }
    exporter.poll(PollEvent::TickDue);
    let first = dialed(exporter.poll(PollEvent::TickDue));
    exporter.poll(PollEvent::Dialed {
        peer: first.clone(),
        outcome: DialOutcome::LimitReached,
    });
    for _ in 0..2 {
        let peer = dialed(exporter.poll(PollEvent::TickDue));
        assert!(peer != first);
        let outcome = DialOutcome::AlreadyConnected;
        exporter.poll(PollEvent::Dialed { peer, outcome });
    }
    assert_eq!(dialed(exporter.poll(PollEvent::TickDue)), first);
    assert_eq!(exporter.poll(PollEvent::TickDue), PollAction::StartLookup);
    assert_eq!(number(&registry, CHECKS), 0);
}

#[test]
fn byte_counts_wrap_around() {
    let mut registry = Registry::default();
    let mut metrics = Metrics::register(&mut registry);
    let info = |total_inbound: u64, total_outbound: u64| NetworkInfo {
        num_peers: 0,
        num_connections: 0,
        num_established: 0,
        num_pending: 0,
        total_inbound,
        total_outbound,
    };
    metrics.set_network_info(&info(i64::MAX as u64, i64::MAX as u64 + 1));
    assert_eq!(number(&registry, "meta_libp2p_bandwidth_inbound"), i64::MAX);
    assert_eq!(number(&registry, "meta_libp2p_bandwidth_outbound"), i64::MIN);
    metrics.set_network_info(&info(u64::MAX, 0));
    assert_eq!(number(&registry, "meta_libp2p_bandwidth_inbound"), -1);
    assert_eq!(number(&registry, "meta_libp2p_bandwidth_outbound"), 0);
}

#[test]
fn a_counter_shows_what_it_has_counted() {
    let mut registry = Registry::default();
    let mut counter = ShownCounter::new(&registry);
    counter.inc();
    counter.register(&mut registry, "first", "One");
    let mut other = ShownCounter::new(&registry);
    other.register(&mut registry, "second", "Two");
    counter.inc();
    assert_eq!(number(&registry, "first_total"), 2);
    assert_eq!(number(&registry, "second_total"), 0);
    other.inc();
    assert_eq!(number(&registry, "first_total"), 2);
    assert_eq!(number(&registry, "second_total"), 1);
}

#[test]
fn a_gauge_shows_what_it_was_set_to() {
    let mut registry = Registry::default();
    let mut gauge = ShownGauge::new(&registry);
    gauge.register(&mut registry, "first", "One");
    gauge.set(7);
    gauge.register(&mut registry, "second", "Two");
    let other = ShownGauge::new(&registry);
    other.register(&mut registry, "third", "Three");
    gauge.set(-3);
    assert_eq!(number(&registry, "first"), -3);
    assert_eq!(number(&registry, "second"), -3);
    assert_eq!(number(&registry, "third"), 0);
}

#[test]
fn the_registry_of_the_exporter_puts_its_name_first() {
    let mut root = Registry::with_prefix("outer");
    let mut gauge = ShownGauge::new(&root);
    gauge.set(4);
    gauge.register(&mut root, "plain", "One");
    gauge.register(exporter_registry(&mut root), "inner", "Two");
    assert_eq!(number(&root, "outer_plain"), 4);
    assert_eq!(number(&root, "outer_kademlia_exporter_inner"), 4);
}

#[test]
fn the_metrics_are_shown_by_the_registry() {
    let mut registry = Registry::default();
    let mut metrics = Metrics::register(&mut registry);
    metrics.count_lookup();
    metrics.count_lookup();
    metrics.count_online_check();
    metrics.set_network_info(&NetworkInfo {
        num_peers: 11,
        num_connections: 15,
        num_established: 13,
        num_pending: 12,
        total_inbound: 16,
        total_outbound: 17,
    });
    let mut shown = String::new();
    encode(&mut shown, &registry).unwrap();
    let expected = [
        "# HELP meta_random_node_lookup_triggered Number of times a random Kademlia node lookup was triggered.",
        "# TYPE meta_random_node_lookup_triggered counter",
        "meta_random_node_lookup_triggered_total 2",
        "# HELP meta_node_still_online_check_triggered Number of times a connection to a node was established to ensure it is still online.",
        "# TYPE meta_node_still_online_check_triggered counter",
        "meta_node_still_online_check_triggered_total 1",
        "# HELP meta_libp2p_network_info_num_peers The total number of connected peers.",
        "# TYPE meta_libp2p_network_info_num_peers gauge",
        "meta_libp2p_network_info_num_peers 11",
        "# HELP meta_libp2p_network_info_num_connections The total number of connections, both established and pending.",
        "# TYPE meta_libp2p_network_info_num_connections gauge",
        "meta_libp2p_network_info_num_connections 15",
        "# HELP meta_libp2p_network_info_num_connections_pending The total number of pending connections, both incoming and outgoing.",
        "# TYPE meta_libp2p_network_info_num_connections_pending gauge",
        "meta_libp2p_network_info_num_connections_pending 12",
        "# HELP meta_libp2p_network_info_num_connections_established The total number of established connections.",
        "# TYPE meta_libp2p_network_info_num_connections_established gauge",
        "meta_libp2p_network_info_num_connections_established 13",
        "# HELP meta_libp2p_bandwidth_inbound The total number of bytes received on the socket.",
        "# TYPE meta_libp2p_bandwidth_inbound gauge",
        "meta_libp2p_bandwidth_inbound 16",
        "# HELP meta_libp2p_bandwidth_outbound The total number of bytes sent on the socket.",
        "# TYPE meta_libp2p_bandwidth_outbound gauge",
        "meta_libp2p_bandwidth_outbound 17",
        "# EOF",
        "",
    ]
    .join("\n");
    assert_eq!(shown, expected);
}

#[test]
fn the_exporter_registers_its_metrics() {
    let mut registry = Registry::default();
    let mut exporter: Exporter<Providers> = Exporter::new(None, None, &mut registry);
    exporter.poll(PollEvent::LookupStarted {
        peer: peer(1),
        now: 0,
    });
    assert_eq!(number(&registry, LOOKUPS), 1);
    assert_eq!(number(&registry, CHECKS), 0);
}
