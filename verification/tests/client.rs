//! The decisions of the client.

use kademlia_exporter::address::{leading_ip_address, IpAddress, SocketAddress};
use kademlia_exporter::client::{
    behaviour_settings, client_plan, closest_peers_step, dial, find_config_error,
    quic_listen_address, quic_v1_listen_address, split_bootnode, split_bootnodes, swarm_step,
    tcp_listen_address, BehaviourSettings, ClientError, ClientEvent, KademliaEvent,
    MyBehaviourEvent, SwarmEvent, SwarmStep,
};
use kademlia_exporter::config::Config;
use kademlia_exporter::peer::PeerId;
use libp2p::Multiaddr;

const BOOTNODE: &str = "/ip4/1.2.3.4/tcp/4001";
const BOOTNODE_PEER: &str = "QmNnooDu7bfjPFoTZYxMNLWUQJyrVwtbZg5gBMjTezGAJN";

fn address(text: &str) -> Multiaddr {
    text.parse().unwrap()
}

fn bootnode() -> Multiaddr {
    address(&format!("{}/p2p/{}", BOOTNODE, BOOTNODE_PEER))
}

fn bootnode_peer() -> PeerId {
    let peer: libp2p::PeerId = BOOTNODE_PEER.parse().unwrap();
    PeerId {
        bytes: peer.to_bytes(),
    }
}

fn config() -> Config {
    Config {
        max_mind_db_path: None,
        cloud_provider_cidr_db_path: None,
        bootnodes: vec![bootnode()],
        disjoint_query_paths: true,
        protocol_name: Some("/ipfs/kad/1.0.0".to_string()),
        noise_legacy: false,
        listen_address: None,
        tcp_listen_address: None,
        quic_listen_address: None,
        quic_v1_listen_address: None,
        dial_concurrency_factor: Some(8),
    }
}

fn v4(port: u16) -> Option<SocketAddress> {
    Some(SocketAddress {
        ip: IpAddress::V4(0x0a000001),
        port,
    })
}

fn v6(port: u16) -> Option<SocketAddress> {
    Some(SocketAddress {
        ip: IpAddress::V6(1),
        port,
    })
}

#[test]
fn an_address_starts_with_an_ip_address_or_not() {
    assert_eq!(
        leading_ip_address(&address("/ip4/1.2.3.4/tcp/1")),
        Some(IpAddress::V4(0x01020304))
    );
    assert_eq!(
        leading_ip_address(&address("/ip6/2001:db8::1/udp/1/quic")),
        Some(IpAddress::V6(0x20010db8_00000000_00000000_00000001))
    );
    assert_eq!(leading_ip_address(&address("/dns4/example.com/tcp/1")), None);
    assert_eq!(leading_ip_address(&address("/tcp/1/ip4/1.2.3.4")), None);
    assert_eq!(leading_ip_address(&Multiaddr::empty()), None);
}

#[test]
fn the_client_listens_on_any_interface_by_default() {
    assert_eq!(tcp_listen_address(None), address("/ip4/0.0.0.0/tcp/0"));
    assert_eq!(
        quic_listen_address(None),
        address("/ip4/0.0.0.0/udp/0/quic")
    );
    assert_eq!(
        quic_v1_listen_address(None),
        address("/ip4/0.0.0.0/udp/0/quic-v1")
    );
}

#[test]
fn the_client_listens_where_it_is_told() {
    assert_eq!(
        tcp_listen_address(v4(4001)),
        address("/ip4/10.0.0.1/tcp/4001")
    );
    assert_eq!(tcp_listen_address(v6(4001)), address("/ip6/::1/tcp/4001"));
    assert_eq!(
        quic_listen_address(v4(4002)),
        address("/ip4/10.0.0.1/udp/4002/quic")
    );
    assert_eq!(
        quic_listen_address(v6(4002)),
        address("/ip6/::1/udp/4002/quic")
    );
    assert_eq!(
        quic_v1_listen_address(v4(4003)),
        address("/ip4/10.0.0.1/udp/4003/quic-v1")
    );
    assert_eq!(
        quic_v1_listen_address(v6(4003)),
        address("/ip6/::1/udp/4003/quic-v1")
    );
}

#[test]
fn the_behaviours_are_set_up() {
    assert_eq!(
        behaviour_settings(false, None, "1.2.3"),
        BehaviourSettings {
            max_packet_size: 8000,
            protocol_name: None,
            disjoint_query_paths: false,
            record_ttl: Some(0),
            provider_record_ttl: Some(0),
            protocol_version: "/libp2p/1.0.0".to_string(),
            agent_version: "rust-libp2p/1.2.3".to_string(),
        }
    );
    let settings = behaviour_settings(true, Some("/dot/kad".to_string()), "");
    assert_eq!(settings.protocol_name, Some("/dot/kad".to_string()));
    assert!(settings.disjoint_query_paths);
    assert_eq!(settings.agent_version, "rust-libp2p/");
}

#[test]
fn a_protocol_name_starts_with_a_slash() {
    for name in ["", "kad", " /kad", "kad/"] {
        let mut asked = config();
        asked.protocol_name = Some(name.to_string());
        assert_eq!(
            find_config_error(&asked),
            Some(ClientError::InvalidProtocolName)
        );
    }
    for name in [Some("/".to_string()), None] {
        let mut asked = config();
        asked.protocol_name = name;
        assert_eq!(find_config_error(&asked), None);
    }
}

#[test]
fn a_bootnode_is_split_from_its_address() {
    let split = split_bootnode(bootnode());
    assert_eq!(split.peer_id, bootnode_peer());
    assert_eq!(split.address, address(BOOTNODE));
    let rejoined = split
        .address
        .with(libp2p::multiaddr::Protocol::P2p(
            libp2p::PeerId::from_bytes(&split.peer_id.bytes).unwrap(),
        ));
    assert_eq!(rejoined, bootnode());
}

#[test]
fn a_bootnode_without_a_peer_is_refused() {
    let second = format!("/p2p/{}/tcp/1", BOOTNODE_PEER);
    for bad in [address(BOOTNODE), Multiaddr::empty(), address(&second)] {
        for bootnodes in [vec![bad.clone()], vec![bootnode(), bad.clone()]] {
            let mut asked = config();
            asked.bootnodes = bootnodes;
            assert_eq!(find_config_error(&asked), Some(ClientError::ExpectedPeerId));
        }
    }
    let mut asked = config();
    asked.bootnodes = vec![];
    assert_eq!(find_config_error(&asked), None);
}

#[test]
fn bootnodes_keep_what_leads_to_them() {
    let leads = [
        "/dns4/a.example/tcp/1",
        "/dns4/b.example/tcp/1",
        "/dnsaddr/c.example",
        "/dns/d.example/tcp/443/wss",
        "/ip6/::1/udp/4001/quic-v1",
        "",
    ];
    let addresses: Vec<Multiaddr> = leads
        .iter()
        .map(|lead| address(&format!("{}/p2p/{}", lead, BOOTNODE_PEER)))
        .collect();
    let split = split_bootnodes(addresses);
    assert_eq!(split.len(), leads.len());
    for (bootnode, lead) in split.iter().zip(leads) {
        assert_eq!(bootnode.peer_id, bootnode_peer());
        assert_eq!(bootnode.address.to_string(), lead);
    }
}

#[test]
fn a_lookup_returns_with_its_last_step() {
    match closest_peers_step(bootnode_peer(), true) {
        KademliaEvent::ClosestPeersReturned { key } => assert_eq!(key, bootnode_peer()),
        _ => panic!("not returned"),
    }
    assert!(matches!(
        closest_peers_step(bootnode_peer(), false),
        KademliaEvent::Other
    ));
}

#[test]
fn bootnodes_keep_their_order() {
    let second = address(&format!("/ip4/5.6.7.8/tcp/4001/p2p/{}", BOOTNODE_PEER));
    let split = split_bootnodes(vec![bootnode(), second]);
    assert_eq!(split.len(), 2);
    assert_eq!(split[0].address, address(BOOTNODE));
    assert_eq!(split[1].address, address("/ip4/5.6.7.8/tcp/4001"));
    assert_eq!(split_bootnodes(vec![]).len(), 0);
}

#[test]
fn a_client_is_planned() {
    let mut asked = config();
    asked.tcp_listen_address = v4(4001);
    assert_eq!(find_config_error(&asked), None);
    let plan = client_plan(asked, "0.1.0");
    assert_eq!(
        plan.listen_addresses,
        vec![
            address("/ip4/10.0.0.1/tcp/4001"),
            address("/ip4/0.0.0.0/udp/0/quic"),
            address("/ip4/0.0.0.0/udp/0/quic-v1"),
        ]
    );
    assert_eq!(plan.dial_concurrency_factor, Some(8));
    assert_eq!(plan.bootnodes.len(), 1);
    assert_eq!(plan.bootnodes[0].peer_id, bootnode_peer());
    assert_eq!(
        plan.behaviour.protocol_name,
        Some("/ipfs/kad/1.0.0".to_string())
    );
    assert_eq!(plan.behaviour.agent_version, "rust-libp2p/0.1.0");
    assert!(plan.behaviour.disjoint_query_paths);
}

#[test]
fn the_protocol_name_is_looked_at_before_the_bootnodes() {
    let mut asked = config();
    asked.bootnodes.push(address(BOOTNODE));
    asked.protocol_name = Some("kad".to_string());
    assert_eq!(
        find_config_error(&asked),
        Some(ClientError::InvalidProtocolName)
    );
}

#[test]
fn a_connected_peer_is_not_dialed() {
    let connected = dial(true, || -> Result<(), u8> { panic!("dialed") });
    assert_eq!(connected, Ok(false));
    assert_eq!(dial(false, || -> Result<(), u8> { Ok(()) }), Ok(true));
    assert_eq!(dial(false, || -> Result<(), u8> { Err(7) }), Err(7));
}

#[test]
fn the_last_closed_connection_is_reported() {
    let peer_id = bootnode_peer();
    assert!(matches!(
        swarm_step(SwarmEvent::ConnectionClosed { peer_id: peer_id.clone(), num_established: 1 }),
        SwarmStep::Continue
    ));
    match swarm_step(SwarmEvent::ConnectionClosed { peer_id: peer_id.clone(), num_established: 0 })
    {
        SwarmStep::Report(ClientEvent::AllConnectionsClosed(closed)) => {
            assert_eq!(closed, peer_id)
        }
        _ => panic!("not reported"),
    }
}

#[test]
fn reports_keep_the_order_of_the_events() {
    let closed = |num_established: u32| SwarmEvent::ConnectionClosed {
        peer_id: bootnode_peer(),
        num_established,
    };
    let ping = |answered: bool| {
        SwarmEvent::Behaviour(MyBehaviourEvent::Ping {
            peer: bootnode_peer(),
            answered,
        })
    };
    let events = vec![
        closed(2),
        ping(true),
        SwarmEvent::Other,
        closed(0),
        SwarmEvent::NewListenAddr(address(BOOTNODE)),
        ping(false),
    ];
    let reports: Vec<ClientEvent> = events
        .into_iter()
        .filter_map(|event| match swarm_step(event) {
            SwarmStep::Report(report) => Some(report),
            _ => None,
        })
        .collect();
    assert_eq!(reports.len(), 3);
    assert!(matches!(
        reports[0],
        ClientEvent::Behaviour(MyBehaviourEvent::Ping { answered: true, .. })
    ));
    assert!(matches!(reports[1], ClientEvent::AllConnectionsClosed(_)));
    assert!(matches!(
        reports[2],
        ClientEvent::Behaviour(MyBehaviourEvent::Ping { answered: false, .. })
    ));
}

#[test]
fn events_of_behaviours_are_reported_and_listen_addresses_are_taken_over() {
    let ping = MyBehaviourEvent::Ping {
        peer: bootnode_peer(),
        answered: true,
    };
    assert!(matches!(
        swarm_step(SwarmEvent::Behaviour(ping)),
        SwarmStep::Report(ClientEvent::Behaviour(MyBehaviourEvent::Ping { answered: true, .. }))
    ));
    match swarm_step(SwarmEvent::NewListenAddr(address(BOOTNODE))) {
        SwarmStep::AddExternalAddress(taken) => assert_eq!(taken, address(BOOTNODE)),
        _ => panic!("not taken over"),
    }
    assert!(matches!(swarm_step(SwarmEvent::Other), SwarmStep::Continue));
}
