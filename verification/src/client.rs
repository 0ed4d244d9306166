//! The decisions of the network client.

use crate::address::{
    components, empty_address, parse_address, pop_component, same_address, with_component,
    Component, ComponentView, IpAddress, ListenComponent, SocketAddress,
};
use crate::config::Config;
use crate::node::text_of;
use crate::peer::PeerId;
use libp2p::swarm::InvalidProtocol;
use libp2p::{Multiaddr, StreamProtocol};
use vstd::prelude::*;

verus! {

/// What identify reports.
#[derive(Debug)]
pub enum IdentifyEvent {
    Error,
    Sent,
    /// A peer has told where it listens.
    Received { peer_id: PeerId, listen_addrs: Vec<Multiaddr> },
    /// Own information was pushed to a peer, which the exporter never asks for.
    Pushed,
}

/// What Kademlia reports.
#[derive(Debug)]
pub enum KademliaEvent {
    RoutablePeer { peer: PeerId, address: Multiaddr },
    PendingRoutablePeer { peer: PeerId, address: Multiaddr },
    RoutingUpdated { peer: PeerId, addresses: Vec<Multiaddr> },
    /// A look-up of the peers that are closest to a key has returned.
    ClosestPeersReturned { key: PeerId },
    Other,
}

/// What a step of a look-up of the peers that are closest to a key comes to: the look-up has
/// returned with its last step, and not before.
pub fn closest_peers_step(key: PeerId, last: bool) -> (res: KademliaEvent)
    ensures
        res == (if last {
            KademliaEvent::ClosestPeersReturned { key }
        } else {
            KademliaEvent::Other
        }),
{
    if last {
        KademliaEvent::ClosestPeersReturned { key }
    } else {
        KademliaEvent::Other
    }
}

/// What the behaviours report.
#[derive(Debug)]
pub enum MyBehaviourEvent {
    /// A peer was pinged. It has answered, or the ping has failed.
    Ping { peer: PeerId, answered: bool },
    Identify(IdentifyEvent),
    Kademlia(KademliaEvent),
}

/// What the client reports.
#[derive(Debug)]
pub enum ClientEvent {
    Behaviour(MyBehaviourEvent),
    AllConnectionsClosed(PeerId),
}

/// What the swarm reports.
#[derive(Debug)]
pub enum SwarmEvent {
    Behaviour(MyBehaviourEvent),
    NewListenAddr(Multiaddr),
    /// A connection was closed, and this many others to the peer are left.
    ConnectionClosed { peer_id: PeerId, num_established: u32 },
    Other,
}

/// What the client does about an event of the swarm.
#[derive(Debug)]
pub enum SwarmStep {
    /// Report an event of its own.
    Report(ClientEvent),
    /// Take an address for one under which it is reached from outside, and go on.
    AddExternalAddress(Multiaddr),
    /// Go on.
    Continue,
}

/// What is to be done about an event of the swarm.
pub open spec fn step_of(event: SwarmEvent) -> SwarmStep {
    match event {
        SwarmEvent::Behaviour(event) => SwarmStep::Report(ClientEvent::Behaviour(event)),
        SwarmEvent::NewListenAddr(address) => SwarmStep::AddExternalAddress(address),
        SwarmEvent::ConnectionClosed { peer_id, num_established } => if num_established == 0 {
            SwarmStep::Report(ClientEvent::AllConnectionsClosed(peer_id))
        } else {
            SwarmStep::Continue
        },
        SwarmEvent::Other => SwarmStep::Continue,
    }
}

/// Decides what to do about an event of the swarm.
pub fn swarm_step(event: SwarmEvent) -> (res: SwarmStep)
    ensures
        res == step_of(event),
{
    match event {
        SwarmEvent::Behaviour(event) => SwarmStep::Report(ClientEvent::Behaviour(event)),
        SwarmEvent::NewListenAddr(address) => SwarmStep::AddExternalAddress(address),
        SwarmEvent::ConnectionClosed { peer_id, num_established } => {
            if num_established == 0 {
                SwarmStep::Report(ClientEvent::AllConnectionsClosed(peer_id))
            } else {
                SwarmStep::Continue
            }
        },
        SwarmEvent::Other => SwarmStep::Continue,
    }
}

/// Dials a peer, unless there is a connection to it already.
///
/// Tells whether a dial was started, or with what error starting it failed.
pub fn dial<E, F: FnOnce() -> Result<(), E>>(connected: bool, start: F) -> (res: Result<bool, E>)
    requires
        !connected ==> call_requires(start, ()),
    ensures
        connected ==> res == Ok::<bool, E>(false),
        !connected ==> exists|started: Result<(), E>| #[trigger]
            call_ensures(start, (), started) && res == (match started {
                Ok(_) => Ok::<bool, E>(true),
                Err(error) => Err(error),
            }),
{
    if connected {
        Ok(false)
    } else {
        match start() {
            Ok(_) => Ok(true),
            Err(error) => Err(error),
        }
    }
}

/// Why a client cannot be set up.
#[derive(Debug, Clone, Copy, PartialEq, Eq)]
pub enum ClientError {
    /// The protocol name of the configuration does not name a stream protocol.
    InvalidProtocolName,
    /// The address of a bootnode does not end with a peer.
    ExpectedPeerId,
}

/// libp2p's error for a text that does not name a stream protocol.
#[verifier::external_type_specification]
#[verifier::external_body]
pub struct ExInvalidProtocol(libp2p::swarm::InvalidProtocol);

/// Whether a text names a stream protocol: it starts with a slash.
pub open spec fn names_protocol(name: Seq<char>) -> bool {
    name.len() > 0 && name[0] == '/'
}

/// Calls `StreamProtocol::try_from_owned`: takes a text for the name of a stream protocol, if it
/// starts with a slash.
#[verifier::external_body]
fn stream_protocol(name: String) -> (res: Result<String, InvalidProtocol>)
    ensures
        match res {
            Ok(protocol) => names_protocol(name@) && protocol@ == name@,
            Err(_) => !names_protocol(name@),
        },
{
    StreamProtocol::try_from_owned(name).map(|protocol| protocol.to_string())
}

/// How the behaviours are set up.
#[derive(Debug, PartialEq, Eq)]
pub struct BehaviourSettings {
    /// The largest packet that Kademlia takes, in bytes.
    pub max_packet_size: usize,
    /// The protocol of the Dht, where it is not the default one.
    pub protocol_name: Option<String>,
    pub disjoint_query_paths: bool,
    /// For how many seconds Kademlia keeps records.
    pub record_ttl: Option<u64>,
    /// For how many seconds Kademlia keeps provider records.
    pub provider_record_ttl: Option<u64>,
    /// The protocol version that identify tells.
    pub protocol_version: String,
    /// The agent version that identify tells.
    pub agent_version: String,
}

/// Whether settings are those of behaviours. Records are dropped as soon as they come in.
pub open spec fn is_behaviour_settings(
    settings: BehaviourSettings,
    disjoint_query_paths: bool,
    protocol_name: Option<Seq<char>>,
    package_version: Seq<char>,
) -> bool {
    &&& settings.max_packet_size == 8000
    &&& text_of(settings.protocol_name) == protocol_name
    &&& settings.disjoint_query_paths == disjoint_query_paths
    &&& settings.record_ttl == Some(0u64)
    &&& settings.provider_record_ttl == Some(0u64)
    &&& settings.protocol_version@ == "/libp2p/1.0.0"@
    &&& settings.agent_version@ == "rust-libp2p/"@ + package_version
}

/// Whether a configured protocol name can be used.
pub open spec fn usable_protocol_name(protocol_name: Option<Seq<char>>) -> bool {
    protocol_name matches Some(name) ==> names_protocol(name)
}

/// Tells whether a configured protocol name can be used.
fn is_usable_protocol_name(protocol_name: &Option<String>) -> (res: bool)
    ensures
        res == usable_protocol_name(text_of(*protocol_name)),
{
    match protocol_name {
        Some(name) => stream_protocol(name.clone()).is_ok(),
        None => true,
    }
}

/// Works out how the behaviours are set up.
pub fn behaviour_settings(
    disjoint_query_paths: bool,
    protocol_name: Option<String>,
    package_version: &str,
) -> (res: BehaviourSettings)
    requires
        usable_protocol_name(text_of(protocol_name)),
    ensures
        is_behaviour_settings(
            res,
            disjoint_query_paths,
            text_of(protocol_name),
            package_version@,
        ),
{
    let protocol_name = match protocol_name {
        Some(name) => Some(stream_protocol(name).unwrap()),
        None => None,
    };
    BehaviourSettings {
        max_packet_size: 8000,
        protocol_name,
        disjoint_query_paths,
        record_ttl: Some(0),
        provider_record_ttl: Some(0),
        protocol_version: "/libp2p/1.0.0".to_string(),
        agent_version: "rust-libp2p/".to_string().concat(package_version),
    }
}

/// The component of an IP address.
pub open spec fn ip_component(ip: IpAddress) -> ComponentView {
    match ip {
        IpAddress::V4(ip) => ComponentView::Ip4(ip),
        IpAddress::V6(ip) => ComponentView::Ip6(ip),
    }
}

fn ip_address(ip: IpAddress) -> (res: Multiaddr)
    ensures
        components(res) == seq![ip_component(ip)],
{
    let component = match ip {
        IpAddress::V4(ip) => ListenComponent::Ip4(ip),
        IpAddress::V6(ip) => ListenComponent::Ip6(ip),
    };
    let address = with_component(empty_address(), component);
    assert(components(address) =~= seq![ip_component(ip)]);
    address
}

/// The address to listen on for TCP: the configured one, or else any interface and port.
pub open spec fn tcp_components(configured: Option<SocketAddress>) -> Seq<ComponentView> {
    match configured {
        Some(addr) => seq![ip_component(addr.ip), ComponentView::Tcp(addr.port)],
        None => seq![ComponentView::Ip4(0), ComponentView::Tcp(0)],
    }
}

/// The address to listen on for a version of QUIC: the configured one, or else any interface and
/// port.
pub open spec fn quic_components(
    configured: Option<SocketAddress>,
    version: ComponentView,
) -> Seq<ComponentView> {
    match configured {
        Some(addr) => seq![ip_component(addr.ip), ComponentView::Udp(addr.port), version],
        None => seq![ComponentView::Ip4(0), ComponentView::Udp(0), version],
    }
}

/// Works out the address to listen on for TCP.
pub fn tcp_listen_address(configured: Option<SocketAddress>) -> (res: Multiaddr)
    ensures
        components(res) == tcp_components(configured),
{
    match configured {
        Some(addr) => {
            let address = with_component(ip_address(addr.ip), ListenComponent::Tcp(addr.port));
            assert(components(address) =~= tcp_components(configured));
            address
        },
        None => parse_address("/ip4/0.0.0.0/tcp/0").unwrap(),
    }
}

/// Works out the address to listen on for QUIC in its draft version.
pub fn quic_listen_address(configured: Option<SocketAddress>) -> (res: Multiaddr)
    ensures
        components(res) == quic_components(configured, ComponentView::Quic),
{
    match configured {
        Some(addr) => {
            let address = with_component(
                with_component(ip_address(addr.ip), ListenComponent::Udp(addr.port)),
                ListenComponent::Quic,
            );
            assert(components(address) =~= quic_components(configured, ComponentView::Quic));
            address
        },
        None => {
            proof {
                reveal_strlit("/ip4/0.0.0.0/tcp/0");
                reveal_strlit("/ip4/0.0.0.0/udp/0/quic");
                assert("/ip4/0.0.0.0/udp/0/quic"@.len() != "/ip4/0.0.0.0/tcp/0"@.len());
            }
            parse_address("/ip4/0.0.0.0/udp/0/quic").unwrap()
        },
    }
}

/// Works out the address to listen on for QUIC in version 1.
pub fn quic_v1_listen_address(configured: Option<SocketAddress>) -> (res: Multiaddr)
    ensures
        components(res) == quic_components(configured, ComponentView::QuicV1),
{
    match configured {
        Some(addr) => {
            let address = with_component(
                with_component(ip_address(addr.ip), ListenComponent::Udp(addr.port)),
                ListenComponent::QuicV1,
            );
            assert(components(address) =~= quic_components(configured, ComponentView::QuicV1));
            address
        },
        None => {
            proof {
                reveal_strlit("/ip4/0.0.0.0/tcp/0");
                reveal_strlit("/ip4/0.0.0.0/udp/0/quic");
                reveal_strlit("/ip4/0.0.0.0/udp/0/quic-v1");
                assert("/ip4/0.0.0.0/udp/0/quic-v1"@.len() != "/ip4/0.0.0.0/tcp/0"@.len());
                assert("/ip4/0.0.0.0/udp/0/quic-v1"@.len() != "/ip4/0.0.0.0/udp/0/quic"@.len());
            }
            parse_address("/ip4/0.0.0.0/udp/0/quic-v1").unwrap()
        },
    }
}

/// Whether an address ends with a peer, as that of a bootnode must.
pub open spec fn ends_with_peer(parts: Seq<ComponentView>) -> bool {
    parts.len() > 0 && parts.last() is P2p
}

/// A bootnode: its peer, and the address that leads to it.
#[derive(Debug)]
pub struct Bootnode {
    pub peer_id: PeerId,
    pub address: Multiaddr,
}

impl Bootnode {
    /// Whether the bootnode is the one that an address names, the peer being its last component.
    pub open spec fn named_by(self, parts: Seq<ComponentView>) -> bool {
        &&& parts.len() > 0
        &&& parts.last() == ComponentView::P2p(self.peer_id@)
        &&& components(self.address) == parts.drop_last()
    }
}

/// Takes the peer off the end of an address, if it ends with one.
fn pop_peer(address: &mut Multiaddr) -> (res: Option<PeerId>)
    ensures
        match res {
            Some(peer_id) => {
                &&& ends_with_peer(components(*old(address)))
                &&& components(*old(address)).last() == ComponentView::P2p(peer_id@)
                &&& components(*final(address)) == components(*old(address)).drop_last()
            },
            None => !ends_with_peer(components(*old(address))),
        },
{
    match pop_component(address) {
        Some(Component::P2p(peer_id)) => Some(peer_id),
        _ => None,
    }
}

/// Splits the address of a bootnode into its peer and the address that leads to it.
pub fn split_bootnode(bootnode: Multiaddr) -> (res: Bootnode)
    requires
        ends_with_peer(components(bootnode)),
    ensures
        res.named_by(components(bootnode)),
{
    let mut address = bootnode;
    let peer_id = pop_peer(&mut address).unwrap();
    Bootnode { peer_id, address }
}

/// Whether every one of some bootnodes' addresses ends with a peer.
pub open spec fn all_end_with_peer(bootnodes: Seq<Multiaddr>) -> bool {
    forall|i: int|
        0 <= i < bootnodes.len() ==> ends_with_peer(components(#[trigger] bootnodes[i]))
}

/// Whether bootnodes are those that addresses name, in the same order.
pub open spec fn bootnodes_of(bootnodes: Seq<Bootnode>, addresses: Seq<Multiaddr>) -> bool {
    &&& bootnodes.len() == addresses.len()
    &&& forall|i: int|
        0 <= i < bootnodes.len() ==> (#[trigger] bootnodes[i]).named_by(components(addresses[i]))
}

/// Tells whether every one of some bootnodes' addresses ends with a peer.
fn do_all_end_with_peer(bootnodes: &Vec<Multiaddr>) -> (res: bool)
    ensures
        res == all_end_with_peer(bootnodes@),
{
    let mut i: usize = 0;
    while i < bootnodes.len()
        invariant
            i <= bootnodes@.len(),
            all_end_with_peer(bootnodes@.take(i as int)),
        decreases bootnodes@.len() - i,
    {
        let mut address = same_address(&bootnodes[i]);
        if pop_peer(&mut address).is_none() {
            assert(!ends_with_peer(components(bootnodes@[i as int])));
            return false;
        }
        i = i + 1;
        assert forall|j: int| 0 <= j < i implies ends_with_peer(
            components(#[trigger] bootnodes@.take(i as int)[j]),
        ) by {
            if j < i - 1 {
                assert(bootnodes@.take(i - 1)[j] == bootnodes@[j]);
            }
        }
    }
    assert(bootnodes@.take(i as int) =~= bootnodes@);
    true
}

/// Splits the addresses of bootnodes into peers and the addresses that lead to them.
pub fn split_bootnodes(addresses: Vec<Multiaddr>) -> (res: Vec<Bootnode>)
    requires
        all_end_with_peer(addresses@),
    ensures
        bootnodes_of(res@, addresses@),
{
    let ghost given = addresses@;
    let mut remaining = addresses;
    let mut bootnodes: Vec<Bootnode> = Vec::new();
    while remaining.len() > 0
        invariant
            given == addresses@,
            all_end_with_peer(given),
            bootnodes@.len() + remaining@.len() == given.len(),
            remaining@ == given.skip(bootnodes@.len() as int),
            bootnodes_of(bootnodes@, given.take(bootnodes@.len() as int)),
        decreases remaining@.len(),
    {
        let ghost i = bootnodes@.len() as int;
        let bootnode = remaining.remove(0);
        assert(bootnode == given[i]);
        bootnodes.push(split_bootnode(bootnode));
    }
    assert(given.take(bootnodes@.len() as int) =~= given);
    bootnodes
}

/// How a client is set up.
#[derive(Debug)]
pub struct ClientPlan {
    pub behaviour: BehaviourSettings,
    pub dial_concurrency_factor: Option<u8>,
    /// The addresses to listen on, in this order.
    pub listen_addresses: Vec<Multiaddr>,
    /// The bootnodes that Kademlia is told of, in this order.
    pub bootnodes: Vec<Bootnode>,
}

/// Whether a plan is what a configuration asks for.
pub open spec fn is_client_plan(
    plan: ClientPlan,
    config: Config,
    package_version: Seq<char>,
) -> bool {
    &&& is_behaviour_settings(
        plan.behaviour,
        config.disjoint_query_paths,
        text_of(config.protocol_name),
        package_version,
    )
    &&& plan.dial_concurrency_factor == config.dial_concurrency_factor
    &&& plan.listen_addresses@.len() == 3
    &&& components(plan.listen_addresses@[0]) == tcp_components(config.tcp_listen_address)
    &&& components(plan.listen_addresses@[1]) == quic_components(
        config.quic_listen_address,
        ComponentView::Quic,
    )
    &&& components(plan.listen_addresses@[2]) == quic_components(
        config.quic_v1_listen_address,
        ComponentView::QuicV1,
    )
    &&& bootnodes_of(plan.bootnodes@, config.bootnodes@)
}

/// Why a configuration cannot be used, if it cannot.
pub open spec fn config_error(config: Config) -> Option<ClientError> {
    if !usable_protocol_name(text_of(config.protocol_name)) {
        Some(ClientError::InvalidProtocolName)
    } else if !all_end_with_peer(config.bootnodes@) {
        Some(ClientError::ExpectedPeerId)
    } else {
        None
    }
}

/// Finds out why a configuration cannot be used, if it cannot.
pub fn find_config_error(config: &Config) -> (res: Option<ClientError>)
    ensures
        res == config_error(*config),
{
    if !is_usable_protocol_name(&config.protocol_name) {
        Some(ClientError::InvalidProtocolName)
    } else if !do_all_end_with_peer(&config.bootnodes) {
        Some(ClientError::ExpectedPeerId)
    } else {
        None
    }
}

/// Works out how a client is set up. The configuration is one that can be used.
pub fn client_plan(config: Config, package_version: &str) -> (res: ClientPlan)
    requires
        config_error(config) is None,
    ensures
        is_client_plan(res, config, package_version@),
{
    let behaviour = behaviour_settings(
        config.disjoint_query_paths,
        config.protocol_name,
        package_version,
    );
    let mut listen_addresses: Vec<Multiaddr> = Vec::new();
    listen_addresses.push(tcp_listen_address(config.tcp_listen_address));
    listen_addresses.push(quic_listen_address(config.quic_listen_address));
    listen_addresses.push(quic_v1_listen_address(config.quic_v1_listen_address));
    ClientPlan {
        behaviour,
        dial_concurrency_factor: config.dial_concurrency_factor,
        listen_addresses,
        bootnodes: split_bootnodes(config.bootnodes),
    }
}

} // verus!
