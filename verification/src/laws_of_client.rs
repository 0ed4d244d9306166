//! What the functions of the client give back, said of what goes into them and what comes out.

use crate::address::{components, leading_ip_address, ComponentView, IpAddress, SocketAddress};
use crate::client::{
    behaviour_settings, client_plan, closest_peers_step, dial, ends_with_peer, find_config_error,
    quic_listen_address, quic_v1_listen_address, split_bootnode, split_bootnodes, swarm_step,
    tcp_listen_address, BehaviourSettings, Bootnode, ClientError, ClientEvent, ClientPlan,
    KademliaEvent, SwarmEvent, SwarmStep,
};
use crate::config::Config;
use crate::ip_db::{city_lookup, database, opened, record_country, IpDb, IpDbError};
use crate::peer::PeerId;
use libp2p::Multiaddr;
use vstd::prelude::*;

verus! {

/// Events of behaviours are reported as they are. An address that is listened on is taken for an
/// external one. A closed connection is reported if it was the last one to its peer. All else is
/// passed over.
pub proof fn law_swarm_step(event: SwarmEvent, res: SwarmStep)
    requires
        call_ensures(swarm_step, (event,), res),
    ensures
        match event {
            SwarmEvent::Behaviour(told) => res matches SwarmStep::Report(
                ClientEvent::Behaviour(reported),
            ) && reported == told,
            SwarmEvent::NewListenAddr(address) => res matches SwarmStep::AddExternalAddress(
                taken,
            ) && taken == address,
            SwarmEvent::ConnectionClosed { peer_id, num_established } => if num_established > 0 {
                res is Continue
            } else {
                res matches SwarmStep::Report(ClientEvent::AllConnectionsClosed(closed)) && closed
                    == peer_id
            },
            SwarmEvent::Other => res is Continue,
        },
{
}

/// A look-up has returned with its last step.
pub proof fn law_closest_peers_step(key: PeerId, last: bool, res: KademliaEvent)
    requires
        call_ensures(closest_peers_step, (key, last), res),
    ensures
        last ==> (res matches KademliaEvent::ClosestPeersReturned { key: returned } && returned
            == key),
        !last ==> res is Other,
{
}

/// A peer that is connected is not dialed. Another one is, and the answer is whether that could be
/// started.
pub proof fn law_dial<E, F: FnOnce() -> Result<(), E>>(
    connected: bool,
    start: F,
    res: Result<bool, E>,
)
    requires
        call_ensures(dial::<E, F>, (connected, start), res),
    ensures
        connected ==> res == Ok::<bool, E>(false),
        !connected ==> match res {
            Ok(dialed) => dialed && call_ensures(start, (), Ok::<(), E>(())),
            Err(error) => call_ensures(start, (), Err::<(), E>(error)),
        },
{
    if !connected {
        let started = choose|started: Result<(), E>| #[trigger]
            call_ensures(start, (), started) && res == (match started {
                Ok(_) => Ok::<bool, E>(true),
                Err(error) => Err(error),
            });
        match started {
            Ok(unit) => {
                assert(unit == ());
                assert(started == Ok::<(), E>(()));
            },
            Err(_) => {},
        }
    }
}

/// Whether a component is that of an IP address.
pub open spec fn is_ip(component: ComponentView, ip: IpAddress) -> bool {
    match ip {
        IpAddress::V4(number) => component == ComponentView::Ip4(number),
        IpAddress::V6(number) => component == ComponentView::Ip6(number),
    }
}

/// Whether an address is for listening on TCP, at a configured place or at any.
pub open spec fn listens_on_tcp(address: Multiaddr, place: Option<SocketAddress>) -> bool {
    let parts = components(address);
    &&& parts.len() == 2
    &&& match place {
        Some(place) => is_ip(parts[0], place.ip) && parts[1] == ComponentView::Tcp(place.port),
        None => parts[0] == ComponentView::Ip4(0) && parts[1] == ComponentView::Tcp(0),
    }
}

/// Whether an address is for listening on UDP with a version of QUIC, at a configured place or at
/// any.
pub open spec fn listens_on_quic(
    address: Multiaddr,
    place: Option<SocketAddress>,
    version: ComponentView,
) -> bool {
    let parts = components(address);
    &&& parts.len() == 3
    &&& match place {
        Some(place) => is_ip(parts[0], place.ip) && parts[1] == ComponentView::Udp(place.port),
        None => parts[0] == ComponentView::Ip4(0) && parts[1] == ComponentView::Udp(0),
    }
    &&& parts[2] == version
}

/// The address to listen on for TCP has the configured IP address and port, or is open to any.
pub proof fn law_tcp_listen_address(place: Option<SocketAddress>, res: Multiaddr)
    requires
        call_ensures(tcp_listen_address, (place,), res),
    ensures
        listens_on_tcp(res, place),
{
}

/// The address to listen on for draft QUIC has the configured IP address and port, or is open to
/// any.
pub proof fn law_quic_listen_address(place: Option<SocketAddress>, res: Multiaddr)
    requires
        call_ensures(quic_listen_address, (place,), res),
    ensures
        listens_on_quic(res, place, ComponentView::Quic),
{
}

/// The address to listen on for QUIC version 1 has the configured IP address and port, or is open
/// to any.
pub proof fn law_quic_v1_listen_address(place: Option<SocketAddress>, res: Multiaddr)
    requires
        call_ensures(quic_v1_listen_address, (place,), res),
    ensures
        listens_on_quic(res, place, ComponentView::QuicV1),
{
}

/// Whether the behaviours are set up by a configuration: packets of up to 8000 bytes, the
/// configured protocol, and no time to keep records.
pub open spec fn is_set_up(
    settings: BehaviourSettings,
    disjoint_query_paths: bool,
    protocol_name: Option<String>,
    package_version: Seq<char>,
) -> bool {
    &&& settings.max_packet_size == 8000
    &&& match (settings.protocol_name, protocol_name) {
        (Some(used), Some(configured)) => used@ == configured@,
        (None, None) => true,
        _ => false,
    }
    &&& settings.disjoint_query_paths == disjoint_query_paths
    &&& settings.record_ttl == Some(0u64)
    &&& settings.provider_record_ttl == Some(0u64)
    &&& settings.protocol_version@ == "/libp2p/1.0.0"@
    &&& settings.agent_version@ == "rust-libp2p/"@ + package_version
}

/// The behaviours are set up as the configuration says.
pub proof fn law_behaviour_settings(
    disjoint_query_paths: bool,
    protocol_name: Option<String>,
    package_version: &str,
    res: BehaviourSettings,
)
    requires
        call_ensures(
            behaviour_settings,
            (disjoint_query_paths, protocol_name, package_version),
            res,
        ),
    ensures
        is_set_up(res, disjoint_query_paths, protocol_name, package_version@),
{
}

/// Whether a bootnode is what an address is split into: the address without its last component,
/// and the peer which that component names.
pub open spec fn splits(address: Multiaddr, bootnode: Bootnode) -> bool {
    let parts = components(address);
    &&& parts.len() > 0
    &&& parts[parts.len() - 1] == ComponentView::P2p(bootnode.peer_id.bytes@)
    &&& components(bootnode.address) =~= parts.take(parts.len() - 1)
}

/// A bootnode is split into its peer and the rest of its address.
pub proof fn law_split_bootnode(address: Multiaddr, res: Bootnode)
    requires
        call_ensures(split_bootnode, (address,), res),
    ensures
        splits(address, res),
{
}

/// Bootnodes are split one by one.
pub proof fn law_split_bootnodes(addresses: Vec<Multiaddr>, res: Vec<Bootnode>)
    requires
        call_ensures(split_bootnodes, (addresses,), res),
    ensures
        res@.len() == addresses@.len(),
        forall|i: int|
            0 <= i < addresses@.len() ==> splits(#[trigger] addresses@[i], res@[i]),
{
    assert forall|i: int| 0 <= i < addresses@.len() implies splits(
        #[trigger] addresses@[i],
        res@[i],
    ) by {
        assert(res@[i].named_by(components(addresses@[i])));
    }
}

/// Whether a protocol name starts with a slash, if there is one.
pub open spec fn starts_with_slash(protocol_name: Option<String>) -> bool {
    protocol_name matches Some(name) ==> name@.len() > 0 && name@[0] == '/'
}

/// Whether an address has a last component, and it is a peer.
pub open spec fn has_peer_last(address: Multiaddr) -> bool {
    let parts = components(address);
    parts.len() > 0 && parts[parts.len() - 1] is P2p
}

/// A configuration can be used unless its protocol name lacks the slash, or the address of a
/// bootnode lacks the peer. The name is what is complained of first.
pub proof fn law_find_config_error(config: Config, res: Option<ClientError>)
    requires
        call_ensures(find_config_error, (&config,), res),
    ensures
        res == Some(ClientError::InvalidProtocolName) <==> !starts_with_slash(config.protocol_name),
        res == Some(ClientError::ExpectedPeerId) <==> starts_with_slash(config.protocol_name) && (
        exists|i: int|
            0 <= i < config.bootnodes@.len() && !has_peer_last(#[trigger] config.bootnodes@[i])),
{
    assert forall|i: int| 0 <= i < config.bootnodes@.len() implies (has_peer_last(
        #[trigger] config.bootnodes@[i],
    ) <==> ends_with_peer(components(config.bootnodes@[i]))) by {}
}

/// The plan of a client: each behaviour, listen address and bootnode follows its own setting.
pub proof fn law_client_plan(config: Config, package_version: &str, res: ClientPlan)
    requires
        call_ensures(client_plan, (config, package_version), res),
    ensures
        is_set_up(
            res.behaviour,
            config.disjoint_query_paths,
            config.protocol_name,
            package_version@,
        ),
        res.dial_concurrency_factor == config.dial_concurrency_factor,
        res.listen_addresses@.len() == 3,
        listens_on_tcp(res.listen_addresses@[0], config.tcp_listen_address),
        listens_on_quic(
            res.listen_addresses@[1],
            config.quic_listen_address,
            ComponentView::Quic,
        ),
        listens_on_quic(
            res.listen_addresses@[2],
            config.quic_v1_listen_address,
            ComponentView::QuicV1,
        ),
        res.bootnodes@.len() == config.bootnodes@.len(),
        forall|i: int|
            0 <= i < config.bootnodes@.len() ==> splits(
                #[trigger] config.bootnodes@[i],
                res.bootnodes@[i],
            ),
{
    assert forall|i: int| 0 <= i < config.bootnodes@.len() implies splits(
        #[trigger] config.bootnodes@[i],
        res.bootnodes@[i],
    ) by {
        assert(res.bootnodes@[i].named_by(components(config.bootnodes@[i])));
    }
}

/// A listen address depends on its own setting and on no other: where two configurations have the
/// same setting, they give the same address.
pub proof fn law_listen_addresses_are_apart(
    a: Config,
    b: Config,
    package_version: &str,
    plan_a: ClientPlan,
    plan_b: ClientPlan,
)
    requires
        call_ensures(client_plan, (a, package_version), plan_a),
        call_ensures(client_plan, (b, package_version), plan_b),
    ensures
        a.tcp_listen_address == b.tcp_listen_address ==> components(plan_a.listen_addresses@[0])
            == components(plan_b.listen_addresses@[0]),
        a.quic_listen_address == b.quic_listen_address ==> components(plan_a.listen_addresses@[1])
            == components(plan_b.listen_addresses@[1]),
        a.quic_v1_listen_address == b.quic_v1_listen_address ==> components(
            plan_a.listen_addresses@[2],
        ) == components(plan_b.listen_addresses@[2]),
        a.tcp_listen_address is Some && b.tcp_listen_address is Some && a.tcp_listen_address
            != b.tcp_listen_address ==> components(plan_a.listen_addresses@[0]) != components(
            plan_b.listen_addresses@[0],
        ),
        a.quic_listen_address is Some && b.quic_listen_address is Some && a.quic_listen_address
            != b.quic_listen_address ==> components(plan_a.listen_addresses@[1]) != components(
            plan_b.listen_addresses@[1],
        ),
        a.quic_v1_listen_address is Some && b.quic_v1_listen_address is Some
            && a.quic_v1_listen_address != b.quic_v1_listen_address ==> components(
            plan_a.listen_addresses@[2],
        ) != components(plan_b.listen_addresses@[2]),
{
    law_client_plan(a, package_version, plan_a);
    law_client_plan(b, package_version, plan_b);
    assert forall|i: int| 0 <= i < 3 implies components(
        #[trigger] plan_a.listen_addresses@[i],
    ).len() == components(plan_b.listen_addresses@[i]).len() by {}
    if a.tcp_listen_address == b.tcp_listen_address {
        assert(components(plan_a.listen_addresses@[0]) =~= components(plan_b.listen_addresses@[0]));
    }
    if a.quic_listen_address == b.quic_listen_address {
        assert(components(plan_a.listen_addresses@[1]) =~= components(plan_b.listen_addresses@[1]));
    }
    if a.quic_v1_listen_address == b.quic_v1_listen_address {
        assert(components(plan_a.listen_addresses@[2]) =~= components(plan_b.listen_addresses@[2]));
    }
}

/// The IP address of a multiaddress is its first component, if that is one of either version.
pub proof fn law_leading_ip_address(address: Multiaddr, res: Option<IpAddress>)
    requires
        call_ensures(leading_ip_address, (&address,), res),
    ensures
        match res {
            Some(ip) => components(address).len() > 0 && is_ip(components(address)[0], ip),
            None => components(address).len() > 0 ==> !(components(address)[0] is Ip4)
                && !(components(address)[0] is Ip6),
        },
{
}

/// A record gives the code that it holds.
pub proof fn law_record_country<E>(record: Result<Option<Option<String>>, E>, res: Option<String>)
    requires
        call_ensures(record_country::<E>, (record,), res),
    ensures
        res is Some <==> record is Ok && record->Ok_0 is Some && record->Ok_0->0 is Some,
        res matches Some(code) ==> record == Ok::<Option<Option<String>>, E>(Some(Some(code))),
{
}

/// A database that was opened is handed on, and any failure is told as the same.
pub proof fn law_opened<E>(reader: Result<IpDb, E>, res: Result<IpDb, IpDbError>)
    requires
        call_ensures(opened::<E>, (reader,), res),
    ensures
        match (reader, res) {
            (Ok(db), Ok(handed_on)) => handed_on == db,
            (Err(_), Err(error)) => error == IpDbError::Unreadable,
            _ => false,
        },
{
}

/// An opened database holds the bytes that it was opened from.
pub proof fn law_open(bytes: Vec<u8>, res: Result<IpDb, IpDbError>)
    requires
        call_ensures(IpDb::open, (bytes,), res),
    ensures
        res matches Ok(db) ==> database(db) == bytes@,
        res matches Err(error) ==> error == IpDbError::Unreadable,
{
}

/// A database gives the code that it holds for an IP address, of whatever version.
pub proof fn law_country(db: IpDb, ip: IpAddress, res: Option<String>)
    requires
        call_ensures(IpDb::country, (&db, ip), res),
    ensures
        res matches Some(code) ==> city_lookup(database(db), ip) == Some(Some(Some(code@))),
        res is None ==> !(city_lookup(database(db), ip) matches Some(Some(Some(_)))),
{
}

/// A client can be planned from every configuration whose protocol name starts with a slash, if
/// there is one, and whose bootnodes' addresses end with peers.
pub proof fn law_client_plan_takes_configs(config: Config, package_version: &str)
    requires
        starts_with_slash(config.protocol_name),
        forall|i: int|
            0 <= i < config.bootnodes@.len() ==> has_peer_last(#[trigger] config.bootnodes@[i]),
    ensures
        call_requires(client_plan, (config, package_version)),
        call_requires(find_config_error, (&config,)),
{
    assert forall|i: int| 0 <= i < config.bootnodes@.len() implies ends_with_peer(
        components(#[trigger] config.bootnodes@[i]),
    ) by {
        assert(has_peer_last(config.bootnodes@[i]));
    }
}

} // verus!
