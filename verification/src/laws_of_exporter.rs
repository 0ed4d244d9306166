//! What the functions of the exporter give back, said of what goes into them and what comes out.

use crate::address::{components, ComponentView, IpAddress};
use crate::client::{ClientEvent, IdentifyEvent, KademliaEvent, MyBehaviourEvent};
use crate::exporter::{
    country_of, dial_outcome, first_country, first_provider, is_located, lookup_duration,
    observed_at, provider_answer, provider_found_at, store_recorded, DialOutcome, Exporter,
    ExporterView, PollAction, PollEvent, TICK_INTERVAL,
};
use crate::exporter_metrics::{registered, sub_registries};
use crate::ip_db::{city_lookup, database, IpDb};
use crate::laws::law_identify_observes_once;
use crate::laws_of_metrics::{
    all_at_nought, counts_a_check, counts_a_lookup, is_exporter_registry, is_registered_within,
    shows_metrics, shows_network,
};
use crate::laws_of_nodes::{
    chars_of, is_cleared, knows_down, knows_of, lemma_cleared, lemma_collection, shows_nodes,
};
use crate::metric::Metric;
use crate::node::{text_of, NodeView};
use crate::node_store::NodeStoreView;
use crate::peer::PeerId;
use crate::time::Nanos;
use libp2p::Multiaddr;
use prometheus_client::registry::Registry;
use vstd::prelude::*;

verus! {

/// There is a tick every second.
pub proof fn law_tick_interval()
    ensures
        TICK_INTERVAL == 1_000_000_000,
{
}

/// An exporter starts out knowing nothing, with the databases that it was given, and with its
/// metrics registered under its name, each under its own.
pub proof fn law_new_exporter<F: Fn(u32) -> Option<String>>(
    ip_db: Option<IpDb>,
    cloud_provider_db: Option<F>,
    registry: &mut Registry,
    res: Exporter<F>,
)
    requires
        call_ensures(Exporter::<F>::new, (ip_db, cloud_provider_db, registry), res),
    ensures
        res.wf(),
        forall|peer: Seq<u8>| !#[trigger] res@.store.nodes.contains_key(peer),
        res@.store.offline_nodes_removed == 0,
        forall|peer: Seq<u8>| !#[trigger] res@.in_flight_lookups.contains_key(peer),
        res@.to_probe.len() == 0,
        all_at_nought(res@.metrics),
        res.providers() == cloud_provider_db,
        ip_db is None ==> res.ip_database() is None,
        ip_db matches Some(db) ==> res.ip_database() == Some(database(db)),
        ({
            let inner = sub_registries(*final(registry))[sub_registries(
                *old(registry),
            ).len() as int];
            &&& is_registered_within(*old(registry), *final(registry), inner)
            &&& is_exporter_registry(*old(registry), inner)
            &&& shows_metrics(registered(inner), res@.metrics)
        }),
{
    assert(sub_registries(*final(registry)).take(sub_registries(*old(registry)).len() as int)
        =~= sub_registries(*final(registry)).drop_last());
}

/// The number of nodes is the number of peers that are known.
pub proof fn law_node_count<F: Fn(u32) -> Option<String>>(exporter: Exporter<F>, res: usize)
    requires
        call_ensures(Exporter::<F>::node_count, (&exporter,), res),
    ensures
        res == exporter@.store.nodes.dom().len(),
{
}

/// The number of look-ups in flight is the number of those that have not returned.
pub proof fn law_lookups_in_flight<F: Fn(u32) -> Option<String>>(
    exporter: Exporter<F>,
    res: usize,
)
    requires
        call_ensures(Exporter::<F>::lookups_in_flight, (&exporter,), res),
    ensures
        res == exporter@.in_flight_lookups.dom().len(),
{
}

/// A collection of the exporter is one of its nodes, and changes nothing but these.
pub proof fn law_exporter_collect<F: Fn(u32) -> Option<String>>(
    exporter: &mut Exporter<F>,
    now: Nanos,
    res: Vec<Metric>,
)
    requires
        old(exporter).wf(),
        call_ensures(Exporter::<F>::collect, (exporter, now), res),
    ensures
        is_cleared(old(exporter)@.store, final(exporter)@.store, now),
        shows_nodes(res@, final(exporter)@.store, now),
        final(exporter)@.in_flight_lookups == old(exporter)@.in_flight_lookups,
        final(exporter)@.metrics == old(exporter)@.metrics,
        final(exporter)@.to_probe == old(exporter)@.to_probe,
        final(exporter).wf(),
        final(exporter).ip_database() == old(exporter).ip_database(),
        final(exporter).providers() == old(exporter).providers(),
{
    old(exporter).lemma_wf();
    lemma_cleared(old(exporter)@.store, now);
    lemma_collection(res@, final(exporter)@.store, now);
}

/// The code of the country that a database holds for the IP address that an address starts with,
/// whether that is of version 4 or 6.
pub open spec fn code_of(ip_db: Option<Seq<u8>>, address: Multiaddr) -> Option<Seq<char>> {
    if ip_db is None || components(address).len() == 0 {
        None
    } else {
        let record = match components(address)[0] {
            ComponentView::Ip4(ip) => city_lookup(ip_db->0, IpAddress::V4(ip)),
            ComponentView::Ip6(ip) => city_lookup(ip_db->0, IpAddress::V6(ip)),
            _ => None,
        };
        match record {
            Some(Some(Some(code))) => Some(code),
            _ => None,
        }
    }
}

/// The country of an address is the one that the database has for its IP address, of whatever
/// version.
pub proof fn law_multiaddress_to_country_code<F: Fn(u32) -> Option<String>>(
    exporter: Exporter<F>,
    address: Multiaddr,
    res: Option<String>,
)
    requires
        call_ensures(Exporter::<F>::multiaddress_to_country_code, (&exporter, &address), res),
    ensures
        chars_of(res) == code_of(exporter.ip_database(), address),
{
    lemma_code(exporter.ip_database(), address);
}

proof fn lemma_code(ip_db: Option<Seq<u8>>, address: Multiaddr)
    ensures
        country_of(ip_db, components(address)) == code_of(ip_db, address),
{
}

/// Whether a code is that of the address at an index and no address before it has one, or there is
/// no code and the index is past all addresses.
pub open spec fn is_first_code(
    ip_db: Option<Seq<u8>>,
    addresses: Seq<Multiaddr>,
    i: int,
    code: Option<Seq<char>>,
) -> bool {
    &&& 0 <= i <= addresses.len()
    &&& forall|j: int| 0 <= j < i ==> code_of(ip_db, #[trigger] addresses[j]) is None
    &&& if i < addresses.len() {
        code is Some && code_of(ip_db, addresses[i]) == code
    } else {
        code is None
    }
}

/// Whether a code is the first that any of some addresses has.
pub open spec fn is_code_among(
    ip_db: Option<Seq<u8>>,
    addresses: Seq<Multiaddr>,
    code: Option<Seq<char>>,
) -> bool {
    exists|i: int| is_first_code(ip_db, addresses, i, code)
}

/// Every address is looked at: there is a code if any of them has one, and it is that of the first
/// one which has.
pub proof fn law_code_among(
    ip_db: Option<Seq<u8>>,
    addresses: Seq<Multiaddr>,
    code: Option<Seq<char>>,
    i: int,
)
    requires
        is_code_among(ip_db, addresses, code),
        0 <= i < addresses.len(),
    ensures
        code_of(ip_db, addresses[i]) is Some ==> code is Some,
        code_of(ip_db, addresses[i]) is Some && (forall|j: int|
            0 <= j < i ==> code_of(ip_db, #[trigger] addresses[j]) is None) ==> code == code_of(
            ip_db,
            addresses[i],
        ),
{
    let k = choose|k: int| is_first_code(ip_db, addresses, k, code);
    if code_of(ip_db, addresses[i]) is Some {
        assert(k <= i) by {
            if i < k {
                assert(code_of(ip_db, addresses[i]) is None);
            }
        }
        if forall|j: int| 0 <= j < i ==> code_of(ip_db, #[trigger] addresses[j]) is None {
            if k < i {
                assert(code_of(ip_db, addresses[k]) is None);
            }
        }
    }
}

/// The country of some addresses is that of the first one that has one.
pub proof fn law_multiaddresses_to_country_code<F: Fn(u32) -> Option<String>>(
    exporter: Exporter<F>,
    addresses: Vec<Multiaddr>,
    res: Option<String>,
)
    requires
        call_ensures(Exporter::<F>::multiaddresses_to_country_code, (&exporter, &addresses), res),
    ensures
        is_code_among(exporter.ip_database(), addresses@, chars_of(res)),
{
    lemma_first_code(exporter.ip_database(), addresses@);
}

proof fn lemma_first_code(ip_db: Option<Seq<u8>>, addresses: Seq<Multiaddr>)
    ensures
        is_code_among(ip_db, addresses, first_country(ip_db, addresses)),
    decreases addresses.len(),
{
    let code = first_country(ip_db, addresses);
    if addresses.len() == 0 {
        assert(is_first_code(ip_db, addresses, 0, code));
    } else {
        lemma_code(ip_db, addresses[0]);
        if code_of(ip_db, addresses[0]) is Some {
            assert(is_first_code(ip_db, addresses, 0, code));
        } else {
            let rest = addresses.drop_first();
            lemma_first_code(ip_db, rest);
            let i = choose|i: int| is_first_code(ip_db, rest, i, code);
            assert forall|j: int| 0 <= j < i + 1 implies code_of(
                ip_db,
                #[trigger] addresses[j],
            ) is None by {
                if j > 0 {
                    assert(rest[j - 1] == addresses[j]);
                }
            }
            if i < rest.len() {
                assert(rest[i] == addresses[i + 1]);
            }
            assert(is_first_code(ip_db, addresses, i + 1, code));
        }
    }
}

/// Whether a reply is one of a look-up of providers for the IP address of version 4 that an address
/// starts with. Without the look-up, or without such an IP address, there is no provider.
pub open spec fn is_reply<F: Fn(u32) -> Option<String>>(
    providers: Option<F>,
    address: Multiaddr,
    reply: Option<String>,
) -> bool {
    match providers {
        Some(lookup) => if components(address).len() > 0 && components(address)[0] is Ip4 {
            call_ensures(lookup, (components(address)[0]->Ip4_0,), reply)
        } else {
            reply is None
        },
        None => reply is None,
    }
}

/// The provider of an address is what the look-up replies for its IP address of version 4.
pub proof fn law_multiaddress_to_cloud_provider<F: Fn(u32) -> Option<String>>(
    exporter: Exporter<F>,
    address: Multiaddr,
    res: Option<String>,
)
    requires
        call_ensures(Exporter::<F>::multiaddress_to_cloud_provider, (&exporter, &address), res),
    ensures
        is_reply(exporter.providers(), address, res),
{
    lemma_reply(exporter.providers(), address, res);
}

proof fn lemma_reply<F: Fn(u32) -> Option<String>>(
    providers: Option<F>,
    address: Multiaddr,
    reply: Option<String>,
)
    ensures
        provider_answer(providers, components(address), reply) <==> is_reply(
            providers,
            address,
            reply,
        ),
{
}

/// Whether a provider is a reply for the address at an index, and there was none for those before
/// it, or there is no provider and the index is past all addresses.
pub open spec fn is_first_reply<F: Fn(u32) -> Option<String>>(
    providers: Option<F>,
    addresses: Seq<Multiaddr>,
    i: int,
    reply: Option<String>,
) -> bool {
    &&& 0 <= i <= addresses.len()
    &&& forall|j: int| 0 <= j < i ==> is_reply(providers, #[trigger] addresses[j], None)
    &&& if i < addresses.len() {
        reply is Some && is_reply(providers, addresses[i], reply)
    } else {
        reply is None
    }
}

/// Whether a provider is the first that the look-up knows for any of some addresses.
pub open spec fn is_reply_among<F: Fn(u32) -> Option<String>>(
    providers: Option<F>,
    addresses: Seq<Multiaddr>,
    reply: Option<String>,
) -> bool {
    exists|i: int| is_first_reply(providers, addresses, i, reply)
}

/// The provider of some addresses is that of the first one that has one.
pub proof fn law_multiaddresses_to_cloud_provider<F: Fn(u32) -> Option<String>>(
    exporter: Exporter<F>,
    addresses: Vec<Multiaddr>,
    res: Option<String>,
)
    requires
        call_ensures(Exporter::<F>::multiaddresses_to_cloud_provider, (&exporter, &addresses), res),
    ensures
        is_reply_among(exporter.providers(), addresses@, res),
{
    lemma_first_reply(exporter.providers(), addresses@, res);
}

proof fn lemma_first_reply<F: Fn(u32) -> Option<String>>(
    providers: Option<F>,
    addresses: Seq<Multiaddr>,
    reply: Option<String>,
)
    requires
        first_provider(providers, addresses, reply),
    ensures
        is_reply_among(providers, addresses, reply),
{
    let i = choose|i: int| provider_found_at(providers, addresses, i, reply);
    assert forall|j: int| 0 <= j < i implies is_reply(
        providers,
        #[trigger] addresses[j],
        None,
    ) by {
        lemma_reply(providers, addresses[j], None);
    }
    if i < addresses.len() {
        lemma_reply(providers, addresses[i], reply);
    }
    assert(is_first_reply(providers, addresses, i, reply));
}

/// Every address is looked at for a provider, where the look-up always replies the same: there is a
/// provider if it knows one for any of the addresses, and it is that of the first one.
pub proof fn law_reply_among<F: Fn(u32) -> Option<String>>(
    providers: Option<F>,
    addresses: Seq<Multiaddr>,
    reply: Option<String>,
    i: int,
    known: Option<String>,
)
    requires
        is_reply_among(providers, addresses, reply),
        0 <= i < addresses.len(),
        forall|a: Multiaddr, x: Option<String>, y: Option<String>| #[trigger]
            is_reply(providers, a, x) && #[trigger] is_reply(providers, a, y) ==> x == y,
        is_reply(providers, addresses[i], known),
    ensures
        known is Some ==> reply is Some,
        known is Some && (forall|j: int|
            0 <= j < i ==> is_reply(providers, #[trigger] addresses[j], None)) ==> reply == known,
{
    let k = choose|k: int| is_first_reply(providers, addresses, k, reply);
    if known is Some {
        assert(k <= i) by {
            if i < k {
                assert(is_reply(providers, addresses[i], None));
            }
        }
        if forall|j: int| 0 <= j < i ==> is_reply(providers, #[trigger] addresses[j], None) {
            if k < i {
                assert(is_reply(providers, addresses[k], None));
            }
        }
    }
}

/// Whether a store has taken in that a peer answered at a time, at some addresses: with the country
/// and the provider that are known of the first address which has one, among all of them.
pub open spec fn knows_located<F: Fn(u32) -> Option<String>>(
    before: NodeStoreView,
    after: NodeStoreView,
    ip_db: Option<Seq<u8>>,
    providers: Option<F>,
    peer: Seq<u8>,
    addresses: Seq<Multiaddr>,
    now: Nanos,
) -> bool {
    exists|code: Option<Seq<char>>, reply: Option<String>|
        {
            &&& #[trigger] is_code_among(ip_db, addresses, code)
            &&& #[trigger] is_reply_among(providers, addresses, reply)
            &&& knows_of(before, after, peer, code, chars_of(reply), now, Some(now))
        }
}

proof fn lemma_located<F: Fn(u32) -> Option<String>>(
    before: NodeStoreView,
    node: NodeView,
    ip_db: Option<Seq<u8>>,
    providers: Option<F>,
    peer: Seq<u8>,
    addresses: Seq<Multiaddr>,
    now: Nanos,
)
    requires
        is_located(node, ip_db, providers, peer, addresses, now),
    ensures
        knows_located(before, before.observed(node), ip_db, providers, peer, addresses, now),
{
    let code = first_country(ip_db, addresses);
    let reply = choose|reply: Option<String>| #[trigger]
        first_provider(providers, addresses, reply) && node == (NodeView {
            country: first_country(ip_db, addresses),
            provider: text_of(reply),
            ..NodeView::fresh(peer, now)
        });
    lemma_first_code(ip_db, addresses);
    lemma_first_reply(providers, addresses, reply);
    assert(is_code_among(ip_db, addresses, code));
    assert(is_reply_among(providers, addresses, reply));
    assert(knows_of(
        before,
        before.observed(node),
        peer,
        code,
        chars_of(reply),
        now,
        Some(now),
    ));
}

/// Whether a store has taken in what an event of the client says.
pub open spec fn takes_in<F: Fn(u32) -> Option<String>>(
    before: NodeStoreView,
    after: NodeStoreView,
    ip_db: Option<Seq<u8>>,
    providers: Option<F>,
    event: ClientEvent,
    now: Nanos,
) -> bool {
    match event {
        ClientEvent::AllConnectionsClosed(peer) => knows_down(before, after, peer.bytes@),
        ClientEvent::Behaviour(MyBehaviourEvent::Ping { peer, answered }) => if answered {
            knows_of(before, after, peer.bytes@, None, None, now, Some(now))
        } else {
            knows_down(before, after, peer.bytes@)
        },
        ClientEvent::Behaviour(MyBehaviourEvent::Identify(told)) => match told {
            IdentifyEvent::Received { peer_id, listen_addrs } => knows_located(
                before,
                after,
                ip_db,
                providers,
                peer_id.bytes@,
                listen_addrs@,
                now,
            ),
            _ => after == before,
        },
        ClientEvent::Behaviour(MyBehaviourEvent::Kademlia(told)) => match told {
            KademliaEvent::RoutablePeer { peer, address } => knows_located(
                before,
                after,
                ip_db,
                providers,
                peer.bytes@,
                seq![address],
                now,
            ),
            KademliaEvent::PendingRoutablePeer { peer, address } => knows_located(
                before,
                after,
                ip_db,
                providers,
                peer.bytes@,
                seq![address],
                now,
            ),
            KademliaEvent::RoutingUpdated { peer, addresses } => knows_located(
                before,
                after,
                ip_db,
                providers,
                peer.bytes@,
                addresses@,
                now,
            ),
            KademliaEvent::ClosestPeersReturned { .. } => after == before,
            KademliaEvent::Other => after == before,
        },
    }
}

/// Whether the look-ups in flight have taken in an event, and how long a look-up took that has
/// returned with it.
pub open spec fn takes_in_return(
    before: Map<Seq<u8>, Nanos>,
    after: Map<Seq<u8>, Nanos>,
    event: ClientEvent,
    now: Nanos,
    duration: Option<Nanos>,
) -> bool {
    match event {
        ClientEvent::Behaviour(
            MyBehaviourEvent::Kademlia(KademliaEvent::ClosestPeersReturned { key }),
        ) => {
            &&& !after.contains_key(key.bytes@)
            &&& forall|other: Seq<u8>|
                other != key.bytes@ ==> (#[trigger] after.contains_key(other)
                    <==> before.contains_key(other))
            &&& forall|other: Seq<u8>| #[trigger]
                after.contains_key(other) ==> after[other] == before[other]
            &&& duration is Some <==> before.contains_key(key.bytes@)
            &&& duration matches Some(nanos) ==> {
                let started = before[key.bytes@];
                nanos == if started <= now {
                    now - started
                } else {
                    0
                }
            }
        },
        _ => after == before && duration is None,
    }
}

/// Whether an exporter has taken in an event of the client.
pub open spec fn exporter_takes_in<F: Fn(u32) -> Option<String>>(
    before: ExporterView,
    after: ExporterView,
    ip_db: Option<Seq<u8>>,
    providers: Option<F>,
    event: ClientEvent,
    now: Nanos,
    duration: Option<Nanos>,
) -> bool {
    &&& takes_in(before.store, after.store, ip_db, providers, event, now)
    &&& takes_in_return(before.in_flight_lookups, after.in_flight_lookups, event, now, duration)
    &&& after.metrics == before.metrics
    &&& after.to_probe == before.to_probe
}

proof fn lemma_takes_in<F: Fn(u32) -> Option<String>>(
    before: NodeStoreView,
    after: NodeStoreView,
    ip_db: Option<Seq<u8>>,
    providers: Option<F>,
    event: ClientEvent,
    now: Nanos,
)
    requires
        store_recorded(before, after, ip_db, providers, event, now),
    ensures
        takes_in(before, after, ip_db, providers, event, now),
{
    match event {
        ClientEvent::Behaviour(
            MyBehaviourEvent::Identify(IdentifyEvent::Received { peer_id, listen_addrs }),
        ) => {
            let node = choose|node: NodeView| #[trigger]
                is_located(node, ip_db, providers, peer_id@, listen_addrs@, now) && after
                    == before.observed(node).observed(NodeView::fresh(peer_id@, now));
            lemma_located(before, node, ip_db, providers, peer_id@, listen_addrs@, now);
            law_identify_observes_once(
                before,
                node,
                ip_db,
                providers,
                peer_id@,
                listen_addrs@,
                now,
            );
        },
        ClientEvent::Behaviour(
            MyBehaviourEvent::Kademlia(KademliaEvent::RoutablePeer { peer, address }),
        ) => {
            lemma_observed_at(before, after, ip_db, providers, peer@, seq![address], now);
        },
        ClientEvent::Behaviour(
            MyBehaviourEvent::Kademlia(KademliaEvent::PendingRoutablePeer { peer, address }),
        ) => {
            lemma_observed_at(before, after, ip_db, providers, peer@, seq![address], now);
        },
        ClientEvent::Behaviour(
            MyBehaviourEvent::Kademlia(KademliaEvent::RoutingUpdated { peer, addresses }),
        ) => {
            lemma_observed_at(before, after, ip_db, providers, peer@, addresses@, now);
        },
        _ => {},
    }
}

proof fn lemma_observed_at<F: Fn(u32) -> Option<String>>(
    before: NodeStoreView,
    after: NodeStoreView,
    ip_db: Option<Seq<u8>>,
    providers: Option<F>,
    peer: Seq<u8>,
    addresses: Seq<Multiaddr>,
    now: Nanos,
)
    requires
        observed_at(before, after, ip_db, providers, peer, addresses, now),
    ensures
        knows_located(before, after, ip_db, providers, peer, addresses, now),
{
    let node = choose|node: NodeView| #[trigger]
        is_located(node, ip_db, providers, peer, addresses, now) && after == before.observed(node);
    lemma_located(before, node, ip_db, providers, peer, addresses, now);
}

/// Recording an event takes in what it says of its peer and of a look-up, and changes nothing else.
pub proof fn law_record_event<F: Fn(u32) -> Option<String>>(
    exporter: &mut Exporter<F>,
    event: ClientEvent,
    now: Nanos,
    res: Option<Nanos>,
)
    requires
        call_ensures(Exporter::<F>::record_event, (exporter, event, now), res),
    ensures
        final(exporter).wf(),
        final(exporter).ip_database() == old(exporter).ip_database(),
        final(exporter).providers() == old(exporter).providers(),
        exporter_takes_in(
            old(exporter)@,
            final(exporter)@,
            old(exporter).ip_database(),
            old(exporter).providers(),
            event,
            now,
            res,
        ),
{
    lemma_takes_in(
        old(exporter)@.store,
        final(exporter)@.store,
        old(exporter).ip_database(),
        old(exporter).providers(),
        event,
        now,
    );
}

/// A routing update of a peer that was not known stores a node with a country if any of the
/// update's addresses has one, and with that of the first one that has.
pub proof fn law_routing_update_locates<F: Fn(u32) -> Option<String>>(
    exporter: &mut Exporter<F>,
    peer: PeerId,
    addresses: Vec<Multiaddr>,
    now: Nanos,
    res: Option<Nanos>,
    i: int,
)
    requires
        call_ensures(
            Exporter::<F>::record_event,
            (
                exporter,
                ClientEvent::Behaviour(
                    MyBehaviourEvent::Kademlia(KademliaEvent::RoutingUpdated { peer, addresses }),
                ),
                now,
            ),
            res,
        ),
        !old(exporter)@.store.nodes.contains_key(peer.bytes@),
        0 <= i < addresses@.len(),
        code_of(old(exporter).ip_database(), addresses@[i]) is Some,
        forall|j: int|
            0 <= j < i ==> code_of(
                old(exporter).ip_database(),
                #[trigger] addresses@[j],
            ) is None,
    ensures
        final(exporter)@.store.nodes.contains_key(peer.bytes@),
        final(exporter)@.store.nodes[peer.bytes@].country == code_of(
            old(exporter).ip_database(),
            addresses@[i],
        ),
{
    let ip_db = old(exporter).ip_database();
    let providers = old(exporter).providers();
    let event = ClientEvent::Behaviour(
        MyBehaviourEvent::Kademlia(KademliaEvent::RoutingUpdated { peer, addresses }),
    );
    law_record_event(exporter, event, now, res);
    let (code, reply) = choose|code: Option<Seq<char>>, reply: Option<String>|
        {
            &&& #[trigger] is_code_among(ip_db, addresses@, code)
            &&& #[trigger] is_reply_among(providers, addresses@, reply)
            &&& knows_of(
                old(exporter)@.store,
                final(exporter)@.store,
                peer.bytes@,
                code,
                chars_of(reply),
                now,
                Some(now),
            )
        };
    law_code_among(ip_db, addresses@, code, i);
}

/// Where a look-up of providers always replies the same, the provider of some addresses is one and
/// no other, as their country is.
proof fn lemma_located_once<F: Fn(u32) -> Option<String>>(
    ip_db: Option<Seq<u8>>,
    providers: Option<F>,
    addresses: Seq<Multiaddr>,
    a: (Option<Seq<char>>, Option<String>),
    b: (Option<Seq<char>>, Option<String>),
)
    requires
        forall|address: Multiaddr, x: Option<String>, y: Option<String>| #[trigger]
            is_reply(providers, address, x) && #[trigger] is_reply(providers, address, y) ==> x
                == y,
        is_code_among(ip_db, addresses, a.0),
        is_code_among(ip_db, addresses, b.0),
        is_reply_among(providers, addresses, a.1),
        is_reply_among(providers, addresses, b.1),
    ensures
        a == b,
{
    let i = choose|i: int| is_first_code(ip_db, addresses, i, a.0);
    let j = choose|j: int| is_first_code(ip_db, addresses, j, b.0);
    if i < j {
        assert(code_of(ip_db, addresses[i]) is None);
    }
    if j < i {
        assert(code_of(ip_db, addresses[j]) is None);
    }
    let k = choose|k: int| is_first_reply(providers, addresses, k, a.1);
    let l = choose|l: int| is_first_reply(providers, addresses, l, b.1);
    if k < l {
        assert(is_reply(providers, addresses[k], None));
    }
    if l < k {
        assert(is_reply(providers, addresses[l], None));
    }
}

/// A routing update and identify information of the same peer, with the same addresses, leave the
/// same store, where a look-up of providers always replies the same.
pub proof fn law_routing_update_is_like_identify<F: Fn(u32) -> Option<String>>(
    one: &mut Exporter<F>,
    other: &mut Exporter<F>,
    peer: PeerId,
    addresses: Vec<Multiaddr>,
    now: Nanos,
    first: Option<Nanos>,
    second: Option<Nanos>,
)
    requires
        old(one)@.store == old(other)@.store,
        old(one).ip_database() == old(other).ip_database(),
        old(one).providers() == old(other).providers(),
        forall|address: Multiaddr, x: Option<String>, y: Option<String>| #[trigger]
            is_reply(old(one).providers(), address, x) && #[trigger] is_reply(
                old(one).providers(),
                address,
                y,
            ) ==> x == y,
        call_ensures(
            Exporter::<F>::record_event,
            (
                one,
                ClientEvent::Behaviour(
                    MyBehaviourEvent::Kademlia(KademliaEvent::RoutingUpdated { peer, addresses }),
                ),
                now,
            ),
            first,
        ),
        call_ensures(
            Exporter::<F>::record_event,
            (
                other,
                ClientEvent::Behaviour(
                    MyBehaviourEvent::Identify(
                        IdentifyEvent::Received { peer_id: peer, listen_addrs: addresses },
                    ),
                ),
                now,
            ),
            second,
        ),
    ensures
        final(one)@.store == final(other)@.store,
{
    let ip_db = old(one).ip_database();
    let providers = old(one).providers();
    let before = old(one)@.store;
    let routed = final(one)@.store;
    let identified = final(other)@.store;
    law_record_event(
        one,
        ClientEvent::Behaviour(
            MyBehaviourEvent::Kademlia(KademliaEvent::RoutingUpdated { peer, addresses }),
        ),
        now,
        first,
    );
    law_record_event(
        other,
        ClientEvent::Behaviour(
            MyBehaviourEvent::Identify(
                IdentifyEvent::Received { peer_id: peer, listen_addrs: addresses },
            ),
        ),
        now,
        second,
    );
    assert(knows_located(before, routed, ip_db, providers, peer.bytes@, addresses@, now));
    assert(knows_located(before, identified, ip_db, providers, peer.bytes@, addresses@, now));
    let a = choose|code: Option<Seq<char>>, reply: Option<String>|
        {
            &&& #[trigger] is_code_among(ip_db, addresses@, code)
            &&& #[trigger] is_reply_among(providers, addresses@, reply)
            &&& knows_of(before, routed, peer.bytes@, code, chars_of(reply), now, Some(now))
        };
    let b = choose|code: Option<Seq<char>>, reply: Option<String>|
        {
            &&& #[trigger] is_code_among(ip_db, addresses@, code)
            &&& #[trigger] is_reply_among(providers, addresses@, reply)
            &&& knows_of(before, identified, peer.bytes@, code, chars_of(reply), now, Some(now))
        };
    lemma_located_once(ip_db, providers, addresses@, a, b);
    assert(routed.nodes[peer.bytes@] == identified.nodes[peer.bytes@]);
    assert forall|p: Seq<u8>| routed.nodes.contains_key(p) implies identified.nodes.contains_key(p)
        && routed.nodes[p] == identified.nodes[p] by {
        if p != peer.bytes@ {
            assert(before.nodes.contains_key(p));
            assert(identified.nodes.contains_key(p));
        }
    }
    assert forall|p: Seq<u8>| identified.nodes.contains_key(
        p,
    ) implies routed.nodes.contains_key(p) by {
        if p != peer.bytes@ {
            assert(before.nodes.contains_key(p));
        }
    }
    assert(routed.nodes =~= identified.nodes);
}

/// A routing update of a peer that was not known stores a node with a provider if the look-up knows
/// one for any of the update's addresses, and with that of the first one, where it always replies
/// the same.
pub proof fn law_routing_update_finds_provider<F: Fn(u32) -> Option<String>>(
    exporter: &mut Exporter<F>,
    peer: PeerId,
    addresses: Vec<Multiaddr>,
    now: Nanos,
    res: Option<Nanos>,
    i: int,
    known: Option<String>,
)
    requires
        call_ensures(
            Exporter::<F>::record_event,
            (
                exporter,
                ClientEvent::Behaviour(
                    MyBehaviourEvent::Kademlia(KademliaEvent::RoutingUpdated { peer, addresses }),
                ),
                now,
            ),
            res,
        ),
        !old(exporter)@.store.nodes.contains_key(peer.bytes@),
        forall|address: Multiaddr, x: Option<String>, y: Option<String>| #[trigger]
            is_reply(old(exporter).providers(), address, x) && #[trigger] is_reply(
                old(exporter).providers(),
                address,
                y,
            ) ==> x == y,
        0 <= i < addresses@.len(),
        is_reply(old(exporter).providers(), addresses@[i], known),
        known is Some,
        forall|j: int|
            0 <= j < i ==> is_reply(old(exporter).providers(), #[trigger] addresses@[j], None),
    ensures
        final(exporter)@.store.nodes.contains_key(peer.bytes@),
        final(exporter)@.store.nodes[peer.bytes@].provider == chars_of(known),
{
    let ip_db = old(exporter).ip_database();
    let providers = old(exporter).providers();
    let event = ClientEvent::Behaviour(
        MyBehaviourEvent::Kademlia(KademliaEvent::RoutingUpdated { peer, addresses }),
    );
    law_record_event(exporter, event, now, res);
    let (code, reply) = choose|code: Option<Seq<char>>, reply: Option<String>|
        {
            &&& #[trigger] is_code_among(ip_db, addresses@, code)
            &&& #[trigger] is_reply_among(providers, addresses@, reply)
            &&& knows_of(
                old(exporter)@.store,
                final(exporter)@.store,
                peer.bytes@,
                code,
                chars_of(reply),
                now,
                Some(now),
            )
        };
    law_reply_among(providers, addresses@, reply, i, known);
}

/// A dial that was started counts as a connection, one that was not needed as such, and one that
/// could not be started as the limit of connections.
pub proof fn law_dial_outcome<E>(dialed: Result<bool, E>, res: DialOutcome)
    requires
        call_ensures(dial_outcome::<E>, (dialed,), res),
    ensures
        res is Established <==> dialed == Ok::<bool, E>(true),
        res is AlreadyConnected <==> dialed == Ok::<bool, E>(false),
        res is LimitReached <==> dialed is Err,
{
}

/// Whether two states of an exporter are the same but for the list of peers to probe.
pub open spec fn same_but_list(a: ExporterView, b: ExporterView) -> bool {
    a.store == b.store && a.in_flight_lookups == b.in_flight_lookups && a.metrics == b.metrics
}

/// Whether two states of an exporter are the same but for the metrics.
pub open spec fn same_but_metrics(a: ExporterView, b: ExporterView) -> bool {
    a.store == b.store && a.in_flight_lookups == b.in_flight_lookups && a.to_probe == b.to_probe
}

/// What the exporter makes of what it is told, and what it asks for next.
///
/// A tick takes the last peer off the list and has it dialed. Where the list is empty, it is filled
/// with every known peer, each of them once. A dial that failed puts its peer at the front, to be
/// dialed last, and one that connected is counted. Then a look-up is started, which is counted and
/// in flight from then on, and the network is read, which is shown. After that the client is asked
/// for events until it has none.
pub proof fn law_poll<F: Fn(u32) -> Option<String>>(
    exporter: &mut Exporter<F>,
    event: PollEvent,
    res: PollAction,
)
    requires
        event matches PollEvent::NetworkRead(info) ==> info.num_peers <= i64::MAX,
        call_ensures(Exporter::<F>::poll, (exporter, event), res),
    ensures
        final(exporter).wf(),
        final(exporter).ip_database() == old(exporter).ip_database(),
        final(exporter).providers() == old(exporter).providers(),
        ({
            let before = old(exporter)@;
            let after = final(exporter)@;
            match event {
                PollEvent::TickPending => res is PollClient && after == before,
                PollEvent::TickDue => if before.to_probe.len() > 0 {
                    &&& res matches PollAction::Dial(peer) && peer.bytes@
                        == before.to_probe[before.to_probe.len() - 1]
                    &&& after.to_probe =~= before.to_probe.take(before.to_probe.len() - 1)
                    &&& same_but_list(after, before)
                } else {
                    &&& res is StartLookup
                    &&& same_but_list(after, before)
                    &&& forall|i: int|
                        0 <= i < after.to_probe.len() ==> before.store.nodes.contains_key(
                            #[trigger] after.to_probe[i],
                        )
                    &&& forall|peer: Seq<u8>| #[trigger]
                        before.store.nodes.contains_key(peer) ==> after.to_probe.contains(peer)
                    &&& forall|i: int, j: int|
                        0 <= i < j < after.to_probe.len() ==> after.to_probe[i]
                            != after.to_probe[j]
                },
                PollEvent::Dialed { peer, outcome } => {
                    &&& res is StartLookup
                    &&& match outcome {
                        DialOutcome::Established => same_but_metrics(after, before)
                            && counts_a_check(before.metrics, after.metrics),
                        DialOutcome::AlreadyConnected => after == before,
                        DialOutcome::LimitReached => {
                            &&& same_but_list(after, before)
                            &&& after.to_probe.len() == before.to_probe.len() + 1
                            &&& after.to_probe[0] == peer.bytes@
                            &&& after.to_probe.skip(1) =~= before.to_probe
                        },
                    }
                },
                PollEvent::LookupStarted { peer, now } => {
                    &&& res is ReadNetwork
                    &&& after.store == before.store
                    &&& after.to_probe == before.to_probe
                    &&& counts_a_lookup(before.metrics, after.metrics)
                    &&& after.in_flight_lookups.contains_key(peer.bytes@)
                    &&& after.in_flight_lookups[peer.bytes@] == now
                    &&& forall|other: Seq<u8>|
                        other != peer.bytes@ ==> (#[trigger] after.in_flight_lookups.contains_key(
                            other,
                        ) <==> before.in_flight_lookups.contains_key(other))
                    &&& forall|other: Seq<u8>|
                        other != peer.bytes@ && #[trigger] after.in_flight_lookups.contains_key(
                            other,
                        ) ==> after.in_flight_lookups[other] == before.in_flight_lookups[other]
                },
                PollEvent::NetworkRead(info) => {
                    &&& res is PollClient
                    &&& same_but_metrics(after, before)
                    &&& shows_network(before.metrics, after.metrics, info)
                },
                PollEvent::Client { event: told, now } => exists|duration: Option<Nanos>| #[trigger]
                    exporter_takes_in(
                        before,
                        after,
                        old(exporter).ip_database(),
                        old(exporter).providers(),
                        told,
                        now,
                        duration,
                    ) && (match duration {
                        Some(nanos) => res == PollAction::ObserveLookup(nanos),
                        None => res is PollClient,
                    }),
                PollEvent::LookupObserved => res is PollClient && after == before,
                PollEvent::ClientPending => res is Wait && after == before,
                PollEvent::ClientClosed => res is Finish && after == before,
            }
        }),
{
    let before = old(exporter)@;
    let after = final(exporter)@;
    match event {
        PollEvent::TickDue => {
            if before.to_probe.len() == 0 {
                assert forall|i: int|
                    0 <= i < after.to_probe.len() implies before.store.nodes.contains_key(
                    #[trigger] after.to_probe[i],
                ) by {
                    assert(after.to_probe.to_set().contains(after.to_probe[i]));
                }
                assert forall|peer: Seq<u8>| #[trigger]
                    before.store.nodes.contains_key(peer) implies after.to_probe.contains(peer) by {
                    assert(after.to_probe.to_set().contains(peer));
                }
            }
        },
        PollEvent::Client { event: told, now } => {
            lemma_takes_in(
                before.store,
                after.store,
                old(exporter).ip_database(),
                old(exporter).providers(),
                told,
                now,
            );
            let duration = lookup_duration(before.in_flight_lookups, told, now);
            assert(exporter_takes_in(
                before,
                after,
                old(exporter).ip_database(),
                old(exporter).providers(),
                told,
                now,
                duration,
            ));
        },
        _ => {},
    }
}

/// A sound exporter takes every event of the client, but that own identify information was pushed,
/// and can be told of any state of the network whose peers a gauge can show.
pub proof fn law_exporter_takes_events<F: Fn(u32) -> Option<String>>(
    exporter: &mut Exporter<F>,
    event: ClientEvent,
    told: PollEvent,
    now: Nanos,
)
    requires
        old(exporter).wf(),
        !(event matches ClientEvent::Behaviour(
            MyBehaviourEvent::Identify(IdentifyEvent::Pushed),
        )),
        match told {
            PollEvent::Client { event: told, .. } => told == event,
            PollEvent::NetworkRead(info) => info.num_peers <= i64::MAX,
            _ => true,
        },
    ensures
        call_requires(Exporter::<F>::record_event, (exporter, event, now)),
        call_requires(Exporter::<F>::poll, (exporter, told)),
        old(exporter)@.store.nodes.dom().len() <= i64::MAX ==> call_requires(
            Exporter::<F>::collect,
            (exporter, now),
        ),
{
}

} // verus!
