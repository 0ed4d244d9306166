//! The exporter: what it learns of nodes from the events of its client, and what it does on each
//! tick of its clock.

use crate::address::{components, leading_ip, leading_ip_address, ComponentView, IpAddress};
use crate::assoc_map::AssocMap;
use crate::client::{ClientEvent, IdentifyEvent, KademliaEvent, MyBehaviourEvent};
use crate::exporter_metrics::{
    exporter_registry, instruments_differ, joined_prefix, registered, registry_prefix,
    sub_registries, Metrics, MetricsView, NetworkInfo,
};
use crate::ip_db::{city_lookup, country_of_record, database, IpDb};
use crate::metric::Metric;
use crate::node::{text_of, Node, NodeView};
use crate::node_store::{is_collection, NodeStore, NodeStoreView};
use crate::peer::{peer_seq, PeerId};
use crate::time::{elapsed, time_since, Nanos};
use libp2p::Multiaddr;
use prometheus_client::registry::Registry;
use vstd::prelude::*;

verus! {

/// How long the exporter waits from one tick to the next.
pub const TICK_INTERVAL: Nanos = 1_000_000_000;

/// The exporter.
///
/// Cloud providers are looked up through `F`, which gives the provider of an IPv4 address if it
/// knows one.
pub struct Exporter<F> {
    node_store: NodeStore,
    ip_db: Option<IpDb>,
    cloud_provider_db: Option<F>,
    /// Set of in-flight random peer id lookups, with the time at which each was started.
    ///
    /// When a lookup returns the entry is dropped and thus the duration is observed.
    in_flight_lookups: AssocMap<PeerId, Nanos>,
    metrics: Metrics,
    /// An exporter periodically reconnects to each discovered node to probe
    /// whether it is still online.
    nodes_to_probe_periodically: Vec<PeerId>,
}

/// The state of an [`Exporter`] as contracts speak of it.
pub struct ExporterView {
    /// What is known of the nodes.
    pub store: NodeStoreView,
    /// When each random look-up that has not returned yet was started.
    pub in_flight_lookups: Map<Seq<u8>, Nanos>,
    pub metrics: MetricsView,
    /// The peers that are yet to be probed. The last one is next.
    pub to_probe: Seq<Seq<u8>>,
}

/// The country of an address, if a database is at hand and knows it.
pub open spec fn country_of(ip_db: Option<Seq<u8>>, parts: Seq<ComponentView>) -> Option<
    Seq<char>,
> {
    match (ip_db, leading_ip(parts)) {
        (Some(bytes), Some(ip)) => country_of_record(city_lookup(bytes, ip)),
        _ => None,
    }
}

/// The country of the first address that has one.
pub open spec fn first_country(ip_db: Option<Seq<u8>>, addresses: Seq<Multiaddr>) -> Option<
    Seq<char>,
>
    decreases addresses.len(),
{
    if addresses.len() == 0 {
        None
    } else if country_of(ip_db, components(addresses[0])) is Some {
        country_of(ip_db, components(addresses[0]))
    } else {
        first_country(ip_db, addresses.drop_first())
    }
}

/// Whether an answer is one to the question for the provider of an address.
///
/// The question is put to the look-up if there is one and the address starts with an IPv4 address.
/// The answer is no otherwise.
pub open spec fn provider_answer<F: Fn(u32) -> Option<String>>(
    providers: Option<F>,
    parts: Seq<ComponentView>,
    answer: Option<String>,
) -> bool {
    match (providers, leading_ip(parts)) {
        (Some(lookup), Some(IpAddress::V4(ip))) => call_ensures(lookup, (ip,), answer),
        _ => answer is None,
    }
}

/// Whether no address before an index has a provider, and the answer is the provider of the
/// address at the index, or no if the index is past the last address.
pub open spec fn provider_found_at<F: Fn(u32) -> Option<String>>(
    providers: Option<F>,
    addresses: Seq<Multiaddr>,
    i: int,
    answer: Option<String>,
) -> bool {
    &&& 0 <= i <= addresses.len()
    &&& forall|j: int|
        0 <= j < i ==> provider_answer(providers, components(#[trigger] addresses[j]), None)
    &&& if i < addresses.len() {
        answer is Some && provider_answer(providers, components(addresses[i]), answer)
    } else {
        answer is None
    }
}

/// Whether an answer is the first one, in the order of the addresses, that names a provider, or
/// no if there is none.
pub open spec fn first_provider<F: Fn(u32) -> Option<String>>(
    providers: Option<F>,
    addresses: Seq<Multiaddr>,
    answer: Option<String>,
) -> bool {
    exists|i: int| provider_found_at(providers, addresses, i, answer)
}

/// Whether a node is what an observation of a peer at some addresses gives.
pub open spec fn is_located<F: Fn(u32) -> Option<String>>(
    node: NodeView,
    ip_db: Option<Seq<u8>>,
    providers: Option<F>,
    peer: Seq<u8>,
    addresses: Seq<Multiaddr>,
    now: Nanos,
) -> bool {
    exists|provider: Option<String>| #[trigger]
        first_provider(providers, addresses, provider) && node == (NodeView {
            country: first_country(ip_db, addresses),
            provider: text_of(provider),
            ..NodeView::fresh(peer, now)
        })
}

/// Whether a store is what another one becomes by an observation of a peer at some addresses.
pub open spec fn observed_at<F: Fn(u32) -> Option<String>>(
    before: NodeStoreView,
    after: NodeStoreView,
    ip_db: Option<Seq<u8>>,
    providers: Option<F>,
    peer: Seq<u8>,
    addresses: Seq<Multiaddr>,
    now: Nanos,
) -> bool {
    exists|node: NodeView| #[trigger]
        is_located(node, ip_db, providers, peer, addresses, now) && after == before.observed(node)
}

/// Whether an event can come up. Own identify information is never pushed.
pub open spec fn can_occur(event: ClientEvent) -> bool {
    !(event matches ClientEvent::Behaviour(
        MyBehaviourEvent::Identify(IdentifyEvent::Pushed),
    ))
}

/// Whether a store is what another one becomes by an event of the client.
pub open spec fn store_recorded<F: Fn(u32) -> Option<String>>(
    before: NodeStoreView,
    after: NodeStoreView,
    ip_db: Option<Seq<u8>>,
    providers: Option<F>,
    event: ClientEvent,
    now: Nanos,
) -> bool {
    match event {
        ClientEvent::Behaviour(MyBehaviourEvent::Ping { peer, answered }) => after == if answered {
            before.observed(NodeView::fresh(peer@, now))
        } else {
            before.down(peer@)
        },
        ClientEvent::Behaviour(
            MyBehaviourEvent::Identify(IdentifyEvent::Received { peer_id, listen_addrs }),
        ) => exists|node: NodeView| #[trigger]
            is_located(node, ip_db, providers, peer_id@, listen_addrs@, now) && after
                == before.observed(node).observed(NodeView::fresh(peer_id@, now)),
        ClientEvent::Behaviour(
            MyBehaviourEvent::Kademlia(KademliaEvent::RoutablePeer { peer, address }),
        ) => observed_at(before, after, ip_db, providers, peer@, seq![address], now),
        ClientEvent::Behaviour(
            MyBehaviourEvent::Kademlia(KademliaEvent::PendingRoutablePeer { peer, address }),
        ) => observed_at(before, after, ip_db, providers, peer@, seq![address], now),
        ClientEvent::Behaviour(
            MyBehaviourEvent::Kademlia(KademliaEvent::RoutingUpdated { peer, addresses }),
        ) => observed_at(before, after, ip_db, providers, peer@, addresses@, now),
        ClientEvent::AllConnectionsClosed(peer_id) => after == before.down(peer_id@),
        _ => after == before,
    }
}

/// Whether the state of an exporter is what another one becomes by an event of the client.
pub open spec fn recorded<F: Fn(u32) -> Option<String>>(
    before: ExporterView,
    after: ExporterView,
    ip_db: Option<Seq<u8>>,
    providers: Option<F>,
    event: ClientEvent,
    now: Nanos,
) -> bool {
    &&& store_recorded(before.store, after.store, ip_db, providers, event, now)
    &&& after.in_flight_lookups == (match event {
        ClientEvent::Behaviour(
            MyBehaviourEvent::Kademlia(KademliaEvent::ClosestPeersReturned { key }),
        ) => before.in_flight_lookups.remove(key@),
        _ => before.in_flight_lookups,
    })
    &&& after.metrics == before.metrics
    &&& after.to_probe == before.to_probe
}

/// How long a random look-up took, if an event says that it has returned.
pub open spec fn lookup_duration(
    in_flight_lookups: Map<Seq<u8>, Nanos>,
    event: ClientEvent,
    now: Nanos,
) -> Option<Nanos> {
    match event {
        ClientEvent::Behaviour(
            MyBehaviourEvent::Kademlia(KademliaEvent::ClosestPeersReturned { key }),
        ) => if in_flight_lookups.contains_key(key@) {
            Some(elapsed(now, in_flight_lookups[key@]) as Nanos)
        } else {
            None
        },
        _ => None,
    }
}

/// How a dial came out.
#[derive(Debug, Clone, Copy, PartialEq, Eq)]
pub enum DialOutcome {
    /// New connection was established.
    Established,
    /// Already connected to node.
    AlreadyConnected,
    /// Connection limit reached.
    LimitReached,
}

/// How a dial came out, by whether it was started. Every failure to start one counts as the limit
/// of connections.
pub fn dial_outcome<E>(dialed: Result<bool, E>) -> (res: DialOutcome)
    ensures
        res == (match dialed {
            Ok(true) => DialOutcome::Established,
            Ok(false) => DialOutcome::AlreadyConnected,
            Err(_) => DialOutcome::LimitReached,
        }),
{
    match dialed {
        Ok(true) => DialOutcome::Established,
        Ok(false) => DialOutcome::AlreadyConnected,
        Err(_) => DialOutcome::LimitReached,
    }
}

/// What the exporter is told.
#[derive(Debug)]
pub enum PollEvent {
    /// The tick is not due yet.
    TickPending,
    /// The tick is due. The next one has been set to be due after [`TICK_INTERVAL`].
    TickDue,
    /// A peer was dialed.
    Dialed { peer: PeerId, outcome: DialOutcome },
    /// A look-up of a random peer was started.
    LookupStarted { peer: PeerId, now: Nanos },
    /// The state of the network was read.
    NetworkRead(NetworkInfo),
    /// The client has reported an event.
    Client { event: ClientEvent, now: Nanos },
    /// The duration of a look-up was observed.
    LookupObserved,
    /// The client has nothing to report for now.
    ClientPending,
    /// The client will not report any more.
    ClientClosed,
}

/// What is to be done for the exporter.
#[derive(Debug, PartialEq, Eq)]
pub enum PollAction {
    /// Dial a peer.
    Dial(PeerId),
    /// Start a look-up of a random peer.
    StartLookup,
    /// Read the state of the network.
    ReadNetwork,
    /// Ask the client for an event.
    PollClient,
    /// Observe how long a random look-up took, which has just returned.
    ObserveLookup(Nanos),
    /// Wait until there is something new.
    Wait,
    /// End.
    Finish,
}

/// Whether the exporter can be told of an event.
pub open spec fn can_be_told(event: PollEvent) -> bool {
    match event {
        PollEvent::NetworkRead(info) => info.num_peers <= i64::MAX,
        PollEvent::Client { event, .. } => can_occur(event),
        _ => true,
    }
}

/// Whether an exporter that is told of an event goes from one state to another, and asks for an
/// action.
pub open spec fn polled<F: Fn(u32) -> Option<String>>(
    before: ExporterView,
    after: ExporterView,
    ip_db: Option<Seq<u8>>,
    providers: Option<F>,
    event: PollEvent,
    action: PollAction,
) -> bool {
    match event {
        PollEvent::TickPending => after == before && action == PollAction::PollClient,
        PollEvent::TickDue => if before.to_probe.len() > 0 {
            &&& action matches PollAction::Dial(peer) && peer@ == before.to_probe.last()
            &&& after == ExporterView { to_probe: before.to_probe.drop_last(), ..before }
        } else {
            &&& action == PollAction::StartLookup
            &&& after.to_probe.no_duplicates()
            &&& after.to_probe.to_set() == before.store.nodes.dom()
            &&& after == ExporterView { to_probe: after.to_probe, ..before }
        },
        PollEvent::Dialed { peer, outcome } => {
            &&& action == PollAction::StartLookup
            &&& after == match outcome {
                DialOutcome::Established => ExporterView {
                    metrics: before.metrics.online_check_triggered(),
                    ..before
                },
                DialOutcome::AlreadyConnected => before,
                DialOutcome::LimitReached => ExporterView {
                    to_probe: seq![peer@] + before.to_probe,
                    ..before
                },
            }
        },
        PollEvent::LookupStarted { peer, now } => {
            &&& action == PollAction::ReadNetwork
            &&& after == ExporterView {
                metrics: before.metrics.lookup_triggered(),
                in_flight_lookups: before.in_flight_lookups.insert(peer@, now),
                ..before
            }
        },
        PollEvent::NetworkRead(info) => {
            &&& action == PollAction::PollClient
            &&& after == ExporterView { metrics: before.metrics.network_read(info), ..before }
        },
        PollEvent::Client { event, now } => {
            &&& action == match lookup_duration(before.in_flight_lookups, event, now) {
                Some(duration) => PollAction::ObserveLookup(duration),
                None => PollAction::PollClient,
            }
            &&& recorded(before, after, ip_db, providers, event, now)
        },
        PollEvent::LookupObserved => after == before && action == PollAction::PollClient,
        PollEvent::ClientPending => after == before && action == PollAction::Wait,
        PollEvent::ClientClosed => after == before && action == PollAction::Finish,
    }
}

impl<F> View for Exporter<F> {
    type V = ExporterView;

    closed spec fn view(&self) -> ExporterView {
        ExporterView {
            store: self.node_store@,
            in_flight_lookups: self.in_flight_lookups@,
            metrics: self.metrics@,
            to_probe: peer_seq(self.nodes_to_probe_periodically@),
        }
    }
}

impl<F: Fn(u32) -> Option<String>> Exporter<F> {
    /// The bytes of the database of countries, if there is one.
    pub closed spec fn ip_database(self) -> Option<Seq<u8>> {
        match self.ip_db {
            Some(db) => Some(database(db)),
            None => None,
        }
    }

    /// The look-up of cloud providers, if there is one.
    pub closed spec fn providers(self) -> Option<F> {
        self.cloud_provider_db
    }

    /// The exporter is sound: its collections are, and the look-up of providers takes any address.
    pub closed spec fn wf(self) -> bool {
        &&& self.node_store.wf()
        &&& self.in_flight_lookups.wf()
        &&& self.cloud_provider_db matches Some(lookup) ==> forall|ip: u32| #[trigger]
            call_requires(lookup, (ip,))
    }

    /// What a sound exporter is, in terms of its view.
    pub proof fn lemma_wf(self)
        requires
            self.wf(),
        ensures
            self@.store.wf(),
    {
        self.node_store.lemma_wf();
    }

    /// An exporter that has seen nothing yet. Its metrics are registered with a registry of their
    /// own, which is made within the given one and puts the exporter's name before theirs.
    pub fn new(
        ip_db: Option<IpDb>,
        cloud_provider_db: Option<F>,
        registry: &mut Registry,
    ) -> (res: Self)
        requires
            cloud_provider_db matches Some(lookup) ==> forall|ip: u32| #[trigger]
                call_requires(lookup, (ip,)),
        ensures
            res.wf(),
            res@.store == NodeStoreView::empty(),
            res@.in_flight_lookups == Map::<Seq<u8>, Nanos>::empty(),
            res@.metrics.is_fresh(),
            instruments_differ(res@.metrics.registrations()),
            registered(*final(registry)) == registered(*old(registry)),
            registry_prefix(*final(registry)) == registry_prefix(*old(registry)),
            sub_registries(*final(registry)).len() == sub_registries(*old(registry)).len() + 1,
            sub_registries(*final(registry)).drop_last() == sub_registries(*old(registry)),
            registered(sub_registries(*final(registry)).last()) == res@.metrics.registrations(),
            registry_prefix(sub_registries(*final(registry)).last()) == Some(
                joined_prefix(registry_prefix(*old(registry)), "kademlia_exporter"@),
            ),
            res@.to_probe == Seq::<Seq<u8>>::empty(),
            res.providers() == cloud_provider_db,
            res.ip_database() == (match ip_db {
                Some(db) => Some(database(db)),
                None => None,
            }),
    {
        let metrics = Metrics::register(exporter_registry(registry));
        let res = Exporter {
            node_store: NodeStore::default(),
            ip_db,
            cloud_provider_db,
            in_flight_lookups: AssocMap::new(),
            metrics,
            nodes_to_probe_periodically: Vec::new(),
        };
        assert(res@.to_probe =~= Seq::<Seq<u8>>::empty());
        res
    }

    /// How many random look-ups have not returned yet.
    pub fn lookups_in_flight(&self) -> (res: usize)
        requires
            self.wf(),
        ensures
            res == self@.in_flight_lookups.dom().len(),
    {
        self.in_flight_lookups.len()
    }

    /// How many nodes are known.
    pub fn node_count(&self) -> (res: usize)
        requires
            self.wf(),
        ensures
            res == self@.store.nodes.dom().len(),
    {
        self.node_store.len()
    }

    /// Shows what is known of the nodes.
    pub fn collect(&mut self, now: Nanos) -> (res: Vec<Metric>)
        requires
            old(self).wf(),
            old(self)@.store.nodes.dom().len() <= i64::MAX,
        ensures
            final(self).wf(),
            final(self)@ == (ExporterView {
                store: old(self)@.store.without_offline(now),
                ..old(self)@
            }),
            final(self).ip_database() == old(self).ip_database(),
            final(self).providers() == old(self).providers(),
            is_collection(res@, final(self)@.store, now),
    {
        self.node_store.collect(now)
    }

    /// The cloud provider of the first address that has one.
    pub fn multiaddresses_to_cloud_provider(&self, addresses: &Vec<Multiaddr>) -> (res: Option<
        String,
    >)
        requires
            self.wf(),
        ensures
            first_provider(self.providers(), addresses@, res),
    {
        let mut i: usize = 0;
        while i < addresses.len()
            invariant
                self.wf(),
                i <= addresses@.len(),
                forall|j: int|
                    0 <= j < i ==> provider_answer(
                        self.providers(),
                        components(#[trigger] addresses@[j]),
                        None,
                    ),
            decreases addresses@.len() - i,
        {
            let provider = self.multiaddress_to_cloud_provider(&addresses[i]);
            if provider.is_some() {
                assert(provider_found_at(self.providers(), addresses@, i as int, provider));
                return provider;
            }
            i = i + 1;
        }
        assert(provider_found_at(self.providers(), addresses@, i as int, None));
        None
    }

    /// The cloud provider of an address that starts with an IPv4 address.
    pub fn multiaddress_to_cloud_provider(&self, address: &Multiaddr) -> (res: Option<String>)
        requires
            self.wf(),
        ensures
            provider_answer(self.providers(), components(*address), res),
    {
        match leading_ip_address(address) {
            Some(IpAddress::V4(ip)) => match &self.cloud_provider_db {
                Some(lookup) => lookup(ip),
                None => None,
            },
            _ => None,
        }
    }

    /// The country of the first address that has one.
    pub fn multiaddresses_to_country_code(&self, addresses: &Vec<Multiaddr>) -> (res: Option<
        String,
    >)
        requires
            self.wf(),
        ensures
            text_of(res) == first_country(self.ip_database(), addresses@),
    {
        let mut i: usize = 0;
        assert(addresses@.skip(0) =~= addresses@);
        while i < addresses.len()
            invariant
                self.wf(),
                i <= addresses@.len(),
                first_country(self.ip_database(), addresses@) == first_country(
                    self.ip_database(),
                    addresses@.skip(i as int),
                ),
            decreases addresses@.len() - i,
        {
            let country = self.multiaddress_to_country_code(&addresses[i]);
            if country.is_some() {
                return country;
            }
            assert(addresses@.skip(i as int).drop_first() =~= addresses@.skip(i + 1));
            i = i + 1;
        }
        None
    }

    /// The country of an address that starts with an IP address.
    pub fn multiaddress_to_country_code(&self, address: &Multiaddr) -> (res: Option<String>)
        requires
            self.wf(),
        ensures
            text_of(res) == country_of(self.ip_database(), components(*address)),
    {
        match leading_ip_address(address) {
            Some(ip) => match &self.ip_db {
                Some(db) => db.country(ip),
                None => None,
            },
            None => None,
        }
    }

    /// Records that a peer was observed at some addresses.
    fn observe_with_address(&mut self, peer: PeerId, addresses: &Vec<Multiaddr>, now: Nanos)
        requires
            old(self).wf(),
        ensures
            final(self).wf(),
            final(self).ip_database() == old(self).ip_database(),
            final(self).providers() == old(self).providers(),
            final(self)@ == (ExporterView { store: final(self)@.store, ..old(self)@ }),
            observed_at(
                old(self)@.store,
                final(self)@.store,
                old(self).ip_database(),
                old(self).providers(),
                peer@,
                addresses@,
                now,
            ),
    {
        let mut node = Node::new(peer, now);
        if let Some(country) = self.multiaddresses_to_country_code(addresses) {
            node = node.with_country(country);
        }
        let provider = self.multiaddresses_to_cloud_provider(addresses);
        let ghost answer = provider;
        if let Some(provider) = provider {
            node = node.with_cloud_provider(provider);
        }
        proof {
            assert(first_provider(self.providers(), addresses@, answer));
            assert(is_located(
                node@,
                self.ip_database(),
                self.providers(),
                peer@,
                addresses@,
                now,
            ));
        }
        self.node_store.observed_node(node);
    }

    /// Drops the entry of a look-up that has returned. Tells how long it took, if it was in flight.
    fn drop_lookup(&mut self, key: &PeerId, now: Nanos) -> (res: Option<Nanos>)
        requires
            old(self).wf(),
        ensures
            final(self).wf(),
            final(self).ip_database() == old(self).ip_database(),
            final(self).providers() == old(self).providers(),
            final(self)@ == (ExporterView {
                in_flight_lookups: old(self)@.in_flight_lookups.remove(key@),
                ..old(self)@
            }),
            res == (if old(self)@.in_flight_lookups.contains_key(key@) {
                Some(elapsed(now, old(self)@.in_flight_lookups[key@]) as Nanos)
            } else {
                None
            }),
    {
        match self.in_flight_lookups.position(key) {
            Some(i) => {
                let started: Nanos = *self.in_flight_lookups.value_at(i);
                self.in_flight_lookups.remove_at(i);
                Some(time_since(now, started))
            },
            None => {
                assert(self@.in_flight_lookups =~= self@.in_flight_lookups.remove(key@));
                None
            },
        }
    }

    /// Records what an event of the client says of the nodes. Tells how long a random look-up took
    /// if the event says that it has returned.
    pub fn record_event(&mut self, event: ClientEvent, now: Nanos) -> (res: Option<Nanos>)
        requires
            old(self).wf(),
            can_occur(event),
        ensures
            final(self).wf(),
            final(self).ip_database() == old(self).ip_database(),
            final(self).providers() == old(self).providers(),
            recorded(
                old(self)@,
                final(self)@,
                old(self).ip_database(),
                old(self).providers(),
                event,
                now,
            ),
            res == lookup_duration(old(self)@.in_flight_lookups, event, now),
    {
        let mut duration: Option<Nanos> = None;
        match event {
            ClientEvent::Behaviour(event) => match event {
                MyBehaviourEvent::Ping { peer, answered } => {
                    // Update node store.
                    if answered {
                        self.node_store.observed_node(Node::new(peer, now));
                    } else {
                        self.node_store.observed_down(&peer);
                    }
                },
                MyBehaviourEvent::Identify(event) => match event {
                    IdentifyEvent::Received { peer_id, listen_addrs } => {
                        self.observe_with_address(peer_id.clone(), &listen_addrs, now);
                        self.node_store.observed_node(Node::new(peer_id, now));
                    },
                    _ => {},
                },
                MyBehaviourEvent::Kademlia(event) => match event {
                    KademliaEvent::RoutablePeer { peer, address } => {
                        let mut addresses: Vec<Multiaddr> = Vec::new();
                        addresses.push(address);
                        assert(addresses@ =~= seq![address]);
                        self.observe_with_address(peer, &addresses, now);
                    },
                    KademliaEvent::PendingRoutablePeer { peer, address } => {
                        let mut addresses: Vec<Multiaddr> = Vec::new();
                        addresses.push(address);
                        assert(addresses@ =~= seq![address]);
                        self.observe_with_address(peer, &addresses, now);
                    },
                    KademliaEvent::RoutingUpdated { peer, addresses } => {
                        self.observe_with_address(peer, &addresses, now);
                    },
                    KademliaEvent::ClosestPeersReturned { key } => {
                        duration = self.drop_lookup(&key, now);
                    },
                    KademliaEvent::Other => {},
                },
            },
            ClientEvent::AllConnectionsClosed(peer_id) => {
                self.node_store.observed_down(&peer_id);
            },
        }
        duration
    }

    /// Takes note of an event, and says what is to be done next.
    ///
    /// On a tick, a peer is probed, or the list of peers to probe is filled anew if every peer has
    /// been probed. Then a look-up of a random peer is started and the state of the network is
    /// read. After that, and where no tick is due, the events of the client are recorded. The
    /// duration of each random look-up that has returned is handed out to be observed.
    pub fn poll(&mut self, event: PollEvent) -> (res: PollAction)
        requires
            old(self).wf(),
            can_be_told(event),
        ensures
            final(self).wf(),
            final(self).ip_database() == old(self).ip_database(),
            final(self).providers() == old(self).providers(),
            polled(
                old(self)@,
                final(self)@,
                old(self).ip_database(),
                old(self).providers(),
                event,
                res,
            ),
    {
        let ghost before = self@;
        match event {
            PollEvent::TickPending => PollAction::PollClient,
            PollEvent::TickDue => match self.nodes_to_probe_periodically.pop() {
                Some(peer) => {
                    assert(self@.to_probe =~= before.to_probe.drop_last());
                    PollAction::Dial(peer)
                },
                // List is empty. Reconnected to every peer. Refill the list.
                None => {
                    let mut peers = self.node_store.peers();
                    let ghost refill = peer_seq(peers@);
                    self.nodes_to_probe_periodically.append(&mut peers);
                    assert(self@.to_probe =~= refill);
                    PollAction::StartLookup
                },
            },
            PollEvent::Dialed { peer, outcome } => {
                match outcome {
                    DialOutcome::Established => self.metrics.count_online_check(),
                    DialOutcome::AlreadyConnected => {},
                    // Retry later.
                    DialOutcome::LimitReached => {
                        self.nodes_to_probe_periodically.insert(0, peer);
                        assert(self@.to_probe =~= seq![peer@] + before.to_probe);
                    },
                }
                PollAction::StartLookup
            },
            PollEvent::LookupStarted { peer, now } => {
                self.metrics.count_lookup();
                self.in_flight_lookups.insert(peer, now);
                PollAction::ReadNetwork
            },
            PollEvent::NetworkRead(info) => {
                self.metrics.set_network_info(&info);
                PollAction::PollClient
            },
            PollEvent::Client { event, now } => {
                match self.record_event(event, now) {
                    Some(duration) => PollAction::ObserveLookup(duration),
                    None => PollAction::PollClient,
                }
            },
            PollEvent::LookupObserved => PollAction::PollClient,
            PollEvent::ClientPending => PollAction::Wait,
            PollEvent::ClientClosed => PollAction::Finish,
        }
    }
}

} // verus!
