//! Counters of what the network behaviours report.

use crate::assoc_map::AssocMap;
use crate::labels::{count_pair, count_up, counted, LabelCounts, LabelPair};
use crate::peer::PeerId;
use libp2p::Multiaddr;
use vstd::prelude::*;

verus! {

/// How far a counter or a gauge counts: up to the number after which a floating-point value in
/// double precision cannot hold the next one.
pub const COUNT_LIMIT: u64 = 9_007_199_254_740_992;

/// What mDNS reports.
#[derive(Debug)]
pub enum MdnsEvent {
    /// Peers were discovered, each at an address.
    Discovered(Vec<(PeerId, Multiaddr)>),
    Expired,
}

/// What identify reports.
#[derive(Debug, Clone, Copy, PartialEq, Eq)]
pub enum IdentifyEvent {
    Error,
    Sent,
    Received,
}

/// What Kademlia reports.
#[derive(Debug, PartialEq, Eq)]
pub enum KademliaEvent {
    BootstrapResult,
    GetClosestPeersResult,
    GetProvidersResult,
    StartProvidingResult,
    RepublishProviderResult,
    GetRecordResult,
    PutRecordResult,
    RepublishRecordResult,
    Discovered,
    /// A peer was put into the routing table, maybe in place of another one.
    RoutingUpdated { old_peer: Option<PeerId> },
    UnroutablePeer,
}

/// What one of the behaviours reports.
#[derive(Debug)]
pub enum BehaviourEvent {
    Mdns(MdnsEvent),
    Ping,
    Identify(IdentifyEvent),
    Kademlia(KademliaEvent),
}

/// The labels under which an event is counted: the behaviour and the kind of event.
pub open spec fn event_labels(event: BehaviourEvent) -> (Seq<char>, Seq<char>) {
    match event {
        BehaviourEvent::Mdns(event) => match event {
            MdnsEvent::Discovered(_) => ("mdns"@, "discovered"@),
            MdnsEvent::Expired => ("mdns"@, "expired"@),
        },
        BehaviourEvent::Ping => ("ping"@, "ping_event"@),
        BehaviourEvent::Identify(event) => match event {
            IdentifyEvent::Error => ("identify"@, "error"@),
            IdentifyEvent::Sent => ("identify"@, "sent"@),
            IdentifyEvent::Received => ("identify"@, "received"@),
        },
        BehaviourEvent::Kademlia(event) => match event {
            KademliaEvent::BootstrapResult => ("kad"@, "bootstrap"@),
            KademliaEvent::GetClosestPeersResult => ("kad"@, "get_closest_peers"@),
            KademliaEvent::GetProvidersResult => ("kad"@, "get_providers"@),
            KademliaEvent::StartProvidingResult => ("kad"@, "start_providing"@),
            KademliaEvent::RepublishProviderResult => ("kad"@, "republish_provider"@),
            KademliaEvent::GetRecordResult => ("kad"@, "get_record"@),
            KademliaEvent::PutRecordResult => ("kad"@, "put_record"@),
            KademliaEvent::RepublishRecordResult => ("kad"@, "republish_record"@),
            KademliaEvent::Discovered => ("kad"@, "discovered"@),
            KademliaEvent::RoutingUpdated { .. } => ("kad"@, "routing_updated"@),
            KademliaEvent::UnroutablePeer => ("kad"@, "unroutable_peer"@),
        },
    }
}

/// Whether an event says that a peer was put into the routing table without taking another one's
/// place.
pub open spec fn is_new_in_table(event: BehaviourEvent) -> bool {
    event matches BehaviourEvent::Kademlia(KademliaEvent::RoutingUpdated { old_peer })
        && old_peer is None
}

/// The size of the routing table after an event. Nothing lowers it.
pub open spec fn size_after(size: u64, event: BehaviourEvent) -> u64 {
    if is_new_in_table(event) {
        count_up(size, COUNT_LIMIT)
    } else {
        size
    }
}

/// The peers that an event says were discovered, each with its address.
pub open spec fn discovered_peers(event: BehaviourEvent) -> Seq<(PeerId, Multiaddr)> {
    match event {
        BehaviourEvent::Mdns(MdnsEvent::Discovered(list)) => list@,
        _ => Seq::empty(),
    }
}

/// The labels under which an event is counted.
fn labels_of(event: &BehaviourEvent) -> (res: LabelPair)
    ensures
        res@ == event_labels(*event),
{
    let (behaviour, kind) = match event {
        BehaviourEvent::Mdns(event) => match event {
            MdnsEvent::Discovered(_) => ("mdns", "discovered"),
            MdnsEvent::Expired => ("mdns", "expired"),
        },
        BehaviourEvent::Ping => ("ping", "ping_event"),
        BehaviourEvent::Identify(event) => match event {
            IdentifyEvent::Error => ("identify", "error"),
            IdentifyEvent::Sent => ("identify", "sent"),
            IdentifyEvent::Received => ("identify", "received"),
        },
        BehaviourEvent::Kademlia(event) => match event {
            KademliaEvent::BootstrapResult => ("kad", "bootstrap"),
            KademliaEvent::GetClosestPeersResult => ("kad", "get_closest_peers"),
            KademliaEvent::GetProvidersResult => ("kad", "get_providers"),
            KademliaEvent::StartProvidingResult => ("kad", "start_providing"),
            KademliaEvent::RepublishProviderResult => ("kad", "republish_provider"),
            KademliaEvent::GetRecordResult => ("kad", "get_record"),
            KademliaEvent::PutRecordResult => ("kad", "put_record"),
            KademliaEvent::RepublishRecordResult => ("kad", "republish_record"),
            KademliaEvent::Discovered => ("kad", "discovered"),
            KademliaEvent::RoutingUpdated { .. } => ("kad", "routing_updated"),
            KademliaEvent::UnroutablePeer => ("kad", "unroutable_peer"),
        },
    };
    LabelPair { first: behaviour.to_string(), second: kind.to_string() }
}

/// The counters of the behaviours.
#[derive(Debug)]
pub struct MyBehaviour {
    /// How many events of each kind each behaviour has reported.
    pub event_counter: LabelCounts,
    /// How many peers were put into Kademlia's routing table without taking another one's place.
    pub kad_kbuckets_size: u64,
}

impl MyBehaviour {
    /// The counters are sound: no kind of event is counted twice over.
    pub open spec fn wf(self) -> bool {
        self.event_counter.wf()
    }

    /// Counters that have counted nothing.
    pub fn new() -> (res: Self)
        ensures
            res.wf(),
            res.event_counter@ == Map::<(Seq<char>, Seq<char>), u64>::empty(),
            res.kad_kbuckets_size == 0,
    {
        MyBehaviour { event_counter: AssocMap::new(), kad_kbuckets_size: 0 }
    }

    /// How often a kind of event of a behaviour has been counted.
    pub fn count_of(&self, labels: &LabelPair) -> (res: u64)
        requires
            self.wf(),
        ensures
            res == if self.event_counter@.contains_key(labels@) {
                self.event_counter@[labels@]
            } else {
                0
            },
    {
        match self.event_counter.position(labels) {
            Some(i) => *self.event_counter.value_at(i),
            None => 0,
        }
    }

    /// Counts an event of a behaviour. Hands out the peers that Kademlia is to be told of, each
    /// with its address.
    pub fn inject_event(&mut self, event: BehaviourEvent) -> (res: Vec<(PeerId, Multiaddr)>)
        requires
            old(self).wf(),
        ensures
            final(self).wf(),
            final(self).event_counter@ == counted(
                old(self).event_counter@,
                event_labels(event),
                COUNT_LIMIT,
            ),
            final(self).kad_kbuckets_size == size_after(old(self).kad_kbuckets_size, event),
            res@ == discovered_peers(event),
    {
        count_pair(&mut self.event_counter, labels_of(&event), COUNT_LIMIT);
        match event {
            BehaviourEvent::Mdns(MdnsEvent::Discovered(list)) => list,
            BehaviourEvent::Kademlia(KademliaEvent::RoutingUpdated { old_peer }) => {
                // Check if it is a new node, or just an update to a node.
                if old_peer.is_none() && self.kad_kbuckets_size < COUNT_LIMIT {
                    self.kad_kbuckets_size = self.kad_kbuckets_size + 1;
                }
                Vec::new()
            },
            _ => Vec::new(),
        }
    }
}

} // verus!
