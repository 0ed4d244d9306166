//! What the functions on maps, labels and counters give back, said of what goes into them and what comes
//! out.

use crate::assoc_map::{AssocMap, MapKey};
use crate::behaviour::{BehaviourEvent, IdentifyEvent, KademliaEvent, MdnsEvent, MyBehaviour};
use crate::labels::{count_pair, decimal, decimal_text, hours_text, LabelCounts, LabelPair};
use crate::peer::PeerId;
use libp2p::Multiaddr;
use vstd::prelude::*;

verus! {

/// A map starts out empty.
pub proof fn law_new_map<K: MapKey, T>(res: AssocMap<K, T>)
    requires
        call_ensures(AssocMap::<K, T>::new, (), res),
    ensures
        forall|key: K::V| !#[trigger] res@.contains_key(key),
{
}

/// A key that was given a value has this value, and every other key has what it had.
pub proof fn law_map_insert<K: MapKey, T>(map: &mut AssocMap<K, T>, key: K, value: T)
    requires
        call_ensures(AssocMap::<K, T>::insert, (map, key, value), ()),
    ensures
        final(map)@.contains_key(key@),
        final(map)@[key@] == value,
        forall|other: K::V|
            other != key@ ==> (#[trigger] final(map)@.contains_key(other) <==> old(
                map,
            )@.contains_key(other)),
        forall|other: K::V|
            other != key@ && #[trigger] final(map)@.contains_key(other) ==> final(map)@[other]
                == old(map)@[other],
{
}

/// A key that is found has its value at the place where it is found, and taking it out there takes
/// out this key and no other.
pub proof fn law_map_find_and_remove<K: MapKey, T>(
    map: &mut AssocMap<K, T>,
    key: K,
    found: Option<usize>,
    value: &T,
)
    requires
        old(map).wf(),
        call_ensures(AssocMap::<K, T>::position, (old(map), &key), found),
        found matches Some(i) ==> call_ensures(AssocMap::<K, T>::value_at, (old(map), i), value)
            && call_ensures(AssocMap::<K, T>::remove_at, (map, i), ()),
    ensures
        found is Some <==> old(map)@.contains_key(key@),
        found is Some ==> *value == old(map)@[key@],
        found is Some ==> !final(map)@.contains_key(key@),
        found is Some ==> forall|other: K::V|
            other != key@ ==> (#[trigger] final(map)@.contains_key(other) <==> old(
                map,
            )@.contains_key(other)),
        found is Some ==> forall|other: K::V| #[trigger]
            final(map)@.contains_key(other) ==> final(map)@[other] == old(map)@[other],
{
}

/// The length of a map is the number of its keys.
pub proof fn law_map_len<K: MapKey, T>(map: AssocMap<K, T>, res: usize)
    requires
        call_ensures(AssocMap::<K, T>::len, (&map,), res),
    ensures
        res == map@.dom().len(),
{
}

/// The number that a text is read as, digit by digit.
pub open spec fn read_number(text: Seq<char>) -> int
    decreases text.len(),
{
    if text.len() == 0 {
        0
    } else {
        10 * read_number(text.drop_last()) + (text.last() as int - '0' as int)
    }
}

/// Whether a text is made of digits, and does not start with a nought that it could do without.
pub open spec fn is_number(text: Seq<char>) -> bool {
    &&& text.len() > 0
    &&& text.len() > 1 ==> text[0] != '0'
    &&& forall|i: int| 0 <= i < text.len() ==> '0' <= #[trigger] text[i] <= '9'
}

proof fn lemma_decimal(n: nat)
    ensures
        is_number(decimal(n)),
        read_number(decimal(n)) == n,
        n > 0 ==> decimal(n)[0] != '0',
    decreases n,
{
    let text = decimal(n);
    if n < 10 {
        assert(text.drop_last() =~= Seq::<char>::empty());
        assert(read_number(text.drop_last()) == 0);
    } else {
        lemma_decimal(n / 10);
        assert(text.drop_last() =~= decimal(n / 10));
        assert forall|i: int| 0 <= i < text.len() implies '0' <= #[trigger] text[i] <= '9' by {
            if i < text.len() - 1 {
                assert(text[i] == decimal(n / 10)[i]);
            }
        }
        assert(text[0] == decimal(n / 10)[0]);
    }
}

/// The text of a number is read back as the number.
pub proof fn law_decimal_text(n: u64, res: String)
    requires
        call_ensures(decimal_text, (n,), res),
    ensures
        is_number(res@),
        read_number(res@) == n,
{
    lemma_decimal(n as nat);
}

/// The text of a span of time is the number of its whole hours, and an `h`.
pub proof fn law_hours_text(span: u64, res: String)
    requires
        call_ensures(hours_text, (span,), res),
    ensures
        res@.len() > 1,
        res@[res@.len() - 1] == 'h',
        is_number(res@.take(res@.len() - 1)),
        read_number(res@.take(res@.len() - 1)) * 3_600_000_000_000 <= span,
        span < (read_number(res@.take(res@.len() - 1)) + 1) * 3_600_000_000_000,
{
    reveal_strlit("h");
    let hours = (span / 3_600_000_000_000) as nat;
    lemma_decimal(hours);
    assert(res@.take(res@.len() - 1) =~= decimal(hours));
}

/// Whether one of some counts has grown by one, unless it is at its limit, and the others are the
/// same.
pub open spec fn counts_one_more(
    before: Map<(Seq<char>, Seq<char>), u64>,
    after: Map<(Seq<char>, Seq<char>), u64>,
    labels: (Seq<char>, Seq<char>),
    limit: u64,
) -> bool {
    &&& after.contains_key(labels)
    &&& after[labels] == {
        let count = if before.contains_key(labels) {
            before[labels] as int
        } else {
            0
        };
        if count < limit {
            count + 1
        } else {
            count
        }
    }
    &&& forall|other: (Seq<char>, Seq<char>)|
        other != labels ==> (#[trigger] after.contains_key(other) <==> before.contains_key(other))
    &&& forall|other: (Seq<char>, Seq<char>)|
        other != labels && #[trigger] after.contains_key(other) ==> after[other] == before[other]
}

/// Counting a pair of labels raises its count by one, up to a limit, and no other.
pub proof fn law_count_pair(counts: &mut LabelCounts, pair: LabelPair, limit: u64)
    requires
        call_ensures(count_pair, (counts, pair, limit), ()),
    ensures
        counts_one_more(old(counts)@, final(counts)@, (pair.first@, pair.second@), limit),
{
}

/// The name of the behaviour that an event is of, and that of what has happened.
pub open spec fn names_of(event: BehaviourEvent) -> (Seq<char>, Seq<char>) {
    match event {
        BehaviourEvent::Mdns(MdnsEvent::Discovered(_)) => ("mdns"@, "discovered"@),
        BehaviourEvent::Mdns(MdnsEvent::Expired) => ("mdns"@, "expired"@),
        BehaviourEvent::Ping => ("ping"@, "ping_event"@),
        BehaviourEvent::Identify(IdentifyEvent::Error) => ("identify"@, "error"@),
        BehaviourEvent::Identify(IdentifyEvent::Sent) => ("identify"@, "sent"@),
        BehaviourEvent::Identify(IdentifyEvent::Received) => ("identify"@, "received"@),
        BehaviourEvent::Kademlia(event) => (
            "kad"@,
            match event {
                KademliaEvent::BootstrapResult => "bootstrap"@,
                KademliaEvent::GetClosestPeersResult => "get_closest_peers"@,
                KademliaEvent::GetProvidersResult => "get_providers"@,
                KademliaEvent::StartProvidingResult => "start_providing"@,
                KademliaEvent::RepublishProviderResult => "republish_provider"@,
                KademliaEvent::GetRecordResult => "get_record"@,
                KademliaEvent::PutRecordResult => "put_record"@,
                KademliaEvent::RepublishRecordResult => "republish_record"@,
                KademliaEvent::Discovered => "discovered"@,
                KademliaEvent::RoutingUpdated { .. } => "routing_updated"@,
                KademliaEvent::UnroutablePeer => "unroutable_peer"@,
            },
        ),
    }
}

/// Counters start without having counted anything.
pub proof fn law_new_behaviour(res: MyBehaviour)
    requires
        call_ensures(MyBehaviour::new, (), res),
    ensures
        forall|labels: (Seq<char>, Seq<char>)| !#[trigger] res.event_counter@.contains_key(labels),
        res.kad_kbuckets_size == 0,
{
}

/// The count of labels is what was counted under them, and nought where nothing was.
pub proof fn law_count_of(behaviour: MyBehaviour, labels: LabelPair, res: u64)
    requires
        call_ensures(MyBehaviour::count_of, (&behaviour, &labels), res),
    ensures
        ({
            let key = (labels.first@, labels.second@);
            &&& behaviour.event_counter@.contains_key(key) ==> res
                == behaviour.event_counter@[key]
            &&& !behaviour.event_counter@.contains_key(key) ==> res == 0
        }),
{
}

/// An event is counted once, under its names and under no others. The size of the routing table
/// grows with each peer that was put into it without taking another one's place, and with nothing
/// else. Discovered peers are handed out, all of them and in order.
pub proof fn law_inject_event(
    behaviour: &mut MyBehaviour,
    event: BehaviourEvent,
    res: Vec<(PeerId, Multiaddr)>,
)
    requires
        call_ensures(MyBehaviour::inject_event, (behaviour, event), res),
    ensures
        counts_one_more(
            old(behaviour).event_counter@,
            final(behaviour).event_counter@,
            names_of(event),
            9_007_199_254_740_992,
        ),
        event matches BehaviourEvent::Kademlia(KademliaEvent::RoutingUpdated { old_peer: None })
            && old(behaviour).kad_kbuckets_size < 9_007_199_254_740_992
            ==> final(behaviour).kad_kbuckets_size == old(behaviour).kad_kbuckets_size + 1,
        !(event matches BehaviourEvent::Kademlia(KademliaEvent::RoutingUpdated { old_peer: None }))
            || old(behaviour).kad_kbuckets_size >= 9_007_199_254_740_992
            ==> final(behaviour).kad_kbuckets_size == old(behaviour).kad_kbuckets_size,
        event matches BehaviourEvent::Mdns(MdnsEvent::Discovered(list)) ==> res@ == list@,
        !(event matches BehaviourEvent::Mdns(MdnsEvent::Discovered(_))) ==> res@.len() == 0,
{
}

} // verus!
