//! What is known of a single node.

use crate::peer::PeerId;
use crate::time::Nanos;
use vstd::prelude::*;

verus! {

/// What has been observed of a node.
#[derive(Debug)]
pub struct Node {
    pub peer_id: PeerId,
    pub country: Option<String>,
    pub provider: Option<String>,
    pub last_seen: Nanos,
    pub up_since: Option<Nanos>,
}

/// A [`Node`] as contracts speak of it.
pub struct NodeView {
    pub peer_id: Seq<u8>,
    pub country: Option<Seq<char>>,
    pub provider: Option<Seq<char>>,
    pub last_seen: Nanos,
    pub up_since: Option<Nanos>,
}

/// The characters of an optional text.
pub open spec fn text_of(text: Option<String>) -> Option<Seq<char>> {
    match text {
        Some(text) => Some(text@),
        None => None,
    }
}

impl View for Node {
    type V = NodeView;

    open spec fn view(&self) -> NodeView {
        NodeView {
            peer_id: self.peer_id@,
            country: text_of(self.country),
            provider: text_of(self.provider),
            last_seen: self.last_seen,
            up_since: self.up_since,
        }
    }
}

impl NodeView {
    /// A node of which only that it answers at `now` is known.
    pub open spec fn fresh(peer_id: Seq<u8>, now: Nanos) -> NodeView {
        NodeView { peer_id, country: None, provider: None, last_seen: now, up_since: Some(now) }
    }

    /// What is known of a node after a second observation of it.
    ///
    /// The country and the start of the uptime stay as they are once they are known, the provider
    /// stays as it is in any case, and the later sighting counts.
    pub open spec fn merged(self, other: NodeView) -> NodeView {
        NodeView {
            peer_id: self.peer_id,
            country: if self.country is Some {
                self.country
            } else {
                other.country
            },
            provider: self.provider,
            last_seen: if self.last_seen < other.last_seen {
                other.last_seen
            } else {
                self.last_seen
            },
            up_since: if self.up_since is Some {
                self.up_since
            } else {
                other.up_since
            },
        }
    }

    /// What is known of a node that has gone down.
    pub open spec fn gone_down(self) -> NodeView {
        NodeView { up_since: None, ..self }
    }
}

impl Node {
    /// A node that answers at `now`.
    pub fn new(peer_id: PeerId, now: Nanos) -> (res: Self)
        ensures
            res@ == NodeView::fresh(peer_id@, now),
    {
        Node { peer_id, country: None, provider: None, last_seen: now, up_since: Some(now) }
    }

    /// The node, with the country that it is in.
    pub fn with_country(self, country: String) -> (res: Self)
        ensures
            res@ == (NodeView { country: Some(country@), ..self@ }),
    {
        let mut node = self;
        node.country = Some(country);
        node
    }

    /// The node, with the cloud provider that it runs at.
    pub fn with_cloud_provider(self, provider: String) -> (res: Self)
        ensures
            res@ == (NodeView { provider: Some(provider@), ..self@ }),
    {
        let mut node = self;
        node.provider = Some(provider);
        node
    }

    /// Adds what another observation of the same node says.
    pub fn merge(&mut self, other: Node)
        ensures
            final(self)@ == old(self)@.merged(other@),
    {
        if self.country.is_none() {
            self.country = other.country;
        }
        if self.up_since.is_none() {
            self.up_since = other.up_since;
        }
        if self.last_seen < other.last_seen {
            self.last_seen = other.last_seen;
        }
    }
}

} // verus!
