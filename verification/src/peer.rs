//! Peer identifiers.

use crate::assoc_map::MapKey;
use vstd::prelude::*;

verus! {

/// Identifier of a peer: the bytes of its multihash.
#[derive(Debug, PartialEq, Eq)]
pub struct PeerId {
    pub bytes: Vec<u8>,
}

impl View for PeerId {
    type V = Seq<u8>;

    open spec fn view(&self) -> Seq<u8> {
        self.bytes@
    }
}

impl Clone for PeerId {
    fn clone(&self) -> (res: Self)
        ensures
            res@ == self@,
    {
        let bytes = self.bytes.clone();
        assert(bytes@ =~= self.bytes@);
        PeerId { bytes }
    }
}

impl MapKey for PeerId {
    fn same_as(&self, other: &PeerId) -> (res: bool) {
        if self.bytes.len() != other.bytes.len() {
            return false;
        }
        let mut i: usize = 0;
        while i < self.bytes.len()
            invariant
                i <= self.bytes@.len(),
                self.bytes@.len() == other.bytes@.len(),
                forall|j: int| 0 <= j < i ==> self.bytes@[j] == other.bytes@[j],
            decreases self.bytes@.len() - i,
        {
            if self.bytes[i] != other.bytes[i] {
                return false;
            }
            i = i + 1;
        }
        assert(self.bytes@ =~= other.bytes@);
        true
    }
}

/// The peers of a list, in order.
pub open spec fn peer_seq(peers: Seq<PeerId>) -> Seq<Seq<u8>> {
    peers.map_values(|peer: PeerId| peer@)
}

} // verus!
