//! The table of connected peers.
use crate::hash::BlockHash;
use crate::message::{BlockNumber, NodeIndex};
use crate::model::PeersView;
use crate::peer::{PeerSync, PeerSyncState, PeerView};
use std::collections::HashMap;
use vstd::prelude::*;

verus! {

broadcast use vstd::std_specs::hash::group_hash_axioms;

/// The connected peers, by their index.
pub struct PeerTable<H: BlockHash> {
    peers: HashMap<NodeIndex, PeerSync<H>>,
}

/// The peers with their announcements as sequences.
spec fn viewed<H>(peers: Map<NodeIndex, PeerSync<H>>) -> PeersView<H> {
    peers.map_values(|peer: PeerSync<H>| peer@)
}

/// The peer is in the table.
spec fn is_member<H>(peers: PeersView<H>, peer: PeerView<H>) -> bool {
    exists|who: NodeIndex| #[trigger] peers.contains_key(who) && peers[who] == peer
}

/// A walk over the values of the table meets the peers and nothing else.
proof fn lemma_walk<H>(peers: Map<NodeIndex, PeerSync<H>>, values: Seq<&PeerSync<H>>)
    requires
        values.unref().to_set() == peers.values(),
    ensures
        forall|i: int|
            0 <= i < values.len() ==> is_member(viewed(peers), (#[trigger] values[i])@),
        forall|who: NodeIndex| #[trigger]
            viewed(peers).contains_key(who) ==> exists|i: int|
                0 <= i < values.len() && viewed(peers)[who] == (#[trigger] values[i])@,
{
    assert forall|i: int| 0 <= i < values.len() implies is_member(
        viewed(peers),
        (#[trigger] values[i])@,
    ) by {
        assert(values.unref()[i] == *values[i]);
        assert(values.unref().to_set().contains(*values[i]));
        let who = choose|who: NodeIndex| peers.contains_key(who) && peers[who] == *values[i];
        assert(viewed(peers).contains_key(who));
    }
    assert forall|who: NodeIndex| #[trigger] viewed(peers).contains_key(who) implies exists|i: int|
        0 <= i < values.len() && viewed(peers)[who] == (#[trigger] values[i])@ by {
        assert(peers.values().contains(peers[who]));
        assert(values.unref().to_set().contains(peers[who]));
        let i = choose|i: int| 0 <= i < values.unref().len() && values.unref()[i] == peers[who];
        assert(*values[i] == peers[who]);
    }
}

impl<H: BlockHash> View for PeerTable<H> {
    type V = PeersView<H>;

    closed spec fn view(&self) -> PeersView<H> {
        viewed(self.peers@)
    }
}

impl<H: BlockHash> PeerTable<H> {
    /// No peer.
    pub fn new() -> (table: Self)
        ensures
            table@ == Map::<NodeIndex, PeerView<H>>::empty(),
    {
        let table = PeerTable { peers: HashMap::new() };
        assert(table@ =~= Map::<NodeIndex, PeerView<H>>::empty());
        table
    }

    /// Some order of the peers.
    pub closed spec fn some_order(&self) -> Seq<NodeIndex> {
        choose|order: Seq<NodeIndex>| crate::model::is_order_of(order, self@.dom())
    }

    /// The peers can be put in an order.
    pub proof fn lemma_some_order(&self)
        ensures
            crate::model::is_order_of(self.some_order(), self@.dom()),
    {
        let order = vstd::std_specs::iter::IteratorSpec::remaining(
            &vstd::std_specs::hash::spec_keys_iter(&self.peers),
        ).unref();
        assert(self@.dom() =~= self.peers@.dom());
        assert(crate::model::is_order_of(order, self@.dom()));
    }

    /// The number of peers.
    pub fn len(&self) -> (len: usize)
        ensures
            len == self@.len(),
            self@.dom().finite(),
    {
        assert(self@.dom() =~= self.peers@.dom());
        self.peers.len()
    }

    /// The peer with this index.
    pub fn get(&self, who: NodeIndex) -> (peer: Option<&PeerSync<H>>)
        ensures
            match peer {
                Some(peer) => self@.contains_key(who) && self@[who] == peer@,
                None => !self@.contains_key(who),
            },
    {
        self.peers.get(&who)
    }

    /// Enters a peer.
    pub fn insert(&mut self, who: NodeIndex, peer: PeerSync<H>)
        ensures
            final(self)@ == old(self)@.insert(who, peer@),
    {
        self.peers.insert(who, peer);
        assert(self@ =~= old(self)@.insert(who, peer@));
    }

    /// Takes a peer out.
    pub fn remove(&mut self, who: NodeIndex) -> (peer: Option<PeerSync<H>>)
        ensures
            final(self)@ == old(self)@.remove(who),
            match peer {
                Some(peer) => old(self)@.contains_key(who) && old(self)@[who] == peer@,
                None => !old(self)@.contains_key(who),
            },
    {
        let peer = self.peers.remove(&who);
        assert(self@ =~= old(self)@.remove(who));
        peer
    }

    /// Takes all peers out.
    pub fn clear(&mut self)
        ensures
            final(self)@ == Map::<NodeIndex, PeerView<H>>::empty(),
    {
        self.peers.clear();
        assert(self@ =~= Map::<NodeIndex, PeerView<H>>::empty());
    }

    /// What a peer is busy with.
    pub fn state(&self, who: NodeIndex) -> (state: Option<PeerSyncState<H>>)
        ensures
            state == (if self@.contains_key(who) {
                Some(self@[who].state)
            } else {
                None
            }),
    {
        match self.peers.get(&who) {
            Some(peer) => Some(peer.state),
            None => None,
        }
    }

    /// Changes what a peer is busy with.
    pub fn set_state(&mut self, who: NodeIndex, state: PeerSyncState<H>)
        ensures
            final(self)@ == (if old(self)@.contains_key(who) {
                old(self)@.insert(who, old(self)@[who].with_state(state))
            } else {
                old(self)@
            }),
    {
        if let Some(mut peer) = self.remove(who) {
            peer.state = state;
            self.insert(who, peer);
            assert(self@ =~= old(self)@.insert(who, old(self)@[who].with_state(state)));
        } else {
            assert(self@ =~= old(self)@);
        }
    }

    /// The indices of the peers, in the order in which the table happens to hold them.
    pub fn ids(&self) -> (ids: Vec<NodeIndex>)
        ensures
            crate::model::is_order_of(ids@, self@.dom()),
    {
        let ghost keys = vstd::std_specs::iter::IteratorSpec::remaining(
            &vstd::std_specs::hash::spec_keys_iter(&self.peers),
        );
        let mut ids: Vec<NodeIndex> = Vec::new();
        for who in iter: self.peers.keys()
            invariant
                iter.seq() == keys,
                ids@ =~= keys.unref().take(iter.index() as int),
        {
            ids.push(*who);
        }
        assert(ids@ =~= keys.unref());
        assert(self@.dom() =~= self.peers@.dom());
        ids
    }

    /// The highest best number among the peers.
    pub fn best_number(&self) -> (best: Option<BlockNumber>)
        ensures
            crate::model::is_best_seen(self@, best),
    {
        let ghost values = vstd::std_specs::iter::IteratorSpec::remaining(
            &vstd::std_specs::hash::spec_values_iter(&self.peers),
        );
        let mut best: Option<BlockNumber> = None;
        for peer in iter: self.peers.values()
            invariant
                iter.seq() == values,
                match best {
                    Some(n) => {
                        &&& exists|i: int|
                            0 <= i < iter.index() && values[i].best_number == n
                        &&& forall|i: int|
                            0 <= i < iter.index() ==> values[i].best_number <= n
                    },
                    None => iter.index() == 0,
                },
        {
            match best {
                Some(n) if n >= peer.best_number => {},
                _ => {
                    best = Some(peer.best_number);
                },
            }
        }
        proof {
            lemma_walk(self.peers@, values);
        }
        best
    }

    /// Whether some peer announced the block lately.
    pub fn any_announced(&self, hash: &H) -> (found: bool)
        ensures
            found == exists|who: NodeIndex| #[trigger]
                self@.contains_key(who) && self@[who].recently_announced.contains(*hash),
    {
        let ghost values = vstd::std_specs::iter::IteratorSpec::remaining(
            &vstd::std_specs::hash::spec_values_iter(&self.peers),
        );
        proof {
            lemma_walk(self.peers@, values);
        }
        for peer in iter: self.peers.values()
            invariant
                iter.seq() == values,
                forall|i: int|
                    0 <= i < iter.index() ==> !(
                    #[trigger] values[i])@.recently_announced.contains(*hash),
        {
            if peer.has_announced(hash) {
                proof {
                    lemma_walk(self.peers@, values);
                }
                return true;
            }
        }
        false
    }

    /// Whether some peer is sending the block on a fork with this hash.
    pub fn any_sending_stale(&self, hash: &H) -> (found: bool)
        ensures
            found == exists|who: NodeIndex| #[trigger]
                self@.contains_key(who) && self@[who].state == PeerSyncState::DownloadingStale(
                    *hash,
                ),
    {
        let ghost values = vstd::std_specs::iter::IteratorSpec::remaining(
            &vstd::std_specs::hash::spec_values_iter(&self.peers),
        );
        proof {
            lemma_walk(self.peers@, values);
        }
        for peer in iter: self.peers.values()
            invariant
                iter.seq() == values,
                forall|i: int|
                    0 <= i < iter.index() ==> (#[trigger] values[i])@.state
                        != PeerSyncState::DownloadingStale(*hash),
        {
            if peer.is_sending_stale(hash) {
                proof {
                    lemma_walk(self.peers@, values);
                }
                return true;
            }
        }
        false
    }

    /// Tells every peer of a block that was queued for import.
    pub fn note_queued(&mut self, number: BlockNumber)
        ensures
            final(self)@ == old(self)@.map_values(|peer: PeerView<H>| peer.queued(number)),
    {
        let ids = self.ids();
        let mut i: usize = 0;
        while i < ids.len()
            invariant
                i <= ids@.len(),
                ids@.no_duplicates(),
                ids@.to_set() == old(self)@.dom(),
                self@.dom() == old(self)@.dom(),
                forall|j: int|
                    0 <= j < i ==> self@[#[trigger] ids@[j]] == old(self)@[ids@[j]].queued(number),
                forall|j: int|
                    i <= j < ids@.len() ==> self@[#[trigger] ids@[j]] == old(self)@[ids@[j]],
            decreases ids@.len() - i,
        {
            let who: NodeIndex = ids[i];
            assert(ids@.to_set().contains(ids@[i as int]));
            let ghost before = self@;
            if let Some(mut peer) = self.remove(who) {
                peer.note_queued(number);
                self.insert(who, peer);
            }
            assert(self@ =~= before.insert(who, before[who].queued(number)));
            assert(self@.dom() =~= old(self)@.dom());
            i += 1;
        }
        assert forall|who: NodeIndex| #[trigger] self@.contains_key(who) implies self@[who]
            == old(self)@[who].queued(number) by {
            assert(ids@.to_set().contains(who));
        }
        assert(self@ =~= old(self)@.map_values(|peer: PeerView<H>| peer.queued(number)));
    }
}

} // verus!
