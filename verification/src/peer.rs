//! What the sync strategy knows of a connected peer.
use crate::hash::{same_hash, BlockHash};
use crate::message::BlockNumber;
use std::collections::VecDeque;
use vstd::prelude::*;

verus! {

/// Number of recently announced blocks to track for each peer.
pub const ANNOUNCE_HISTORY_SIZE: usize = 64;

/// What a peer is busy with.
#[derive(Copy, Clone, Eq, PartialEq, Debug)]
pub enum PeerSyncState<H> {
    /// Looking for the best block in common, which has at most this number.
    AncestorSearch(BlockNumber),
    /// Nothing: it can be sent a request.
    Available,
    /// Sending the blocks that start at this number.
    DownloadingNew(BlockNumber),
    /// Sending a block on a fork, with this hash.
    DownloadingStale(H),
    /// Sending the justification of the block with this hash.
    DownloadingJustification(H),
    /// Sending the finality proof of the block with this hash.
    DownloadingFinalityProof(H),
}

/// A connected peer.
#[derive(Debug)]
pub struct PeerSync<H> {
    /// Number of the best block that the peer and we have in common.
    pub common_number: BlockNumber,
    /// Hash of the peer's best block.
    pub best_hash: H,
    /// Number of the peer's best block.
    pub best_number: BlockNumber,
    /// What the peer is busy with.
    pub state: PeerSyncState<H>,
    /// The blocks that the peer announced last, the latest at the back.
    pub recently_announced: VecDeque<H>,
}

/// A [`PeerSync`] with its announcements as a sequence.
#[verifier::ext_equal]
pub struct PeerView<H> {
    /// See [`PeerSync::common_number`].
    pub common_number: BlockNumber,
    /// See [`PeerSync::best_hash`].
    pub best_hash: H,
    /// See [`PeerSync::best_number`].
    pub best_number: BlockNumber,
    /// See [`PeerSync::state`].
    pub state: PeerSyncState<H>,
    /// See [`PeerSync::recently_announced`].
    pub recently_announced: Seq<H>,
}

impl<H> View for PeerSync<H> {
    type V = PeerView<H>;

    open spec fn view(&self) -> PeerView<H> {
        PeerView {
            common_number: self.common_number,
            best_hash: self.best_hash,
            best_number: self.best_number,
            state: self.state,
            recently_announced: self.recently_announced@,
        }
    }
}

/// The last `n` elements of a sequence, or all of them if there are fewer.
pub open spec fn newest<T>(s: Seq<T>, n: int) -> Seq<T> {
    if s.len() <= n {
        s
    } else {
        s.skip(s.len() - n)
    }
}

impl<H> PeerView<H> {
    /// A peer that was just met.
    pub open spec fn fresh(
        common_number: BlockNumber,
        best_hash: H,
        best_number: BlockNumber,
        state: PeerSyncState<H>,
    ) -> Self {
        PeerView {
            common_number,
            best_hash,
            best_number,
            state,
            recently_announced: Seq::empty(),
        }
    }

    /// The peer in another state.
    pub open spec fn with_state(self, state: PeerSyncState<H>) -> Self {
        PeerView { state, ..self }
    }

    /// The peer after a block with this number was queued for import: a search for a common
    /// ancestor is over, and the peer shares what it has of the chain up to that number.
    pub open spec fn queued(self, number: BlockNumber) -> Self {
        PeerView {
            state: if self.state is AncestorSearch {
                PeerSyncState::Available
            } else {
                self.state
            },
            common_number: if self.best_number >= number {
                number
            } else {
                self.best_number
            },
            ..self
        }
    }

    /// The peer after it announced a block: the announcement is the latest that is
    /// remembered, and its best block is the announced one if that is higher.
    pub open spec fn announced(self, hash: H, number: BlockNumber) -> Self {
        PeerView {
            best_number: if number > self.best_number {
                number
            } else {
                self.best_number
            },
            best_hash: if number > self.best_number {
                hash
            } else {
                self.best_hash
            },
            recently_announced: newest(self.recently_announced, ANNOUNCE_HISTORY_SIZE - 1).push(
                hash,
            ),
            ..self
        }
    }
}

impl<H: BlockHash> PeerSync<H> {
    /// A peer that was just met.
    pub fn fresh(
        common_number: BlockNumber,
        best_hash: H,
        best_number: BlockNumber,
        state: PeerSyncState<H>,
    ) -> (peer: Self)
        ensures
            peer@ == PeerView::fresh(common_number, best_hash, best_number, state),
    {
        PeerSync {
            common_number,
            best_hash,
            best_number,
            state,
            recently_announced: VecDeque::new(),
        }
    }

    /// Takes note of a block that was queued for import.
    pub fn note_queued(&mut self, number: BlockNumber)
        ensures
            final(self)@ == old(self)@.queued(number),
    {
        if let PeerSyncState::AncestorSearch(_) = self.state {
            // Abort search.
            self.state = PeerSyncState::Available;
        }
        if self.best_number >= number {
            self.common_number = number;
        } else {
            self.common_number = self.best_number;
        }
    }

    /// Takes note of a block that the peer announced.
    pub fn note_announced(&mut self, hash: H, number: BlockNumber)
        ensures
            final(self)@ == old(self)@.announced(hash, number),
    {
        while self.recently_announced.len() >= ANNOUNCE_HISTORY_SIZE
            invariant
                self@ == (PeerView {
                    recently_announced: self.recently_announced@,
                    ..old(self)@
                }),
                self.recently_announced@.len() <= old(self).recently_announced@.len(),
                self.recently_announced@ == old(self).recently_announced@.skip(
                    old(self).recently_announced@.len() - self.recently_announced@.len(),
                ),
                self.recently_announced@.len() < old(self).recently_announced@.len() ==>
                    self.recently_announced@.len() >= ANNOUNCE_HISTORY_SIZE - 1,
            decreases self.recently_announced@.len(),
        {
            self.recently_announced.pop_front();
        }
        assert(self.recently_announced@ =~= newest(
            old(self).recently_announced@,
            ANNOUNCE_HISTORY_SIZE - 1,
        ));
        self.recently_announced.push_back(hash);
        if number > self.best_number {
            // update their best block
            self.best_number = number;
            self.best_hash = hash;
        }
    }

    /// Whether the peer announced the block lately.
    pub fn has_announced(&self, hash: &H) -> (found: bool)
        ensures
            found == self@.recently_announced.contains(*hash),
    {
        let mut i: usize = 0;
        while i < self.recently_announced.len()
            invariant
                i <= self.recently_announced@.len(),
                forall|j: int| 0 <= j < i ==> self.recently_announced@[j] != *hash,
            decreases self.recently_announced@.len() - i,
        {
            if same_hash(&self.recently_announced[i], hash) {
                return true;
            }
            i += 1;
        }
        false
    }

    /// Whether the peer is sending the block on a fork with this hash.
    pub fn is_sending_stale(&self, hash: &H) -> (sending: bool)
        ensures
            sending == (self@.state == PeerSyncState::DownloadingStale(*hash)),
    {
        match &self.state {
            PeerSyncState::DownloadingStale(h) => same_hash(h, hash),
            _ => false,
        }
    }
}

} // verus!
