//! Relay chain sync strategy.
use crate::context::{Action, ActionView, Context, ExtraAction, ExtraKind, Fault, Severity};
use crate::hash::{same_hash, BlockHash};
use crate::message::{
    BlockAttributes, BlockData, BlockNumber, BlockOrigin, BlockRange, BlockRequest, BlockResponse,
    BlockStatus, ClientError, ClientInfo, Direction, DownloadedBlock, FinalityProofResponse,
    FromBlock, Header, IncomingBlock, NodeIndex, PeerInfo, Roles,
};
use crate::model::{
    ChainStatus, SyncView, MAJOR_SYNC_BLOCKS, MAJOR_SYNC_DISTANCE,
    MAX_BLOCKS_TO_REQUEST, MAX_IMPORTING_BLOCKS, MAX_UNKNOWN_FORK_DOWNLOAD_LEN,
};
use crate::peer::{PeerSync, PeerSyncState};
use crate::status::{Status, SyncState};
use crate::table::PeerTable;
use std::collections::HashSet;
use vstd::prelude::*;

verus! {

broadcast use vstd::std_specs::hash::group_hash_axioms;

/// Relay chain sync strategy.
pub struct ChainSync<H: BlockHash> {
    genesis_hash: H,
    peers: PeerTable<H>,
    best_queued_number: BlockNumber,
    best_queued_hash: H,
    required_block_attributes: BlockAttributes,
    queue_blocks: HashSet<H>,
    best_importing_number: BlockNumber,
    is_stopping: bool,
    is_offline: bool,
    is_major_syncing: bool,
}

impl<H: BlockHash> View for ChainSync<H> {
    type V = SyncView<H>;

    closed spec fn view(&self) -> SyncView<H> {
        SyncView {
            genesis_hash: self.genesis_hash,
            peers: self.peers@,
            best_queued_number: self.best_queued_number,
            best_queued_hash: self.best_queued_hash,
            required_block_attributes: self.required_block_attributes,
            queue_blocks: self.queue_blocks@,
            best_importing_number: self.best_importing_number,
            is_stopping: self.is_stopping,
            is_offline: self.is_offline,
            is_major_syncing: self.is_major_syncing,
        }
    }
}

/// The members of a prefix grow by one with its length.
proof fn lemma_take_one_more<T>(s: Seq<T>, i: int)
    requires
        0 <= i < s.len(),
    ensures
        s.take(i + 1).to_set() == s.take(i).to_set().insert(s[i]),
{
    let shorter = s.take(i);
    let longer = s.take(i + 1);
    assert(longer =~= shorter.push(s[i]));
    assert forall|x: T|
        longer.to_set().contains(x) == shorter.to_set().insert(s[i]).contains(x) by {
        if shorter.contains(x) {
            let j = choose|j: int| 0 <= j < shorter.len() && shorter[j] == x;
            assert(longer[j] == x);
        }
        assert(longer[i] == s[i]);
    }
    assert(longer.to_set() =~= shorter.to_set().insert(s[i]));
}

/// The blocks in the opposite order.
fn reversed<H>(blocks: Vec<BlockData<H>>) -> (turned: Vec<BlockData<H>>)
    ensures
        turned@ == blocks@.reverse(),
{
    let ghost given = blocks@;
    let mut blocks = blocks;
    let mut turned: Vec<BlockData<H>> = Vec::new();
    while blocks.len() > 0
        invariant
            blocks@.len() <= given.len(),
            blocks@ == given.take(blocks@.len() as int),
            turned@ == given.skip(blocks@.len() as int).reverse(),
        decreases blocks@.len(),
    {
        if let Some(block) = blocks.pop() {
            turned.push(block);
        }
        assert(blocks@ =~= given.take(blocks@.len() as int));
        assert(turned@ =~= given.skip(blocks@.len() as int).reverse());
    }
    assert(given.skip(0) =~= given);
    turned
}

/// Blocks out of the block collection, on their way to the import queue.
fn unpacked<H>(drained: Vec<DownloadedBlock<H>>) -> (new_blocks: Vec<IncomingBlock<H>>)
    ensures
        new_blocks@ == crate::model::drained(drained@),
{
    let ghost given = drained@;
    let mut new_blocks: Vec<IncomingBlock<H>> = Vec::new();
    for block_data in iter: drained
        invariant
            iter.seq() == given,
            new_blocks@ =~= crate::model::drained(given.take(iter.index() as int)),
    {
        new_blocks.push(
            IncomingBlock {
                hash: block_data.block.hash,
                header: block_data.block.header,
                body: block_data.block.body,
                justification: block_data.block.justification,
                origin: block_data.origin,
            },
        );
    }
    assert(given.take(given.len() as int) =~= given);
    new_blocks
}

/// Blocks that a peer has sent, on their way to the import queue.
fn incoming<H>(who: NodeIndex, blocks: Vec<BlockData<H>>) -> (new_blocks: Vec<IncomingBlock<H>>)
    ensures
        new_blocks@ == crate::model::sent_by(who, blocks@),
{
    let ghost given = blocks@;
    let mut new_blocks: Vec<IncomingBlock<H>> = Vec::new();
    for block in iter: blocks
        invariant
            iter.seq() == given,
            new_blocks@ =~= crate::model::sent_by(who, given.take(iter.index() as int)),
    {
        new_blocks.push(
            IncomingBlock {
                hash: block.hash,
                header: block.header,
                body: block.body,
                justification: block.justification,
                origin: Some(who),
            },
        );
    }
    assert(given.take(given.len() as int) =~= given);
    new_blocks
}

/// Get block status, taking into account import queue.
///
/// `chain` is what the blockchain says of the block.
fn block_status<H: BlockHash>(
    chain: ChainStatus,
    queue_blocks: &HashSet<H>,
    hash: H,
) -> (status: ChainStatus)
    ensures
        status == (if queue_blocks@.contains(hash) {
            Ok(BlockStatus::Queued)
        } else {
            chain
        }),
{
    proof {
        H::lawful();
    }
    if queue_blocks.contains(&hash) {
        return Ok(BlockStatus::Queued);
    }
    chain
}

impl<H: BlockHash> ChainSync<H> {
    /// Create a new instance.
    ///
    /// `is_offline` and `is_major_syncing` are the published flags as they stand.
    pub fn new(
        is_offline: bool,
        is_major_syncing: bool,
        role: Roles,
        info: &ClientInfo<H>,
    ) -> (sync: Self)
        ensures
            sync@ == SyncView::initial(is_offline, is_major_syncing, role, *info),
    {
        let required_block_attributes = BlockAttributes {
            header: true,
            body: role.full || role.authority,
            justification: true,
        };
        let sync = ChainSync {
            genesis_hash: info.chain.genesis_hash,
            peers: PeerTable::new(),
            best_queued_hash: info.best_queued_hash.unwrap_or(info.chain.best_hash),
            best_queued_number: info.best_queued_number.unwrap_or(info.chain.best_number),
            required_block_attributes,
            queue_blocks: HashSet::new(),
            best_importing_number: 0,
            is_stopping: false,
            is_offline,
            is_major_syncing,
        };
        assert(sync@.peers =~= Map::empty());
        sync
    }

    /// The highest best block that a peer has, if there is a peer.
    fn best_seen_block(&self) -> (best: Option<BlockNumber>)
        ensures
            crate::model::is_best_seen(self@.peers, best),
            best == crate::model::best_seen(self@.peers),
    {
        let best = self.peers.best_number();
        proof {
            crate::laws::law_best_seen_is_unique(self@.peers, best);
        }
        best
    }

    /// The sync state, given the best block seen.
    fn state(&self, best_seen: &Option<BlockNumber>) -> (state: SyncState)
        ensures
            state == crate::model::sync_state(self@.best_queued_number, *best_seen),
    {
        match best_seen {
            Some(n) if *n > self.best_queued_number && *n - self.best_queued_number
                > MAJOR_SYNC_DISTANCE => SyncState::Downloading,
            _ => SyncState::Idle,
        }
    }

    /// Returns sync status.
    pub fn status(&self) -> (status: Status)
        ensures
            status.state == self@.sync_state(),
            crate::model::is_best_seen(self@.peers, status.best_seen_block),
            status.num_peers == self@.peers.len() as u32,
    {
        let best_seen = self.best_seen_block();
        let state = self.state(&best_seen);
        Status { state, best_seen_block: best_seen, num_peers: self.peers.len() as u32 }
    }

    /// Issue a request for a peer to download new blocks, if any are available
    fn download_new(&self, protocol: &mut Context<H>, who: NodeIndex)
        ensures
            final(protocol)@ == old(protocol)@ + self@.download_actions(who),
    {
        proof {
            H::lawful();
        }
        if let Some(peer) = self.peers.get(who) {
            // when there are too many blocks in the queue => do not try to download new blocks
            if self.queue_blocks.len() > MAX_IMPORTING_BLOCKS {
                assert(protocol@ =~= old(protocol)@ + self@.download_actions(who));
                return;
            }
            match peer.state {
                PeerSyncState::Available => {
                    protocol.perform(
                        Action::NeededBlocks {
                            who,
                            count: MAX_BLOCKS_TO_REQUEST,
                            peer_best: peer.best_number,
                            common: peer.common_number,
                        },
                    );
                },
                _ => {},
            }
        }
        assert(protocol@ =~= old(protocol)@ + self@.download_actions(who));
    }

    /// Maintain the sync process (download new blocks, fetch justifications).
    pub fn maintain_sync(&mut self, protocol: &mut Context<H>)
        ensures
            final(self)@ == old(self)@,
            exists|order: Seq<NodeIndex>| #[trigger]
                old(self)@.walks(order) && final(protocol)@ == old(protocol)@ + old(
                    self,
                )@.maintenance(order),
    {
        if self.is_stopping {
            proof {
                self.peers.lemma_some_order();
                let order = self.peers.some_order();
                assert(self@.walks(order));
                assert(protocol@ =~= old(protocol)@ + self@.maintenance(order));
            }
            return;
        }
        let peers = self.peers.ids();
        let ghost wanted = |who: NodeIndex| self@.wants_blocks(who);
        let ghost asked = |who: NodeIndex| self@.block_query(who);
        let mut i: usize = 0;
        assert(protocol@ =~= old(protocol)@ + peers@.take(0).filter(wanted).map_values(asked)) by {
            reveal(Seq::filter);
        }
        while i < peers.len()
            invariant
                i <= peers@.len(),
                wanted == (|who: NodeIndex| self@.wants_blocks(who)),
                asked == (|who: NodeIndex| self@.block_query(who)),
                protocol@ == old(protocol)@ + peers@.take(i as int).filter(wanted).map_values(
                    asked,
                ),
            decreases peers@.len() - i,
        {
            self.download_new(protocol, peers[i]);
            proof {
                reveal(Seq::filter);
                assert(peers@.take(i + 1).drop_last() =~= peers@.take(i as int));
                assert(protocol@ =~= old(protocol)@ + peers@.take(i + 1).filter(wanted).map_values(
                    asked,
                ));
            }
            i += 1;
        }
        assert(peers@.take(peers@.len() as int) =~= peers@);
        protocol.perform(Action::Extra(ExtraAction::DispatchAll));
        assert(self@.walks(peers@));
        assert(protocol@ =~= old(protocol)@ + self@.maintenance(peers@));
    }

    /// Takes note of a block that was queued for import.
    fn block_queued(&mut self, hash: &H, number: BlockNumber)
        ensures
            final(self)@ == old(self)@.block_queued(*hash, number),
    {
        let best_seen = self.best_seen_block();
        let previous_state = self.state(&best_seen);
        if number > self.best_queued_number {
            self.best_queued_number = number;
            self.best_queued_hash = *hash;
        }
        let current_state = self.state(&best_seen);
        // If the latest queued block changed our state, update is_major_syncing.
        match (previous_state, current_state) {
            (SyncState::Idle, SyncState::Downloading) => self.is_major_syncing = true,
            (SyncState::Downloading, SyncState::Idle) => self.is_major_syncing = false,
            _ => {},
        }
        // Update common blocks
        self.peers.note_queued(number);
    }

    /// The best header of the chain has changed.
    pub fn update_chain_info(&mut self, best_header: &Header<H>)
        ensures
            final(self)@ == old(self)@.block_queued(best_header.hash, best_header.number),
    {
        self.block_queued(&best_header.hash, best_header.number)
    }

    /// Hands blocks to the import queue, and keeps the sync going.
    fn accept_blocks(&mut self, protocol: &mut Context<H>, new_blocks: Vec<IncomingBlock<H>>)
        ensures
            final(self)@ == old(self)@.accepted(new_blocks@),
            exists|order: Seq<NodeIndex>| #[trigger]
                old(self)@.walks(order) && final(protocol)@ == old(protocol)@ + old(
                    self,
                )@.accepted_actions(new_blocks@, order),
    {
        proof {
            H::lawful();
        }
        let is_recent = if new_blocks.len() > 0 {
            self.peers.any_announced(&new_blocks[0].hash)
        } else {
            false
        };
        let origin = if is_recent {
            BlockOrigin::NetworkBroadcast
        } else {
            BlockOrigin::NetworkInitialSync
        };
        assert(origin == self@.origin_of(new_blocks@));

        let mut new_best_importing_number: BlockNumber = 0;
        if new_blocks.len() > 0 {
            let last = &new_blocks[new_blocks.len() - 1];
            if let Some(header) = &last.header {
                new_best_importing_number = header.number;
                self.block_queued(&last.hash, header.number);
            }
        }
        let ghost queued = self@;
        assert(queued == old(self)@.last_queued(new_blocks@));
        assert(queued.peers.dom() =~= old(self)@.peers.dom());
        self.maintain_sync(protocol);
        let ghost order = choose|order: Seq<NodeIndex>| #[trigger]
            queued.walks(order) && protocol@ == old(protocol)@ + queued.maintenance(order);

        let ghost hashes = new_blocks@.map_values(|block: IncomingBlock<H>| block.hash);
        let mut i: usize = 0;
        assert(queued.queue_blocks.union(hashes.take(0).to_set()) =~= queued.queue_blocks);
        while i < new_blocks.len()
            invariant
                i <= new_blocks@.len(),
                vstd::std_specs::hash::obeys_key_model::<H>(),
                hashes == new_blocks@.map_values(|block: IncomingBlock<H>| block.hash),
                self@ == (SyncView { queue_blocks: self.queue_blocks@, ..queued }),
                self.queue_blocks@ == queued.queue_blocks.union(hashes.take(i as int).to_set()),
            decreases new_blocks@.len() - i,
        {
            self.queue_blocks.insert(new_blocks[i].hash);
            proof {
                lemma_take_one_more(hashes, i as int);
                assert(self.queue_blocks@ =~= queued.queue_blocks.union(
                    hashes.take(i + 1).to_set(),
                ));
            }
            i += 1;
        }
        assert(hashes.take(hashes.len() as int) =~= hashes);
        if new_best_importing_number > self.best_importing_number {
            self.best_importing_number = new_best_importing_number;
        }
        protocol.perform(Action::ImportBlocks(origin, new_blocks));
        assert(old(self)@.walks(order));
        assert(protocol@ =~= old(protocol)@ + old(self)@.accepted_actions(new_blocks@, order));
    }

    /// Asks a peer for the block that it has at a number.
    fn request_ancestry(protocol: &mut Context<H>, who: NodeIndex, block: BlockNumber)
        ensures
            final(protocol)@ == old(protocol)@.push(
                ActionView::SendMessage(who, crate::model::ancestry_request(block)),
            ),
    {
        let request = BlockRequest {
            id: 0,
            fields: BlockAttributes { header: true, body: false, justification: true },
            from: FromBlock::Number(block),
            to: None,
            direction: Direction::Ascending,
            max: Some(1),
        };
        protocol.send_message(who, request);
    }

    /// Handle new block data.
    ///
    /// Blocks that continue the chain go through the block collection: what comes out of it is
    /// to be handed to [`ChainSync::on_drained_blocks`]. A block that a search for a common
    /// ancestor asked for is compared with ours by [`ChainSync::on_ancestor_hash`].
    pub fn on_block_data(
        &mut self,
        protocol: &mut Context<H>,
        who: NodeIndex,
        request: BlockRequest<H>,
        response: BlockResponse<H>,
    )
        requires
            old(self)@.peer_state(who) matches Some(PeerSyncState::DownloadingNew(_)) ==> old(
                self,
            )@.best_queued_number < BlockNumber::MAX,
        ensures
            ({
                let blocks = crate::model::in_order(request.direction, response.blocks@);
                &&& final(self)@ == old(self)@.block_data(who, blocks)
                &&& exists|order: Seq<NodeIndex>| #[trigger]
                    old(self)@.walks(order) && final(protocol)@ == old(protocol)@ + old(
                        self,
                    )@.block_data_actions(who, blocks, order)
            }),
    {
        let ghost in_order = crate::model::in_order(request.direction, response.blocks@);
        let ghost some_order = self.peers.some_order();
        proof {
            self.peers.lemma_some_order();
            assert(self@.walks(some_order));
        }
        let new_blocks: Vec<IncomingBlock<H>> = if let Some(state) = self.peers.state(who) {
            let blocks = if request.direction == Direction::Descending {
                reversed(response.blocks)
            } else {
                response.blocks
            };
            match state {
                PeerSyncState::DownloadingNew(start_block) => {
                    protocol.perform(Action::ClearPeerDownload(who));
                    self.peers.set_state(who, PeerSyncState::Available);
                    protocol.perform(Action::InsertBlocks { start: start_block, blocks, who });
                    protocol.perform(Action::DrainBlocks { from: self.best_queued_number + 1 });
                    assert(protocol@ =~= old(protocol)@ + old(self)@.block_data_actions(
                        who,
                        in_order,
                        some_order,
                    ));
                    return;
                },
                PeerSyncState::DownloadingStale(_) => {
                    self.peers.set_state(who, PeerSyncState::Available);
                    incoming(who, blocks)
                },
                PeerSyncState::AncestorSearch(n) => {
                    if blocks.len() > 0 {
                        protocol.perform(
                            Action::QueryBlockHash { who, number: n, theirs: blocks[0].hash },
                        );
                    } else {
                        protocol.report_peer(who, Severity::Bad(Fault::NoAncestryBlock));
                    }
                    assert(protocol@ =~= old(protocol)@ + old(self)@.block_data_actions(
                        who,
                        in_order,
                        some_order,
                    ));
                    return;
                },
                PeerSyncState::Available
                | PeerSyncState::DownloadingJustification(_)
                | PeerSyncState::DownloadingFinalityProof(_) => Vec::new(),
            }
        } else {
            Vec::new()
        };
        let ghost before = self@;
        assert(before.peers.dom() =~= old(self)@.peers.dom());
        assert(old(self)@.block_data(who, in_order) == before.accepted(new_blocks@)) by {
            if !(old(self)@.peer_state(who) matches Some(PeerSyncState::DownloadingStale(_))) {
                assert(new_blocks@ =~= Seq::empty());
            }
        }
        self.accept_blocks(protocol, new_blocks);
        proof {
            let order = choose|order: Seq<NodeIndex>| #[trigger]
                before.walks(order) && protocol@ == old(protocol)@ + before.accepted_actions(
                    new_blocks@,
                    order,
                );
            assert(old(self)@.walks(order));
        }
    }

    /// Handle blocks that came out of the block collection.
    pub fn on_drained_blocks(
        &mut self,
        protocol: &mut Context<H>,
        drained: Vec<DownloadedBlock<H>>,
    )
        ensures
            final(self)@ == old(self)@.accepted(crate::model::drained(drained@)),
            exists|order: Seq<NodeIndex>| #[trigger]
                old(self)@.walks(order) && final(protocol)@ == old(protocol)@ + old(
                    self,
                )@.accepted_actions(crate::model::drained(drained@), order),
    {
        let new_blocks = unpacked(drained);
        self.accept_blocks(protocol, new_blocks)
    }

    /// Handle the hash that the blockchain has at the number where the search for a common
    /// ancestor with a peer stands, and where the peer has `theirs`.
    pub fn on_ancestor_hash(
        &mut self,
        protocol: &mut Context<H>,
        who: NodeIndex,
        theirs: H,
        ours: Result<Option<H>, ClientError>,
    )
        ensures
            final(self)@ == old(self)@.ancestor_hash(who, theirs, ours),
            exists|order: Seq<NodeIndex>| #[trigger]
                old(self)@.walks(order) && final(protocol)@ == old(protocol)@ + old(
                    self,
                )@.ancestor_hash_actions(who, theirs, ours, order),
    {
        let ghost some_order = self.peers.some_order();
        proof {
            self.peers.lemma_some_order();
            assert(self@.walks(some_order));
        }
        let n = match self.peers.state(who) {
            Some(PeerSyncState::AncestorSearch(n)) => n,
            _ => {
                assert(protocol@ =~= old(protocol)@ + self@.ancestor_hash_actions(
                    who,
                    theirs,
                    ours,
                    some_order,
                ));
                return;
            },
        };
        let block_hash = match ours {
            Ok(block_hash) => block_hash,
            Err(e) => {
                protocol.report_peer(who, Severity::Useless(Fault::AncestryUnreadable(e)));
                assert(protocol@ =~= old(protocol)@ + self@.ancestor_hash_actions(
                    who,
                    theirs,
                    ours,
                    some_order,
                ));
                return;
            },
        };
        let found = match &block_hash {
            Some(hash) => same_hash(hash, &theirs),
            None => false,
        };
        if found {
            if let Some(mut peer) = self.peers.remove(who) {
                if peer.common_number < n {
                    peer.common_number = n;
                }
                peer.state = PeerSyncState::Available;
                self.peers.insert(who, peer);
            }
            let ghost before = self@;
            assert(before =~= old(self)@.ancestor_found(who, n));
            assert(before.peers.dom() =~= old(self)@.peers.dom());
            let none: Vec<IncomingBlock<H>> = Vec::new();
            assert(none@ =~= Seq::empty());
            self.accept_blocks(protocol, none);
            proof {
                let order = choose|order: Seq<NodeIndex>| #[trigger]
                    before.walks(order) && protocol@ == old(protocol)@ + before.accepted_actions(
                        none@,
                        order,
                    );
                assert(old(self)@.walks(order));
            }
        } else if n > 0 {
            let n = n - 1;
            self.peers.set_state(who, PeerSyncState::AncestorSearch(n));
            Self::request_ancestry(protocol, who, n);
            assert(protocol@ =~= old(protocol)@ + old(self)@.ancestor_hash_actions(
                who,
                theirs,
                ours,
                some_order,
            ));
        } else {
            // genesis mismatch
            protocol.report_peer(who, Severity::Bad(Fault::GenesisMismatch));
            assert(protocol@ =~= old(protocol)@ + old(self)@.ancestor_hash_actions(
                who,
                theirs,
                ours,
                some_order,
            ));
        }
    }

    /// Handle new connected peer.
    ///
    /// `met` is what the node knows of the peer, and what the blockchain says of the peer's
    /// best block.
    pub fn new_peer(
        &mut self,
        protocol: &mut Context<H>,
        who: NodeIndex,
        met: Option<(PeerInfo<H>, ChainStatus)>,
    )
        ensures
            final(self)@ == old(self)@.new_peer(who, met),
            final(protocol)@ == old(protocol)@ + old(self)@.new_peer_actions(who, met),
    {
        proof {
            H::lawful();
        }
        // Initialize some variables to determine if
        // is_offline or is_major_syncing should be updated
        // after processing this new peer.
        let previous_len = self.peers.len();
        let previous_best_seen = self.best_seen_block();
        let previous_state = self.state(&previous_best_seen);

        if let Some((info, chain)) = met {
            match block_status(chain, &self.queue_blocks, info.best_hash) {
                Err(e) => {
                    protocol.report_peer(who, Severity::Useless(Fault::StatusUnreadable(e)));
                },
                Ok(BlockStatus::KnownBad) => {
                    let fault = Fault::KnownBadBlock {
                        hash: info.best_hash,
                        number: info.best_number,
                    };
                    protocol.report_peer(who, Severity::Bad(fault));
                },
                Ok(BlockStatus::Unknown) => {
                    if info.best_number == 0 {
                        let fault = Fault::UnknownGenesis {
                            hash: info.best_hash,
                            number: info.best_number,
                        };
                        protocol.report_peer(who, Severity::Bad(fault));
                    } else if self.queue_blocks.len() > MAJOR_SYNC_BLOCKS {
                        // when actively syncing the common point moves too fast.
                        let peer = PeerSync::fresh(
                            self.best_queued_number,
                            info.best_hash,
                            info.best_number,
                            PeerSyncState::Available,
                        );
                        self.peers.insert(who, peer);
                    } else {
                        let our_best = self.best_queued_number;
                        if our_best > 0 {
                            let common_best = if our_best <= info.best_number {
                                our_best
                            } else {
                                info.best_number
                            };
                            let peer = PeerSync::fresh(
                                0,
                                info.best_hash,
                                info.best_number,
                                PeerSyncState::AncestorSearch(common_best),
                            );
                            self.peers.insert(who, peer);
                            Self::request_ancestry(protocol, who, common_best);
                        } else {
                            // We are at genesis, just start downloading
                            let peer = PeerSync::fresh(
                                0,
                                info.best_hash,
                                info.best_number,
                                PeerSyncState::Available,
                            );
                            self.peers.insert(who, peer);
                            self.download_new(protocol, who);
                        }
                    }
                },
                Ok(BlockStatus::Queued) | Ok(BlockStatus::InChain) => {
                    let peer = PeerSync::fresh(
                        info.best_number,
                        info.best_hash,
                        info.best_number,
                        PeerSyncState::Available,
                    );
                    self.peers.insert(who, peer);
                },
            }
        }
        assert(protocol@ =~= old(protocol)@ + old(self)@.new_peer_actions(who, met));

        let current_best_seen = self.best_seen_block();
        let current_state = self.state(&current_best_seen);
        let current_len = self.peers.len();
        if previous_len == 0 && current_len > 0 {
            // We were offline, and now we're connected to at least one peer.
            self.is_offline = false;
        }
        if previous_len < current_len {
            // We added a peer, let's see if major_syncing should be updated.
            match (previous_state, current_state) {
                (SyncState::Idle, SyncState::Downloading) => self.is_major_syncing = true,
                (SyncState::Downloading, SyncState::Idle) => self.is_major_syncing = false,
                _ => {},
            }
        }
    }

    /// Handle the answer of the block collection to the question which blocks to fetch from
    /// a peer.
    pub fn on_needed_blocks(
        &mut self,
        protocol: &mut Context<H>,
        who: NodeIndex,
        range: Option<BlockRange>,
    )
        requires
            old(self)@.starts_download(who, range) ==> range->0.start <= range->0.end,
        ensures
            final(self)@ == old(self)@.needed(who, range),
            final(protocol)@ == old(protocol)@ + old(self)@.needed_actions(who, range),
    {
        if let Some(range) = range {
            if let Some(PeerSyncState::Available) = self.peers.state(who) {
                let request = BlockRequest {
                    id: 0,
                    fields: self.required_block_attributes,
                    from: FromBlock::Number(range.start),
                    to: None,
                    direction: Direction::Ascending,
                    max: Some((range.end - range.start) as u32),
                };
                self.peers.set_state(who, PeerSyncState::DownloadingNew(range.start));
                protocol.send_message(who, request);
            }
        }
        assert(protocol@ =~= old(protocol)@ + old(self)@.needed_actions(who, range));
    }

    // Download old block with known parent.
    fn download_stale(&mut self, protocol: &mut Context<H>, who: NodeIndex, hash: &H)
        ensures
            final(self)@ == old(self)@.stale(who, *hash),
            final(protocol)@ == old(protocol)@ + old(self)@.stale_actions(who, *hash, true),
    {
        if let Some(PeerSyncState::Available) = self.peers.state(who) {
            let request = BlockRequest {
                id: 0,
                fields: self.required_block_attributes,
                from: FromBlock::Hash(*hash),
                to: None,
                direction: Direction::Ascending,
                max: Some(1),
            };
            self.peers.set_state(who, PeerSyncState::DownloadingStale(*hash));
            protocol.send_message(who, request);
        }
        assert(protocol@ =~= old(protocol)@ + old(self)@.stale_actions(who, *hash, true));
    }

    // Download old block with unknown parent.
    fn download_unknown_stale(&mut self, protocol: &mut Context<H>, who: NodeIndex, hash: &H)
        ensures
            final(self)@ == old(self)@.stale(who, *hash),
            final(protocol)@ == old(protocol)@ + old(self)@.stale_actions(who, *hash, false),
    {
        if let Some(PeerSyncState::Available) = self.peers.state(who) {
            let request = BlockRequest {
                id: 0,
                fields: self.required_block_attributes,
                from: FromBlock::Hash(*hash),
                to: None,
                direction: Direction::Descending,
                max: Some(MAX_UNKNOWN_FORK_DOWNLOAD_LEN),
            };
            self.peers.set_state(who, PeerSyncState::DownloadingStale(*hash));
            protocol.send_message(who, request);
        }
        assert(protocol@ =~= old(protocol)@ + old(self)@.stale_actions(who, *hash, false));
    }

    /// Whether some peer is sending the block on a fork with this hash.
    fn is_already_downloading(&self, hash: &H) -> (downloading: bool)
        ensures
            downloading == self@.is_downloading(*hash),
    {
        self.peers.any_sending_stale(hash)
    }

    /// Whether anything is known of a block, given what the blockchain says of it.
    fn is_known(&self, chain: ChainStatus, hash: &H) -> (known: bool)
        ensures
            known == self@.knows(*hash, chain),
    {
        match block_status(chain, &self.queue_blocks, *hash) {
            Ok(status) => status != BlockStatus::Unknown,
            Err(_) => false,
        }
    }

    /// Handle new block announcement.
    ///
    /// `chain_parent` and `chain_block` are what the blockchain says of the parent of the
    /// announced block and of the block itself.
    pub fn on_block_announce(
        &mut self,
        protocol: &mut Context<H>,
        who: NodeIndex,
        hash: H,
        header: &Header<H>,
        chain_parent: ChainStatus,
        chain_block: ChainStatus,
    )
        ensures
            ({
                let known_parent = old(self)@.knows(header.parent_hash, chain_parent);
                let known = old(self)@.knows(hash, chain_block);
                &&& final(self)@ == old(self)@.announced(who, hash, *header, known_parent, known)
                &&& final(protocol)@ == old(protocol)@ + old(self)@.announced_actions(
                    who,
                    hash,
                    *header,
                    known_parent,
                    known,
                )
            }),
    {
        let number = header.number;
        if number == 0 {
            return;
        }
        let known_parent = self.is_known(chain_parent, &header.parent_hash);
        let known = self.is_known(chain_block, &hash);
        if let Some(mut peer) = self.peers.remove(who) {
            peer.note_announced(hash, number);
            let searching = match peer.state {
                PeerSyncState::AncestorSearch(_) => true,
                _ => false,
            };
            if !searching {
                if same_hash(&header.parent_hash, &self.best_queued_hash) || known_parent {
                    peer.common_number = number - 1;
                } else if known {
                    peer.common_number = number;
                }
            }
            self.peers.insert(who, peer);
            assert(self@ =~= old(self)@.announcement_noted(
                who,
                hash,
                *header,
                known_parent,
                known,
            ));
            if searching {
                return;
            }
        } else {
            assert(self@.peers =~= old(self)@.peers);
            return;
        }
        assert forall|h: H| self@.is_downloading(h) == old(self)@.is_downloading(h) by {
            assert(self@.peers.dom() =~= old(self)@.peers.dom());
            if self@.is_downloading(h) {
                let p = choose|p: NodeIndex| #[trigger]
                    self@.peers.contains_key(p) && self@.peers[p].state
                        == PeerSyncState::DownloadingStale(h);
                assert(old(self)@.peers.contains_key(p));
            }
            if old(self)@.is_downloading(h) {
                let p = choose|p: NodeIndex| #[trigger]
                    old(self)@.peers.contains_key(p) && old(self)@.peers[p].state
                        == PeerSyncState::DownloadingStale(h);
                assert(self@.peers.contains_key(p));
            }
        }
        if !(known || self.is_already_downloading(&hash)) {
            let stale = number <= self.best_queued_number;
            if stale {
                if !(known_parent || self.is_already_downloading(&header.parent_hash)) {
                    self.download_unknown_stale(protocol, who, &hash);
                } else {
                    self.download_stale(protocol, who, &hash);
                }
            } else {
                self.download_new(protocol, who);
            }
        }
    }

    /// Handle new justification data.
    pub fn on_block_justification_data(
        &mut self,
        protocol: &mut Context<H>,
        who: NodeIndex,
        _request: BlockRequest<H>,
        response: BlockResponse<H>,
    )
        ensures
            final(self)@ == old(self)@.justification_data(who),
            exists|order: Seq<NodeIndex>| #[trigger]
                old(self)@.walks(order) && final(protocol)@ == old(protocol)@ + old(
                    self,
                )@.justification_data_actions(who, response.blocks@, order),
    {
        let ghost some_order = self.peers.some_order();
        proof {
            self.peers.lemma_some_order();
            assert(self@.walks(some_order));
        }
        let mut blocks = response.blocks;
        if let Some(PeerSyncState::DownloadingJustification(hash)) = self.peers.state(who) {
            self.peers.set_state(who, PeerSyncState::Available);

            // we only request one justification at a time
            if blocks.len() > 0 {
                let block = blocks.swap_remove(0);
                if !same_hash(&hash, &block.hash) {
                    let fault = Fault::WrongJustification { requested: hash, got: block.hash };
                    protocol.report_peer(who, Severity::Bad(fault));
                    assert(protocol@ =~= old(protocol)@ + old(self)@.justification_data_actions(
                        who,
                        response.blocks@,
                        some_order,
                    ));
                    return;
                }
                protocol.perform(
                    Action::Extra(
                        ExtraAction::Response(ExtraKind::Justification, who, block.justification),
                    ),
                );
            } else {
                // we might have asked the peer for a justification on a block that we thought
                // it had (regardless of whether it had a justification for it or not).
                assert(protocol@ =~= old(protocol)@ + old(self)@.justification_data_actions(
                    who,
                    response.blocks@,
                    some_order,
                ));
                return;
            }
        }
        let ghost before = self@;
        let ghost asked = protocol@;
        assert(before.peers.dom() =~= old(self)@.peers.dom());
        self.maintain_sync(protocol);
        proof {
            let order = choose|order: Seq<NodeIndex>| #[trigger]
                before.walks(order) && protocol@ == asked + before.maintenance(order);
            assert(old(self)@.walks(order));
            assert(protocol@ =~= old(protocol)@ + old(self)@.justification_data_actions(
                who,
                response.blocks@,
                order,
            ));
        }
    }

    /// Handle new finality proof data.
    pub fn on_block_finality_proof_data(
        &mut self,
        protocol: &mut Context<H>,
        who: NodeIndex,
        response: FinalityProofResponse<H>,
    )
        ensures
            final(self)@ == old(self)@.finality_proof_data(who),
            exists|order: Seq<NodeIndex>| #[trigger]
                old(self)@.walks(order) && final(protocol)@ == old(protocol)@ + old(
                    self,
                )@.finality_proof_data_actions(who, response, order),
    {
        let ghost some_order = self.peers.some_order();
        proof {
            self.peers.lemma_some_order();
            assert(self@.walks(some_order));
        }
        if let Some(PeerSyncState::DownloadingFinalityProof(hash)) = self.peers.state(who) {
            self.peers.set_state(who, PeerSyncState::Available);

            // we only request one finality proof at a time
            if !same_hash(&hash, &response.block) {
                let fault = Fault::WrongFinalityProof { requested: hash, got: response.block };
                protocol.report_peer(who, Severity::Bad(fault));
                assert(protocol@ =~= old(protocol)@ + old(self)@.finality_proof_data_actions(
                    who,
                    response,
                    some_order,
                ));
                return;
            }
            protocol.perform(
                Action::Extra(
                    ExtraAction::Response(ExtraKind::FinalityProof, who, response.proof),
                ),
            );
        }
        let ghost before = self@;
        let ghost asked = protocol@;
        assert(before.peers.dom() =~= old(self)@.peers.dom());
        self.maintain_sync(protocol);
        proof {
            let order = choose|order: Seq<NodeIndex>| #[trigger]
                before.walks(order) && protocol@ == asked + before.maintenance(order);
            assert(old(self)@.walks(order));
            assert(protocol@ =~= old(protocol)@ + old(self)@.finality_proof_data_actions(
                who,
                response,
                order,
            ));
        }
    }

    /// A batch of blocks have been processed, with or without errors.
    pub fn blocks_processed(&mut self, processed_blocks: Vec<H>, has_error: bool)
        ensures
            final(self)@ == old(self)@.processed(processed_blocks@, has_error),
    {
        proof {
            H::lawful();
        }
        let mut i: usize = 0;
        assert(self.queue_blocks@ =~= old(self).queue_blocks@.difference(
            processed_blocks@.take(0).to_set(),
        ));
        while i < processed_blocks.len()
            invariant
                i <= processed_blocks@.len(),
                vstd::std_specs::hash::obeys_key_model::<H>(),
                self@ == (SyncView { queue_blocks: self.queue_blocks@, ..old(self)@ }),
                self.queue_blocks@ == old(self).queue_blocks@.difference(
                    processed_blocks@.take(i as int).to_set(),
                ),
            decreases processed_blocks@.len() - i,
        {
            self.queue_blocks.remove(&processed_blocks[i]);
            proof {
                lemma_take_one_more(processed_blocks@, i as int);
                assert(self.queue_blocks@ =~= old(self).queue_blocks@.difference(
                    processed_blocks@.take(i + 1).to_set(),
                ));
            }
            i += 1;
        }
        assert(processed_blocks@.take(processed_blocks@.len() as int) =~= processed_blocks@);
        if has_error {
            self.best_importing_number = 0;
        }
    }

    /// Handle disconnected peer.
    pub fn peer_disconnected(&mut self, protocol: &mut Context<H>, who: NodeIndex)
        ensures
            final(self)@ == old(self)@.disconnected(who),
            exists|order: Seq<NodeIndex>| #[trigger]
                final(self)@.walks(order) && final(protocol)@ == old(protocol)@ + old(
                    self,
                )@.disconnected_actions(who, order),
    {
        let previous_best_seen = self.best_seen_block();
        let previous_state = self.state(&previous_best_seen);
        protocol.perform(Action::ClearPeerDownload(who));
        self.peers.remove(who);
        if self.peers.len() == 0 {
            // We're not connected to any peer anymore.
            self.is_offline = true;
        }
        let current_best_seen = self.best_seen_block();
        let current_state = self.state(&current_best_seen);
        // We removed a peer, let's see if this put us in idle state and is_major_syncing
        // should be updated.
        match (previous_state, current_state) {
            (SyncState::Downloading, SyncState::Idle) => self.is_major_syncing = false,
            _ => {},
        }
        protocol.perform(Action::Extra(ExtraAction::PeerDisconnected(who)));
        let ghost before = self@;
        let ghost asked = protocol@;
        self.maintain_sync(protocol);
        proof {
            let order = choose|order: Seq<NodeIndex>| #[trigger]
                before.walks(order) && protocol@ == asked + before.maintenance(order);
            assert(protocol@ =~= old(protocol)@ + old(self)@.disconnected_actions(who, order));
        }
    }

    /// Restart the sync process.
    ///
    /// `info` is the state of the client. Every peer is to be looked up again and handed to
    /// [`ChainSync::new_peer`].
    pub fn restart(&mut self, protocol: &mut Context<H>, info: Result<ClientInfo<H>, ClientError>)
        ensures
            final(self)@ == old(self)@.restarted(info),
            exists|order: Seq<NodeIndex>| #[trigger]
                old(self)@.walks(order) && final(protocol)@ == old(protocol)@ + old(
                    self,
                )@.restarted_actions(order),
    {
        self.queue_blocks.clear();
        self.best_importing_number = 0;
        protocol.perform(Action::ClearBlocks);
        match info {
            Ok(info) => {
                self.best_queued_hash = info.best_queued_hash.unwrap_or(info.chain.best_hash);
                self.best_queued_number =
                info.best_queued_number.unwrap_or(info.chain.best_number);
            },
            Err(_) => {
                self.best_queued_hash = self.genesis_hash;
                self.best_queued_number = 0;
            },
        }
        let ids = self.peers.ids();
        self.peers.clear();
        let ghost again = |who: NodeIndex| ActionView::<H>::Reconsider(who);
        let ghost cleared = protocol@;
        let mut i: usize = 0;
        assert(protocol@ =~= cleared + ids@.take(0).map_values(again));
        while i < ids.len()
            invariant
                i <= ids@.len(),
                again == (|who: NodeIndex| ActionView::<H>::Reconsider(who)),
                protocol@ == cleared + ids@.take(i as int).map_values(again),
            decreases ids@.len() - i,
        {
            protocol.perform(Action::Reconsider(ids[i]));
            assert(protocol@ =~= cleared + ids@.take(i + 1).map_values(again));
            i += 1;
        }
        assert(ids@.take(ids@.len() as int) =~= ids@);
        assert(old(self)@.walks(ids@));
        assert(protocol@ =~= old(protocol)@ + old(self)@.restarted_actions(ids@));
    }

    /// Clear all sync data.
    pub fn clear(&mut self, protocol: &mut Context<H>)
        ensures
            final(self)@ == old(self)@.cleared(),
            final(protocol)@ == old(protocol)@.push(ActionView::ClearBlocks),
    {
        protocol.perform(Action::ClearBlocks);
        self.peers.clear();
    }

    /// Called periodically to perform any time-based actions.
    pub fn tick(&mut self, protocol: &mut Context<H>)
        ensures
            final(self)@ == old(self)@,
            final(protocol)@ == old(protocol)@.push(ActionView::Extra(ExtraAction::DispatchAll)),
    {
        protocol.perform(Action::Extra(ExtraAction::DispatchAll));
    }

    /// Request a justification for the given block.
    ///
    /// Queues a new justification request and tries to dispatch all pending requests.
    pub fn request_justification(
        &mut self,
        hash: &H,
        number: BlockNumber,
        protocol: &mut Context<H>,
    )
        ensures
            final(self)@ == old(self)@,
            final(protocol)@ == old(protocol)@ + seq![
                ActionView::Extra(ExtraAction::Queue(ExtraKind::Justification, *hash, number)),
                ActionView::Extra(ExtraAction::Dispatch(ExtraKind::Justification)),
            ],
    {
        protocol.perform(
            Action::Extra(ExtraAction::Queue(ExtraKind::Justification, *hash, number)),
        );
        protocol.perform(Action::Extra(ExtraAction::Dispatch(ExtraKind::Justification)));
    }

    /// Clears all pending justification requests.
    pub fn clear_justification_requests(&mut self, protocol: &mut Context<H>)
        ensures
            final(self)@ == old(self)@,
            final(protocol)@ == old(protocol)@.push(
                ActionView::Extra(ExtraAction::Clear(ExtraKind::Justification)),
            ),
    {
        protocol.perform(Action::Extra(ExtraAction::Clear(ExtraKind::Justification)));
    }

    /// Takes note of whether a justification could be imported.
    pub fn justification_import_result(
        &mut self,
        hash: H,
        number: BlockNumber,
        success: bool,
        protocol: &mut Context<H>,
    )
        ensures
            final(self)@ == old(self)@,
            final(protocol)@ == old(protocol)@.push(
                ActionView::Extra(
                    ExtraAction::ImportResult(ExtraKind::Justification, hash, number, success),
                ),
            ),
    {
        protocol.perform(
            Action::Extra(
                ExtraAction::ImportResult(ExtraKind::Justification, hash, number, success),
            ),
        );
    }

    /// Request a finality proof for the given block.
    ///
    /// Queues a new finality proof request and tries to dispatch all pending requests.
    pub fn request_finality_proof(
        &mut self,
        hash: &H,
        number: BlockNumber,
        protocol: &mut Context<H>,
    )
        ensures
            final(self)@ == old(self)@,
            final(protocol)@ == old(protocol)@ + seq![
                ActionView::Extra(ExtraAction::Queue(ExtraKind::FinalityProof, *hash, number)),
                ActionView::Extra(ExtraAction::Dispatch(ExtraKind::FinalityProof)),
            ],
    {
        protocol.perform(
            Action::Extra(ExtraAction::Queue(ExtraKind::FinalityProof, *hash, number)),
        );
        protocol.perform(Action::Extra(ExtraAction::Dispatch(ExtraKind::FinalityProof)));
    }

    /// Clears all pending finality proof requests.
    pub fn clear_finality_proof_requests(&mut self, protocol: &mut Context<H>)
        ensures
            final(self)@ == old(self)@,
            final(protocol)@ == old(protocol)@.push(
                ActionView::Extra(ExtraAction::Clear(ExtraKind::FinalityProof)),
            ),
    {
        protocol.perform(Action::Extra(ExtraAction::Clear(ExtraKind::FinalityProof)));
    }

    /// Takes note of whether a finality proof could be imported.
    ///
    /// The result goes to the pending requests for justifications.
    pub fn finality_proof_import_result(
        &mut self,
        hash: H,
        number: BlockNumber,
        success: bool,
        protocol: &mut Context<H>,
    )
        ensures
            final(self)@ == old(self)@,
            final(protocol)@ == old(protocol)@.push(
                ActionView::Extra(
                    ExtraAction::ImportResult(ExtraKind::Justification, hash, number, success),
                ),
            ),
    {
        protocol.perform(
            Action::Extra(
                ExtraAction::ImportResult(ExtraKind::Justification, hash, number, success),
            ),
        );
    }

    /// Takes note of a request for a justification or a finality proof of the block with this
    /// hash that was sent to a peer.
    pub fn on_extra_request(&mut self, who: NodeIndex, kind: ExtraKind, hash: H)
        ensures
            final(self)@ == old(self)@.extra_requested(who, kind, hash),
    {
        let state = match kind {
            ExtraKind::Justification => PeerSyncState::DownloadingJustification(hash),
            ExtraKind::FinalityProof => PeerSyncState::DownloadingFinalityProof(hash),
        };
        self.peers.set_state(who, state);
    }

    /// Stops the sync process and the import queue.
    pub fn stop(&mut self, protocol: &mut Context<H>)
        ensures
            final(self)@ == (SyncView { is_stopping: true, ..old(self)@ }),
            final(protocol)@ == old(protocol)@.push(ActionView::StopImport),
    {
        self.is_stopping = true;
        protocol.perform(Action::StopImport);
    }

    /// Notify about successful import of the given block.
    pub fn block_imported(&mut self, _hash: &H, _number: BlockNumber)
        ensures
            final(self)@ == old(self)@,
    {
    }

    /// Notify about finalization of the given block.
    pub fn on_block_finalized(&mut self, hash: &H, number: BlockNumber, protocol: &mut Context<H>)
        ensures
            final(self)@ == old(self)@,
            final(protocol)@ == old(protocol)@.push(
                ActionView::Extra(ExtraAction::BlockFinalized(*hash, number)),
            ),
    {
        protocol.perform(Action::Extra(ExtraAction::BlockFinalized(*hash, number)));
    }

    /// The published flag that says that there is no peer.
    pub fn is_offline(&self) -> (offline: bool)
        ensures
            offline == self@.is_offline,
    {
        self.is_offline
    }

    /// The published flag that says that we are catching up.
    pub fn is_major_syncing(&self) -> (major: bool)
        ensures
            major == self@.is_major_syncing,
    {
        self.is_major_syncing
    }

    /// Number of the best block that was queued for import.
    pub fn best_queued_number(&self) -> (number: BlockNumber)
        ensures
            number == self@.best_queued_number,
    {
        self.best_queued_number
    }

    /// Hash of the best block that was queued for import.
    pub fn best_queued_hash(&self) -> (hash: H)
        ensures
            hash == self@.best_queued_hash,
    {
        self.best_queued_hash
    }

    /// Number of the best block in the import queue.
    pub fn best_importing_number(&self) -> (number: BlockNumber)
        ensures
            number == self@.best_importing_number,
    {
        self.best_importing_number
    }

    /// Whether a block is in the import queue.
    pub fn is_queued(&self, hash: &H) -> (queued: bool)
        ensures
            queued == self@.queue_blocks.contains(*hash),
    {
        proof {
            H::lawful();
        }
        self.queue_blocks.contains(hash)
    }

    /// The indices of the peers.
    pub fn peer_ids(&self) -> (ids: Vec<NodeIndex>)
        ensures
            self@.walks(ids@),
    {
        self.peers.ids()
    }

    /// The peer with this index.
    pub fn peer(&self, who: NodeIndex) -> (peer: Option<&PeerSync<H>>)
        ensures
            match peer {
                Some(peer) => self@.peers.contains_key(who) && self@.peers[who] == peer@,
                None => !self@.peers.contains_key(who),
            },
    {
        self.peers.get(who)
    }
}

} // verus!
