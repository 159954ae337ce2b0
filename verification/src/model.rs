//! The sync strategy as mathematics: what each event makes of a state, and what it asks for.
use crate::context::{ActionView, ExtraAction, ExtraKind, Fault, Severity};
use crate::message::{
    BlockAttributes, BlockData, BlockNumber, BlockOrigin, BlockRange, BlockRequest, BlockStatus,
    ClientError, ClientInfo, Direction, DownloadedBlock, FinalityProofResponse, FromBlock, Header,
    IncomingBlock, NodeIndex, PeerInfo, Roles,
};
use crate::peer::{PeerSyncState, PeerView, ANNOUNCE_HISTORY_SIZE};
use crate::status::SyncState;
use vstd::prelude::*;

verus! {

/// Maximum blocks to request in a single packet.
pub const MAX_BLOCKS_TO_REQUEST: usize = 128;

/// Maximum blocks to store in the import queue.
pub const MAX_IMPORTING_BLOCKS: usize = 2048;

/// Number of blocks in the queue that prevents ancestry search.
pub const MAJOR_SYNC_BLOCKS: usize = 5;

/// Max number of blocks to download for unknown forks.
pub const MAX_UNKNOWN_FORK_DOWNLOAD_LEN: u32 = 32;

/// Number of blocks that the best block seen may be ahead before we are catching up.
pub const MAJOR_SYNC_DISTANCE: u64 = 5;

/// What the blockchain says of a block.
pub type ChainStatus = Result<BlockStatus, ClientError>;

/// The peers that are connected.
pub type PeersView<H> = Map<NodeIndex, PeerView<H>>;

/// State of the sync strategy.
#[verifier::ext_equal]
#[verifier::reject_recursive_types(H)]
pub struct SyncView<H> {
    /// Hash of the genesis block.
    pub genesis_hash: H,
    /// The peers that take part in syncing.
    pub peers: PeersView<H>,
    /// Number of the best block that was ever queued for import.
    pub best_queued_number: BlockNumber,
    /// Hash of that block.
    pub best_queued_hash: H,
    /// The parts of a block that this node needs.
    pub required_block_attributes: BlockAttributes,
    /// The blocks in the import queue.
    pub queue_blocks: Set<H>,
    /// Number of the best block in the import queue.
    pub best_importing_number: BlockNumber,
    /// Whether syncing is being stopped.
    pub is_stopping: bool,
    /// The published flag that says that there is no peer.
    pub is_offline: bool,
    /// The published flag that says that we are catching up.
    pub is_major_syncing: bool,
}

/// The smaller of two numbers.
pub open spec fn lesser(a: BlockNumber, b: BlockNumber) -> BlockNumber {
    if a <= b {
        a
    } else {
        b
    }
}

/// The greater of two numbers.
pub open spec fn greater(a: BlockNumber, b: BlockNumber) -> BlockNumber {
    if a >= b {
        a
    } else {
        b
    }
}

/// `order` names every member of a set once.
pub open spec fn is_order_of(order: Seq<NodeIndex>, members: Set<NodeIndex>) -> bool {
    order.no_duplicates() && order.to_set() == members
}

/// `best` is the highest best number among the peers, and nothing if there is no peer.
pub open spec fn is_best_seen<H>(peers: PeersView<H>, best: Option<BlockNumber>) -> bool {
    match best {
        Some(n) => {
            &&& exists|who: NodeIndex| #[trigger]
                peers.contains_key(who) && peers[who].best_number == n
            &&& forall|who: NodeIndex| #[trigger]
                peers.contains_key(who) ==> peers[who].best_number <= n
        },
        None => forall|who: NodeIndex| !#[trigger] peers.contains_key(who),
    }
}

/// The highest best number among the peers.
pub open spec fn best_seen<H>(peers: PeersView<H>) -> Option<BlockNumber> {
    choose|best: Option<BlockNumber>| is_best_seen(peers, best)
}

/// We are catching up if a block was seen that is far ahead of what is queued.
pub open spec fn sync_state(
    best_queued: BlockNumber,
    best_seen: Option<BlockNumber>,
) -> SyncState {
    match best_seen {
        Some(n) => if n > best_queued + MAJOR_SYNC_DISTANCE {
            SyncState::Downloading
        } else {
            SyncState::Idle
        },
        None => SyncState::Idle,
    }
}

/// A flag that follows a change of the sync state.
pub open spec fn following(flag: bool, before: SyncState, after: SyncState) -> bool {
    if before == after {
        flag
    } else {
        after == SyncState::Downloading
    }
}

/// Whether anything is known of a block.
pub open spec fn says_known(status: ChainStatus) -> bool {
    status matches Ok(s) && s != BlockStatus::Unknown
}

/// The blocks in ascending order.
pub open spec fn in_order<H>(direction: Direction, blocks: Seq<BlockData<H>>) -> Seq<BlockData<H>> {
    match direction {
        Direction::Ascending => blocks,
        Direction::Descending => blocks.reverse(),
    }
}

/// Blocks that a peer has sent, on their way to the import queue.
pub open spec fn sent_by<H>(who: NodeIndex, blocks: Seq<BlockData<H>>) -> Seq<IncomingBlock<H>> {
    blocks.map_values(|block: BlockData<H>| IncomingBlock::received(block, Some(who)))
}

/// Blocks out of the block collection, on their way to the import queue.
pub open spec fn drained<H>(blocks: Seq<DownloadedBlock<H>>) -> Seq<IncomingBlock<H>> {
    blocks.map_values(
        |block: DownloadedBlock<H>| IncomingBlock::received(block.block, block.origin),
    )
}

/// A request for the header and the justification of the block with this number.
pub open spec fn ancestry_request<H>(number: BlockNumber) -> BlockRequest<H> {
    BlockRequest {
        id: 0,
        fields: BlockAttributes { header: true, body: false, justification: true },
        from: FromBlock::Number(number),
        to: None,
        direction: Direction::Ascending,
        max: Some(1),
    }
}

impl<H> SyncView<H> {
    /// The state at the start.
    pub open spec fn initial(
        is_offline: bool,
        is_major_syncing: bool,
        role: Roles,
        info: ClientInfo<H>,
    ) -> Self {
        SyncView {
            genesis_hash: info.chain.genesis_hash,
            peers: Map::empty(),
            best_queued_number: Self::best_queued_of(info).0,
            best_queued_hash: Self::best_queued_of(info).1,
            required_block_attributes: BlockAttributes {
                header: true,
                body: role.full || role.authority,
                justification: true,
            },
            queue_blocks: Set::empty(),
            best_importing_number: 0,
            is_stopping: false,
            is_offline,
            is_major_syncing,
        }
    }

    /// Number and hash of the best block that the client has queued, or else has in its chain.
    pub open spec fn best_queued_of(info: ClientInfo<H>) -> (BlockNumber, H) {
        (
            match info.best_queued_number {
                Some(number) => number,
                None => info.chain.best_number,
            },
            match info.best_queued_hash {
                Some(hash) => hash,
                None => info.chain.best_hash,
            },
        )
    }

    /// The sync state.
    pub open spec fn sync_state(self) -> SyncState {
        sync_state(self.best_queued_number, best_seen(self.peers))
    }

    /// `order` names every peer once.
    pub open spec fn walks(self, order: Seq<NodeIndex>) -> bool {
        is_order_of(order, self.peers.dom())
    }

    /// What is known of a block, given what the blockchain says of it: what waits in the
    /// import queue is known to be queued.
    pub open spec fn status_of(self, hash: H, chain: ChainStatus) -> ChainStatus {
        if self.queue_blocks.contains(hash) {
            Ok(BlockStatus::Queued)
        } else {
            chain
        }
    }

    /// Whether anything is known of a block, given what the blockchain says of it.
    pub open spec fn knows(self, hash: H, chain: ChainStatus) -> bool {
        says_known(self.status_of(hash, chain))
    }

    /// Whether some peer is sending the block on a fork with this hash.
    pub open spec fn is_downloading(self, hash: H) -> bool {
        exists|who: NodeIndex| #[trigger]
            self.peers.contains_key(who) && self.peers[who].state
                == PeerSyncState::DownloadingStale(hash)
    }

    /// What a peer is busy with, if it is connected.
    pub open spec fn peer_state(self, who: NodeIndex) -> Option<PeerSyncState<H>> {
        if self.peers.contains_key(who) {
            Some(self.peers[who].state)
        } else {
            None
        }
    }

    /// Another state for a connected peer.
    pub open spec fn set_state(self, who: NodeIndex, state: PeerSyncState<H>) -> Self {
        SyncView { peers: self.peers.insert(who, self.peers[who].with_state(state)), ..self }
    }

    /// A connected peer is done with what it was busy with.
    pub open spec fn freed(self, who: NodeIndex) -> Self {
        self.set_state(who, PeerSyncState::Available)
    }

    // Downloading.

    /// Whether a peer is to be asked for new blocks: it is available, and there is room for
    /// more blocks in the import queue.
    pub open spec fn wants_blocks(self, who: NodeIndex) -> bool {
        self.peer_state(who) == Some(PeerSyncState::<H>::Available) && self.queue_blocks.len()
            <= MAX_IMPORTING_BLOCKS
    }

    /// The question which blocks to fetch from a peer.
    pub open spec fn block_query(self, who: NodeIndex) -> ActionView<H> {
        ActionView::NeededBlocks {
            who,
            count: MAX_BLOCKS_TO_REQUEST,
            peer_best: self.peers[who].best_number,
            common: self.peers[who].common_number,
        }
    }

    /// What is asked for to get new blocks from a peer.
    pub open spec fn download_actions(self, who: NodeIndex) -> Seq<ActionView<H>> {
        if self.wants_blocks(who) {
            seq![self.block_query(who)]
        } else {
            seq![]
        }
    }

    /// What is asked for to keep the sync going, if the peers are walked in this order: new
    /// blocks from each peer that is available, then whatever else is pending.
    pub open spec fn maintenance(self, order: Seq<NodeIndex>) -> Seq<ActionView<H>> {
        if self.is_stopping {
            seq![]
        } else {
            order.filter(|who: NodeIndex| self.wants_blocks(who)).map_values(
                |who: NodeIndex| self.block_query(who),
            ).push(ActionView::Extra(ExtraAction::DispatchAll))
        }
    }

    /// A request for the blocks of a range.
    pub open spec fn range_request(self, range: BlockRange) -> BlockRequest<H> {
        BlockRequest {
            id: 0,
            fields: self.required_block_attributes,
            from: FromBlock::Number(range.start),
            to: None,
            direction: Direction::Ascending,
            max: Some((range.end - range.start) as u32),
        }
    }

    /// Whether the answer of the block collection makes a peer download.
    pub open spec fn starts_download(self, who: NodeIndex, range: Option<BlockRange>) -> bool {
        range is Some && self.peer_state(who) == Some(PeerSyncState::<H>::Available)
    }

    /// After the block collection has said which blocks to fetch from a peer.
    pub open spec fn needed(self, who: NodeIndex, range: Option<BlockRange>) -> Self {
        if self.starts_download(who, range) {
            self.set_state(who, PeerSyncState::DownloadingNew(range->0.start))
        } else {
            self
        }
    }

    /// See [`SyncView::needed`].
    pub open spec fn needed_actions(
        self,
        who: NodeIndex,
        range: Option<BlockRange>,
    ) -> Seq<ActionView<H>> {
        if self.starts_download(who, range) {
            seq![ActionView::SendMessage(who, self.range_request(range->0))]
        } else {
            seq![]
        }
    }

    /// A request for a block on a fork and, if its parent is unknown, for its ancestors.
    pub open spec fn stale_request(self, hash: H, known_parent: bool) -> BlockRequest<H> {
        BlockRequest {
            id: 0,
            fields: self.required_block_attributes,
            from: FromBlock::Hash(hash),
            to: None,
            direction: if known_parent {
                Direction::Ascending
            } else {
                Direction::Descending
            },
            max: Some(
                if known_parent {
                    1
                } else {
                    MAX_UNKNOWN_FORK_DOWNLOAD_LEN
                },
            ),
        }
    }

    /// After a block on a fork was asked of a connected peer, which needs to be available.
    pub open spec fn stale(self, who: NodeIndex, hash: H) -> Self {
        if self.peer_state(who) == Some(PeerSyncState::<H>::Available) {
            self.set_state(who, PeerSyncState::DownloadingStale(hash))
        } else {
            self
        }
    }

    /// See [`SyncView::stale`].
    pub open spec fn stale_actions(self, who: NodeIndex, hash: H, known_parent: bool) -> Seq<
        ActionView<H>,
    > {
        if self.peer_state(who) == Some(PeerSyncState::<H>::Available) {
            seq![ActionView::SendMessage(who, self.stale_request(hash, known_parent))]
        } else {
            seq![]
        }
    }

    // Peers come and go.

    /// How a peer is entered, given what is known of its best block.
    pub open spec fn admitted(self, info: PeerInfo<H>, status: ChainStatus) -> Option<
        PeerView<H>,
    > {
        match status {
            Err(_) => None,
            Ok(BlockStatus::KnownBad) => None,
            Ok(BlockStatus::Queued) | Ok(BlockStatus::InChain) => Some(
                PeerView::fresh(
                    info.best_number,
                    info.best_hash,
                    info.best_number,
                    PeerSyncState::Available,
                ),
            ),
            Ok(BlockStatus::Unknown) => if info.best_number == 0 {
                None
            } else if self.queue_blocks.len() > MAJOR_SYNC_BLOCKS {
                // the common block moves too fast to search for it
                Some(
                    PeerView::fresh(
                        self.best_queued_number,
                        info.best_hash,
                        info.best_number,
                        PeerSyncState::Available,
                    ),
                )
            } else {
                Some(
                    PeerView::fresh(
                        0,
                        info.best_hash,
                        info.best_number,
                        if self.best_queued_number > 0 {
                            PeerSyncState::AncestorSearch(
                                lesser(self.best_queued_number, info.best_number),
                            )
                        } else {
                            PeerSyncState::Available
                        },
                    ),
                )
            },
        }
    }

    /// With a peer entered.
    pub open spec fn with_peer(self, who: NodeIndex, peer: PeerView<H>) -> Self {
        let peers = self.peers.insert(who, peer);
        SyncView {
            peers,
            is_offline: self.is_offline && self.peers.len() > 0,
            is_major_syncing: if self.peers.contains_key(who) {
                self.is_major_syncing
            } else {
                following(
                    self.is_major_syncing,
                    self.sync_state(),
                    sync_state(self.best_queued_number, best_seen(peers)),
                )
            },
            ..self
        }
    }

    /// After a peer has connected of which `met` is known.
    pub open spec fn new_peer(
        self,
        who: NodeIndex,
        met: Option<(PeerInfo<H>, ChainStatus)>,
    ) -> Self {
        match met {
            Some((info, chain)) => match self.admitted(
                info,
                self.status_of(info.best_hash, chain),
            ) {
                Some(peer) => self.with_peer(who, peer),
                None => self,
            },
            None => self,
        }
    }

    /// See [`SyncView::new_peer`].
    pub open spec fn new_peer_actions(
        self,
        who: NodeIndex,
        met: Option<(PeerInfo<H>, ChainStatus)>,
    ) -> Seq<ActionView<H>> {
        match met {
            Some((info, chain)) => match self.status_of(info.best_hash, chain) {
                Err(e) => seq![
                    ActionView::ReportPeer(who, Severity::Useless(Fault::StatusUnreadable(e))),
                ],
                Ok(BlockStatus::KnownBad) => seq![
                    ActionView::ReportPeer(
                        who,
                        Severity::Bad(
                            Fault::KnownBadBlock {
                                hash: info.best_hash,
                                number: info.best_number,
                            },
                        ),
                    ),
                ],
                Ok(BlockStatus::Queued) | Ok(BlockStatus::InChain) => seq![],
                Ok(BlockStatus::Unknown) => if info.best_number == 0 {
                    seq![
                        ActionView::ReportPeer(
                            who,
                            Severity::Bad(
                                Fault::UnknownGenesis {
                                    hash: info.best_hash,
                                    number: info.best_number,
                                },
                            ),
                        ),
                    ]
                } else if self.queue_blocks.len() > MAJOR_SYNC_BLOCKS {
                    seq![]
                } else if self.best_queued_number > 0 {
                    seq![
                        ActionView::SendMessage(
                            who,
                            ancestry_request(lesser(self.best_queued_number, info.best_number)),
                        ),
                    ]
                } else {
                    seq![
                        ActionView::NeededBlocks {
                            who,
                            count: MAX_BLOCKS_TO_REQUEST,
                            peer_best: info.best_number,
                            common: 0,
                        },
                    ]
                },
            },
            None => seq![],
        }
    }

    /// After a peer has disconnected.
    pub open spec fn disconnected(self, who: NodeIndex) -> Self {
        let peers = self.peers.remove(who);
        let after = sync_state(self.best_queued_number, best_seen(peers));
        SyncView {
            peers,
            is_offline: self.is_offline || peers.len() == 0,
            is_major_syncing: self.is_major_syncing && !(self.sync_state()
                == SyncState::Downloading && after == SyncState::Idle),
            ..self
        }
    }

    /// See [`SyncView::disconnected`]; `order` walks the peers that are left.
    pub open spec fn disconnected_actions(self, who: NodeIndex, order: Seq<NodeIndex>) -> Seq<
        ActionView<H>,
    > {
        seq![
            ActionView::ClearPeerDownload(who),
            ActionView::Extra(ExtraAction::PeerDisconnected(who)),
        ] + self.disconnected(who).maintenance(order)
    }

    /// After a restart, before the peers are looked at again.
    pub open spec fn restarted(self, info: Result<ClientInfo<H>, ClientError>) -> Self {
        SyncView {
            peers: Map::empty(),
            queue_blocks: Set::empty(),
            best_importing_number: 0,
            best_queued_number: match info {
                Ok(info) => Self::best_queued_of(info).0,
                Err(_) => 0,
            },
            best_queued_hash: match info {
                Ok(info) => Self::best_queued_of(info).1,
                Err(_) => self.genesis_hash,
            },
            ..self
        }
    }

    /// See [`SyncView::restarted`].
    pub open spec fn restarted_actions(self, order: Seq<NodeIndex>) -> Seq<ActionView<H>> {
        seq![ActionView::ClearBlocks] + order.map_values(
            |who: NodeIndex| ActionView::<H>::Reconsider(who),
        )
    }

    /// After all peers were forgotten.
    pub open spec fn cleared(self) -> Self {
        SyncView { peers: Map::empty(), ..self }
    }

    // Blocks are queued, imported and announced.

    /// After a block was queued for import.
    pub open spec fn block_queued(self, hash: H, number: BlockNumber) -> Self {
        let best_queued_number = greater(number, self.best_queued_number);
        SyncView {
            best_queued_number,
            best_queued_hash: if number > self.best_queued_number {
                hash
            } else {
                self.best_queued_hash
            },
            is_major_syncing: following(
                self.is_major_syncing,
                self.sync_state(),
                sync_state(best_queued_number, best_seen(self.peers)),
            ),
            peers: self.peers.map_values(|peer: PeerView<H>| peer.queued(number)),
            ..self
        }
    }

    /// After the last of these blocks, if it has a header, was taken for queued.
    pub open spec fn last_queued(self, blocks: Seq<IncomingBlock<H>>) -> Self {
        if blocks.len() > 0 && blocks.last().number() is Some {
            self.block_queued(blocks.last().hash, blocks.last().number()->0)
        } else {
            self
        }
    }

    /// After blocks were handed to the import queue.
    pub open spec fn accepted(self, blocks: Seq<IncomingBlock<H>>) -> Self {
        let queued = self.last_queued(blocks);
        SyncView {
            queue_blocks: self.queue_blocks.union(
                blocks.map_values(|block: IncomingBlock<H>| block.hash).to_set(),
            ),
            best_importing_number: if blocks.len() > 0 && blocks.last().number() is Some {
                greater(blocks.last().number()->0, self.best_importing_number)
            } else {
                self.best_importing_number
            },
            ..queued
        }
    }

    /// Why blocks are imported: some peer has announced the first of them, or not.
    pub open spec fn origin_of(self, blocks: Seq<IncomingBlock<H>>) -> BlockOrigin {
        if blocks.len() > 0 && exists|who: NodeIndex| #[trigger]
            self.peers.contains_key(who) && self.peers[who].recently_announced.contains(
                blocks.first().hash,
            ) {
            BlockOrigin::NetworkBroadcast
        } else {
            BlockOrigin::NetworkInitialSync
        }
    }

    /// See [`SyncView::accepted`].
    pub open spec fn accepted_actions(
        self,
        blocks: Seq<IncomingBlock<H>>,
        order: Seq<NodeIndex>,
    ) -> Seq<ActionView<H>> {
        self.last_queued(blocks).maintenance(order).push(
            ActionView::ImportBlocks(self.origin_of(blocks), blocks),
        )
    }

    /// After a peer has sent blocks, which are in ascending order.
    pub open spec fn block_data(self, who: NodeIndex, blocks: Seq<BlockData<H>>) -> Self {
        match self.peer_state(who) {
            Some(PeerSyncState::DownloadingNew(_)) => self.freed(who),
            Some(PeerSyncState::DownloadingStale(_)) => self.freed(who).accepted(
                sent_by(who, blocks),
            ),
            Some(PeerSyncState::AncestorSearch(_)) => self,
            _ => self.accepted(seq![]),
        }
    }

    /// See [`SyncView::block_data`].
    pub open spec fn block_data_actions(
        self,
        who: NodeIndex,
        blocks: Seq<BlockData<H>>,
        order: Seq<NodeIndex>,
    ) -> Seq<ActionView<H>> {
        match self.peer_state(who) {
            Some(PeerSyncState::DownloadingNew(start)) => seq![
                ActionView::ClearPeerDownload(who),
                ActionView::InsertBlocks { start, blocks, who },
                ActionView::DrainBlocks { from: (self.best_queued_number + 1) as BlockNumber },
            ],
            Some(PeerSyncState::DownloadingStale(_)) => self.freed(who).accepted_actions(
                sent_by(who, blocks),
                order,
            ),
            Some(PeerSyncState::AncestorSearch(number)) => if blocks.len() > 0 {
                seq![ActionView::QueryBlockHash { who, number, theirs: blocks.first().hash }]
            } else {
                seq![ActionView::ReportPeer(who, Severity::Bad(Fault::NoAncestryBlock))]
            },
            _ => self.accepted_actions(seq![], order),
        }
    }

    /// After a block that a peer and we have in common was found at number `n`.
    pub open spec fn ancestor_found(self, who: NodeIndex, n: BlockNumber) -> Self {
        let peer = self.peers[who];
        SyncView {
            peers: self.peers.insert(
                who,
                PeerView {
                    common_number: greater(peer.common_number, n),
                    state: PeerSyncState::Available,
                    ..peer
                },
            ),
            ..self
        }
    }

    /// After the hash that we have where a peer has `theirs` was looked up. The search for a
    /// common ancestor ends where the hashes agree, and otherwise goes one block back.
    pub open spec fn ancestor_hash(
        self,
        who: NodeIndex,
        theirs: H,
        ours: Result<Option<H>, ClientError>,
    ) -> Self {
        match (self.peer_state(who), ours) {
            (Some(PeerSyncState::AncestorSearch(n)), Ok(hash)) => if hash == Some(theirs) {
                self.ancestor_found(who, n).accepted(seq![])
            } else if n > 0 {
                self.set_state(who, PeerSyncState::AncestorSearch((n - 1) as BlockNumber))
            } else {
                self
            },
            _ => self,
        }
    }

    /// See [`SyncView::ancestor_hash`].
    pub open spec fn ancestor_hash_actions(
        self,
        who: NodeIndex,
        theirs: H,
        ours: Result<Option<H>, ClientError>,
        order: Seq<NodeIndex>,
    ) -> Seq<ActionView<H>> {
        match (self.peer_state(who), ours) {
            (Some(PeerSyncState::AncestorSearch(n)), Ok(hash)) => if hash == Some(theirs) {
                self.ancestor_found(who, n).accepted_actions(seq![], order)
            } else if n > 0 {
                seq![ActionView::SendMessage(who, ancestry_request((n - 1) as BlockNumber))]
            } else {
                seq![ActionView::ReportPeer(who, Severity::Bad(Fault::GenesisMismatch))]
            },
            (Some(PeerSyncState::AncestorSearch(n)), Err(e)) => seq![
                ActionView::ReportPeer(who, Severity::Useless(Fault::AncestryUnreadable(e))),
            ],
            _ => seq![],
        }
    }

    /// After the import queue is done with blocks.
    pub open spec fn processed(self, blocks: Seq<H>, has_error: bool) -> Self {
        SyncView {
            queue_blocks: self.queue_blocks.difference(blocks.to_set()),
            best_importing_number: if has_error {
                0
            } else {
                self.best_importing_number
            },
            ..self
        }
    }

    /// Whether an announcement is looked at: it is not of a genesis block, and comes from a
    /// connected peer.
    pub open spec fn heeds(self, who: NodeIndex, header: Header<H>) -> bool {
        header.number > 0 && self.peers.contains_key(who)
    }

    /// After a peer has announced a block, before anything is done to download it.
    pub open spec fn announcement_noted(
        self,
        who: NodeIndex,
        hash: H,
        header: Header<H>,
        known_parent: bool,
        known: bool,
    ) -> Self {
        let peer = self.peers[who].announced(hash, header.number);
        SyncView {
            peers: self.peers.insert(
                who,
                PeerView {
                    common_number: if peer.state is AncestorSearch {
                        peer.common_number
                    } else if header.parent_hash == self.best_queued_hash || known_parent {
                        (header.number - 1) as BlockNumber
                    } else if known {
                        header.number
                    } else {
                        peer.common_number
                    },
                    ..peer
                },
            ),
            ..self
        }
    }

    /// Whether an announced block is to be downloaded.
    pub open spec fn fetches(
        self,
        who: NodeIndex,
        hash: H,
        header: Header<H>,
        known: bool,
    ) -> bool {
        &&& self.heeds(who, header)
        &&& !(self.peers[who].state is AncestorSearch)
        &&& !known
        &&& !self.is_downloading(hash)
    }

    /// After a peer has announced a block.
    pub open spec fn announced(
        self,
        who: NodeIndex,
        hash: H,
        header: Header<H>,
        known_parent: bool,
        known: bool,
    ) -> Self {
        let noted = self.announcement_noted(who, hash, header, known_parent, known);
        if !self.heeds(who, header) {
            self
        } else if self.fetches(who, hash, header, known) && header.number
            <= self.best_queued_number {
            noted.stale(who, hash)
        } else {
            noted
        }
    }

    /// See [`SyncView::announced`].
    pub open spec fn announced_actions(
        self,
        who: NodeIndex,
        hash: H,
        header: Header<H>,
        known_parent: bool,
        known: bool,
    ) -> Seq<ActionView<H>> {
        let noted = self.announcement_noted(who, hash, header, known_parent, known);
        if !self.fetches(who, hash, header, known) {
            seq![]
        } else if header.number <= self.best_queued_number {
            noted.stale_actions(
                who,
                hash,
                known_parent || self.is_downloading(header.parent_hash),
            )
        } else {
            noted.download_actions(who)
        }
    }

    // Justifications and finality proofs.

    /// After a justification or a finality proof was asked of a peer.
    pub open spec fn extra_requested(self, who: NodeIndex, kind: ExtraKind, hash: H) -> Self {
        if self.peers.contains_key(who) {
            self.set_state(
                who,
                match kind {
                    ExtraKind::Justification => PeerSyncState::DownloadingJustification(hash),
                    ExtraKind::FinalityProof => PeerSyncState::DownloadingFinalityProof(hash),
                },
            )
        } else {
            self
        }
    }

    /// After a peer has sent blocks in answer to a request for a justification.
    pub open spec fn justification_data(self, who: NodeIndex) -> Self {
        if self.peer_state(who) matches Some(PeerSyncState::DownloadingJustification(_)) {
            self.freed(who)
        } else {
            self
        }
    }

    /// See [`SyncView::justification_data`].
    pub open spec fn justification_data_actions(
        self,
        who: NodeIndex,
        blocks: Seq<BlockData<H>>,
        order: Seq<NodeIndex>,
    ) -> Seq<ActionView<H>> {
        match self.peer_state(who) {
            Some(PeerSyncState::DownloadingJustification(requested)) => if blocks.len() == 0 {
                seq![]
            } else if blocks.first().hash != requested {
                seq![
                    ActionView::ReportPeer(
                        who,
                        Severity::Bad(
                            Fault::WrongJustification { requested, got: blocks.first().hash },
                        ),
                    ),
                ]
            } else {
                seq![
                    ActionView::Extra(
                        ExtraAction::Response(
                            ExtraKind::Justification,
                            who,
                            blocks.first().justification,
                        ),
                    ),
                ] + self.freed(who).maintenance(order)
            },
            _ => self.maintenance(order),
        }
    }

    /// After a peer has sent a finality proof.
    pub open spec fn finality_proof_data(self, who: NodeIndex) -> Self {
        if self.peer_state(who) matches Some(PeerSyncState::DownloadingFinalityProof(_)) {
            self.freed(who)
        } else {
            self
        }
    }

    /// See [`SyncView::finality_proof_data`].
    pub open spec fn finality_proof_data_actions(
        self,
        who: NodeIndex,
        response: FinalityProofResponse<H>,
        order: Seq<NodeIndex>,
    ) -> Seq<ActionView<H>> {
        match self.peer_state(who) {
            Some(PeerSyncState::DownloadingFinalityProof(requested)) => if response.block
                != requested {
                seq![
                    ActionView::ReportPeer(
                        who,
                        Severity::Bad(
                            Fault::WrongFinalityProof { requested, got: response.block },
                        ),
                    ),
                ]
            } else {
                seq![
                    ActionView::Extra(
                        ExtraAction::Response(ExtraKind::FinalityProof, who, response.proof),
                    ),
                ] + self.freed(who).maintenance(order)
            },
            _ => self.maintenance(order),
        }
    }
}

/// Something that happens to the sync strategy: a call of the function of [`ChainSync`] that
/// is named.
///
/// [`ChainSync`]: crate::sync::ChainSync
#[verifier::reject_recursive_types(H)]
pub enum Event<H> {
    /// `new_peer`
    NewPeer { who: NodeIndex, met: Option<(PeerInfo<H>, ChainStatus)> },
    /// `peer_disconnected`
    PeerDisconnected { who: NodeIndex },
    /// `on_block_data`, with the blocks in ascending order
    BlockData { who: NodeIndex, blocks: Seq<BlockData<H>> },
    /// `on_drained_blocks`
    DrainedBlocks { drained: Seq<DownloadedBlock<H>> },
    /// `on_ancestor_hash`
    AncestorHash { who: NodeIndex, theirs: H, ours: Result<Option<H>, ClientError> },
    /// `on_needed_blocks`
    NeededBlocks { who: NodeIndex, range: Option<BlockRange> },
    /// `on_block_announce`
    BlockAnnounce {
        who: NodeIndex,
        hash: H,
        header: Header<H>,
        chain_parent: ChainStatus,
        chain_block: ChainStatus,
    },
    /// `on_block_justification_data`
    JustificationData { who: NodeIndex, blocks: Seq<BlockData<H>> },
    /// `on_block_finality_proof_data`
    FinalityProofData { who: NodeIndex, response: FinalityProofResponse<H> },
    /// `on_extra_request`
    ExtraRequest { who: NodeIndex, kind: ExtraKind, hash: H },
    /// `blocks_processed`
    BlocksProcessed { processed: Seq<H>, has_error: bool },
    /// `update_chain_info`
    ChainInfo { best_header: Header<H> },
    /// `maintain_sync`
    MaintainSync,
    /// `restart`
    Restart { info: Result<ClientInfo<H>, ClientError> },
    /// `clear`
    Clear,
    /// `stop`
    Stop,
}

impl<H> SyncView<H> {
    /// The state after an event.
    pub open spec fn after(self, event: Event<H>) -> Self {
        match event {
            Event::NewPeer { who, met } => self.new_peer(who, met),
            Event::PeerDisconnected { who } => self.disconnected(who),
            Event::BlockData { who, blocks } => self.block_data(who, blocks),
            Event::DrainedBlocks { drained } => self.accepted(crate::model::drained(drained)),
            Event::AncestorHash { who, theirs, ours } => self.ancestor_hash(who, theirs, ours),
            Event::NeededBlocks { who, range } => self.needed(who, range),
            Event::BlockAnnounce { who, hash, header, chain_parent, chain_block } => self.announced(
                who,
                hash,
                header,
                self.knows(header.parent_hash, chain_parent),
                self.knows(hash, chain_block),
            ),
            Event::JustificationData { who, blocks } => self.justification_data(who),
            Event::FinalityProofData { who, response } => self.finality_proof_data(who),
            Event::ExtraRequest { who, kind, hash } => self.extra_requested(who, kind, hash),
            Event::BlocksProcessed { processed, has_error } => self.processed(processed, has_error),
            Event::ChainInfo { best_header } => self.block_queued(
                best_header.hash,
                best_header.number,
            ),
            Event::MaintainSync => self,
            Event::Restart { info } => self.restarted(info),
            Event::Clear => self.cleared(),
            Event::Stop => SyncView { is_stopping: true, ..self },
        }
    }

    /// What an event asks for, if the peers are walked in this order.
    pub open spec fn asks(self, event: Event<H>, order: Seq<NodeIndex>) -> Seq<ActionView<H>> {
        match event {
            Event::NewPeer { who, met } => self.new_peer_actions(who, met),
            Event::PeerDisconnected { who } => self.disconnected_actions(who, order),
            Event::BlockData { who, blocks } => self.block_data_actions(who, blocks, order),
            Event::DrainedBlocks { drained } => self.accepted_actions(
                crate::model::drained(drained),
                order,
            ),
            Event::AncestorHash { who, theirs, ours } => self.ancestor_hash_actions(
                who,
                theirs,
                ours,
                order,
            ),
            Event::NeededBlocks { who, range } => self.needed_actions(who, range),
            Event::BlockAnnounce { who, hash, header, chain_parent, chain_block } =>
            self.announced_actions(
                who,
                hash,
                header,
                self.knows(header.parent_hash, chain_parent),
                self.knows(hash, chain_block),
            ),
            Event::JustificationData { who, blocks } => self.justification_data_actions(
                who,
                blocks,
                order,
            ),
            Event::FinalityProofData { who, response } => self.finality_proof_data_actions(
                who,
                response,
                order,
            ),
            Event::MaintainSync => self.maintenance(order),
            Event::Restart { info } => self.restarted_actions(order),
            Event::Clear => seq![ActionView::ClearBlocks],
            Event::Stop => seq![ActionView::StopImport],
            Event::ExtraRequest { .. } | Event::BlocksProcessed { .. } | Event::ChainInfo {
                ..
            } => seq![],
        }
    }

    /// The state after a history of events.
    pub open spec fn after_all(self, events: Seq<Event<H>>) -> Self
        decreases events.len(),
    {
        if events.len() == 0 {
            self
        } else {
            self.after_all(events.drop_last()).after(events.last())
        }
    }

    /// There are finitely many peers and queued blocks, no peer's announcements are remembered
    /// beyond the limit, and we only call ourselves offline without a peer.
    pub open spec fn within_bounds(self) -> bool {
        &&& self.peers.dom().finite()
        &&& self.queue_blocks.finite()
        &&& forall|who: NodeIndex| #[trigger]
            self.peers.contains_key(who) ==> self.peers[who].recently_announced.len()
                <= ANNOUNCE_HISTORY_SIZE
        &&& self.is_offline ==> self.peers.dom() == Set::<NodeIndex>::empty()
    }

    /// No two peers are sending the same block on a fork.
    pub open spec fn forks_are_apart(self) -> bool {
        forall|a: NodeIndex, b: NodeIndex|
            #![trigger self.peers.contains_key(a), self.peers.contains_key(b)]
            self.peers.contains_key(a) && self.peers.contains_key(b) && a != b
                && self.peers[a].state is DownloadingStale ==> self.peers[a].state
                != self.peers[b].state
    }

    /// What holds in every state.
    pub open spec fn inv(self) -> bool {
        self.within_bounds() && self.forks_are_apart()
    }

    // Restarting, with the answers that the node gives.

    /// Whether the peer that is looked up again is asked for new blocks.
    pub open spec fn asks_for_blocks(
        self,
        who: NodeIndex,
        met: Option<(PeerInfo<H>, ChainStatus)>,
    ) -> bool {
        self.new_peer_actions(who, met).len() > 0 && self.new_peer_actions(
            who,
            met,
        )[0] is NeededBlocks
    }

    /// After a peer was looked up again: `met` is what was found, and `range` is what the
    /// block collection says if it is asked which blocks to fetch.
    pub open spec fn reconsidered(
        self,
        who: NodeIndex,
        met: Option<(PeerInfo<H>, ChainStatus)>,
        range: Option<BlockRange>,
    ) -> Self {
        if self.asks_for_blocks(who, met) {
            self.new_peer(who, met).needed(who, range)
        } else {
            self.new_peer(who, met)
        }
    }

    /// See [`SyncView::reconsidered`].
    pub open spec fn reconsidered_actions(
        self,
        who: NodeIndex,
        met: Option<(PeerInfo<H>, ChainStatus)>,
        range: Option<BlockRange>,
    ) -> Seq<ActionView<H>> {
        if self.asks_for_blocks(who, met) {
            self.new_peer_actions(who, met) + self.new_peer(who, met).needed_actions(who, range)
        } else {
            self.new_peer_actions(who, met)
        }
    }

    /// After peers were looked up again one after the other: `met` and `ranges` are what is
    /// found for each of them.
    pub open spec fn reconsidered_all(
        self,
        order: Seq<NodeIndex>,
        met: spec_fn(NodeIndex) -> Option<(PeerInfo<H>, ChainStatus)>,
        ranges: spec_fn(NodeIndex) -> Option<BlockRange>,
    ) -> Self
        decreases order.len(),
    {
        if order.len() == 0 {
            self
        } else {
            let who = order.last();
            self.reconsidered_all(order.drop_last(), met, ranges).reconsidered(
                who,
                met(who),
                ranges(who),
            )
        }
    }

    /// See [`SyncView::reconsidered_all`].
    pub open spec fn reconsidered_all_actions(
        self,
        order: Seq<NodeIndex>,
        met: spec_fn(NodeIndex) -> Option<(PeerInfo<H>, ChainStatus)>,
        ranges: spec_fn(NodeIndex) -> Option<BlockRange>,
    ) -> Seq<ActionView<H>>
        decreases order.len(),
    {
        if order.len() == 0 {
            seq![]
        } else {
            let who = order.last();
            self.reconsidered_all_actions(order.drop_last(), met, ranges)
                + self.reconsidered_all(order.drop_last(), met, ranges).reconsidered_actions(
                who,
                met(who),
                ranges(who),
            )
        }
    }

    /// How a peer that was looked up again is entered, if at all: as any new peer, and
    /// downloading if it was asked for blocks and there are some to fetch.
    pub open spec fn readmitted(
        self,
        who: NodeIndex,
        met: Option<(PeerInfo<H>, ChainStatus)>,
        range: Option<BlockRange>,
    ) -> Option<PeerView<H>> {
        match met {
            Some((info, chain)) => match self.admitted(
                info,
                self.status_of(info.best_hash, chain),
            ) {
                Some(peer) => Some(
                    if self.asks_for_blocks(who, met) && range is Some {
                        peer.with_state(PeerSyncState::DownloadingNew(range->0.start))
                    } else {
                        peer
                    },
                ),
                None => None,
            },
            None => None,
        }
    }

    /// Whether a peer that was looked up again is known, but is not entered.
    pub open spec fn rejects(self, met: Option<(PeerInfo<H>, ChainStatus)>) -> bool {
        met matches Some((info, chain)) && self.admitted(
            info,
            self.status_of(info.best_hash, chain),
        ) is None
    }
}

} // verus!
