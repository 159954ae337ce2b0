//! What the sync strategy asks of the node around it.
use crate::message::{
    BlockData, BlockNumber, BlockOrigin, BlockRequest, ClientError, IncomingBlock, NodeIndex,
};
use vstd::prelude::*;

verus! {

/// What a peer did wrong, or what went wrong while it was looked at.
#[derive(Clone, Debug, PartialEq, Eq)]
pub enum Fault<H> {
    /// The blockchain could not say what it knows of the peer's best block.
    StatusUnreadable(ClientError),
    /// The peer's best block is known to be invalid.
    KnownBadBlock {
        /// Hash of the peer's best block.
        hash: H,
        /// Number of the peer's best block.
        number: BlockNumber,
    },
    /// The peer's best block is a genesis block that is not ours.
    UnknownGenesis {
        /// Hash of the peer's best block.
        hash: H,
        /// Number of the peer's best block.
        number: BlockNumber,
    },
    /// The search for a common ancestor ended at two different genesis blocks.
    GenesisMismatch,
    /// The blockchain could not be read during the search for a common ancestor.
    AncestryUnreadable(ClientError),
    /// The peer sent no block during the search for a common ancestor.
    NoAncestryBlock,
    /// The peer sent the justification of another block than the one asked for.
    WrongJustification {
        /// Hash of the block that was asked for.
        requested: H,
        /// Hash of the block that was sent.
        got: H,
    },
    /// The peer sent the finality proof of another block than the one asked for.
    WrongFinalityProof {
        /// Hash of the block that was asked for.
        requested: H,
        /// Hash of the block that was sent.
        got: H,
    },
}

/// How badly a peer is reported.
#[derive(Clone, Debug, PartialEq, Eq)]
pub enum Severity<H> {
    /// The peer is of no use.
    Useless(Fault<H>),
    /// The peer breaks the protocol.
    Bad(Fault<H>),
}

/// The kinds of data that are requested besides blocks.
#[derive(Clone, Copy, Debug, PartialEq, Eq)]
pub enum ExtraKind {
    /// Justifications of blocks.
    Justification,
    /// Proofs that a block is final.
    FinalityProof,
}

/// Something to be done to the pending requests for justifications and finality proofs.
#[derive(Clone, Debug, PartialEq, Eq)]
pub enum ExtraAction<H> {
    /// Note that data of this kind is wanted for the block with this hash and number.
    Queue(ExtraKind, H, BlockNumber),
    /// Send the pending requests of one kind to peers that are available.
    Dispatch(ExtraKind),
    /// Send the pending requests of both kinds to peers that are available.
    DispatchAll,
    /// Drop the pending requests of one kind.
    Clear(ExtraKind),
    /// Take the answer of a peer to a request of this kind.
    Response(ExtraKind, NodeIndex, Option<Vec<u8>>),
    /// Take note of whether data of this kind could be imported.
    ImportResult(ExtraKind, H, BlockNumber, bool),
    /// Drop what the finalization of a block has made pointless.
    BlockFinalized(H, BlockNumber),
    /// Hand the requests of a peer that is gone to others.
    PeerDisconnected(NodeIndex),
}

/// Something that the node is to do.
#[derive(Clone, Debug, PartialEq, Eq)]
pub enum Action<H> {
    /// Send a block request to a peer.
    SendMessage(NodeIndex, BlockRequest<H>),
    /// Report a peer.
    ReportPeer(NodeIndex, Severity<H>),
    /// Look up the hash that the blockchain has at `number`, and hand it to
    /// `ChainSync::on_ancestor_hash` together with `who` and `theirs`.
    QueryBlockHash {
        /// The peer whose chain is compared.
        who: NodeIndex,
        /// The number to look up.
        number: BlockNumber,
        /// The hash that the peer has at that number.
        theirs: H,
    },
    /// Ask the block collection which blocks to fetch from a peer, and hand its answer to
    /// `ChainSync::on_needed_blocks` together with `who`.
    NeededBlocks {
        /// The peer.
        who: NodeIndex,
        /// How many blocks to fetch at most.
        count: usize,
        /// Number of the peer's best block.
        peer_best: BlockNumber,
        /// Number of the best block that the peer and we have in common.
        common: BlockNumber,
    },
    /// Tell the block collection that a peer is no longer downloading.
    ClearPeerDownload(NodeIndex),
    /// Put blocks into the block collection.
    InsertBlocks {
        /// Number of the first block.
        start: BlockNumber,
        /// The blocks.
        blocks: Vec<BlockData<H>>,
        /// The peer that sent them.
        who: NodeIndex,
    },
    /// Take the consecutive blocks that start at `from` out of the block collection, and hand
    /// them to `ChainSync::on_drained_blocks`.
    DrainBlocks {
        /// Number of the first block to take.
        from: BlockNumber,
    },
    /// Empty the block collection.
    ClearBlocks,
    /// Hand blocks to the import queue.
    ImportBlocks(BlockOrigin, Vec<IncomingBlock<H>>),
    /// Stop the import queue.
    StopImport,
    /// Look up a connected peer again, and hand it to `ChainSync::new_peer`.
    Reconsider(NodeIndex),
    /// Do something to the pending requests for justifications and finality proofs.
    Extra(ExtraAction<H>),
}

/// An [`Action`] with its lists as sequences.
pub enum ActionView<H> {
    /// See [`Action::SendMessage`].
    SendMessage(NodeIndex, BlockRequest<H>),
    /// See [`Action::ReportPeer`].
    ReportPeer(NodeIndex, Severity<H>),
    /// See [`Action::QueryBlockHash`].
    QueryBlockHash { who: NodeIndex, number: BlockNumber, theirs: H },
    /// See [`Action::NeededBlocks`].
    NeededBlocks { who: NodeIndex, count: usize, peer_best: BlockNumber, common: BlockNumber },
    /// See [`Action::ClearPeerDownload`].
    ClearPeerDownload(NodeIndex),
    /// See [`Action::InsertBlocks`].
    InsertBlocks { start: BlockNumber, blocks: Seq<BlockData<H>>, who: NodeIndex },
    /// See [`Action::DrainBlocks`].
    DrainBlocks { from: BlockNumber },
    /// See [`Action::ClearBlocks`].
    ClearBlocks,
    /// See [`Action::ImportBlocks`].
    ImportBlocks(BlockOrigin, Seq<IncomingBlock<H>>),
    /// See [`Action::StopImport`].
    StopImport,
    /// See [`Action::Reconsider`].
    Reconsider(NodeIndex),
    /// See [`Action::Extra`].
    Extra(ExtraAction<H>),
}

impl<H> View for Action<H> {
    type V = ActionView<H>;

    open spec fn view(&self) -> ActionView<H> {
        match *self {
            Action::SendMessage(who, request) => ActionView::SendMessage(who, request),
            Action::ReportPeer(who, severity) => ActionView::ReportPeer(who, severity),
            Action::QueryBlockHash { who, number, theirs } => ActionView::QueryBlockHash {
                who,
                number,
                theirs,
            },
            Action::NeededBlocks { who, count, peer_best, common } => ActionView::NeededBlocks {
                who,
                count,
                peer_best,
                common,
            },
            Action::ClearPeerDownload(who) => ActionView::ClearPeerDownload(who),
            Action::InsertBlocks { start, blocks, who } => ActionView::InsertBlocks {
                start,
                blocks: blocks@,
                who,
            },
            Action::DrainBlocks { from } => ActionView::DrainBlocks { from },
            Action::ClearBlocks => ActionView::ClearBlocks,
            Action::ImportBlocks(origin, blocks) => ActionView::ImportBlocks(origin, blocks@),
            Action::StopImport => ActionView::StopImport,
            Action::Reconsider(who) => ActionView::Reconsider(who),
            Action::Extra(action) => ActionView::Extra(action),
        }
    }
}

/// What one call asks the node to do, in this order.
///
/// The node carries an action out completely, with whatever the handling of its result asks
/// for, before it goes on to the next one.
#[derive(Clone, Debug, PartialEq, Eq)]
pub struct Context<H> {
    actions: Vec<Action<H>>,
}

impl<H> View for Context<H> {
    type V = Seq<ActionView<H>>;

    closed spec fn view(&self) -> Seq<ActionView<H>> {
        self.actions@.map_values(|action: Action<H>| action@)
    }
}

impl<H> Context<H> {
    /// Nothing to do yet.
    pub fn new() -> (context: Self)
        ensures
            context@ == Seq::<ActionView<H>>::empty(),
    {
        let context = Context { actions: Vec::new() };
        assert(context@ =~= Seq::<ActionView<H>>::empty());
        context
    }

    /// Adds something to do after everything that is there.
    pub fn perform(&mut self, action: Action<H>)
        ensures
            final(self)@ == old(self)@.push(action@),
    {
        self.actions.push(action);
        assert(self@ =~= old(self)@.push(action@));
    }

    /// Asks for a block request to be sent.
    pub fn send_message(&mut self, who: NodeIndex, request: BlockRequest<H>)
        ensures
            final(self)@ == old(self)@.push(ActionView::SendMessage(who, request)),
    {
        self.perform(Action::SendMessage(who, request));
    }

    /// Asks for a peer to be reported.
    pub fn report_peer(&mut self, who: NodeIndex, severity: Severity<H>)
        ensures
            final(self)@ == old(self)@.push(ActionView::ReportPeer(who, severity)),
    {
        self.perform(Action::ReportPeer(who, severity));
    }

    /// Hands out what is to be done.
    pub fn into_actions(self) -> (actions: Vec<Action<H>>)
        ensures
            actions@.map_values(|action: Action<H>| action@) == self@,
    {
        self.actions
    }
}

} // verus!
