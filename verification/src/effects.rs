//! What each event does, said of what goes in and what comes out.
//!
//! The laws here speak of the fields of the state before and after, and of the fields of what is
//! asked for. Where several things can happen, each law is about one of them.
use crate::context::{Action, ActionView, ExtraAction, ExtraKind, Fault, Severity};
use crate::message::{
    BlockData, BlockNumber, BlockOrigin, BlockRange, BlockRequest, BlockStatus, ClientError,
    ClientInfo, Direction, DownloadedBlock, FinalityProofResponse, FromBlock, Header,
    IncomingBlock, NodeIndex, PeerInfo, Roles,
};
use crate::model::{
    ChainStatus, PeersView, SyncView, MAJOR_SYNC_BLOCKS, MAJOR_SYNC_DISTANCE,
    MAX_BLOCKS_TO_REQUEST, MAX_IMPORTING_BLOCKS, MAX_UNKNOWN_FORK_DOWNLOAD_LEN,
};
use crate::peer::{PeerSync, PeerSyncState, PeerView, ANNOUNCE_HISTORY_SIZE};
use crate::status::SyncState;
use vstd::prelude::*;

verus! {

// What the laws are said with.

/// Some peer has a block that is more than five blocks above a number.
pub open spec fn someone_is_ahead<H>(peers: PeersView<H>, of: BlockNumber) -> bool {
    exists|who: NodeIndex| #[trigger] peers.contains_key(who) && peers[who].best_number > of + 5
}

/// Everything but the peers and the two flags is the same.
pub open spec fn same_but_peers_and_flags<H>(s: SyncView<H>, t: SyncView<H>) -> bool {
    &&& t.genesis_hash == s.genesis_hash
    &&& t.best_queued_number == s.best_queued_number
    &&& t.best_queued_hash == s.best_queued_hash
    &&& t.required_block_attributes == s.required_block_attributes
    &&& t.queue_blocks == s.queue_blocks
    &&& t.best_importing_number == s.best_importing_number
    &&& t.is_stopping == s.is_stopping
}

/// Everything but the peers is the same.
pub open spec fn same_but_peers<H>(s: SyncView<H>, t: SyncView<H>) -> bool {
    &&& same_but_peers_and_flags(s, t)
    &&& t.is_offline == s.is_offline
    &&& t.is_major_syncing == s.is_major_syncing
}

/// Nobody but one peer comes, goes or changes.
pub open spec fn same_but_one<H>(
    before: PeersView<H>,
    after: PeersView<H>,
    who: NodeIndex,
) -> bool {
    forall|p: NodeIndex|
        p != who ==> (#[trigger] after.contains_key(p) == before.contains_key(p)) && (
        before.contains_key(p) ==> after[p] == before[p])
}

/// A peer that was and is connected has only changed its state, to this one; all else is the
/// same.
pub open spec fn only_state_changed<H>(
    s: SyncView<H>,
    t: SyncView<H>,
    who: NodeIndex,
    state: PeerSyncState<H>,
) -> bool {
    &&& same_but_peers(s, t)
    &&& same_but_one(s.peers, t.peers, who)
    &&& s.peers.contains_key(who)
    &&& t.peers.contains_key(who)
    &&& t.peers[who].state == state
    &&& t.peers[who].common_number == s.peers[who].common_number
    &&& t.peers[who].best_number == s.peers[who].best_number
    &&& t.peers[who].best_hash == s.peers[who].best_hash
    &&& t.peers[who].recently_announced == s.peers[who].recently_announced
}

/// The question which blocks to fetch from a connected peer that is available: no more than 128
/// blocks, given what the peer has and what it shares with us.
pub open spec fn is_question_about<H>(
    peers: PeersView<H>,
    who: NodeIndex,
    asked: ActionView<H>,
) -> bool {
    &&& peers.contains_key(who)
    &&& peers[who].state is Available
    &&& asked matches ActionView::NeededBlocks { who: w, count, peer_best, common }
    &&& w == who
    &&& count == 128
    &&& peer_best == peers[who].best_number
    &&& common == peers[who].common_number
}

/// What is asked for keeps the sync going: nothing if it is being stopped; else one question
/// for each peer that is available, if no more than 2048 blocks are queued, and after them that
/// whatever else is pending be sent.
pub open spec fn keeps_going<H>(
    peers: PeersView<H>,
    queued: nat,
    is_stopping: bool,
    asked: Seq<ActionView<H>>,
) -> bool {
    if is_stopping {
        asked.len() == 0
    } else {
        &&& asked.len() > 0
        &&& asked.last() == ActionView::<H>::Extra(ExtraAction::DispatchAll)
        &&& forall|i: int|
            0 <= i < asked.len() - 1 ==> queued <= 2048 && (#[trigger] asked[i] matches
                ActionView::NeededBlocks { who, .. } && is_question_about(peers, who, asked[i]))
        &&& forall|i: int, j: int|
            0 <= i < j < asked.len() - 1 ==> #[trigger] asked[i] != #[trigger] asked[j]
        &&& forall|who: NodeIndex|
            queued <= 2048 && #[trigger] peers.contains_key(who) && peers[who].state is Available
                ==> asked_about(peers, who, asked)
    }
}

/// A peer is among those that are asked about.
pub open spec fn asked_about<H>(
    peers: PeersView<H>,
    who: NodeIndex,
    asked: Seq<ActionView<H>>,
) -> bool {
    exists|i: int| 0 <= i < asked.len() - 1 && is_question_about(peers, who, #[trigger] asked[i])
}

/// The request asks for the header and the justification of one block by its number.
pub open spec fn asks_for_ancestor<H>(request: BlockRequest<H>, number: BlockNumber) -> bool {
    &&& request.id == 0
    &&& request.fields.header
    &&& !request.fields.body
    &&& request.fields.justification
    &&& request.from == FromBlock::<H>::Number(number)
    &&& request.to is None
    &&& request.direction == Direction::Ascending
    &&& request.max == Some(1u32)
}

/// A block on its way to the import queue is the one that was received.
pub open spec fn is_received<H>(
    incoming: IncomingBlock<H>,
    data: BlockData<H>,
    origin: Option<NodeIndex>,
) -> bool {
    &&& incoming.hash == data.hash
    &&& incoming.header == data.header
    &&& incoming.body == data.body
    &&& incoming.justification == data.justification
    &&& incoming.origin == origin
}

// Limits, views and small questions.

/// The limits.
pub proof fn law_limits()
    ensures
        MAX_BLOCKS_TO_REQUEST == 128,
        MAX_IMPORTING_BLOCKS == 2048,
        MAJOR_SYNC_BLOCKS == 5,
        MAJOR_SYNC_DISTANCE == 5,
        MAX_UNKNOWN_FORK_DOWNLOAD_LEN == 32,
        ANNOUNCE_HISTORY_SIZE == 64,
{
}

/// The view of a peer shows each of its fields.
pub proof fn law_peer_view_shows_the_peer<H>(peer: PeerSync<H>)
    ensures
        peer@.common_number == peer.common_number,
        peer@.best_hash == peer.best_hash,
        peer@.best_number == peer.best_number,
        peer@.state == peer.state,
        peer@.recently_announced == peer.recently_announced@,
{
}

/// The view of an action is the action, with lists as sequences.
pub proof fn law_action_view_shows_the_action<H>(action: Action<H>)
    ensures
        match action {
            Action::SendMessage(who, request) => action@ == ActionView::SendMessage(who, request),
            Action::ReportPeer(who, severity) => action@ == ActionView::ReportPeer(who, severity),
            Action::QueryBlockHash { who, number, theirs } => action@
                == ActionView::QueryBlockHash { who, number, theirs },
            Action::NeededBlocks { who, count, peer_best, common } => action@
                == ActionView::<H>::NeededBlocks { who, count, peer_best, common },
            Action::ClearPeerDownload(who) => action@ == ActionView::<H>::ClearPeerDownload(who),
            Action::InsertBlocks { start, blocks, who } => action@ == ActionView::InsertBlocks {
                start,
                blocks: blocks@,
                who,
            },
            Action::DrainBlocks { from } => action@ == ActionView::<H>::DrainBlocks { from },
            Action::ClearBlocks => action@ is ClearBlocks,
            Action::ImportBlocks(origin, blocks) => action@ == ActionView::ImportBlocks(
                origin,
                blocks@,
            ),
            Action::StopImport => action@ is StopImport,
            Action::Reconsider(who) => action@ == ActionView::<H>::Reconsider(who),
            Action::Extra(extra) => action@ == ActionView::Extra(extra),
        },
{
}

/// The best block seen is one that a peer has, and no peer has a higher one; there is none
/// exactly if there is no peer.
pub proof fn law_best_seen_is_the_highest<H>(peers: PeersView<H>, best: Option<BlockNumber>)
    requires
        crate::model::is_best_seen(peers, best),
    ensures
        best is None <==> peers.dom() == Set::<NodeIndex>::empty(),
        forall|who: NodeIndex| #[trigger]
            peers.contains_key(who) ==> peers[who].best_number <= best->0,
        best is Some ==> exists|who: NodeIndex| #[trigger]
            peers.contains_key(who) && peers[who].best_number == best->0,
{
    match best {
        None => {
            assert(peers.dom() =~= Set::<NodeIndex>::empty()) by {
                assert forall|who: NodeIndex| !peers.dom().contains(who) by {
                    assert(!peers.contains_key(who));
                }
            }
        },
        Some(n) => {
            let who = choose|who: NodeIndex| #[trigger]
                peers.contains_key(who) && peers[who].best_number == n;
            assert(peers.dom().contains(who));
        },
    }
}

/// We are catching up exactly while some peer is more than five blocks ahead of what is queued.
pub proof fn law_catching_up_means_someone_is_ahead<H>(s: SyncView<H>)
    requires
        s.peers.dom().finite(),
    ensures
        s.sync_state() == SyncState::Downloading <==> someone_is_ahead(
            s.peers,
            s.best_queued_number,
        ),
{
    lemma_ahead(s.peers, s.best_queued_number);
}

proof fn lemma_ahead<H>(peers: PeersView<H>, of: BlockNumber)
    requires
        peers.dom().finite(),
    ensures
        crate::model::sync_state(of, crate::model::best_seen(peers)) == SyncState::Downloading
            <==> someone_is_ahead(peers, of),
{
    crate::laws::lemma_best_seen_exists(peers);
    let best = crate::model::best_seen(peers);
    law_best_seen_is_the_highest(peers, best);
    if someone_is_ahead(peers, of) {
        let who = choose|who: NodeIndex| #[trigger]
            peers.contains_key(who) && peers[who].best_number > of + 5;
        assert(peers.dom().contains(who));
        assert(best is Some);
    }
    if best is Some && best->0 > of + 5 {
        let who = choose|who: NodeIndex| #[trigger]
            peers.contains_key(who) && peers[who].best_number == best->0;
        assert(peers[who].best_number > of + 5);
    }
}

/// A walk over the peers meets each connected peer, nobody else, and nobody twice.
pub proof fn law_walk_meets_every_peer_once<H>(s: SyncView<H>, order: Seq<NodeIndex>)
    requires
        s.walks(order),
    ensures
        forall|who: NodeIndex| s.peers.contains_key(who) <==> #[trigger] order.contains(who),
        forall|i: int, j: int|
            0 <= i < j < order.len() ==> #[trigger] order[i] != #[trigger] order[j],
{
    assert forall|who: NodeIndex| s.peers.contains_key(who) <==> #[trigger] order.contains(
        who,
    ) by {
        assert(order.to_set().contains(who) <==> order.contains(who));
        assert(s.peers.contains_key(who) <==> s.peers.dom().contains(who));
    }
}

/// A block is known if it is queued or if the blockchain knows anything of it, good or bad.
pub proof fn law_what_is_known<H>(s: SyncView<H>, hash: H, chain: ChainStatus)
    ensures
        s.knows(hash, chain) <==> s.queue_blocks.contains(hash) || chain == ChainStatus::Ok(
            BlockStatus::Queued,
        ) || chain == ChainStatus::Ok(BlockStatus::InChain) || chain == ChainStatus::Ok(
            BlockStatus::KnownBad,
        ),
{
}

/// Blocks sent from the top down are handled last to first, others as they were sent.
pub proof fn law_blocks_are_put_in_ascending_order<H>(
    direction: Direction,
    blocks: Seq<BlockData<H>>,
    i: int,
)
    requires
        0 <= i < blocks.len(),
    ensures
        ({
            let sorted = crate::model::in_order(direction, blocks);
            &&& sorted.len() == blocks.len()
            &&& direction == Direction::Ascending ==> sorted[i] == blocks[i]
            &&& direction == Direction::Descending ==> sorted[i] == blocks[blocks.len() - 1 - i]
        }),
{
}

// The start.

/// A new strategy has no peer and nothing queued. It goes on from the best block that the
/// client has queued, or else has in its chain, and needs bodies if it is a full node or an
/// authority.
pub proof fn law_start<H>(
    is_offline: bool,
    is_major_syncing: bool,
    role: Roles,
    info: ClientInfo<H>,
)
    ensures
        ({
            let s = SyncView::initial(is_offline, is_major_syncing, role, info);
            &&& s.genesis_hash == info.chain.genesis_hash
            &&& forall|who: NodeIndex| !s.peers.contains_key(who)
            &&& forall|hash: H| !s.queue_blocks.contains(hash)
            &&& info.best_queued_number is Some ==> s.best_queued_number
                == info.best_queued_number->0
            &&& info.best_queued_number is None ==> s.best_queued_number == info.chain.best_number
            &&& info.best_queued_hash is Some ==> s.best_queued_hash == info.best_queued_hash->0
            &&& info.best_queued_hash is None ==> s.best_queued_hash == info.chain.best_hash
            &&& s.required_block_attributes.header
            &&& s.required_block_attributes.justification
            &&& s.required_block_attributes.body <==> role.full || role.authority
            &&& s.best_importing_number == 0
            &&& !s.is_stopping
            &&& s.is_offline == is_offline
            &&& s.is_major_syncing == is_major_syncing
        }),
{
}

// Keeping the sync going.

/// Keeping the sync going asks which blocks to fetch from each peer that is available, once,
/// unless too many blocks are queued, and then has whatever else is pending sent; it does
/// nothing while the sync is being stopped.
pub proof fn law_maintenance_keeps_going<H>(s: SyncView<H>, order: Seq<NodeIndex>)
    requires
        s.walks(order),
    ensures
        keeps_going(s.peers, s.queue_blocks.len(), s.is_stopping, s.maintenance(order)),
{
    if !s.is_stopping {
        let wanted = |who: NodeIndex| s.wants_blocks(who);
        let chosen = order.filter(wanted);
        let asked = s.maintenance(order);
        law_walk_meets_every_peer_once(s, order);
        assert(asked.len() == chosen.len() + 1);
        assert forall|i: int| 0 <= i < asked.len() - 1 implies s.queue_blocks.len() <= 2048 && (
        #[trigger] asked[i] matches ActionView::NeededBlocks { who, .. } && is_question_about(
            s.peers,
            who,
            asked[i],
        )) by {
            order.lemma_filter_pred(wanted, i);
            assert(wanted(chosen[i]));
            assert(asked[i] == s.block_query(chosen[i]));
        }
        crate::laws::lemma_filter_no_duplicates(order, wanted);
        assert forall|i: int, j: int| 0 <= i < j < asked.len() - 1 implies #[trigger] asked[i]
            != #[trigger] asked[j] by {
            assert(asked[i] == s.block_query(chosen[i]));
            assert(asked[j] == s.block_query(chosen[j]));
            assert(chosen[i] != chosen[j]);
        }
        assert forall|who: NodeIndex|
            s.queue_blocks.len() <= 2048 && #[trigger] s.peers.contains_key(who)
                && s.peers[who].state is Available implies asked_about(s.peers, who, asked) by {
            assert(order.contains(who));
            let j = choose|j: int| 0 <= j < order.len() && order[j] == who;
            assert(wanted(order[j]));
            order.lemma_filter_contains(wanted, j);
            let k = choose|k: int| 0 <= k < chosen.len() && chosen[k] == who;
            assert(asked[k] == s.block_query(who));
            assert(is_question_about(s.peers, who, asked[k]));
        }
    }
}

/// One peer is asked about if it is connected and available, unless too many blocks are
/// queued.
pub proof fn law_download_asks_about_an_available_peer<H>(s: SyncView<H>, who: NodeIndex)
    ensures
        ({
            let asked = s.download_actions(who);
            if s.peers.contains_key(who) && s.peers[who].state is Available
                && s.queue_blocks.len() <= 2048 {
                asked.len() == 1 && is_question_about(s.peers, who, asked[0])
            } else {
                asked.len() == 0
            }
        }),
{
}

// Downloads.

/// A range that is to be fetched from an available peer is requested: from where it starts,
/// upwards, as many blocks as it has, with all the parts that the node needs. The peer is then
/// downloading from there.
pub proof fn law_needed_range_is_requested<H>(s: SyncView<H>, who: NodeIndex, range: BlockRange)
    requires
        s.peers.contains_key(who),
        s.peers[who].state is Available,
        range.start <= range.end,
    ensures
        ({
            let asked = s.needed_actions(who, Some(range));
            &&& asked.len() == 1
            &&& asked[0] matches ActionView::SendMessage(to, request)
            &&& to == who
            &&& request.id == 0
            &&& request.fields == s.required_block_attributes
            &&& request.from == FromBlock::<H>::Number(range.start)
            &&& request.to is None
            &&& request.direction == Direction::Ascending
            &&& request.max is Some
            &&& range.end - range.start <= u32::MAX ==> request.max->0 == range.end - range.start
            &&& request.max->0 == (range.end - range.start) as u32
        }),
        only_state_changed(
            s,
            s.needed(who, Some(range)),
            who,
            PeerSyncState::DownloadingNew(range.start),
        ),
{
}

/// Nothing is requested if nothing is needed, or if the peer is not connected or is busy.
pub proof fn law_nothing_needed_is_not_requested<H>(
    s: SyncView<H>,
    who: NodeIndex,
    range: Option<BlockRange>,
)
    requires
        range is None || !s.peers.contains_key(who) || !(s.peers[who].state is Available),
    ensures
        s.needed(who, range) == s,
        s.needed_actions(who, range).len() == 0,
{
}

// Blocks that peers send.

/// Blocks of a range that a peer was asked for are put into the block collection where the
/// range starts, and whatever follows on the best queued block is taken out. The peer is free
/// again.
pub proof fn law_new_blocks_are_collected<H>(
    s: SyncView<H>,
    who: NodeIndex,
    start: BlockNumber,
    blocks: Seq<BlockData<H>>,
    order: Seq<NodeIndex>,
)
    requires
        s.peers.contains_key(who),
        s.peers[who].state == PeerSyncState::<H>::DownloadingNew(start),
        s.best_queued_number < BlockNumber::MAX,
    ensures
        ({
            let asked = s.block_data_actions(who, blocks, order);
            &&& asked.len() == 3
            &&& asked[0] == ActionView::<H>::ClearPeerDownload(who)
            &&& asked[1] == ActionView::InsertBlocks { start, blocks, who }
            &&& asked[2] matches ActionView::DrainBlocks { from }
            &&& from == s.best_queued_number + 1
        }),
        only_state_changed(s, s.block_data(who, blocks), who, PeerSyncState::Available),
{
}

/// The block that a search for a common ancestor asked for is compared with ours at the very
/// number where the search stands, whenever that is. A peer that sends none is reported.
pub proof fn law_ancestor_is_compared_where_the_search_stands<H>(
    s: SyncView<H>,
    who: NodeIndex,
    n: BlockNumber,
    blocks: Seq<BlockData<H>>,
    order: Seq<NodeIndex>,
)
    requires
        s.peers.contains_key(who),
        s.peers[who].state == PeerSyncState::<H>::AncestorSearch(n),
    ensures
        s.block_data(who, blocks) == s,
        ({
            let asked = s.block_data_actions(who, blocks, order);
            &&& asked.len() == 1
            &&& blocks.len() > 0 ==> asked[0] == ActionView::QueryBlockHash {
                who,
                number: n,
                theirs: blocks[0].hash,
            }
            &&& blocks.len() == 0 ==> asked[0] == ActionView::<H>::ReportPeer(
                who,
                Severity::Bad(Fault::NoAncestryBlock),
            )
        }),
{
}

/// Blocks on a fork that a peer was asked for are handed to the import queue as they were
/// received, and the peer is free again.
pub proof fn law_fork_blocks_are_handed_on<H>(
    s: SyncView<H>,
    who: NodeIndex,
    fork: H,
    blocks: Seq<BlockData<H>>,
    order: Seq<NodeIndex>,
)
    requires
        s.peers.dom().finite(),
        s.walks(order),
        s.peers.contains_key(who),
        s.peers[who].state == PeerSyncState::<H>::DownloadingStale(fork),
    ensures
        exists|free: SyncView<H>, handed_on: Seq<IncomingBlock<H>>|
            {
                &&& #[trigger] only_state_changed(s, free, who, PeerSyncState::Available)
                &&& handed_on.len() == blocks.len()
                &&& forall|i: int|
                    0 <= i < blocks.len() ==> is_received(
                        #[trigger] handed_on[i],
                        blocks[i],
                        Some(who),
                    )
                &&& #[trigger] is_handed_on(
                    free,
                    handed_on,
                    s.block_data(who, blocks),
                    s.block_data_actions(who, blocks, order),
                )
            },
{
    let free = s.freed(who);
    let handed_on = crate::model::sent_by(who, blocks);
    assert(free.peers.dom() =~= s.peers.dom());
    assert(free.walks(order));
    law_accepted_blocks_are_handed_on(free, handed_on, order);
    assert(only_state_changed(s, free, who, PeerSyncState::Available));
    assert(is_handed_on(
        free,
        handed_on,
        s.block_data(who, blocks),
        s.block_data_actions(who, blocks, order),
    ));
}

/// Blocks that come out of the block collection are handed to the import queue as they were
/// received.
pub proof fn law_drained_blocks_are_handed_on<H>(
    s: SyncView<H>,
    blocks: Seq<DownloadedBlock<H>>,
    order: Seq<NodeIndex>,
)
    requires
        s.peers.dom().finite(),
        s.walks(order),
    ensures
        crate::model::drained(blocks).len() == blocks.len(),
        forall|i: int|
            0 <= i < blocks.len() ==> is_received(
                #[trigger] crate::model::drained(blocks)[i],
                blocks[i].block,
                blocks[i].origin,
            ),
        is_handed_on(
            s,
            crate::model::drained(blocks),
            s.accepted(crate::model::drained(blocks)),
            s.accepted_actions(crate::model::drained(blocks), order),
        ),
{
    law_accepted_blocks_are_handed_on(s, crate::model::drained(blocks), order);
}

/// Blocks from a peer that is not connected, or that was not asked for any, are dropped: no
/// block is handed to the import queue, and the sync is kept going.
pub proof fn law_unwanted_blocks_are_dropped<H>(
    s: SyncView<H>,
    who: NodeIndex,
    blocks: Seq<BlockData<H>>,
    order: Seq<NodeIndex>,
)
    requires
        s.walks(order),
        !s.peers.contains_key(who) || s.peers[who].state is Available
            || s.peers[who].state is DownloadingJustification
            || s.peers[who].state is DownloadingFinalityProof,
    ensures
        s.block_data(who, blocks) == s,
        ({
            let asked = s.block_data_actions(who, blocks, order);
            &&& asked.len() > 0
            &&& asked.last() matches ActionView::ImportBlocks(origin, sent)
            &&& origin == BlockOrigin::NetworkInitialSync
            &&& sent.len() == 0
            &&& keeps_going(s.peers, s.queue_blocks.len(), s.is_stopping, asked.drop_last())
        }),
{
    lemma_accepting_nothing(s, order);
}

proof fn lemma_accepting_nothing<H>(s: SyncView<H>, order: Seq<NodeIndex>)
    requires
        s.walks(order),
    ensures
        s.accepted(seq![]) == s,
        s.accepted_actions(seq![], order).len() > 0,
        s.accepted_actions(seq![], order).last() == ActionView::<H>::ImportBlocks(
            BlockOrigin::NetworkInitialSync,
            seq![],
        ),
        keeps_going(
            s.peers,
            s.queue_blocks.len(),
            s.is_stopping,
            s.accepted_actions(seq![], order).drop_last(),
        ),
{
    let none = Seq::<IncomingBlock<H>>::empty();
    let hashes = none.map_values(|block: IncomingBlock<H>| block.hash);
    assert(s.queue_blocks.union(hashes.to_set()) =~= s.queue_blocks);
    assert(s.accepted_actions(seq![], order).drop_last() =~= s.maintenance(order));
    law_maintenance_keeps_going(s, order);
}

/// What a peer is after a block with a number was queued: it shares with us the lower of that
/// number and its best one, a search for a common ancestor is over, and the rest is the same.
pub open spec fn shares_queued_block<H>(
    before: PeerView<H>,
    after: PeerView<H>,
    number: BlockNumber,
) -> bool {
    &&& before.best_number >= number ==> after.common_number == number
    &&& before.best_number < number ==> after.common_number == before.best_number
    &&& before.state is AncestorSearch ==> after.state is Available
    &&& !(before.state is AncestorSearch) ==> after.state == before.state
    &&& after.best_number == before.best_number
    &&& after.best_hash == before.best_hash
    &&& after.recently_announced == before.recently_announced
}

/// What the state and the peers are after a block was queued.
pub open spec fn is_queued<H>(
    s: SyncView<H>,
    hash: H,
    number: BlockNumber,
    t: SyncView<H>,
) -> bool {
    &&& number > s.best_queued_number ==> t.best_queued_number == number && t.best_queued_hash
        == hash
    &&& number <= s.best_queued_number ==> t.best_queued_number == s.best_queued_number
        && t.best_queued_hash == s.best_queued_hash
    &&& forall|who: NodeIndex| #[trigger]
        t.peers.contains_key(who) == s.peers.contains_key(who)
    &&& forall|who: NodeIndex| #[trigger]
        s.peers.contains_key(who) ==> shares_queued_block(s.peers[who], t.peers[who], number)
    &&& ({
        let before = someone_is_ahead(s.peers, s.best_queued_number);
        let after = someone_is_ahead(t.peers, t.best_queued_number);
        &&& before == after ==> t.is_major_syncing == s.is_major_syncing
        &&& before != after ==> t.is_major_syncing == after
    })
    &&& t.is_offline == s.is_offline
    &&& t.genesis_hash == s.genesis_hash
    &&& t.required_block_attributes == s.required_block_attributes
    &&& t.is_stopping == s.is_stopping
}

/// A block that was queued becomes the best queued one if it is higher; every peer shares with
/// us what it has of the chain up to it; and the flag that says that we are catching up follows.
pub proof fn law_block_is_queued<H>(s: SyncView<H>, hash: H, number: BlockNumber)
    requires
        s.peers.dom().finite(),
    ensures
        is_queued(s, hash, number, s.block_queued(hash, number)),
        s.block_queued(hash, number).queue_blocks == s.queue_blocks,
        s.block_queued(hash, number).best_importing_number == s.best_importing_number,
{
    let t = s.block_queued(hash, number);
    assert(t.peers.dom() =~= s.peers.dom());
    assert forall|who: NodeIndex| #[trigger]
        t.peers.contains_key(who) == s.peers.contains_key(who) by {}
    lemma_ahead(s.peers, s.best_queued_number);
    lemma_ahead(s.peers, t.best_queued_number);
    assert(someone_is_ahead(t.peers, t.best_queued_number) == someone_is_ahead(
        s.peers,
        t.best_queued_number,
    )) by {
        if someone_is_ahead(s.peers, t.best_queued_number) {
            let who = choose|who: NodeIndex| #[trigger]
                s.peers.contains_key(who) && s.peers[who].best_number > t.best_queued_number + 5;
            assert(t.peers.contains_key(who) && t.peers[who].best_number > t.best_queued_number
                + 5);
        }
        if someone_is_ahead(t.peers, t.best_queued_number) {
            let who = choose|who: NodeIndex| #[trigger]
                t.peers.contains_key(who) && t.peers[who].best_number > t.best_queued_number + 5;
            assert(s.peers.contains_key(who) && s.peers[who].best_number > t.best_queued_number
                + 5);
        }
    }
}

/// What the state is, and what is asked for, after blocks were handed to the import queue: the
/// queue holds them too; the last one counts as queued if its header came with it; the sync is
/// kept going, as the queue was before; and at the end these very blocks are imported, as
/// announced ones if some peer has announced the first of them.
pub open spec fn is_handed_on<H>(
    s: SyncView<H>,
    blocks: Seq<IncomingBlock<H>>,
    t: SyncView<H>,
    asked: Seq<ActionView<H>>,
) -> bool {
    &&& forall|hash: H| #[trigger]
        t.queue_blocks.contains(hash) <==> s.queue_blocks.contains(hash) || exists|i: int|
            0 <= i < blocks.len() && (#[trigger] blocks[i]).hash == hash
    &&& if blocks.len() > 0 && blocks[blocks.len() - 1].header is Some {
        let last = blocks[blocks.len() - 1];
        let number = last.header->0.number;
        &&& is_queued(s, last.hash, number, t)
        &&& number > s.best_importing_number ==> t.best_importing_number == number
        &&& number <= s.best_importing_number ==> t.best_importing_number
            == s.best_importing_number
    } else {
        &&& t.peers == s.peers
        &&& t.best_queued_number == s.best_queued_number
        &&& t.best_queued_hash == s.best_queued_hash
        &&& t.best_importing_number == s.best_importing_number
        &&& t.is_major_syncing == s.is_major_syncing
        &&& t.is_offline == s.is_offline
        &&& t.genesis_hash == s.genesis_hash
        &&& t.required_block_attributes == s.required_block_attributes
        &&& t.is_stopping == s.is_stopping
    }
    &&& asked.len() > 0
    &&& keeps_going(t.peers, s.queue_blocks.len(), s.is_stopping, asked.drop_last())
    &&& asked.last() matches ActionView::ImportBlocks(origin, imported) && imported == blocks && (
    origin == BlockOrigin::NetworkBroadcast <==> blocks.len() > 0 && was_announced(
        s.peers,
        blocks[0].hash,
    )) && (origin == BlockOrigin::NetworkBroadcast || origin == BlockOrigin::NetworkInitialSync)
}

/// Some connected peer remembers to have announced a block.
pub open spec fn was_announced<H>(peers: PeersView<H>, hash: H) -> bool {
    exists|who: NodeIndex, i: int|
        #![trigger peers[who].recently_announced[i]]
        peers.contains_key(who) && 0 <= i < peers[who].recently_announced.len()
            && peers[who].recently_announced[i] == hash
}

/// Blocks are handed to the import queue as [`is_handed_on`] says.
pub proof fn law_accepted_blocks_are_handed_on<H>(
    s: SyncView<H>,
    blocks: Seq<IncomingBlock<H>>,
    order: Seq<NodeIndex>,
)
    requires
        s.peers.dom().finite(),
        s.walks(order),
    ensures
        is_handed_on(s, blocks, s.accepted(blocks), s.accepted_actions(blocks, order)),
{
    let t = s.accepted(blocks);
    let asked = s.accepted_actions(blocks, order);
    let queued = s.last_queued(blocks);
    let hashes = blocks.map_values(|block: IncomingBlock<H>| block.hash);
    assert forall|hash: H| #[trigger]
        t.queue_blocks.contains(hash) <==> s.queue_blocks.contains(hash) || exists|i: int|
            0 <= i < blocks.len() && (#[trigger] blocks[i]).hash == hash by {
        if hashes.contains(hash) {
            let i = choose|i: int| 0 <= i < hashes.len() && hashes[i] == hash;
            assert(blocks[i].hash == hash);
        }
        if exists|i: int| 0 <= i < blocks.len() && (#[trigger] blocks[i]).hash == hash {
            let i = choose|i: int| 0 <= i < blocks.len() && (#[trigger] blocks[i]).hash == hash;
            assert(hashes[i] == hash);
            assert(hashes.to_set().contains(hash));
        }
    }
    if blocks.len() > 0 && blocks[blocks.len() - 1].header is Some {
        let last = blocks[blocks.len() - 1];
        law_block_is_queued(s, last.hash, last.header->0.number);
    }
    assert(queued.peers.dom() =~= s.peers.dom());
    assert(queued.walks(order));
    assert(asked.drop_last() =~= queued.maintenance(order));
    law_maintenance_keeps_going(queued, order);
    if blocks.len() > 0 {
        let hash = blocks[0].hash;
        if was_announced(s.peers, hash) {
            let (who, i) = choose|who: NodeIndex, i: int|
                #![trigger s.peers[who].recently_announced[i]]
                s.peers.contains_key(who) && 0 <= i < s.peers[who].recently_announced.len()
                    && s.peers[who].recently_announced[i] == hash;
            assert(s.peers.contains_key(who) && s.peers[who].recently_announced.contains(hash));
        }
        if s.origin_of(blocks) == BlockOrigin::NetworkBroadcast {
            let who = choose|who: NodeIndex| #[trigger]
                s.peers.contains_key(who) && s.peers[who].recently_announced.contains(hash);
            let i = choose|i: int|
                0 <= i < s.peers[who].recently_announced.len()
                    && s.peers[who].recently_announced[i] == hash;
            assert(s.peers[who].recently_announced[i] == hash);
        }
    }
}

// The search for a common ancestor.

/// Where the hashes agree the search is over: the common number of the peer is the one where
/// they agree, unless it was higher already. The peer is free, and the sync is kept going.
pub proof fn law_common_ancestor_is_recorded<H>(
    s: SyncView<H>,
    who: NodeIndex,
    n: BlockNumber,
    hash: H,
    order: Seq<NodeIndex>,
)
    requires
        s.walks(order),
        s.peers.contains_key(who),
        s.peers[who].state == PeerSyncState::<H>::AncestorSearch(n),
    ensures
        ({
            let t = s.ancestor_hash(who, hash, Ok(Some(hash)));
            let asked = s.ancestor_hash_actions(who, hash, Ok(Some(hash)), order);
            &&& same_but_peers(s, t)
            &&& same_but_one(s.peers, t.peers, who)
            &&& t.peers.contains_key(who)
            &&& t.peers[who].state is Available
            &&& s.peers[who].common_number <= n ==> t.peers[who].common_number == n
            &&& s.peers[who].common_number > n ==> t.peers[who].common_number
                == s.peers[who].common_number
            &&& t.peers[who].best_number == s.peers[who].best_number
            &&& t.peers[who].best_hash == s.peers[who].best_hash
            &&& t.peers[who].recently_announced == s.peers[who].recently_announced
            &&& asked.len() > 0
            &&& asked.last() matches ActionView::ImportBlocks(origin, sent)
            &&& origin == BlockOrigin::NetworkInitialSync
            &&& sent.len() == 0
            &&& keeps_going(t.peers, s.queue_blocks.len(), s.is_stopping, asked.drop_last())
        }),
{
    let found = s.ancestor_found(who, n);
    assert(found.peers.dom() =~= s.peers.dom());
    assert(found.walks(order));
    lemma_accepting_nothing(found, order);
}

/// Where the hashes differ, or we have none, the search goes one block back, and that block is
/// asked for.
pub proof fn law_search_goes_one_block_back<H>(
    s: SyncView<H>,
    who: NodeIndex,
    n: BlockNumber,
    theirs: H,
    ours: Option<H>,
    order: Seq<NodeIndex>,
)
    requires
        s.peers.contains_key(who),
        s.peers[who].state == PeerSyncState::<H>::AncestorSearch(n),
        n > 0,
        ours is None || ours->0 != theirs,
    ensures
        ({
            let asked = s.ancestor_hash_actions(who, theirs, Ok(ours), order);
            &&& asked.len() == 1
            &&& asked[0] matches ActionView::SendMessage(to, request)
            &&& to == who
            &&& asks_for_ancestor(request, (n - 1) as BlockNumber)
        }),
        only_state_changed(
            s,
            s.ancestor_hash(who, theirs, Ok(ours)),
            who,
            PeerSyncState::AncestorSearch((n - 1) as BlockNumber),
        ),
{
}

/// Where the genesis blocks differ, or the blockchain cannot be read, the peer is reported and
/// nothing changes.
pub proof fn law_failed_search_is_reported<H>(
    s: SyncView<H>,
    who: NodeIndex,
    n: BlockNumber,
    theirs: H,
    ours: Result<Option<H>, ClientError>,
    order: Seq<NodeIndex>,
)
    requires
        s.peers.contains_key(who),
        s.peers[who].state == PeerSyncState::<H>::AncestorSearch(n),
        ours matches Ok(hash) ==> n == 0 && (hash is None || hash->0 != theirs),
    ensures
        s.ancestor_hash(who, theirs, ours) == s,
        ({
            let asked = s.ancestor_hash_actions(who, theirs, ours, order);
            &&& asked.len() == 1
            &&& asked[0] == ActionView::<H>::ReportPeer(
                who,
                match ours {
                    Ok(_) => Severity::Bad(Fault::GenesisMismatch),
                    Err(e) => Severity::Useless(Fault::AncestryUnreadable(e)),
                },
            )
        }),
{
}

/// An answer for a peer that is not searching changes nothing and asks for nothing.
pub proof fn law_no_search_no_answer<H>(
    s: SyncView<H>,
    who: NodeIndex,
    theirs: H,
    ours: Result<Option<H>, ClientError>,
    order: Seq<NodeIndex>,
)
    requires
        !s.peers.contains_key(who) || !(s.peers[who].state is AncestorSearch),
    ensures
        s.ancestor_hash(who, theirs, ours) == s,
        s.ancestor_hash_actions(who, theirs, ours, order).len() == 0,
{
}

// Peers come and go.

/// A peer of which nothing is known is not entered.
pub proof fn law_unknown_peer_is_not_entered<H>(s: SyncView<H>, who: NodeIndex)
    ensures
        s.new_peer(who, None) == s,
        s.new_peer_actions(who, None).len() == 0,
{
}

/// A peer is rejected and reported, and nothing changes, if its best block is not queued and
/// the blockchain cannot be read, or knows it to be bad, or does not know it although it is a
/// genesis block.
pub proof fn law_peer_is_rejected<H>(
    s: SyncView<H>,
    who: NodeIndex,
    info: PeerInfo<H>,
    chain: ChainStatus,
)
    requires
        !s.queue_blocks.contains(info.best_hash),
        match chain {
            Err(_) => true,
            Ok(status) => status == BlockStatus::KnownBad || status == BlockStatus::Unknown
                && info.best_number == 0,
        },
    ensures
        s.new_peer(who, Some((info, chain))) == s,
        ({
            let asked = s.new_peer_actions(who, Some((info, chain)));
            &&& asked.len() == 1
            &&& asked[0] matches ActionView::ReportPeer(reported, severity)
            &&& reported == who
            &&& match chain {
                Err(e) => severity == Severity::<H>::Useless(Fault::StatusUnreadable(e)),
                Ok(status) => if status == BlockStatus::KnownBad {
                    severity == Severity::Bad(
                        Fault::KnownBadBlock { hash: info.best_hash, number: info.best_number },
                    )
                } else {
                    severity == Severity::Bad(
                        Fault::UnknownGenesis { hash: info.best_hash, number: info.best_number },
                    )
                },
            }
        }),
{
}

/// What is the same of every peer that is entered: it has the best block that it says, and has
/// announced nothing; nobody else changes. The offline flag is down if this is the first peer;
/// the flag that says that we are catching up follows if this is one peer more.
pub open spec fn is_entered<H>(
    s: SyncView<H>,
    who: NodeIndex,
    info: PeerInfo<H>,
    t: SyncView<H>,
) -> bool {
    &&& same_but_peers_and_flags(s, t)
    &&& same_but_one(s.peers, t.peers, who)
    &&& t.peers.contains_key(who)
    &&& t.peers[who].best_number == info.best_number
    &&& t.peers[who].best_hash == info.best_hash
    &&& t.peers[who].recently_announced.len() == 0
    &&& t.is_offline <==> s.is_offline && exists|p: NodeIndex| s.peers.contains_key(p)
    &&& ({
        let before = someone_is_ahead(s.peers, s.best_queued_number);
        let after = someone_is_ahead(t.peers, t.best_queued_number);
        if s.peers.contains_key(who) || before == after {
            t.is_major_syncing == s.is_major_syncing
        } else {
            t.is_major_syncing == after
        }
    })
}

proof fn lemma_entered<H>(
    s: SyncView<H>,
    who: NodeIndex,
    info: PeerInfo<H>,
    chain: ChainStatus,
)
    requires
        s.peers.dom().finite(),
        s.admitted(info, s.status_of(info.best_hash, chain)) is Some,
    ensures
        is_entered(s, who, info, s.new_peer(who, Some((info, chain)))),
{
    let t = s.new_peer(who, Some((info, chain)));
    assert(t.peers.dom() =~= s.peers.dom().insert(who));
    lemma_ahead(s.peers, s.best_queued_number);
    lemma_ahead(t.peers, s.best_queued_number);
    if s.peers.len() == 0 {
        assert(s.peers.dom() =~= Set::<NodeIndex>::empty());
        assert forall|p: NodeIndex| !s.peers.contains_key(p) by {
            assert(!s.peers.dom().contains(p));
        }
    } else {
        let p = s.peers.dom().choose();
        assert(s.peers.contains_key(p));
    }
}

/// A peer whose best block is queued or in the chain shares its best block with us, and is
/// available.
pub proof fn law_peer_with_known_block<H>(
    s: SyncView<H>,
    who: NodeIndex,
    info: PeerInfo<H>,
    chain: ChainStatus,
)
    requires
        s.peers.dom().finite(),
        s.queue_blocks.contains(info.best_hash) || chain == ChainStatus::Ok(BlockStatus::Queued)
            || chain == ChainStatus::Ok(BlockStatus::InChain),
    ensures
        ({
            let t = s.new_peer(who, Some((info, chain)));
            &&& is_entered(s, who, info, t)
            &&& t.peers[who].common_number == info.best_number
            &&& t.peers[who].state is Available
        }),
        s.new_peer_actions(who, Some((info, chain))).len() == 0,
{
    lemma_entered(s, who, info, chain);
}

/// A peer whose best block is unknown, but is not a genesis block, is entered: while more than
/// five blocks are queued, as one that shares our best queued block; otherwise a block in
/// common is searched for, from the lower of the two best blocks down; and if we have nothing
/// but the genesis block, blocks are asked for from there.
pub proof fn law_peer_with_unknown_block<H>(
    s: SyncView<H>,
    who: NodeIndex,
    info: PeerInfo<H>,
)
    requires
        s.peers.dom().finite(),
        !s.queue_blocks.contains(info.best_hash),
        info.best_number > 0,
    ensures
        ({
            let met = Some((info, ChainStatus::Ok(BlockStatus::Unknown)));
            let t = s.new_peer(who, met);
            let asked = s.new_peer_actions(who, met);
            let peer = t.peers[who];
            &&& is_entered(s, who, info, t)
            &&& if s.queue_blocks.len() > 5 {
                &&& peer.common_number == s.best_queued_number
                &&& peer.state is Available
                &&& asked.len() == 0
            } else if s.best_queued_number > 0 {
                &&& peer.common_number == 0
                &&& peer.state matches PeerSyncState::AncestorSearch(n)
                &&& n <= s.best_queued_number
                &&& n <= info.best_number
                &&& n == s.best_queued_number || n == info.best_number
                &&& asked.len() == 1
                &&& asked[0] matches ActionView::SendMessage(to, request)
                &&& to == who
                &&& asks_for_ancestor(request, n)
            } else {
                &&& peer.common_number == 0
                &&& peer.state is Available
                &&& asked.len() == 1
                &&& is_question_about(t.peers, who, asked[0])
            }
        }),
{
    lemma_entered(s, who, info, Ok(BlockStatus::Unknown));
}

/// A peer that leaves is gone, and nobody else changes. The offline flag is up if nobody is
/// left; the flag that says that we are catching up goes down if nobody is ahead any more. The
/// block collection and the pending requests are told, and the sync is kept going with who is
/// left.
pub proof fn law_peer_leaves<H>(s: SyncView<H>, who: NodeIndex, order: Seq<NodeIndex>)
    requires
        s.peers.dom().finite(),
        s.disconnected(who).walks(order),
    ensures
        ({
            let t = s.disconnected(who);
            let asked = s.disconnected_actions(who, order);
            &&& same_but_peers_and_flags(s, t)
            &&& same_but_one(s.peers, t.peers, who)
            &&& !t.peers.contains_key(who)
            &&& t.is_offline <==> s.is_offline || forall|p: NodeIndex|
                !#[trigger] t.peers.contains_key(p)
            &&& t.is_major_syncing <==> s.is_major_syncing && (someone_is_ahead(
                t.peers,
                t.best_queued_number,
            ) || !someone_is_ahead(s.peers, s.best_queued_number))
            &&& asked.len() >= 2
            &&& asked[0] == ActionView::<H>::ClearPeerDownload(who)
            &&& asked[1] == ActionView::<H>::Extra(ExtraAction::PeerDisconnected(who))
            &&& keeps_going(t.peers, t.queue_blocks.len(), t.is_stopping, asked.skip(2))
        }),
{
    let t = s.disconnected(who);
    lemma_ahead(s.peers, s.best_queued_number);
    lemma_ahead(t.peers, s.best_queued_number);
    if t.peers.len() == 0 {
        assert(t.peers.dom() =~= Set::<NodeIndex>::empty());
        assert forall|p: NodeIndex| !#[trigger] t.peers.contains_key(p) by {
            assert(!t.peers.dom().contains(p));
        }
    } else {
        let p = t.peers.dom().choose();
        assert(t.peers.contains_key(p));
    }
    assert(s.disconnected_actions(who, order).skip(2) =~= t.maintenance(order));
    law_maintenance_keeps_going(t, order);
}

/// A restart forgets the peers and what is queued, empties the block collection, has every
/// peer looked up again, and goes on from the best block that the client has, or from genesis.
pub proof fn law_restart_forgets<H>(
    s: SyncView<H>,
    info: Result<ClientInfo<H>, ClientError>,
    order: Seq<NodeIndex>,
)
    requires
        s.walks(order),
    ensures
        ({
            let t = s.restarted(info);
            let asked = s.restarted_actions(order);
            &&& forall|who: NodeIndex| !t.peers.contains_key(who)
            &&& forall|hash: H| !t.queue_blocks.contains(hash)
            &&& t.best_importing_number == 0
            &&& match info {
                Ok(info) => {
                    &&& info.best_queued_number is Some ==> t.best_queued_number
                        == info.best_queued_number->0
                    &&& info.best_queued_number is None ==> t.best_queued_number
                        == info.chain.best_number
                    &&& info.best_queued_hash is Some ==> t.best_queued_hash
                        == info.best_queued_hash->0
                    &&& info.best_queued_hash is None ==> t.best_queued_hash
                        == info.chain.best_hash
                },
                Err(_) => t.best_queued_number == 0 && t.best_queued_hash == s.genesis_hash,
            }
            &&& t.genesis_hash == s.genesis_hash
            &&& t.required_block_attributes == s.required_block_attributes
            &&& t.is_stopping == s.is_stopping
            &&& t.is_offline == s.is_offline
            &&& t.is_major_syncing == s.is_major_syncing
            &&& asked.len() == order.len() + 1
            &&& asked[0] is ClearBlocks
            &&& forall|i: int|
                0 < i < asked.len() ==> #[trigger] asked[i] == ActionView::<H>::Reconsider(
                    order[i - 1],
                )
            &&& forall|who: NodeIndex| s.peers.contains_key(who) <==> #[trigger] order.contains(who)
            &&& order.no_duplicates()
        }),
{
    law_walk_meets_every_peer_once(s, order);
}

/// Clearing forgets the peers and nothing else.
pub proof fn law_clear_forgets_the_peers<H>(s: SyncView<H>)
    ensures
        same_but_peers(s, s.cleared()),
        forall|who: NodeIndex| !s.cleared().peers.contains_key(who),
{
}

/// What was processed is no longer queued, and nothing else leaves the queue; a failure resets
/// the best importing number.
pub proof fn law_processed_blocks_leave_the_queue<H>(
    s: SyncView<H>,
    blocks: Seq<H>,
    has_error: bool,
)
    ensures
        ({
            let t = s.processed(blocks, has_error);
            &&& forall|hash: H| #[trigger]
                t.queue_blocks.contains(hash) <==> s.queue_blocks.contains(hash)
                    && !blocks.contains(hash)
            &&& has_error ==> t.best_importing_number == 0
            &&& !has_error ==> t.best_importing_number == s.best_importing_number
            &&& t.peers == s.peers
            &&& t.genesis_hash == s.genesis_hash
            &&& t.best_queued_number == s.best_queued_number
            &&& t.best_queued_hash == s.best_queued_hash
            &&& t.required_block_attributes == s.required_block_attributes
            &&& t.is_stopping == s.is_stopping
            &&& t.is_offline == s.is_offline
            &&& t.is_major_syncing == s.is_major_syncing
        }),
{
    let t = s.processed(blocks, has_error);
    assert forall|hash: H| #[trigger]
        t.queue_blocks.contains(hash) <==> s.queue_blocks.contains(hash) && !blocks.contains(
            hash,
        ) by {
        assert(blocks.to_set().contains(hash) <==> blocks.contains(hash));
    }
}

// Announcements.

/// Some connected peer is sending the block on a fork with this hash.
pub open spec fn someone_sends<H>(peers: PeersView<H>, hash: H) -> bool {
    exists|who: NodeIndex| #[trigger]
        peers.contains_key(who) && (peers[who].state matches PeerSyncState::DownloadingStale(h)
            && h == hash)
}

/// An announcement of a genesis block, or from a peer that is not connected, is ignored.
pub proof fn law_announcement_is_ignored<H>(
    s: SyncView<H>,
    who: NodeIndex,
    hash: H,
    header: Header<H>,
    known_parent: bool,
    known: bool,
)
    requires
        header.number == 0 || !s.peers.contains_key(who),
    ensures
        s.announced(who, hash, header, known_parent, known) == s,
        s.announced_actions(who, hash, header, known_parent, known).len() == 0,
{
}

/// An announcement moves the common number of a peer for which no common ancestor is searched:
/// to the parent if that is our best queued block or is known, or else to the block if that is
/// known. In every other case the common number stays what it was.
pub proof fn law_announcement_moves_common_number<H>(
    s: SyncView<H>,
    who: NodeIndex,
    hash: H,
    header: Header<H>,
    known_parent: bool,
    known: bool,
)
    requires
        header.number > 0,
        s.peers.contains_key(who),
    ensures
        ({
            let t = s.announced(who, hash, header, known_parent, known);
            let before = s.peers[who].common_number;
            let after = t.peers[who].common_number;
            let searching = s.peers[who].state is AncestorSearch;
            let on_our_chain = header.parent_hash == s.best_queued_hash || known_parent;
            &&& t.peers.contains_key(who)
            &&& searching ==> after == before
            &&& !searching && on_our_chain ==> after == header.number - 1
            &&& !searching && !on_our_chain && known ==> after == header.number
            &&& !on_our_chain && !known ==> after == before
        }),
{
}

/// An announcement is remembered as the latest of at most 64, and makes the announced block the
/// best one of the peer if it is higher. Nobody else changes, and nothing else does.
pub proof fn law_announcement_is_noted<H>(
    s: SyncView<H>,
    who: NodeIndex,
    hash: H,
    header: Header<H>,
    known_parent: bool,
    known: bool,
)
    requires
        header.number > 0,
        s.peers.contains_key(who),
    ensures
        ({
            let t = s.announced(who, hash, header, known_parent, known);
            let before = s.peers[who];
            let after = t.peers[who];
            let older = before.recently_announced;
            let newer = after.recently_announced;
            &&& same_but_peers(s, t)
            &&& same_but_one(s.peers, t.peers, who)
            &&& t.peers.contains_key(who)
            &&& header.number > before.best_number ==> after.best_number == header.number
                && after.best_hash == hash
            &&& header.number <= before.best_number ==> after.best_number == before.best_number
                && after.best_hash == before.best_hash
            &&& newer.len() > 0
            &&& newer[newer.len() - 1] == hash
            &&& older.len() < 64 ==> newer.len() == older.len() + 1
            &&& older.len() >= 64 ==> newer.len() == 64
            &&& forall|i: int|
                0 <= i < newer.len() - 1 ==> #[trigger] newer[i] == older[older.len() - (
                newer.len() - 1) + i]
        }),
{
}

/// An announced block is fetched if it is unknown, nobody is sending it, and no common ancestor
/// is searched for with the peer. One that is not above our best queued block is requested by
/// its hash from a peer that is available: alone if its parent is known or being sent, and else
/// with up to 32 blocks down from it. For one that is above, it is asked which blocks to fetch
/// from the peer, as it now is.
pub proof fn law_announced_block_is_fetched<H>(
    s: SyncView<H>,
    who: NodeIndex,
    hash: H,
    header: Header<H>,
    known_parent: bool,
    known: bool,
)
    requires
        header.number > 0,
        s.peers.contains_key(who),
    ensures
        ({
            let t = s.announced(who, hash, header, known_parent, known);
            let asked = s.announced_actions(who, hash, header, known_parent, known);
            let before = s.peers[who].state;
            let after = t.peers[who].state;
            if before is AncestorSearch || known || someone_sends(s.peers, hash) {
                after == before && asked.len() == 0
            } else if header.number > s.best_queued_number {
                &&& after == before
                &&& before is Available && s.queue_blocks.len() <= 2048 ==> asked.len() == 1
                    && is_question_about(t.peers, who, asked[0])
                &&& !(before is Available) || s.queue_blocks.len() > 2048 ==> asked.len() == 0
            } else if before is Available {
                &&& after == PeerSyncState::DownloadingStale(hash)
                &&& asked.len() == 1
                &&& asked[0] matches ActionView::SendMessage(to, request)
                &&& to == who
                &&& request.id == 0
                &&& request.fields == s.required_block_attributes
                &&& request.from == FromBlock::Hash(hash)
                &&& request.to is None
                &&& if known_parent || someone_sends(s.peers, header.parent_hash) {
                    request.direction == Direction::Ascending && request.max == Some(1u32)
                } else {
                    request.direction == Direction::Descending && request.max == Some(32u32)
                }
            } else {
                after == before && asked.len() == 0
            }
        }),
{
    lemma_sends(s, hash);
    lemma_sends(s, header.parent_hash);
}

proof fn lemma_sends<H>(s: SyncView<H>, hash: H)
    ensures
        s.is_downloading(hash) <==> someone_sends(s.peers, hash),
{
    if s.is_downloading(hash) {
        let who = choose|who: NodeIndex| #[trigger]
            s.peers.contains_key(who) && s.peers[who].state == PeerSyncState::DownloadingStale(
                hash,
            );
        assert(s.peers.contains_key(who));
    }
    if someone_sends(s.peers, hash) {
        let who = choose|who: NodeIndex| #[trigger]
            s.peers.contains_key(who) && (s.peers[who].state matches
                PeerSyncState::DownloadingStale(h) && h == hash);
        assert(s.peers.contains_key(who));
    }
}

// Justifications and finality proofs.

/// A peer that was asked for a justification or a finality proof is downloading it, for that
/// very block; one that is not connected is not entered.
pub proof fn law_extra_request_is_noted<H>(
    s: SyncView<H>,
    who: NodeIndex,
    kind: ExtraKind,
    hash: H,
)
    ensures
        ({
            let t = s.extra_requested(who, kind, hash);
            &&& !s.peers.contains_key(who) ==> t == s
            &&& s.peers.contains_key(who) && kind == ExtraKind::Justification
                ==> only_state_changed(s, t, who, PeerSyncState::DownloadingJustification(hash))
            &&& s.peers.contains_key(who) && kind == ExtraKind::FinalityProof
                ==> only_state_changed(s, t, who, PeerSyncState::DownloadingFinalityProof(hash))
        }),
{
}

/// The justification that a peer was asked for is handed on if it is of the right block, and
/// the sync is kept going; one of another block is reported, and an empty answer is dropped.
/// The peer is free again in any case.
pub proof fn law_justification_is_handed_on<H>(
    s: SyncView<H>,
    who: NodeIndex,
    requested: H,
    blocks: Seq<BlockData<H>>,
    order: Seq<NodeIndex>,
)
    requires
        s.walks(order),
        s.peers.contains_key(who),
        s.peers[who].state == PeerSyncState::DownloadingJustification(requested),
    ensures
        only_state_changed(s, s.justification_data(who), who, PeerSyncState::Available),
        ({
            let t = s.justification_data(who);
            let asked = s.justification_data_actions(who, blocks, order);
            if blocks.len() == 0 {
                asked.len() == 0
            } else if blocks[0].hash != requested {
                &&& asked.len() == 1
                &&& asked[0] == ActionView::ReportPeer(
                    who,
                    Severity::Bad(Fault::WrongJustification { requested, got: blocks[0].hash }),
                )
            } else {
                &&& asked.len() >= 1
                &&& asked[0] == ActionView::<H>::Extra(
                    ExtraAction::Response(ExtraKind::Justification, who, blocks[0].justification),
                )
                &&& keeps_going(t.peers, s.queue_blocks.len(), s.is_stopping, asked.skip(1))
            }
        }),
{
    let free = s.freed(who);
    assert(free.peers.dom() =~= s.peers.dom());
    law_maintenance_keeps_going(free, order);
    if blocks.len() > 0 && blocks[0].hash == requested {
        assert(s.justification_data_actions(who, blocks, order).skip(1) =~= free.maintenance(
            order,
        ));
    }
}

/// A justification that was not asked for is dropped, and the sync is kept going.
pub proof fn law_unwanted_justification_is_dropped<H>(
    s: SyncView<H>,
    who: NodeIndex,
    blocks: Seq<BlockData<H>>,
    order: Seq<NodeIndex>,
)
    requires
        s.walks(order),
        !s.peers.contains_key(who) || !(s.peers[who].state is DownloadingJustification),
    ensures
        s.justification_data(who) == s,
        keeps_going(
            s.peers,
            s.queue_blocks.len(),
            s.is_stopping,
            s.justification_data_actions(who, blocks, order),
        ),
{
    law_maintenance_keeps_going(s, order);
}

/// The finality proof that a peer was asked for is handed on if it is of the right block, and
/// the sync is kept going; one of another block is reported. The peer is free again either way.
pub proof fn law_finality_proof_is_handed_on<H>(
    s: SyncView<H>,
    who: NodeIndex,
    requested: H,
    response: FinalityProofResponse<H>,
    order: Seq<NodeIndex>,
)
    requires
        s.walks(order),
        s.peers.contains_key(who),
        s.peers[who].state == PeerSyncState::DownloadingFinalityProof(requested),
    ensures
        only_state_changed(s, s.finality_proof_data(who), who, PeerSyncState::Available),
        ({
            let t = s.finality_proof_data(who);
            let asked = s.finality_proof_data_actions(who, response, order);
            if response.block != requested {
                &&& asked.len() == 1
                &&& asked[0] == ActionView::ReportPeer(
                    who,
                    Severity::Bad(Fault::WrongFinalityProof { requested, got: response.block }),
                )
            } else {
                &&& asked.len() >= 1
                &&& asked[0] == ActionView::<H>::Extra(
                    ExtraAction::Response(ExtraKind::FinalityProof, who, response.proof),
                )
                &&& keeps_going(t.peers, s.queue_blocks.len(), s.is_stopping, asked.skip(1))
            }
        }),
{
    let free = s.freed(who);
    assert(free.peers.dom() =~= s.peers.dom());
    law_maintenance_keeps_going(free, order);
    if response.block == requested {
        assert(s.finality_proof_data_actions(who, response, order).skip(1) =~= free.maintenance(
            order,
        ));
    }
}

/// A finality proof that was not asked for is dropped, and the sync is kept going.
pub proof fn law_unwanted_finality_proof_is_dropped<H>(
    s: SyncView<H>,
    who: NodeIndex,
    response: FinalityProofResponse<H>,
    order: Seq<NodeIndex>,
)
    requires
        s.walks(order),
        !s.peers.contains_key(who) || !(s.peers[who].state is DownloadingFinalityProof),
    ensures
        s.finality_proof_data(who) == s,
        keeps_going(
            s.peers,
            s.queue_blocks.len(),
            s.is_stopping,
            s.finality_proof_data_actions(who, response, order),
        ),
{
    law_maintenance_keeps_going(s, order);
}

} // verus!
