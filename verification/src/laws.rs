//! Laws of the sync strategy: what holds in every state, and across events.
use crate::context::{ActionView, ExtraAction, ExtraKind, Fault, Severity};
use crate::message::{
    BlockData, BlockNumber, BlockOrigin, BlockRange, BlockRequest, BlockStatus, ClientError,
    ClientInfo, Direction, FinalityProofResponse, FromBlock, Header, IncomingBlock, NodeIndex,
    PeerInfo, Roles,
};
use crate::model::{
    ChainStatus, Event, PeersView, SyncView, MAJOR_SYNC_BLOCKS, MAX_BLOCKS_TO_REQUEST,
    MAX_IMPORTING_BLOCKS, MAX_UNKNOWN_FORK_DOWNLOAD_LEN,
};
use crate::peer::{PeerSyncState, PeerView, ANNOUNCE_HISTORY_SIZE};
use crate::status::SyncState;
use vstd::prelude::*;

verus! {

/// There is only one highest best number.
pub proof fn law_best_seen_is_unique<H>(peers: PeersView<H>, best: Option<BlockNumber>)
    requires
        crate::model::is_best_seen(peers, best),
    ensures
        crate::model::best_seen(peers) == best,
{
    let chosen = crate::model::best_seen(peers);
    assert(crate::model::is_best_seen(peers, chosen));
}

/// Among finitely many peers there is a highest best number.
pub(crate) proof fn lemma_best_seen_exists<H>(peers: PeersView<H>)
    requires
        peers.dom().finite(),
    ensures
        crate::model::is_best_seen(peers, crate::model::best_seen(peers)),
    decreases peers.dom().len(),
{
    if peers.dom().len() == 0 {
        assert(peers.dom() =~= Set::empty());
        assert(crate::model::is_best_seen(peers, None));
    } else {
        let who = peers.dom().choose();
        let fewer = peers.remove(who);
        lemma_best_seen_exists(fewer);
        let n = peers[who].best_number;
        let best = match crate::model::best_seen(fewer) {
            Some(m) => crate::model::greater(m, n),
            None => n,
        };
        assert forall|p: NodeIndex| #[trigger] peers.contains_key(p) implies peers[p].best_number
            <= best by {
            if p != who {
                assert(fewer.contains_key(p));
            }
        }
        if best == n {
            assert(peers.contains_key(who) && peers[who].best_number == best);
        } else {
            let p = choose|p: NodeIndex| #[trigger]
                fewer.contains_key(p) && fewer[p].best_number == best;
            assert(peers.contains_key(p) && peers[p].best_number == best);
        }
        assert(crate::model::is_best_seen(peers, Some(best)));
    }
}

/// Two tables with the same peers and the same best numbers have the same best block seen.
proof fn lemma_same_best_seen<H>(peers: PeersView<H>, others: PeersView<H>)
    requires
        peers.dom().finite(),
        others.dom() == peers.dom(),
        forall|who: NodeIndex| #[trigger]
            peers.contains_key(who) ==> others[who].best_number == peers[who].best_number,
    ensures
        crate::model::best_seen(others) == crate::model::best_seen(peers),
{
    lemma_best_seen_exists(peers);
    let best = crate::model::best_seen(peers);
    match best {
        Some(n) => {
            let who = choose|who: NodeIndex| #[trigger]
                peers.contains_key(who) && peers[who].best_number == n;
            assert(others.contains_key(who) && others[who].best_number == n);
            assert forall|p: NodeIndex| #[trigger]
                others.contains_key(p) implies others[p].best_number <= n by {
                assert(peers.contains_key(p));
            }
        },
        None => {
            assert forall|p: NodeIndex| !#[trigger] others.contains_key(p) by {
                assert(!peers.contains_key(p));
            }
        },
    }
    assert(crate::model::is_best_seen(others, best));
    law_best_seen_is_unique(others, best);
}

/// A sync strategy starts in a state that satisfies the invariant, whatever the flags are.
pub proof fn law_initial_state<H>(
    is_offline: bool,
    is_major_syncing: bool,
    role: Roles,
    info: ClientInfo<H>,
)
    ensures
        SyncView::initial(is_offline, is_major_syncing, role, info).inv(),
{
}

/// Queueing a block keeps the bounds.
proof fn lemma_block_queued_bounds<H>(s: SyncView<H>, hash: H, number: BlockNumber)
    requires
        s.within_bounds(),
    ensures
        s.block_queued(hash, number).within_bounds(),
{
    let t = s.block_queued(hash, number);
    assert(t.peers.dom() =~= s.peers.dom());
    assert forall|who: NodeIndex| #[trigger]
        t.peers.contains_key(who) implies t.peers[who].recently_announced.len()
        <= ANNOUNCE_HISTORY_SIZE by {
        assert(s.peers.contains_key(who));
    }
}

/// Handing blocks to the import queue keeps the bounds.
proof fn lemma_accepted_bounds<H>(s: SyncView<H>, blocks: Seq<IncomingBlock<H>>)
    requires
        s.within_bounds(),
    ensures
        s.accepted(blocks).within_bounds(),
{
    if blocks.len() > 0 && blocks.last().number() is Some {
        lemma_block_queued_bounds(s, blocks.last().hash, blocks.last().number()->0);
    }
    let hashes = blocks.map_values(|block: IncomingBlock<H>| block.hash);
    vstd::seq_lib::seq_to_set_is_finite(hashes);
}

/// Entering a peer whose announcements are within the limit keeps the bounds, if a peer is
/// there already or the offline flag is taken down.
proof fn lemma_insert_bounds<H>(s: SyncView<H>, t: SyncView<H>, who: NodeIndex, peer: PeerView<H>)
    requires
        s.within_bounds(),
        t.peers == s.peers.insert(who, peer),
        t.queue_blocks == s.queue_blocks,
        peer.recently_announced.len() <= ANNOUNCE_HISTORY_SIZE,
        t.is_offline ==> s.is_offline && s.peers.dom() != Set::<NodeIndex>::empty(),
    ensures
        t.within_bounds(),
{
    assert forall|p: NodeIndex| #[trigger]
        t.peers.contains_key(p) implies t.peers[p].recently_announced.len()
        <= ANNOUNCE_HISTORY_SIZE by {
        if p != who {
            assert(s.peers.contains_key(p));
        }
    }
}

/// Every event keeps the bounds: in particular, no more than
/// [`ANNOUNCE_HISTORY_SIZE`] announcements of a peer are ever remembered, and the offline
/// flag is only up while there is no peer.
pub proof fn law_event_keeps_bounds<H>(s: SyncView<H>, event: Event<H>)
    requires
        s.within_bounds(),
    ensures
        s.after(event).within_bounds(),
{
    let t = s.after(event);
    assert forall|who: NodeIndex, state: PeerSyncState<H>|
        s.peers.contains_key(who) implies #[trigger] s.set_state(who, state).within_bounds() by {
        assert(s.peers.dom().contains(who));
        lemma_insert_bounds(s, s.set_state(who, state), who, s.peers[who].with_state(state));
    }
    match event {
        Event::NewPeer { who, met } => {
            if let Some((info, chain)) = met {
                if let Some(peer) = s.admitted(info, s.status_of(info.best_hash, chain)) {
                    if t.is_offline {
                        assert(s.peers.len() > 0);
                        assert(s.peers.dom() != Set::<NodeIndex>::empty());
                    }
                    lemma_insert_bounds(s, t, who, peer);
                }
            }
        },
        Event::PeerDisconnected { who } => {
            assert forall|p: NodeIndex| #[trigger]
                t.peers.contains_key(p) implies t.peers[p].recently_announced.len()
                <= ANNOUNCE_HISTORY_SIZE by {
                assert(s.peers.contains_key(p));
            }
            if t.is_offline {
                assert(t.peers.dom() =~= Set::<NodeIndex>::empty());
            }
        },
        Event::BlockData { who, blocks } => {
            match s.peer_state(who) {
                Some(PeerSyncState::DownloadingStale(_)) => {
                    lemma_accepted_bounds(s.freed(who), crate::model::sent_by(who, blocks));
                },
                _ => {
                    lemma_accepted_bounds(s, seq![]);
                },
            }
        },
        Event::DrainedBlocks { drained } => {
            lemma_accepted_bounds(s, crate::model::drained(drained));
        },
        Event::AncestorHash { who, theirs, ours } => {
            if let Some(PeerSyncState::AncestorSearch(n)) = s.peer_state(who) {
                let found = s.ancestor_found(who, n);
                assert(s.peers.dom().contains(who));
                lemma_insert_bounds(s, found, who, found.peers[who]);
                lemma_accepted_bounds(found, seq![]);
            }
        },
        Event::BlockAnnounce { who, hash, header, chain_parent, chain_block } => {
            if s.heeds(who, header) {
                let noted = s.announcement_noted(
                    who,
                    hash,
                    header,
                    s.knows(header.parent_hash, chain_parent),
                    s.knows(hash, chain_block),
                );
                assert(s.peers.dom().contains(who));
                lemma_insert_bounds(s, noted, who, noted.peers[who]);
                let stale = PeerSyncState::DownloadingStale(hash);
                assert(noted.peers.dom().contains(who));
                lemma_insert_bounds(
                    noted,
                    noted.set_state(who, stale),
                    who,
                    noted.peers[who].with_state(stale),
                );
            }
        },
        Event::BlocksProcessed { processed, has_error } => {
            assert(t.queue_blocks.subset_of(s.queue_blocks));
            vstd::set_lib::lemma_set_subset_finite(s.queue_blocks, t.queue_blocks);
        },
        Event::ChainInfo { best_header } => {
            lemma_block_queued_bounds(s, best_header.hash, best_header.number);
        },
        _ => {},
    }
}

/// What an event makes of the state of a peer: it stays, or the peer is not sending a block on
/// a fork, or it starts to send one that nobody was sending.
proof fn lemma_stale_after<H>(s: SyncView<H>, event: Event<H>, who: NodeIndex)
    requires
        s.after(event).peers.contains_key(who),
    ensures
        ({
            let state = s.after(event).peers[who].state;
            ||| s.peers.contains_key(who) && s.peers[who].state == state
            ||| !(state is DownloadingStale)
            ||| (event matches Event::BlockAnnounce { who: w, hash, .. } && w == who && state
                == PeerSyncState::DownloadingStale(hash) && !s.is_downloading(hash))
        }),
{
}

/// No block on a fork is downloaded from two peers at once: every event keeps it so.
pub proof fn law_no_fork_is_sent_by_two_peers<H>(s: SyncView<H>, event: Event<H>)
    requires
        s.forks_are_apart(),
    ensures
        s.after(event).forks_are_apart(),
{
    let t = s.after(event);
    assert forall|a: NodeIndex, b: NodeIndex|
        #![trigger t.peers.contains_key(a), t.peers.contains_key(b)]
        t.peers.contains_key(a) && t.peers.contains_key(b) && a != b
            && t.peers[a].state is DownloadingStale implies t.peers[a].state
        != t.peers[b].state by {
        lemma_stale_after(s, event, a);
        lemma_stale_after(s, event, b);
        let hash = t.peers[a].state->DownloadingStale_0;
        assert(s.peers.contains_key(a) && s.peers[a].state == PeerSyncState::DownloadingStale(hash)
            ==> s.is_downloading(hash));
        assert(s.peers.contains_key(b) && s.peers[b].state == PeerSyncState::DownloadingStale(hash)
            ==> s.is_downloading(hash));
    }
}

/// Every event keeps the invariant.
pub proof fn law_event_keeps_invariant<H>(s: SyncView<H>, event: Event<H>)
    requires
        s.inv(),
    ensures
        s.after(event).inv(),
{
    law_event_keeps_bounds(s, event);
    law_no_fork_is_sent_by_two_peers(s, event);
}

/// The invariant holds after any history of events: announcements are remembered up to the
/// limit, the offline flag is only up without a peer, and no block on a fork is being sent by
/// two peers.
pub proof fn law_every_state_is_valid<H>(
    is_offline: bool,
    is_major_syncing: bool,
    role: Roles,
    info: ClientInfo<H>,
    events: Seq<Event<H>>,
)
    ensures
        SyncView::initial(is_offline, is_major_syncing, role, info).after_all(events).inv(),
    decreases events.len(),
{
    let initial = SyncView::initial(is_offline, is_major_syncing, role, info);
    if events.len() == 0 {
        law_initial_state(is_offline, is_major_syncing, role, info);
    } else {
        law_every_state_is_valid(is_offline, is_major_syncing, role, info, events.drop_last());
        law_event_keeps_invariant(initial.after_all(events.drop_last()), events.last());
    }
}

/// The best queued block never falls back, except by a restart; and it only changes together
/// with its number.
pub proof fn law_best_queued_only_rises<H>(s: SyncView<H>, event: Event<H>)
    requires
        !(event is Restart),
    ensures
        s.after(event).best_queued_number >= s.best_queued_number,
        s.after(event).best_queued_number == s.best_queued_number ==> s.after(
            event,
        ).best_queued_hash == s.best_queued_hash,
{
}

/// Once syncing is being stopped it stays so, and nothing is done any more to keep it going.
pub proof fn law_stopping_is_final<H>(s: SyncView<H>, event: Event<H>, order: Seq<NodeIndex>)
    requires
        s.is_stopping,
    ensures
        s.after(event).is_stopping,
        s.maintenance(order) == Seq::<ActionView<H>>::empty(),
{
}

/// What the node needs of a block, and the genesis block, never change.
pub proof fn law_constants_stay<H>(s: SyncView<H>, event: Event<H>)
    ensures
        s.after(event).required_block_attributes == s.required_block_attributes,
        s.after(event).genesis_hash == s.genesis_hash,
{
}

/// After a block was queued, what a peer shares with us is a block that it has and that is not
/// above the queued one, and no peer is searching for a common ancestor any more. Nothing else
/// about the peers changes.
pub proof fn law_queued_block_is_common<H>(
    s: SyncView<H>,
    hash: H,
    number: BlockNumber,
    who: NodeIndex,
)
    requires
        s.peers.contains_key(who),
    ensures
        ({
            let before = s.peers[who];
            let after = s.block_queued(hash, number).peers[who];
            &&& s.block_queued(hash, number).peers.dom() == s.peers.dom()
            &&& after.common_number <= after.best_number
            &&& after.common_number <= number
            &&& after.common_number == number || after.common_number == after.best_number
            &&& !(after.state is AncestorSearch)
            &&& before.state is AncestorSearch || after.state == before.state
            &&& after.best_number == before.best_number
            &&& after.best_hash == before.best_hash
            &&& after.recently_announced == before.recently_announced
        }),
{
    assert(s.block_queued(hash, number).peers.dom() =~= s.peers.dom());
}

/// Whatever is asked for besides a question to the block collection or to the pending
/// requests, keeping the sync going does not ask for it.
proof fn lemma_maintenance_asks<H>(s: SyncView<H>, order: Seq<NodeIndex>, i: int)
    requires
        0 <= i < s.maintenance(order).len(),
    ensures
        match s.maintenance(order)[i] {
            ActionView::NeededBlocks { who, .. } => {
                &&& s.wants_blocks(who)
                &&& order.contains(who)
                &&& s.maintenance(order)[i] == s.block_query(who)
            },
            ActionView::Extra(_) => true,
            _ => false,
        },
{
    let wanted = |who: NodeIndex| s.wants_blocks(who);
    let chosen = order.filter(wanted);
    if i < chosen.len() {
        let who = chosen[i];
        order.lemma_filter_pred(wanted, i);
        assert(wanted(who));
        lemma_filter_member(order, wanted, i);
        assert(s.maintenance(order)[i] == s.block_query(who));
    }
}

/// What passes a filter was there before.
proof fn lemma_filter_member<T>(s: Seq<T>, pred: spec_fn(T) -> bool, i: int)
    requires
        0 <= i < s.filter(pred).len(),
    ensures
        s.contains(s.filter(pred)[i]),
    decreases s.len(),
{
    reveal(Seq::filter);
    if s.len() > 0 {
        let shorter = s.drop_last();
        if i < shorter.filter(pred).len() {
            lemma_filter_member(shorter, pred, i);
            let j = choose|j: int| 0 <= j < shorter.len() && shorter[j] == shorter.filter(pred)[i];
            assert(s[j] == s.filter(pred)[i]);
        } else {
            assert(s[s.len() - 1] == s.filter(pred)[i]);
        }
    }
}

/// No new blocks are asked for while the import queue is too long.
pub proof fn law_long_queue_stops_downloads<H>(
    s: SyncView<H>,
    event: Event<H>,
    order: Seq<NodeIndex>,
    i: int,
)
    requires
        s.queue_blocks.len() > MAX_IMPORTING_BLOCKS,
        0 <= i < s.asks(event, order).len(),
    ensures
        !(s.asks(event, order)[i] is NeededBlocks),
{
    lemma_asked(s, event, order, i);
}

/// Which blocks to fetch from a peer is only asked for peers that are connected and available
/// when the event is over, only if the import queue is not too long, and for no more blocks
/// than fit in a packet.
pub proof fn law_only_available_peers_download<H>(
    s: SyncView<H>,
    event: Event<H>,
    order: Seq<NodeIndex>,
    i: int,
)
    requires
        0 <= i < s.asks(event, order).len(),
    ensures
        s.asks(event, order)[i] matches ActionView::NeededBlocks { who, count, .. } ==> {
            &&& s.queue_blocks.len() <= MAX_IMPORTING_BLOCKS
            &&& s.after(event).peer_state(who) == Some(PeerSyncState::<H>::Available)
            &&& count <= MAX_BLOCKS_TO_REQUEST
        },
{
    lemma_asked(s, event, order, i);
}

/// See [`lemma_asked`].
proof fn lemma_accepted_downloads<H>(
    s: SyncView<H>,
    blocks: Seq<IncomingBlock<H>>,
    order: Seq<NodeIndex>,
    i: int,
)
    requires
        0 <= i < s.accepted_actions(blocks, order).len(),
    ensures
        match s.accepted_actions(blocks, order)[i] {
            ActionView::NeededBlocks { who, .. } => {
                &&& s.queue_blocks.len() <= MAX_IMPORTING_BLOCKS
                &&& s.accepted(blocks).peer_state(who) == Some(PeerSyncState::<H>::Available)
                &&& s.accepted_actions(blocks, order)[i] == s.last_queued(blocks).block_query(who)
            },
            ActionView::SendMessage(..) => false,
            _ => true,
        },
{
    let queued = s.last_queued(blocks);
    if i < queued.maintenance(order).len() {
        lemma_maintenance_asks(queued, order, i);
    }
}

/// What an event asks of the block collection, and sends to peers.
proof fn lemma_asked<H>(s: SyncView<H>, event: Event<H>, order: Seq<NodeIndex>, i: int)
    requires
        0 <= i < s.asks(event, order).len(),
    ensures
        match s.asks(event, order)[i] {
            ActionView::NeededBlocks { who, count, .. } => {
                &&& s.queue_blocks.len() <= MAX_IMPORTING_BLOCKS
                &&& s.after(event).peer_state(who) == Some(PeerSyncState::<H>::Available)
                &&& count == MAX_BLOCKS_TO_REQUEST
            },
            ActionView::SendMessage(who, _) => {
                &&& s.after(event).peers.contains_key(who)
                &&& !(s.after(event).peers[who].state is Available)
                &&& !(event is NewPeer) ==> {
                    &&& s.peers.contains_key(who)
                    &&& s.peers[who].state is Available || s.peers[who].state is AncestorSearch
                }
            },
            _ => true,
        },
{
    let asked = s.asks(event, order);
    match event {
        Event::PeerDisconnected { who } => {
            if i >= 2 {
                lemma_maintenance_asks(s.disconnected(who), order, i - 2);
            }
        },
        Event::BlockData { who, blocks } => {
            match s.peer_state(who) {
                Some(PeerSyncState::DownloadingStale(_)) => {
                    lemma_accepted_downloads(
                        s.freed(who),
                        crate::model::sent_by(who, blocks),
                        order,
                        i,
                    );
                },
                Some(PeerSyncState::DownloadingNew(_)) => {},
                Some(PeerSyncState::AncestorSearch(_)) => {},
                _ => {
                    lemma_accepted_downloads(s, seq![], order, i);
                },
            }
        },
        Event::DrainedBlocks { drained } => {
            lemma_accepted_downloads(s, crate::model::drained(drained), order, i);
        },
        Event::AncestorHash { who, theirs, ours } => {
            if let Some(PeerSyncState::AncestorSearch(n)) = s.peer_state(who) {
                if ours matches Ok(hash) && hash == Some(theirs) {
                    lemma_accepted_downloads(s.ancestor_found(who, n), seq![], order, i);
                }
            }
        },
        Event::JustificationData { who, blocks } => {
            match s.peer_state(who) {
                Some(PeerSyncState::DownloadingJustification(_)) => {
                    if asked.len() > 0 && i >= 1 {
                        lemma_maintenance_asks(s.freed(who), order, i - 1);
                    }
                },
                _ => {
                    lemma_maintenance_asks(s, order, i);
                },
            }
        },
        Event::FinalityProofData { who, response } => {
            match s.peer_state(who) {
                Some(PeerSyncState::DownloadingFinalityProof(_)) => {
                    if i >= 1 {
                        lemma_maintenance_asks(s.freed(who), order, i - 1);
                    }
                },
                _ => {
                    lemma_maintenance_asks(s, order, i);
                },
            }
        },
        Event::MaintainSync => {
            lemma_maintenance_asks(s, order, i);
        },
        _ => {},
    }
}

/// A peer that is sent a block request is connected and busy afterwards, and was not
/// downloading anything before, unless it has just connected: a peer has one block request to
/// answer at a time.
pub proof fn law_one_request_at_a_time<H>(
    s: SyncView<H>,
    event: Event<H>,
    order: Seq<NodeIndex>,
    i: int,
)
    requires
        0 <= i < s.asks(event, order).len(),
    ensures
        s.asks(event, order)[i] matches ActionView::SendMessage(who, _) ==> {
            &&& s.after(event).peers.contains_key(who)
            &&& !(s.after(event).peers[who].state is Available)
            &&& !(event is NewPeer) ==> {
                &&& s.peers.contains_key(who)
                &&& s.peers[who].state is Available || s.peers[who].state is AncestorSearch
            }
        },
{
    lemma_asked(s, event, order, i);
}

/// While many blocks are queued, no search for a common ancestor starts: whoever is searching
/// after an event was searching before it.
pub proof fn law_no_ancestor_search_while_many_are_queued<H>(
    s: SyncView<H>,
    event: Event<H>,
    who: NodeIndex,
)
    requires
        s.queue_blocks.len() > MAJOR_SYNC_BLOCKS,
        s.after(event).peers.contains_key(who),
        s.after(event).peers[who].state is AncestorSearch,
    ensures
        s.peers.contains_key(who),
        s.peers[who].state is AncestorSearch,
{
}

/// A request for blocks on a fork asks for one block, or for no more than the limit if the
/// parent is unknown.
pub proof fn law_fork_requests_are_limited<H>(s: SyncView<H>, hash: H, known_parent: bool)
    ensures
        s.stale_request(hash, known_parent).max matches Some(max) && 1 <= max
            <= MAX_UNKNOWN_FORK_DOWNLOAD_LEN && (known_parent ==> max == 1),
{
}

/// Once a download has made a peer busy, a second one asks for nothing and changes nothing,
/// whatever the block collection would say.
pub proof fn law_second_download_does_nothing<H>(
    s: SyncView<H>,
    who: NodeIndex,
    range: Option<BlockRange>,
    again: Option<BlockRange>,
)
    requires
        s.starts_download(who, range),
    ensures
        s.needed(who, range).download_actions(who) == Seq::<ActionView<H>>::empty(),
        s.needed(who, range).needed(who, again) == s.needed(who, range),
        s.needed(who, range).needed_actions(who, again) == Seq::<ActionView<H>>::empty(),
{
}

/// Keeping the sync going asks the block collection once for each peer that is to be asked for
/// new blocks, and for no other.
pub proof fn law_maintenance_asks_each_peer_once<H>(
    s: SyncView<H>,
    order: Seq<NodeIndex>,
    who: NodeIndex,
)
    requires
        s.walks(order),
        !s.is_stopping,
    ensures
        s.wants_blocks(who) ==> s.maintenance(order).contains(s.block_query(who)),
        forall|i: int, j: int|
            #![trigger s.maintenance(order)[i], s.maintenance(order)[j]]
            0 <= i < j < s.maintenance(order).len() && s.maintenance(order)[i] is NeededBlocks
                ==> s.maintenance(order)[i] != s.maintenance(order)[j],
        forall|i: int|
            0 <= i < s.maintenance(order).len() ==> (#[trigger] s.maintenance(order)[i] matches
                ActionView::NeededBlocks { who: asked, .. } ==> s.wants_blocks(asked)),
{
    let wanted = |who: NodeIndex| s.wants_blocks(who);
    let chosen = order.filter(wanted);
    let asked = s.maintenance(order);
    if s.wants_blocks(who) {
        assert(order.to_set().contains(who));
        let j = choose|j: int| 0 <= j < order.len() && order[j] == who;
        order.lemma_filter_contains(wanted, j);
        let k = choose|k: int| 0 <= k < chosen.len() && chosen[k] == who;
        assert(asked[k] == s.block_query(who));
    }
    lemma_filter_no_duplicates(order, wanted);
    assert forall|i: int, j: int|
        #![trigger asked[i], asked[j]]
        0 <= i < j < asked.len() && asked[i] is NeededBlocks implies asked[i] != asked[j] by {
        assert(asked[i] == s.block_query(chosen[i]));
        if j < chosen.len() {
            assert(asked[j] == s.block_query(chosen[j]));
            assert(chosen[i] != chosen[j]);
        }
    }
    assert forall|i: int| 0 <= i < asked.len() implies (#[trigger] asked[i] matches
        ActionView::NeededBlocks { who: w, .. } ==> s.wants_blocks(w)) by {
        lemma_maintenance_asks(s, order, i);
    }
}

/// A filter leaves a sequence without duplicates without duplicates.
pub(crate) proof fn lemma_filter_no_duplicates<T>(s: Seq<T>, pred: spec_fn(T) -> bool)
    requires
        s.no_duplicates(),
    ensures
        s.filter(pred).no_duplicates(),
    decreases s.len(),
{
    reveal(Seq::filter);
    if s.len() > 0 {
        let shorter = s.drop_last();
        lemma_filter_no_duplicates(shorter, pred);
        let kept = shorter.filter(pred);
        assert forall|i: int| 0 <= i < kept.len() implies kept[i] != s.last() by {
            lemma_filter_member(shorter, pred, i);
            let j = choose|j: int| 0 <= j < shorter.len() && shorter[j] == kept[i];
            assert(s[j] == kept[i]);
        }
    }
}

/// The published flag that says that we are catching up is right if it is up exactly while
/// the sync state is [`SyncState::Downloading`].
pub open spec fn major_flag_is_right<H>(s: SyncView<H>) -> bool {
    s.is_major_syncing == (s.sync_state() == SyncState::Downloading)
}

/// Every event leaves the flag that says that we are catching up right, except that the flag
/// does not follow a change of the sync state that comes from an announcement, from a restart,
/// from forgetting all peers, or from a peer that connects although it is connected.
pub proof fn law_major_flag_stays_right<H>(s: SyncView<H>, event: Event<H>)
    requires
        s.inv(),
        major_flag_is_right(s),
        (event is BlockAnnounce || event is Restart || event is Clear || (event matches
            Event::NewPeer { who, .. } && s.peers.contains_key(who))) ==> s.after(
            event,
        ).sync_state() == s.sync_state(),
    ensures
        major_flag_is_right(s.after(event)),
{
    let t = s.after(event);
    match event {
        Event::NewPeer { .. } => {},
        Event::PeerDisconnected { who } => {
            law_leaving_peer_lowers_best_seen(s.peers, who);
        },
        Event::BlockData { who, blocks } => {
            match s.peer_state(who) {
                Some(PeerSyncState::DownloadingStale(_)) => {
                    assert(s.freed(who).peers.dom() =~= s.peers.dom());
                    lemma_same_best_seen(s.peers, s.freed(who).peers);
                    lemma_accepted_flag(s.freed(who), crate::model::sent_by(who, blocks));
                },
                Some(PeerSyncState::DownloadingNew(_)) => {
                    assert(t.peers.dom() =~= s.peers.dom());
                    lemma_same_best_seen(s.peers, t.peers);
                },
                Some(PeerSyncState::AncestorSearch(_)) => {},
                _ => {
                    lemma_accepted_flag(s, seq![]);
                },
            }
        },
        Event::DrainedBlocks { drained } => {
            lemma_accepted_flag(s, crate::model::drained(drained));
        },
        Event::ChainInfo { best_header } => {
            lemma_queued_flag(s, best_header.hash, best_header.number);
        },
        _ => {
            if !(event is BlockAnnounce || event is Restart || event is Clear) {
                assert(t.peers.dom() =~= s.peers.dom());
                lemma_same_best_seen(s.peers, t.peers);
            }
        },
    }
}

/// See [`law_major_flag_stays_right`].
proof fn lemma_queued_flag<H>(s: SyncView<H>, hash: H, number: BlockNumber)
    requires
        s.peers.dom().finite(),
        major_flag_is_right(s),
    ensures
        major_flag_is_right(s.block_queued(hash, number)),
{
    let t = s.block_queued(hash, number);
    assert(t.peers.dom() =~= s.peers.dom());
    lemma_same_best_seen(s.peers, t.peers);
}

/// See [`law_major_flag_stays_right`].
proof fn lemma_accepted_flag<H>(s: SyncView<H>, blocks: Seq<IncomingBlock<H>>)
    requires
        s.peers.dom().finite(),
        major_flag_is_right(s),
    ensures
        major_flag_is_right(s.accepted(blocks)),
{
    if blocks.len() > 0 && blocks.last().number() is Some {
        lemma_queued_flag(s, blocks.last().hash, blocks.last().number()->0);
    }
}

/// When a peer leaves, the best block seen does not rise.
pub proof fn law_leaving_peer_lowers_best_seen<H>(peers: PeersView<H>, who: NodeIndex)
    requires
        peers.dom().finite(),
    ensures
        match (crate::model::best_seen(peers), crate::model::best_seen(peers.remove(who))) {
            (_, None) => true,
            (Some(before), Some(after)) => after <= before,
            (None, Some(_)) => false,
        },
{
    lemma_best_seen_exists(peers);
    lemma_best_seen_exists(peers.remove(who));
    if let Some(after) = crate::model::best_seen(peers.remove(who)) {
        let p = choose|p: NodeIndex| #[trigger]
            peers.remove(who).contains_key(p) && peers.remove(who)[p].best_number == after;
        assert(peers.contains_key(p));
    }
}

/// What was just handed to the import queue is known, whatever the blockchain says of it.
pub proof fn law_accepted_blocks_are_known<H>(
    s: SyncView<H>,
    blocks: Seq<IncomingBlock<H>>,
    i: int,
    chain: ChainStatus,
)
    requires
        0 <= i < blocks.len(),
    ensures
        s.accepted(blocks).status_of(blocks[i].hash, chain) == ChainStatus::Ok(
            BlockStatus::Queued,
        ),
        s.accepted(blocks).knows(blocks[i].hash, chain),
{
    let hashes = blocks.map_values(|block: IncomingBlock<H>| block.hash);
    assert(hashes[i] == blocks[i].hash);
    assert(hashes.to_set().contains(blocks[i].hash));
}

/// What is in the import queue stays there until it was processed, or until a restart.
pub proof fn law_queue_keeps_blocks<H>(s: SyncView<H>, event: Event<H>)
    requires
        !(event is BlocksProcessed),
        !(event is Restart),
    ensures
        s.queue_blocks.subset_of(s.after(event).queue_blocks),
{
}

/// To process blocks undoes that they were handed to the import queue: afterwards the queue
/// holds what it held before, without them.
pub proof fn law_processing_undoes_accepting<H>(
    s: SyncView<H>,
    blocks: Seq<IncomingBlock<H>>,
    has_error: bool,
)
    ensures
        ({
            let hashes = blocks.map_values(|block: IncomingBlock<H>| block.hash);
            let after = s.accepted(blocks).processed(hashes, has_error);
            &&& after.queue_blocks == s.queue_blocks.difference(hashes.to_set())
            &&& (s.queue_blocks.disjoint(hashes.to_set()) ==> after.queue_blocks
                == s.queue_blocks)
        }),
{
    let hashes = blocks.map_values(|block: IncomingBlock<H>| block.hash);
    let after = s.accepted(blocks).processed(hashes, has_error);
    assert(after.queue_blocks =~= s.queue_blocks.difference(hashes.to_set()));
    if s.queue_blocks.disjoint(hashes.to_set()) {
        assert(after.queue_blocks =~= s.queue_blocks);
    }
}

/// A block that is known is never downloaded because of an announcement.
pub proof fn law_known_blocks_are_not_fetched<H>(
    s: SyncView<H>,
    who: NodeIndex,
    hash: H,
    header: Header<H>,
    chain_parent: ChainStatus,
    chain_block: ChainStatus,
    order: Seq<NodeIndex>,
)
    requires
        s.knows(hash, chain_block),
    ensures
        s.asks(
            Event::BlockAnnounce { who, hash, header, chain_parent, chain_block },
            order,
        ) == Seq::<ActionView<H>>::empty(),
{
}

/// A block that some peer is sending already is not asked of another one.
pub proof fn law_no_stale_block_is_fetched_twice<H>(
    s: SyncView<H>,
    who: NodeIndex,
    hash: H,
    header: Header<H>,
    chain_parent: ChainStatus,
    chain_block: ChainStatus,
    order: Seq<NodeIndex>,
)
    requires
        s.is_downloading(hash),
    ensures
        s.asks(
            Event::BlockAnnounce { who, hash, header, chain_parent, chain_block },
            order,
        ) == Seq::<ActionView<H>>::empty(),
{
}

/// Blocks are imported as a broadcast right after a connected peer has announced the first of
/// them.
pub proof fn law_announced_block_is_a_broadcast<H>(
    s: SyncView<H>,
    who: NodeIndex,
    header: Header<H>,
    chain_parent: ChainStatus,
    chain_block: ChainStatus,
    blocks: Seq<IncomingBlock<H>>,
)
    requires
        blocks.len() > 0,
        s.peers.contains_key(who),
        header.number > 0,
    ensures
        s.after(
            Event::BlockAnnounce {
                who,
                hash: blocks.first().hash,
                header,
                chain_parent,
                chain_block,
            },
        ).origin_of(blocks) == BlockOrigin::NetworkBroadcast,
{
    let hash = blocks.first().hash;
    let t = s.after(
        Event::BlockAnnounce { who, hash, header, chain_parent, chain_block },
    );
    let history = t.peers[who].recently_announced;
    assert(history[history.len() - 1] == hash);
    assert(t.peers.contains_key(who) && t.peers[who].recently_announced.contains(hash));
}

/// An announcement raises the best block of the peer to the announced number at least, and the
/// announced hash is the last in its history.
pub proof fn law_announcement_is_remembered<H>(
    s: SyncView<H>,
    who: NodeIndex,
    hash: H,
    header: Header<H>,
    chain_parent: ChainStatus,
    chain_block: ChainStatus,
)
    requires
        s.peers.contains_key(who),
        header.number > 0,
    ensures
        ({
            let before = s.peers[who];
            let after = s.after(
                Event::BlockAnnounce { who, hash, header, chain_parent, chain_block },
            ).peers[who];
            &&& after.best_number == crate::model::greater(before.best_number, header.number)
            &&& after.recently_announced.last() == hash
            &&& 0 < after.recently_announced.len() <= ANNOUNCE_HISTORY_SIZE
        }),
{
}

/// What comes from a peer that is not connected changes nothing. An announcement by it, or the
/// answer to a question about it, asks for nothing; blocks, a justification or a finality proof
/// that it sends have the sync kept going, and no block imported.
pub proof fn law_strangers_change_nothing<H>(
    s: SyncView<H>,
    who: NodeIndex,
    event: Event<H>,
    order: Seq<NodeIndex>,
)
    requires
        !s.peers.contains_key(who),
        match event {
            Event::BlockAnnounce { who: w, .. }
            | Event::NeededBlocks { who: w, .. }
            | Event::AncestorHash { who: w, .. }
            | Event::BlockData { who: w, .. }
            | Event::JustificationData { who: w, .. }
            | Event::FinalityProofData { who: w, .. } => w == who,
            _ => false,
        },
    ensures
        s.after(event) == s,
        s.asks(event, order) == match event {
            Event::BlockData { .. } => s.maintenance(order).push(
                ActionView::ImportBlocks(BlockOrigin::NetworkInitialSync, seq![]),
            ),
            Event::JustificationData { .. }
            | Event::FinalityProofData { .. } => s.maintenance(order),
            _ => Seq::<ActionView<H>>::empty(),
        },
{
    if event is BlockData {
        let hashes = Seq::<IncomingBlock<H>>::empty().map_values(
            |block: IncomingBlock<H>| block.hash,
        );
        assert(s.queue_blocks.union(hashes.to_set()) =~= s.queue_blocks);
    }
}

/// A peer that has disconnected is gone, and nobody else is.
pub proof fn law_disconnected_peer_is_gone<H>(s: SyncView<H>, who: NodeIndex, other: NodeIndex)
    requires
        other != who,
    ensures
        !s.disconnected(who).peers.contains_key(who),
        s.disconnected(who).peers.contains_key(other) == s.peers.contains_key(other),
        s.peers.contains_key(other) ==> s.disconnected(who).peers[other] == s.peers[other],
{
}

/// We are offline once the last peer has left, and no longer once the first one was entered.
pub proof fn law_offline_follows_the_peers<H>(
    s: SyncView<H>,
    who: NodeIndex,
    event: Event<H>,
)
    requires
        s.inv(),
    ensures
        s.disconnected(who).peers.dom() == Set::<NodeIndex>::empty() ==> s.disconnected(
            who,
        ).is_offline,
        event is NewPeer && s.after(event).peers.dom() != Set::<NodeIndex>::empty() ==> !s.after(
            event,
        ).is_offline,
{
    law_event_keeps_invariant(s, event);
}

/// The published flag that says that there is no peer is right if it is up exactly while
/// there is none.
pub open spec fn offline_flag_is_right<H>(s: SyncView<H>) -> bool {
    s.is_offline == (s.peers.dom() == Set::<NodeIndex>::empty())
}

/// Every event leaves the offline flag right, except a restart and forgetting all peers, which
/// take the peers away without raising the flag.
pub proof fn law_offline_flag_stays_right<H>(s: SyncView<H>, event: Event<H>)
    requires
        s.inv(),
        offline_flag_is_right(s),
        !(event is Restart),
        !(event is Clear),
    ensures
        offline_flag_is_right(s.after(event)),
{
    let t = s.after(event);
    law_event_keeps_bounds(s, event);
    if !(event is PeerDisconnected) && !(event is NewPeer) {
        assert(t.peers.dom() =~= s.peers.dom());
    }
    if t.peers.dom() == Set::<NodeIndex>::empty() {
        match event {
            Event::NewPeer { who, met } => {
                if let Some((info, chain)) = met {
                    if let Some(peer) = s.admitted(info, s.status_of(info.best_hash, chain)) {
                        assert(t.peers.dom().contains(who));
                    }
                }
            },
            _ => {},
        }
    }
}

/// Each answer brings the search for a common ancestor forward: it ends with the peer
/// available and the block that was found in common, unless a higher one was already, or it
/// goes one block back and asks for that block, or the peer is reported.
pub proof fn law_ancestor_search_advances<H>(
    s: SyncView<H>,
    who: NodeIndex,
    n: BlockNumber,
    theirs: H,
    ours: Result<Option<H>, ClientError>,
    order: Seq<NodeIndex>,
)
    requires
        s.peer_state(who) == Some(PeerSyncState::<H>::AncestorSearch(n)),
    ensures
        ({
            let event = Event::AncestorHash { who, theirs, ours };
            let t = s.after(event);
            let asked = s.asks(event, order);
            match ours {
                Ok(hash) => if hash == Some(theirs) {
                    &&& t.peer_state(who) == Some(PeerSyncState::<H>::Available)
                    &&& s.peers[who].common_number <= n ==> t.peers[who].common_number == n
                    &&& s.peers[who].common_number > n ==> t.peers[who].common_number
                        == s.peers[who].common_number
                } else if n > 0 {
                    &&& t.peer_state(who) == Some(
                        PeerSyncState::<H>::AncestorSearch((n - 1) as BlockNumber),
                    )
                    &&& asked.len() == 1
                    &&& asked[0] == ActionView::<H>::SendMessage(
                        who,
                        crate::model::ancestry_request((n - 1) as BlockNumber),
                    )
                } else {
                    asked == seq![
                        ActionView::<H>::ReportPeer(who, Severity::Bad(Fault::GenesisMismatch)),
                    ]
                },
                Err(e) => asked == seq![
                    ActionView::<H>::ReportPeer(
                        who,
                        Severity::Useless(Fault::AncestryUnreadable(e)),
                    ),
                ],
            }
        }),
{
}

/// As long as the hashes differ, a search for a common ancestor that starts at number `n` goes
/// down by one with each answer, and stays at the genesis block when it has got there.
pub proof fn law_ancestor_search_descends<H>(
    s: SyncView<H>,
    who: NodeIndex,
    n: BlockNumber,
    answers: Seq<Event<H>>,
)
    requires
        s.peer_state(who) == Some(PeerSyncState::<H>::AncestorSearch(n)),
        forall|i: int|
            0 <= i < answers.len() ==> (#[trigger] answers[i] matches Event::AncestorHash {
                who: w,
                theirs,
                ours,
            } && w == who && ours is Ok && ours->Ok_0 != Some(theirs)),
    ensures
        answers.len() <= n ==> s.after_all(answers).peer_state(who) == Some(
            PeerSyncState::<H>::AncestorSearch((n - answers.len()) as BlockNumber),
        ),
        answers.len() > n ==> s.after_all(answers).peer_state(who) == Some(
            PeerSyncState::<H>::AncestorSearch(0),
        ),
    decreases answers.len(),
{
    if answers.len() > 0 {
        let earlier = answers.drop_last();
        assert forall|i: int| 0 <= i < earlier.len() implies (#[trigger] earlier[i] matches
            Event::AncestorHash { who: w, theirs, ours } && w == who && ours is Ok
            && ours->Ok_0 != Some(theirs)) by {
            assert(earlier[i] == answers[i]);
        }
        law_ancestor_search_descends(s, who, n, earlier);
        assert(answers.last() == answers[answers.len() - 1]);
    }
}

/// An answer to a request for blocks, for a justification or for a finality proof makes the
/// peer available again.
pub proof fn law_answer_frees_the_peer<H>(s: SyncView<H>, who: NodeIndex, event: Event<H>)
    requires
        match event {
            Event::BlockData { who: w, .. } => w == who && (s.peer_state(who) matches Some(
                PeerSyncState::DownloadingNew(_),
            ) || s.peer_state(who) matches Some(PeerSyncState::DownloadingStale(_))),
            Event::JustificationData { who: w, .. } => w == who && (s.peer_state(who) matches Some(
                PeerSyncState::DownloadingJustification(_),
            )),
            Event::FinalityProofData { who: w, .. } => w == who && (s.peer_state(who) matches Some(
                PeerSyncState::DownloadingFinalityProof(_),
            )),
            _ => false,
        },
    ensures
        s.after(event).peer_state(who) == Some(PeerSyncState::<H>::Available),
{
}

/// An event that is about one peer, and does not bring blocks, leaves the other peers alone.
pub proof fn law_other_peers_are_left_alone<H>(
    s: SyncView<H>,
    who: NodeIndex,
    other: NodeIndex,
    event: Event<H>,
)
    requires
        other != who,
        match event {
            Event::NewPeer { who: w, .. }
            | Event::PeerDisconnected { who: w }
            | Event::AncestorHash { who: w, .. }
            | Event::NeededBlocks { who: w, .. }
            | Event::BlockAnnounce { who: w, .. }
            | Event::JustificationData { who: w, .. }
            | Event::FinalityProofData { who: w, .. }
            | Event::ExtraRequest { who: w, .. } => w == who,
            _ => false,
        },
    ensures
        s.after(event).peers.contains_key(other) == s.peers.contains_key(other),
        s.peers.contains_key(other) ==> s.after(event).peers[other] == s.peers[other],
{
}

/// A restart goes back to where a new strategy starts, but for the published flags and for
/// being stopped; if the client cannot be read, to the genesis block.
pub proof fn law_restart_starts_over<H>(
    s: SyncView<H>,
    info: Result<ClientInfo<H>, ClientError>,
    role: Roles,
)
    requires
        info matches Ok(i) ==> i.chain.genesis_hash == s.genesis_hash,
        s.required_block_attributes.header && s.required_block_attributes.justification,
        s.required_block_attributes.body == (role.full || role.authority),
    ensures
        match info {
            Ok(i) => s.restarted(info) == (SyncView {
                is_stopping: s.is_stopping,
                ..SyncView::initial(s.is_offline, s.is_major_syncing, role, i)
            }),
            Err(_) => s.restarted(info) == (SyncView {
                genesis_hash: s.genesis_hash,
                peers: Map::empty(),
                best_queued_number: 0,
                best_queued_hash: s.genesis_hash,
                required_block_attributes: s.required_block_attributes,
                queue_blocks: Set::empty(),
                best_importing_number: 0,
                is_stopping: s.is_stopping,
                is_offline: s.is_offline,
                is_major_syncing: s.is_major_syncing,
            }),
        },
{
}

/// A restart has every peer looked up again, once.
pub proof fn law_restart_reconsiders_every_peer<H>(
    s: SyncView<H>,
    order: Seq<NodeIndex>,
    who: NodeIndex,
)
    requires
        s.walks(order),
    ensures
        s.peers.contains_key(who) <==> s.restarted_actions(order).contains(
            ActionView::<H>::Reconsider(who),
        ),
        s.restarted_actions(order).no_duplicates(),
{
    let asked = s.restarted_actions(order);
    assert forall|i: int| 1 <= i < asked.len() implies asked[i] == ActionView::<H>::Reconsider(
        order[i - 1],
    ) by {}
    if s.peers.contains_key(who) {
        assert(order.to_set().contains(who));
        let j = choose|j: int| 0 <= j < order.len() && order[j] == who;
        assert(asked[j + 1] == ActionView::<H>::Reconsider(who));
    }
    if asked.contains(ActionView::<H>::Reconsider(who)) {
        let i = choose|i: int|
            0 <= i < asked.len() && asked[i] == ActionView::<H>::Reconsider(who);
        assert(order[i - 1] == who);
        assert(order.to_set().contains(who));
    }
    assert forall|i: int, j: int| 0 <= i < asked.len() && 0 <= j < asked.len() && i != j implies
        asked[i] != asked[j] by {
        if i >= 1 && j >= 1 {
            assert(order[i - 1] != order[j - 1]);
        }
    }
}

/// Looking up one more peer after a restart: what [`lemma_reconsidered_all`] states is kept.
proof fn lemma_reconsidered<H>(
    base: SyncView<H>,
    s: SyncView<H>,
    who: NodeIndex,
    met: Option<(PeerInfo<H>, ChainStatus)>,
    range: Option<BlockRange>,
)
    requires
        s == (SyncView {
            peers: s.peers,
            is_offline: s.is_offline,
            is_major_syncing: s.is_major_syncing,
            ..base
        }),
        s.peers.dom().finite(),
        !s.peers.contains_key(who),
        s.is_offline == (base.is_offline && s.peers.dom() == Set::<NodeIndex>::empty()),
        s.is_major_syncing == (base.is_major_syncing || s.sync_state() == SyncState::Downloading),
    ensures
        ({
            let t = s.reconsidered(who, met, range);
            &&& t == (SyncView {
                peers: t.peers,
                is_offline: t.is_offline,
                is_major_syncing: t.is_major_syncing,
                ..base
            })
            &&& t.peers.dom().finite()
            &&& t.peers == match base.readmitted(who, met, range) {
                Some(peer) => s.peers.insert(who, peer),
                None => s.peers,
            }
            &&& t.is_offline == (base.is_offline && t.peers.dom() == Set::<NodeIndex>::empty())
            &&& t.is_major_syncing == (base.is_major_syncing || t.sync_state()
                == SyncState::Downloading)
        }),
{
    let t = s.reconsidered(who, met, range);
    assert(s.asks_for_blocks(who, met) == base.asks_for_blocks(who, met));
    match base.readmitted(who, met, range) {
        Some(peer) => {
            let entered = s.new_peer(who, met);
            assert(t.peers =~= s.peers.insert(who, peer));
            assert(t.peers.dom().contains(who));
            if s.peers.dom() != Set::<NodeIndex>::empty() {
                assert(s.peers.len() > 0) by {
                    if s.peers.dom().len() == 0 {
                        assert(s.peers.dom() =~= Set::<NodeIndex>::empty());
                    }
                }
            }
            assert(t.peers.dom() =~= entered.peers.dom());
            lemma_same_best_seen(entered.peers, t.peers);
            assert(entered.peers.remove(who) =~= s.peers);
            law_leaving_peer_lowers_best_seen(entered.peers, who);
        },
        None => {},
    }
}

/// What looking up peers again after a restart ends with.
proof fn lemma_reconsidered_all<H>(
    base: SyncView<H>,
    order: Seq<NodeIndex>,
    met: spec_fn(NodeIndex) -> Option<(PeerInfo<H>, ChainStatus)>,
    ranges: spec_fn(NodeIndex) -> Option<BlockRange>,
)
    requires
        base.peers == Map::<NodeIndex, PeerView<H>>::empty(),
        order.no_duplicates(),
    ensures
        ({
            let r = base.reconsidered_all(order, met, ranges);
            &&& r == (SyncView {
                peers: r.peers,
                is_offline: r.is_offline,
                is_major_syncing: r.is_major_syncing,
                ..base
            })
            &&& r.peers.dom().finite()
            &&& forall|who: NodeIndex| #[trigger]
                r.peers.contains_key(who) <==> order.contains(who) && base.readmitted(
                    who,
                    met(who),
                    ranges(who),
                ) is Some
            &&& forall|who: NodeIndex| #[trigger]
                r.peers.contains_key(who) ==> Some(r.peers[who]) == base.readmitted(
                    who,
                    met(who),
                    ranges(who),
                )
            &&& r.is_offline == (base.is_offline && r.peers.dom() == Set::<NodeIndex>::empty())
            &&& r.is_major_syncing == (base.is_major_syncing || r.sync_state()
                == SyncState::Downloading)
        }),
    decreases order.len(),
{
    let r = base.reconsidered_all(order, met, ranges);
    if order.len() == 0 {
        assert(base.peers.dom() =~= Set::<NodeIndex>::empty());
        law_best_seen_is_unique(base.peers, None);
    } else {
        let earlier = order.drop_last();
        let who = order.last();
        lemma_reconsidered_all(base, earlier, met, ranges);
        let s = base.reconsidered_all(earlier, met, ranges);
        assert(!earlier.contains(who)) by {
            if earlier.contains(who) {
                let j = choose|j: int| 0 <= j < earlier.len() && earlier[j] == who;
                assert(order[j] == order[order.len() - 1]);
            }
        }
        lemma_reconsidered(base, s, who, met(who), ranges(who));
        assert forall|p: NodeIndex| order.contains(p) <==> earlier.contains(p) || p == who by {
            if order.contains(p) && p != who {
                let j = choose|j: int| 0 <= j < order.len() && order[j] == p;
                assert(earlier[j] == p);
            }
            if earlier.contains(p) {
                let j = choose|j: int| 0 <= j < earlier.len() && earlier[j] == p;
                assert(order[j] == p);
            }
            assert(order[order.len() - 1] == who);
        }
        assert forall|p: NodeIndex| #[trigger] r.peers.contains_key(p) <==> order.contains(p)
            && base.readmitted(p, met(p), ranges(p)) is Some by {
            assert(p != who ==> r.peers.contains_key(p) == s.peers.contains_key(p));
        }
        assert forall|p: NodeIndex| #[trigger] r.peers.contains_key(p) implies Some(r.peers[p])
            == base.readmitted(p, met(p), ranges(p)) by {
            if p != who {
                assert(s.peers.contains_key(p));
            }
        }
    }
}

/// The reports of a peer among what is asked for.
pub open spec fn reports_of<H>(asked: Seq<ActionView<H>>, who: NodeIndex) -> Seq<ActionView<H>> {
    asked.filter(|action: ActionView<H>| action matches ActionView::ReportPeer(w, _) && w == who)
}

/// Looking up peers again reports each one that is rejected once, and no other.
proof fn lemma_rejected_are_reported<H>(
    base: SyncView<H>,
    order: Seq<NodeIndex>,
    met: spec_fn(NodeIndex) -> Option<(PeerInfo<H>, ChainStatus)>,
    ranges: spec_fn(NodeIndex) -> Option<BlockRange>,
    who: NodeIndex,
)
    requires
        base.peers == Map::<NodeIndex, PeerView<H>>::empty(),
        order.no_duplicates(),
    ensures
        ({
            let asked = base.reconsidered_all_actions(order, met, ranges);
            reports_of(asked, who).len() == if order.contains(who) && base.rejects(met(who)) {
                1int
            } else {
                0int
            }
        }),
    decreases order.len(),
{
    reveal(Seq::filter);
    if order.len() > 0 {
        let report = |action: ActionView<H>|
            action matches ActionView::ReportPeer(w, _) && w == who;
        let earlier = order.drop_last();
        let last = order.last();
        lemma_rejected_are_reported(base, earlier, met, ranges, who);
        lemma_reconsidered_all(base, earlier, met, ranges);
        let s = base.reconsidered_all(earlier, met, ranges);
        let before = base.reconsidered_all_actions(earlier, met, ranges);
        let now = s.reconsidered_actions(last, met(last), ranges(last));
        Seq::filter_distributes_over_add(before, now, report);
        assert(now.len() <= 2);
        assert(now.filter(report).len() == if last == who && base.rejects(met(who)) {
            1int
        } else {
            0int
        }) by {
            reveal_with_fuel(Seq::filter, 3);
        }
        assert(order.contains(who) <==> earlier.contains(who) || last == who) by {
            if order.contains(who) && who != last {
                let j = choose|j: int| 0 <= j < order.len() && order[j] == who;
                assert(earlier[j] == who);
            }
            if earlier.contains(who) {
                let j = choose|j: int| 0 <= j < earlier.len() && earlier[j] == who;
                assert(order[j] == who);
            }
            assert(order[order.len() - 1] == last);
        }
        assert(!(earlier.contains(who) && last == who)) by {
            if earlier.contains(who) && last == who {
                let j = choose|j: int| 0 <= j < earlier.len() && earlier[j] == who;
                assert(order[j] == order[order.len() - 1]);
            }
        }
    }
}

/// What a restart ends with once every peer was looked up again, whatever the node finds: the
/// peers are exactly the former ones that are known and not rejected, each with its best block
/// as it stands now and without any announcement; each peer that is known but rejected is
/// reported once, and nobody else is; the flags follow the peers, and everything else is as
/// the restart has left it.
pub proof fn law_restart_ends_with_the_known_peers<H>(
    s: SyncView<H>,
    info: Result<ClientInfo<H>, ClientError>,
    order: Seq<NodeIndex>,
    met: spec_fn(NodeIndex) -> Option<(PeerInfo<H>, ChainStatus)>,
    ranges: spec_fn(NodeIndex) -> Option<BlockRange>,
    who: NodeIndex,
)
    requires
        s.walks(order),
    ensures
        ({
            let base = s.restarted(info);
            let end = base.reconsidered_all(order, met, ranges);
            let asked = base.reconsidered_all_actions(order, met, ranges);
            &&& end.peers.contains_key(who) <==> s.peers.contains_key(who) && met(who) is Some
                && !base.rejects(met(who))
            &&& end.peers.contains_key(who) ==> {
                &&& Some(end.peers[who]) == base.readmitted(who, met(who), ranges(who))
                &&& end.peers[who].best_number == (met(who)->0).0.best_number
                &&& end.peers[who].best_hash == (met(who)->0).0.best_hash
                &&& end.peers[who].recently_announced == Seq::<H>::empty()
            }
            &&& reports_of(asked, who).len() == if s.peers.contains_key(who) && base.rejects(
                met(who),
            ) {
                1int
            } else {
                0int
            }
            &&& end == (SyncView {
                peers: end.peers,
                is_offline: s.is_offline && end.peers.dom() == Set::<NodeIndex>::empty(),
                is_major_syncing: s.is_major_syncing || end.sync_state()
                    == SyncState::Downloading,
                ..base
            })
        }),
{
    let base = s.restarted(info);
    lemma_reconsidered_all(base, order, met, ranges);
    lemma_rejected_are_reported(base, order, met, ranges, who);
    assert(order.contains(who) <==> order.to_set().contains(who));
    assert(s.peers.contains_key(who) <==> s.peers.dom().contains(who));
}

/// Blocks that were asked for from the top down are handled as if they had been asked for
/// from the bottom up.
pub proof fn law_direction_does_not_matter<H>(blocks: Seq<BlockData<H>>)
    ensures
        crate::model::in_order(Direction::Descending, blocks.reverse())
            == crate::model::in_order(Direction::Ascending, blocks),
{
    assert(blocks.reverse().reverse() =~= blocks);
}

/// The best block in the import queue only falls back when importing failed or by a restart.
pub proof fn law_best_importing_only_rises<H>(s: SyncView<H>, event: Event<H>)
    requires
        !(event is Restart),
        !(event matches Event::BlocksProcessed { has_error, .. } && has_error),
    ensures
        s.after(event).best_importing_number >= s.best_importing_number,
{
}

/// The reported number of peers is zero exactly if there is no peer, as long as there are not
/// more peers than can be reported.
pub proof fn law_reported_alone_means_alone<H>(s: SyncView<H>)
    requires
        s.inv(),
        s.peers.len() <= u32::MAX,
    ensures
        (s.peers.len() as u32 == 0) <==> s.peers.dom() == Set::<NodeIndex>::empty(),
{
    if s.peers.len() == 0 {
        assert(s.peers.dom() =~= Set::<NodeIndex>::empty());
    }
}

/// The blocks of a range that an available peer was asked for go into the block collection
/// where the range starts, and everything that follows on the best queued block is taken out.
pub proof fn law_range_is_put_where_it_was_asked<H>(
    s: SyncView<H>,
    who: NodeIndex,
    range: BlockRange,
    blocks: Seq<BlockData<H>>,
    order: Seq<NodeIndex>,
)
    requires
        s.peer_state(who) == Some(PeerSyncState::<H>::Available),
    ensures
        s.needed_actions(who, Some(range)) == seq![
            ActionView::<H>::SendMessage(who, s.range_request(range)),
        ],
        s.needed(who, Some(range)).block_data_actions(who, blocks, order) == seq![
            ActionView::<H>::ClearPeerDownload(who),
            ActionView::<H>::InsertBlocks { start: range.start, blocks, who },
            ActionView::<H>::DrainBlocks { from: (s.best_queued_number + 1) as BlockNumber },
        ],
        s.needed(who, Some(range)).block_data(who, blocks).peers == s.peers,
{
    let back = s.needed(who, Some(range)).block_data(who, blocks);
    assert(back.peers =~= s.peers);
}

/// The blocks on a fork that an available peer was asked for are handed to the import queue,
/// as sent by that peer.
pub proof fn law_fork_is_imported<H>(
    s: SyncView<H>,
    who: NodeIndex,
    hash: H,
    known_parent: bool,
    blocks: Seq<BlockData<H>>,
    order: Seq<NodeIndex>,
)
    requires
        s.peer_state(who) == Some(PeerSyncState::<H>::Available),
    ensures
        s.stale_actions(who, hash, known_parent) == seq![
            ActionView::<H>::SendMessage(who, s.stale_request(hash, known_parent)),
        ],
        ({
            let asked = s.stale(who, hash).block_data_actions(who, blocks, order);
            &&& asked.len() > 0
            &&& asked.last() matches ActionView::ImportBlocks(_, sent) && sent
                == crate::model::sent_by(who, blocks)
        }),
{
}

/// The block that a search for a common ancestor asked a new peer for is compared with ours at
/// the number that was asked for, which is not above our best queued block nor above the
/// peer's best block.
pub proof fn law_ancestor_is_compared_where_it_was_asked<H>(
    s: SyncView<H>,
    who: NodeIndex,
    met: Option<(PeerInfo<H>, ChainStatus)>,
    n: BlockNumber,
    blocks: Seq<BlockData<H>>,
    order: Seq<NodeIndex>,
)
    requires
        s.new_peer_actions(who, met) == seq![
            ActionView::<H>::SendMessage(who, crate::model::ancestry_request(n)),
        ],
        blocks.len() > 0,
    ensures
        s.new_peer(who, met).block_data_actions(who, blocks, order) == seq![
            ActionView::<H>::QueryBlockHash { who, number: n, theirs: blocks.first().hash },
        ],
        n <= s.best_queued_number,
        n <= s.new_peer(who, met).peers[who].best_number,
{
    let asked = s.new_peer_actions(who, met);
    let request: BlockRequest<H> = crate::model::ancestry_request(n);
    assert(asked[0] == ActionView::<H>::SendMessage(who, request));
    assert(request.from == FromBlock::<H>::Number(n));
}

/// A justification that a peer was asked for is passed on if it is that of the block asked
/// for; the justification of any other block has the peer reported.
pub proof fn law_justification_is_of_the_block_asked_for<H>(
    s: SyncView<H>,
    who: NodeIndex,
    hash: H,
    blocks: Seq<BlockData<H>>,
    order: Seq<NodeIndex>,
)
    requires
        s.peers.contains_key(who),
        blocks.len() > 0,
    ensures
        ({
            let t = s.extra_requested(who, ExtraKind::Justification, hash);
            let asked = t.justification_data_actions(who, blocks, order);
            let got = blocks.first().hash;
            &&& asked.len() > 0
            &&& asked[0] == if got == hash {
                ActionView::<H>::Extra(
                    ExtraAction::Response(
                        ExtraKind::Justification,
                        who,
                        blocks.first().justification,
                    ),
                )
            } else {
                ActionView::<H>::ReportPeer(
                    who,
                    Severity::Bad(Fault::WrongJustification { requested: hash, got }),
                )
            }
        }),
{
}

/// A finality proof that a peer was asked for is passed on if it is that of the block asked
/// for; the proof of any other block has the peer reported.
pub proof fn law_finality_proof_is_of_the_block_asked_for<H>(
    s: SyncView<H>,
    who: NodeIndex,
    hash: H,
    response: FinalityProofResponse<H>,
    order: Seq<NodeIndex>,
)
    requires
        s.peers.contains_key(who),
    ensures
        ({
            let t = s.extra_requested(who, ExtraKind::FinalityProof, hash);
            let asked = t.finality_proof_data_actions(who, response, order);
            &&& asked.len() > 0
            &&& asked[0] == if response.block == hash {
                ActionView::<H>::Extra(
                    ExtraAction::Response(ExtraKind::FinalityProof, who, response.proof),
                )
            } else {
                ActionView::<H>::ReportPeer(
                    who,
                    Severity::Bad(
                        Fault::WrongFinalityProof { requested: hash, got: response.block },
                    ),
                )
            }
        }),
{
}

} // verus!
