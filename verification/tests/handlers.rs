//! What each handler makes of the state, and what it asks for.
use chain_sync::context::{Action, Context, ExtraAction, ExtraKind, Fault, Severity};
use chain_sync::hash::BlockHash;
use chain_sync::message::{
    BlockAttributes, BlockData, BlockOrigin, BlockRequest, BlockResponse, BlockStatus, ChainInfo,
    ClientError, ClientInfo, Direction, DownloadedBlock, FinalityProofResponse, FromBlock, Header,
    IncomingBlock, PeerInfo, Roles,
};
use chain_sync::peer::PeerSyncState;
use chain_sync::status::{Status, SyncState};
use chain_sync::sync::ChainSync;

const GENESIS: u64 = 1000;

const FULL: Roles = Roles { full: true, authority: false };

fn client(best: u64) -> ClientInfo<u64> {
    ClientInfo {
        chain: ChainInfo { genesis_hash: GENESIS, best_hash: GENESIS + best, best_number: best },
        best_queued_hash: None,
        best_queued_number: None,
    }
}

fn start(best: u64) -> ChainSync<u64> {
    ChainSync::new(true, false, FULL, &client(best))
}

fn peer(number: u64) -> PeerInfo<u64> {
    PeerInfo { best_hash: GENESIS + number, best_number: number }
}

fn failure() -> ClientError {
    ClientError { text: String::from("database is closed") }
}

fn header(number: u64, hash: u64, parent_hash: u64) -> Header<u64> {
    Header { number, hash, parent_hash, encoded: vec![1, 2, 3] }
}

fn block(number: u64) -> BlockData<u64> {
    BlockData {
        hash: GENESIS + number,
        header: Some(header(number, GENESIS + number, GENESIS + number - 1)),
        body: Some(vec![vec![number as u8]]),
        justification: None,
    }
}

fn incoming(number: u64, origin: Option<usize>) -> IncomingBlock<u64> {
    let data = block(number);
    IncomingBlock {
        hash: data.hash,
        header: data.header,
        body: data.body,
        justification: data.justification,
        origin,
    }
}

fn all_attributes() -> BlockAttributes {
    BlockAttributes { header: true, body: true, justification: true }
}

fn request(direction: Direction) -> BlockRequest<u64> {
    BlockRequest {
        id: 0,
        fields: all_attributes(),
        from: FromBlock::Number(1),
        to: None,
        direction,
        max: Some(128),
    }
}

fn ancestry(number: u64) -> BlockRequest<u64> {
    BlockRequest {
        id: 0,
        fields: BlockAttributes { header: true, body: false, justification: true },
        from: FromBlock::Number(number),
        to: None,
        direction: Direction::Ascending,
        max: Some(1),
    }
}

fn response(blocks: Vec<BlockData<u64>>) -> BlockResponse<u64> {
    BlockResponse { id: 0, blocks }
}

/// Connects a peer whose best block is in the chain.
fn connect(sync: &mut ChainSync<u64>, who: usize, number: u64) {
    let mut protocol = Context::new();
    sync.new_peer(&mut protocol, who, Some((peer(number), Ok(BlockStatus::InChain))));
    assert_eq!(protocol.into_actions(), vec![]);
}

/// Puts blocks into the import queue.
fn queue(sync: &mut ChainSync<u64>, numbers: std::ops::Range<u64>) {
    let mut drained = Vec::new();
    for number in numbers {
        drained.push(DownloadedBlock { block: block(number), origin: None });
    }
    let mut protocol = Context::new();
    sync.on_drained_blocks(&mut protocol, drained);
}

fn state(sync: &ChainSync<u64>, who: usize) -> PeerSyncState<u64> {
    sync.peer(who).unwrap().state
}

#[test]
fn starts_at_the_best_block_of_the_chain() {
    let sync = start(10);
    assert_eq!(sync.best_queued_number(), 10);
    assert_eq!(sync.best_queued_hash(), GENESIS + 10);
    assert_eq!(sync.best_importing_number(), 0);
    assert_eq!(
        sync.status(),
        Status { state: SyncState::Idle, best_seen_block: None, num_peers: 0 }
    );
    assert!(sync.status().is_offline());
    assert!(!sync.status().is_major_syncing());
    assert!(sync.is_offline());
    assert!(!sync.is_major_syncing());
}

#[test]
fn starts_at_the_best_queued_block_if_there_is_one() {
    let mut info = client(10);
    info.best_queued_hash = Some(77);
    info.best_queued_number = Some(12);
    let sync = ChainSync::new(true, false, FULL, &info);
    assert_eq!(sync.best_queued_number(), 12);
    assert_eq!(sync.best_queued_hash(), 77);
}

/// A hash of 32 bytes.
#[derive(Clone, Copy, Debug, PartialEq, Eq, Hash)]
struct Wide([u8; 32]);

impl BlockHash for Wide {
    fn lawful() {}
}

#[test]
fn works_with_wider_hashes() {
    let best = Wide([7; 32]);
    let info = ClientInfo {
        chain: ChainInfo { genesis_hash: Wide([0; 32]), best_hash: best, best_number: 3 },
        best_queued_hash: None,
        best_queued_number: None,
    };
    let mut sync = ChainSync::new(true, false, FULL, &info);
    assert_eq!(sync.best_queued_hash(), best);
    let queued = BlockData { hash: Wide([8; 32]), header: None, body: None, justification: None };
    let mut protocol = Context::new();
    sync.on_drained_blocks(
        &mut protocol,
        vec![DownloadedBlock { block: queued, origin: None }],
    );
    assert!(sync.is_queued(&Wide([8; 32])));
    assert!(!sync.is_queued(&best));
}

#[test]
fn peer_without_info_is_not_entered() {
    let mut sync = start(0);
    let mut protocol = Context::new();
    sync.new_peer(&mut protocol, 1, None);
    assert!(sync.peer(1).is_none());
    assert_eq!(protocol.into_actions(), vec![]);
    assert!(sync.is_offline());
}

#[test]
fn peer_whose_block_cannot_be_looked_up_is_useless() {
    let mut sync = start(0);
    let mut protocol = Context::new();
    sync.new_peer(&mut protocol, 1, Some((peer(3), Err(failure()))));
    assert!(sync.peer(1).is_none());
    assert_eq!(
        protocol.into_actions(),
        vec![Action::ReportPeer(1, Severity::Useless(Fault::StatusUnreadable(failure())))]
    );
}

#[test]
fn peer_with_known_bad_block_is_bad() {
    let mut sync = start(0);
    let mut protocol = Context::new();
    sync.new_peer(&mut protocol, 1, Some((peer(3), Ok(BlockStatus::KnownBad))));
    assert!(sync.peer(1).is_none());
    assert_eq!(
        protocol.into_actions(),
        vec![Action::ReportPeer(
            1,
            Severity::Bad(Fault::KnownBadBlock { hash: GENESIS + 3, number: 3 })
        )]
    );
}

#[test]
fn peer_with_unknown_genesis_is_bad() {
    let mut sync = start(5);
    let mut protocol = Context::new();
    let info = PeerInfo { best_hash: 1u64, best_number: 0 };
    sync.new_peer(&mut protocol, 1, Some((info, Ok(BlockStatus::Unknown))));
    assert!(sync.peer(1).is_none());
    assert_eq!(
        protocol.into_actions(),
        vec![Action::ReportPeer(1, Severity::Bad(Fault::UnknownGenesis { hash: 1, number: 0 }))]
    );
}

#[test]
fn peer_with_known_block_is_available() {
    for status in [BlockStatus::Queued, BlockStatus::InChain] {
        let mut sync = start(5);
        let mut protocol = Context::new();
        sync.new_peer(&mut protocol, 1, Some((peer(4), Ok(status))));
        assert_eq!(protocol.into_actions(), vec![]);
        let entered = sync.peer(1).unwrap();
        assert_eq!(entered.common_number, 4);
        assert_eq!(entered.best_number, 4);
        assert_eq!(entered.best_hash, GENESIS + 4);
        assert_eq!(entered.state, PeerSyncState::Available);
        assert!(entered.recently_announced.is_empty());
        assert!(!sync.is_offline());
    }
}

#[test]
fn peer_with_block_in_the_queue_is_available_whatever_the_chain_says() {
    let mut sync = start(0);
    queue(&mut sync, 1..4);
    let mut protocol = Context::new();
    sync.new_peer(&mut protocol, 1, Some((peer(3), Err(failure()))));
    assert_eq!(protocol.into_actions(), vec![]);
    assert_eq!(sync.peer(1).unwrap().common_number, 3);
    assert_eq!(state(&sync, 1), PeerSyncState::Available);
}

#[test]
fn unknown_peer_at_genesis_starts_downloading() {
    let mut sync = start(0);
    let mut protocol = Context::new();
    sync.new_peer(&mut protocol, 7, Some((peer(300), Ok(BlockStatus::Unknown))));
    assert_eq!(
        protocol.into_actions(),
        vec![Action::NeededBlocks { who: 7, count: 128, peer_best: 300, common: 0 }]
    );
    assert_eq!(state(&sync, 7), PeerSyncState::Available);
    assert_eq!(sync.peer(7).unwrap().common_number, 0);
    assert!(sync.is_major_syncing());
    assert!(sync.status().is_major_syncing());
}

#[test]
fn unknown_peer_is_searched_for_a_common_ancestor() {
    for (ours, theirs, expected) in [(10, 7, 7), (7, 10, 7), (8, 8, 8)] {
        let mut sync = start(ours);
        let mut protocol = Context::new();
        sync.new_peer(&mut protocol, 1, Some((peer(theirs), Ok(BlockStatus::Unknown))));
        assert_eq!(
            protocol.into_actions(),
            vec![Action::SendMessage(1, ancestry(expected))]
        );
        assert_eq!(state(&sync, 1), PeerSyncState::AncestorSearch(expected));
        assert_eq!(sync.peer(1).unwrap().common_number, 0);
    }
}

#[test]
fn unknown_peer_is_taken_as_common_while_many_blocks_are_queued() {
    let mut sync = start(0);
    queue(&mut sync, 1..7);
    let mut protocol = Context::new();
    sync.new_peer(&mut protocol, 1, Some((peer(50), Ok(BlockStatus::Unknown))));
    assert_eq!(protocol.into_actions(), vec![]);
    assert_eq!(state(&sync, 1), PeerSyncState::Available);
    assert_eq!(sync.peer(1).unwrap().common_number, 6);
}

#[test]
fn unknown_peer_is_searched_while_five_blocks_are_queued() {
    let mut sync = start(0);
    queue(&mut sync, 1..6);
    let mut protocol = Context::new();
    sync.new_peer(&mut protocol, 1, Some((peer(50), Ok(BlockStatus::Unknown))));
    assert_eq!(protocol.into_actions(), vec![Action::SendMessage(1, ancestry(5))]);
}

#[test]
fn needed_range_is_requested() {
    let mut sync = start(0);
    connect(&mut sync, 2, 500);
    let mut protocol = Context::new();
    sync.on_needed_blocks(&mut protocol, 2, Some(1..129));
    let mut expected = request(Direction::Ascending);
    expected.from = FromBlock::Number(1);
    expected.max = Some(128);
    assert_eq!(protocol.into_actions(), vec![Action::SendMessage(2, expected)]);
    assert_eq!(state(&sync, 2), PeerSyncState::DownloadingNew(1));
}

#[test]
fn nothing_needed_means_nothing_requested() {
    let mut sync = start(0);
    connect(&mut sync, 2, 500);
    let mut protocol = Context::new();
    sync.on_needed_blocks(&mut protocol, 2, None);
    sync.on_needed_blocks(&mut protocol, 3, Some(1..2));
    assert_eq!(protocol.into_actions(), vec![]);
    assert_eq!(state(&sync, 2), PeerSyncState::Available);
}

#[test]
fn light_node_asks_for_no_bodies() {
    let light = Roles { full: false, authority: false };
    let mut sync = ChainSync::new(true, false, light, &client(0));
    connect(&mut sync, 2, 500);
    let mut protocol = Context::new();
    sync.on_needed_blocks(&mut protocol, 2, Some(10..12));
    match &protocol.into_actions()[..] {
        [Action::SendMessage(2, sent)] => {
            assert_eq!(
                sent.fields,
                BlockAttributes { header: true, body: false, justification: true }
            );
            assert_eq!(sent.max, Some(2));
        }
        other => panic!("{:?}", other),
    }
}

#[test]
fn authority_asks_for_bodies() {
    let authority = Roles { full: false, authority: true };
    let mut sync = ChainSync::new(true, false, authority, &client(0));
    connect(&mut sync, 2, 500);
    let mut protocol = Context::new();
    sync.on_needed_blocks(&mut protocol, 2, Some(10..12));
    match &protocol.into_actions()[..] {
        [Action::SendMessage(2, sent)] => assert_eq!(sent.fields, all_attributes()),
        other => panic!("{:?}", other),
    }
}

#[test]
fn new_blocks_go_through_the_block_collection() {
    let mut sync = start(0);
    connect(&mut sync, 2, 500);
    let mut protocol = Context::new();
    sync.on_needed_blocks(&mut protocol, 2, Some(1..3));
    let mut protocol = Context::new();
    sync.on_block_data(
        &mut protocol,
        2,
        request(Direction::Ascending),
        response(vec![block(1), block(2)]),
    );
    assert_eq!(
        protocol.into_actions(),
        vec![
            Action::ClearPeerDownload(2),
            Action::InsertBlocks { start: 1, blocks: vec![block(1), block(2)], who: 2 },
            Action::DrainBlocks { from: 1 },
        ]
    );
    assert_eq!(state(&sync, 2), PeerSyncState::Available);
}

#[test]
fn blocks_in_descending_order_are_turned_round() {
    let mut sync = start(0);
    connect(&mut sync, 2, 500);
    let mut protocol = Context::new();
    sync.on_needed_blocks(&mut protocol, 2, Some(1..4));
    let mut protocol = Context::new();
    sync.on_block_data(
        &mut protocol,
        2,
        request(Direction::Descending),
        response(vec![block(3), block(2), block(1)]),
    );
    assert_eq!(
        protocol.into_actions()[1],
        Action::InsertBlocks { start: 1, blocks: vec![block(1), block(2), block(3)], who: 2 }
    );
}

#[test]
fn drained_blocks_are_imported() {
    let mut sync = start(0);
    connect(&mut sync, 2, 500);
    let mut protocol = Context::new();
    sync.on_drained_blocks(
        &mut protocol,
        vec![
            DownloadedBlock { block: block(1), origin: Some(2) },
            DownloadedBlock { block: block(2), origin: None },
        ],
    );
    assert_eq!(
        protocol.into_actions(),
        vec![
            Action::NeededBlocks { who: 2, count: 128, peer_best: 500, common: 2 },
            Action::Extra(ExtraAction::DispatchAll),
            Action::ImportBlocks(
                BlockOrigin::NetworkInitialSync,
                vec![incoming(1, Some(2)), incoming(2, None)]
            ),
        ]
    );
    assert_eq!(sync.best_queued_number(), 2);
    assert_eq!(sync.best_queued_hash(), GENESIS + 2);
    assert_eq!(sync.best_importing_number(), 2);
    assert!(sync.is_queued(&(GENESIS + 1)));
    assert!(sync.is_queued(&(GENESIS + 2)));
    assert_eq!(sync.peer(2).unwrap().common_number, 2);
}

#[test]
fn last_block_without_header_moves_nothing() {
    let mut sync = start(4);
    let mut bare = block(5);
    bare.header = None;
    let mut protocol = Context::new();
    sync.on_drained_blocks(
        &mut protocol,
        vec![DownloadedBlock { block: bare, origin: None }],
    );
    assert_eq!(sync.best_queued_number(), 4);
    assert_eq!(sync.best_importing_number(), 0);
    assert!(sync.is_queued(&(GENESIS + 5)));
}

#[test]
fn no_drained_block_is_still_an_import() {
    let mut sync = start(4);
    let mut protocol = Context::new();
    sync.on_drained_blocks(&mut protocol, vec![]);
    assert_eq!(
        protocol.into_actions(),
        vec![
            Action::Extra(ExtraAction::DispatchAll),
            Action::ImportBlocks(BlockOrigin::NetworkInitialSync, vec![]),
        ]
    );
}

#[test]
fn blocks_from_an_available_peer_are_dropped() {
    let mut sync = start(4);
    connect(&mut sync, 2, 9);
    let mut protocol = Context::new();
    sync.on_block_data(
        &mut protocol,
        2,
        request(Direction::Ascending),
        response(vec![block(5)]),
    );
    assert_eq!(
        protocol.into_actions(),
        vec![
            Action::NeededBlocks { who: 2, count: 128, peer_best: 9, common: 9 },
            Action::Extra(ExtraAction::DispatchAll),
            Action::ImportBlocks(BlockOrigin::NetworkInitialSync, vec![]),
        ]
    );
    assert!(!sync.is_queued(&(GENESIS + 5)));
}

#[test]
fn ancestor_search_compares_the_first_block() {
    let mut sync = start(10);
    let mut protocol = Context::new();
    sync.new_peer(&mut protocol, 1, Some((peer(7), Ok(BlockStatus::Unknown))));
    let mut protocol = Context::new();
    sync.on_block_data(
        &mut protocol,
        1,
        request(Direction::Ascending),
        response(vec![block(7)]),
    );
    assert_eq!(
        protocol.into_actions(),
        vec![Action::QueryBlockHash { who: 1, number: 7, theirs: GENESIS + 7 }]
    );
    assert_eq!(state(&sync, 1), PeerSyncState::AncestorSearch(7));
}

#[test]
fn ancestor_search_needs_a_block() {
    let mut sync = start(10);
    let mut protocol = Context::new();
    sync.new_peer(&mut protocol, 1, Some((peer(7), Ok(BlockStatus::Unknown))));
    let mut protocol = Context::new();
    sync.on_block_data(&mut protocol, 1, request(Direction::Ascending), response(vec![]));
    assert_eq!(
        protocol.into_actions(),
        vec![Action::ReportPeer(1, Severity::Bad(Fault::NoAncestryBlock))]
    );
    assert_eq!(state(&sync, 1), PeerSyncState::AncestorSearch(7));
}

#[test]
fn ancestor_search_ends_where_hashes_agree() {
    let mut sync = start(10);
    let mut protocol = Context::new();
    sync.new_peer(&mut protocol, 1, Some((peer(7), Ok(BlockStatus::Unknown))));
    let mut protocol = Context::new();
    sync.on_ancestor_hash(&mut protocol, 1, GENESIS + 7, Ok(Some(GENESIS + 7)));
    assert_eq!(state(&sync, 1), PeerSyncState::Available);
    assert_eq!(sync.peer(1).unwrap().common_number, 7);
    assert_eq!(
        protocol.into_actions(),
        vec![
            Action::NeededBlocks { who: 1, count: 128, peer_best: 7, common: 7 },
            Action::Extra(ExtraAction::DispatchAll),
            Action::ImportBlocks(BlockOrigin::NetworkInitialSync, vec![]),
        ]
    );
}

#[test]
fn ancestor_search_goes_back_where_hashes_differ() {
    for ours in [None, Some(1)] {
        let mut sync = start(10);
        let mut protocol = Context::new();
        sync.new_peer(&mut protocol, 1, Some((peer(7), Ok(BlockStatus::Unknown))));
        let mut protocol = Context::new();
        sync.on_ancestor_hash(&mut protocol, 1, GENESIS + 7, Ok(ours));
        assert_eq!(state(&sync, 1), PeerSyncState::AncestorSearch(6));
        assert_eq!(protocol.into_actions(), vec![Action::SendMessage(1, ancestry(6))]);
    }
}

#[test]
fn ancestor_search_reports_a_genesis_mismatch() {
    let mut sync = start(10);
    let mut protocol = Context::new();
    sync.new_peer(&mut protocol, 1, Some((peer(1), Ok(BlockStatus::Unknown))));
    sync.on_ancestor_hash(&mut protocol, 1, 5, Ok(Some(6)));
    assert_eq!(state(&sync, 1), PeerSyncState::AncestorSearch(0));
    let mut protocol = Context::new();
    sync.on_ancestor_hash(&mut protocol, 1, 5, Ok(Some(6)));
    assert_eq!(
        protocol.into_actions(),
        vec![Action::ReportPeer(1, Severity::Bad(Fault::GenesisMismatch))]
    );
}

#[test]
fn ancestor_search_reports_an_unreadable_chain() {
    let mut sync = start(10);
    let mut protocol = Context::new();
    sync.new_peer(&mut protocol, 1, Some((peer(7), Ok(BlockStatus::Unknown))));
    let mut protocol = Context::new();
    sync.on_ancestor_hash(&mut protocol, 1, GENESIS + 7, Err(failure()));
    assert_eq!(
        protocol.into_actions(),
        vec![Action::ReportPeer(1, Severity::Useless(Fault::AncestryUnreadable(failure())))]
    );
}

#[test]
fn announced_block_with_known_parent_is_one_block_ahead() {
    let mut sync = start(10);
    connect(&mut sync, 1, 10);
    let mut protocol = Context::new();
    sync.on_block_announce(
        &mut protocol,
        1,
        GENESIS + 11,
        &header(11, GENESIS + 11, GENESIS + 10),
        Ok(BlockStatus::Unknown),
        Ok(BlockStatus::Unknown),
    );
    // the parent is our best queued block
    assert_eq!(
        protocol.into_actions(),
        vec![Action::NeededBlocks { who: 1, count: 128, peer_best: 11, common: 10 }]
    );
    let announcer = sync.peer(1).unwrap();
    assert_eq!(announcer.best_number, 11);
    assert_eq!(announcer.best_hash, GENESIS + 11);
    assert_eq!(announcer.recently_announced, vec![GENESIS + 11]);
}

#[test]
fn announced_genesis_is_ignored() {
    let mut sync = start(10);
    connect(&mut sync, 1, 10);
    let mut protocol = Context::new();
    sync.on_block_announce(
        &mut protocol,
        1,
        3,
        &header(0, 3, 3),
        Ok(BlockStatus::Unknown),
        Ok(BlockStatus::Unknown),
    );
    assert_eq!(protocol.into_actions(), vec![]);
    assert!(sync.peer(1).unwrap().recently_announced.is_empty());
}

#[test]
fn announced_known_block_is_common() {
    let mut sync = start(10);
    connect(&mut sync, 1, 3);
    let mut protocol = Context::new();
    sync.on_block_announce(
        &mut protocol,
        1,
        50,
        &header(6, 50, 51),
        Err(failure()),
        Ok(BlockStatus::InChain),
    );
    assert_eq!(protocol.into_actions(), vec![]);
    assert_eq!(sync.peer(1).unwrap().common_number, 6);
    assert_eq!(sync.peer(1).unwrap().best_number, 6);
}

#[test]
fn announced_fork_with_known_parent_is_requested_alone() {
    let mut sync = start(10);
    connect(&mut sync, 1, 10);
    let mut protocol = Context::new();
    sync.on_block_announce(
        &mut protocol,
        1,
        50,
        &header(6, 50, 51),
        Ok(BlockStatus::InChain),
        Ok(BlockStatus::Unknown),
    );
    assert_eq!(
        protocol.into_actions(),
        vec![Action::SendMessage(
            1,
            BlockRequest {
                id: 0,
                fields: all_attributes(),
                from: FromBlock::Hash(50),
                to: None,
                direction: Direction::Ascending,
                max: Some(1),
            }
        )]
    );
    assert_eq!(state(&sync, 1), PeerSyncState::DownloadingStale(50));
    assert_eq!(sync.peer(1).unwrap().common_number, 5);
}

#[test]
fn announced_fork_with_unknown_parent_is_requested_with_ancestors() {
    let mut sync = start(10);
    connect(&mut sync, 1, 10);
    let mut protocol = Context::new();
    sync.on_block_announce(
        &mut protocol,
        1,
        50,
        &header(6, 50, 51),
        Ok(BlockStatus::Unknown),
        Ok(BlockStatus::Unknown),
    );
    assert_eq!(
        protocol.into_actions(),
        vec![Action::SendMessage(
            1,
            BlockRequest {
                id: 0,
                fields: all_attributes(),
                from: FromBlock::Hash(50),
                to: None,
                direction: Direction::Descending,
                max: Some(32),
            }
        )]
    );
    assert_eq!(state(&sync, 1), PeerSyncState::DownloadingStale(50));
    assert_eq!(sync.peer(1).unwrap().common_number, 10);
}

#[test]
fn fork_whose_parent_is_on_its_way_is_requested_alone() {
    let mut sync = start(10);
    connect(&mut sync, 1, 10);
    connect(&mut sync, 2, 10);
    let mut protocol = Context::new();
    sync.on_block_announce(
        &mut protocol,
        1,
        51,
        &header(5, 51, 52),
        Ok(BlockStatus::Unknown),
        Ok(BlockStatus::Unknown),
    );
    let mut protocol = Context::new();
    sync.on_block_announce(
        &mut protocol,
        2,
        50,
        &header(6, 50, 51),
        Ok(BlockStatus::Unknown),
        Ok(BlockStatus::Unknown),
    );
    match &protocol.into_actions()[..] {
        [Action::SendMessage(2, sent)] => assert_eq!(sent.max, Some(1)),
        other => panic!("{:?}", other),
    }
}

#[test]
fn announcement_during_ancestor_search_is_only_remembered() {
    let mut sync = start(10);
    let mut protocol = Context::new();
    sync.new_peer(&mut protocol, 1, Some((peer(7), Ok(BlockStatus::Unknown))));
    let mut protocol = Context::new();
    sync.on_block_announce(
        &mut protocol,
        1,
        GENESIS + 11,
        &header(11, GENESIS + 11, GENESIS + 10),
        Ok(BlockStatus::InChain),
        Ok(BlockStatus::Unknown),
    );
    assert_eq!(protocol.into_actions(), vec![]);
    let announcer = sync.peer(1).unwrap();
    assert_eq!(announcer.state, PeerSyncState::AncestorSearch(7));
    assert_eq!(announcer.common_number, 0);
    assert_eq!(announcer.best_number, 11);
    assert_eq!(announcer.recently_announced, vec![GENESIS + 11]);
}

#[test]
fn announcement_does_not_disturb_a_busy_peer() {
    let mut sync = start(10);
    connect(&mut sync, 1, 10);
    let mut protocol = Context::new();
    sync.on_needed_blocks(&mut protocol, 1, Some(11..12));
    let mut protocol = Context::new();
    sync.on_block_announce(
        &mut protocol,
        1,
        50,
        &header(6, 50, 51),
        Ok(BlockStatus::Unknown),
        Ok(BlockStatus::Unknown),
    );
    assert_eq!(protocol.into_actions(), vec![]);
    assert_eq!(state(&sync, 1), PeerSyncState::DownloadingNew(11));
}

#[test]
fn fork_blocks_are_imported() {
    let mut sync = start(10);
    connect(&mut sync, 1, 10);
    let mut protocol = Context::new();
    sync.on_block_announce(
        &mut protocol,
        1,
        GENESIS + 6,
        &header(6, GENESIS + 6, 51),
        Ok(BlockStatus::Unknown),
        Ok(BlockStatus::Unknown),
    );
    let mut protocol = Context::new();
    sync.on_block_data(
        &mut protocol,
        1,
        request(Direction::Descending),
        response(vec![block(6), block(5)]),
    );
    assert_eq!(
        protocol.into_actions(),
        vec![
            Action::NeededBlocks { who: 1, count: 128, peer_best: 10, common: 6 },
            Action::Extra(ExtraAction::DispatchAll),
            Action::ImportBlocks(
                BlockOrigin::NetworkInitialSync,
                vec![incoming(5, Some(1)), incoming(6, Some(1))]
            ),
        ]
    );
    assert_eq!(sync.best_queued_number(), 10);
    assert_eq!(sync.best_importing_number(), 6);
    assert_eq!(state(&sync, 1), PeerSyncState::Available);
}

#[test]
fn right_justification_is_passed_on() {
    let mut sync = start(10);
    connect(&mut sync, 1, 10);
    sync.on_extra_request(1, ExtraKind::Justification, GENESIS + 5);
    assert_eq!(state(&sync, 1), PeerSyncState::DownloadingJustification(GENESIS + 5));
    let mut data = block(5);
    data.justification = Some(vec![9, 9]);
    let mut protocol = Context::new();
    sync.on_block_justification_data(
        &mut protocol,
        1,
        request(Direction::Ascending),
        response(vec![data, block(6)]),
    );
    assert_eq!(
        protocol.into_actions(),
        vec![
            Action::Extra(ExtraAction::Response(ExtraKind::Justification, 1, Some(vec![9, 9]))),
            Action::NeededBlocks { who: 1, count: 128, peer_best: 10, common: 10 },
            Action::Extra(ExtraAction::DispatchAll),
        ]
    );
    assert_eq!(state(&sync, 1), PeerSyncState::Available);
}

#[test]
fn wrong_justification_is_reported() {
    let mut sync = start(10);
    connect(&mut sync, 1, 10);
    sync.on_extra_request(1, ExtraKind::Justification, GENESIS + 5);
    let mut protocol = Context::new();
    sync.on_block_justification_data(
        &mut protocol,
        1,
        request(Direction::Ascending),
        response(vec![block(6)]),
    );
    assert_eq!(
        protocol.into_actions(),
        vec![Action::ReportPeer(
            1,
            Severity::Bad(Fault::WrongJustification { requested: GENESIS + 5, got: GENESIS + 6 })
        )]
    );
    assert_eq!(state(&sync, 1), PeerSyncState::Available);
}

#[test]
fn empty_justification_response_only_frees_the_peer() {
    let mut sync = start(10);
    connect(&mut sync, 1, 10);
    sync.on_extra_request(1, ExtraKind::Justification, GENESIS + 5);
    let mut protocol = Context::new();
    sync.on_block_justification_data(
        &mut protocol,
        1,
        request(Direction::Ascending),
        response(vec![]),
    );
    assert_eq!(protocol.into_actions(), vec![]);
    assert_eq!(state(&sync, 1), PeerSyncState::Available);
}

#[test]
fn unexpected_justification_keeps_the_sync_going() {
    let mut sync = start(10);
    let mut protocol = Context::new();
    sync.on_block_justification_data(
        &mut protocol,
        1,
        request(Direction::Ascending),
        response(vec![block(5)]),
    );
    assert_eq!(protocol.into_actions(), vec![Action::Extra(ExtraAction::DispatchAll)]);
}

#[test]
fn right_finality_proof_is_passed_on() {
    let mut sync = start(10);
    connect(&mut sync, 1, 10);
    sync.on_extra_request(1, ExtraKind::FinalityProof, 70);
    assert_eq!(state(&sync, 1), PeerSyncState::DownloadingFinalityProof(70));
    let mut protocol = Context::new();
    sync.on_block_finality_proof_data(
        &mut protocol,
        1,
        FinalityProofResponse { id: 0, block: 70, proof: Some(vec![4]) },
    );
    assert_eq!(
        protocol.into_actions(),
        vec![
            Action::Extra(ExtraAction::Response(ExtraKind::FinalityProof, 1, Some(vec![4]))),
            Action::NeededBlocks { who: 1, count: 128, peer_best: 10, common: 10 },
            Action::Extra(ExtraAction::DispatchAll),
        ]
    );
    assert_eq!(state(&sync, 1), PeerSyncState::Available);
}

#[test]
fn wrong_finality_proof_is_reported() {
    let mut sync = start(10);
    connect(&mut sync, 1, 10);
    sync.on_extra_request(1, ExtraKind::FinalityProof, 70);
    let mut protocol = Context::new();
    sync.on_block_finality_proof_data(
        &mut protocol,
        1,
        FinalityProofResponse { id: 0, block: 71, proof: None },
    );
    assert_eq!(
        protocol.into_actions(),
        vec![Action::ReportPeer(
            1,
            Severity::Bad(Fault::WrongFinalityProof { requested: 70, got: 71 })
        )]
    );
    assert_eq!(state(&sync, 1), PeerSyncState::Available);
}

#[test]
fn failed_import_resets_the_best_importing_number() {
    let mut sync = start(0);
    queue(&mut sync, 1..4);
    assert_eq!(sync.best_importing_number(), 3);
    sync.blocks_processed(vec![GENESIS + 1], false);
    assert_eq!(sync.best_importing_number(), 3);
    assert!(!sync.is_queued(&(GENESIS + 1)));
    assert!(sync.is_queued(&(GENESIS + 2)));
    sync.blocks_processed(vec![GENESIS + 2, 5], true);
    assert_eq!(sync.best_importing_number(), 0);
    assert!(!sync.is_queued(&(GENESIS + 2)));
    assert!(sync.is_queued(&(GENESIS + 3)));
}

#[test]
fn queued_block_moves_common_blocks() {
    let mut sync = start(10);
    connect(&mut sync, 1, 5);
    connect(&mut sync, 2, 30);
    let mut protocol = Context::new();
    sync.new_peer(&mut protocol, 3, Some((peer(8), Ok(BlockStatus::Unknown))));
    sync.update_chain_info(&header(20, 77, 76));
    assert_eq!(sync.best_queued_number(), 20);
    assert_eq!(sync.best_queued_hash(), 77);
    assert_eq!(sync.peer(1).unwrap().common_number, 5);
    assert_eq!(sync.peer(2).unwrap().common_number, 20);
    assert_eq!(sync.peer(3).unwrap().common_number, 8);
    assert_eq!(state(&sync, 3), PeerSyncState::Available);
}

#[test]
fn lower_queued_block_keeps_the_best_one() {
    let mut sync = start(10);
    connect(&mut sync, 1, 30);
    sync.update_chain_info(&header(10, 77, 76));
    assert_eq!(sync.best_queued_hash(), GENESIS + 10);
    assert_eq!(sync.peer(1).unwrap().common_number, 10);
    sync.update_chain_info(&header(4, 78, 76));
    assert_eq!(sync.best_queued_number(), 10);
    assert_eq!(sync.peer(1).unwrap().common_number, 4);
}

#[test]
fn catching_up_starts_more_than_five_blocks_behind() {
    let mut sync = start(10);
    connect(&mut sync, 1, 15);
    assert_eq!(sync.status().state, SyncState::Idle);
    assert!(!sync.is_major_syncing());
    connect(&mut sync, 2, 16);
    assert_eq!(sync.status().state, SyncState::Downloading);
    assert_eq!(sync.status().best_seen_block, Some(16));
    assert_eq!(sync.status().num_peers, 2);
    assert!(sync.is_major_syncing());
    sync.update_chain_info(&header(11, 77, 76));
    assert_eq!(sync.status().state, SyncState::Idle);
    assert!(!sync.is_major_syncing());
}

#[test]
fn last_peer_to_leave_takes_us_offline() {
    let mut sync = start(0);
    connect(&mut sync, 1, 100);
    connect(&mut sync, 2, 3);
    assert!(sync.is_major_syncing());
    let mut protocol = Context::new();
    sync.peer_disconnected(&mut protocol, 1);
    assert_eq!(
        protocol.into_actions(),
        vec![
            Action::ClearPeerDownload(1),
            Action::Extra(ExtraAction::PeerDisconnected(1)),
            Action::NeededBlocks { who: 2, count: 128, peer_best: 3, common: 3 },
            Action::Extra(ExtraAction::DispatchAll),
        ]
    );
    assert!(!sync.is_offline());
    assert!(!sync.is_major_syncing());
    let mut protocol = Context::new();
    sync.peer_disconnected(&mut protocol, 2);
    assert!(sync.is_offline());
    assert!(sync.peer_ids().is_empty());
}

#[test]
fn restart_forgets_and_reconsiders() {
    let mut sync = start(0);
    connect(&mut sync, 1, 100);
    connect(&mut sync, 2, 3);
    queue(&mut sync, 1..4);
    let mut info = client(2);
    info.best_queued_number = Some(9);
    let mut protocol = Context::new();
    sync.restart(&mut protocol, Ok(info));
    let mut actions = protocol.into_actions();
    assert_eq!(actions.remove(0), Action::ClearBlocks);
    assert_eq!(actions.len(), 2);
    assert!(actions.contains(&Action::Reconsider(1)));
    assert!(actions.contains(&Action::Reconsider(2)));
    assert!(sync.peer_ids().is_empty());
    assert_eq!(sync.best_queued_number(), 9);
    assert_eq!(sync.best_queued_hash(), GENESIS + 2);
    assert_eq!(sync.best_importing_number(), 0);
    assert!(!sync.is_queued(&(GENESIS + 1)));
    assert!(!sync.is_offline());
}

#[test]
fn restart_without_the_client_goes_back_to_genesis() {
    let mut sync = start(10);
    let mut protocol = Context::new();
    sync.restart(&mut protocol, Err(failure()));
    assert_eq!(protocol.into_actions(), vec![Action::ClearBlocks]);
    assert_eq!(sync.best_queued_number(), 0);
    assert_eq!(sync.best_queued_hash(), GENESIS);
}

#[test]
fn clear_forgets_the_peers() {
    let mut sync = start(10);
    connect(&mut sync, 1, 10);
    let mut protocol = Context::new();
    sync.clear(&mut protocol);
    assert_eq!(protocol.into_actions(), vec![Action::ClearBlocks]);
    assert!(sync.peer(1).is_none());
    assert_eq!(sync.best_queued_number(), 10);
}

#[test]
fn busy_peers_are_not_asked_again() {
    let mut sync = start(10);
    connect(&mut sync, 1, 20);
    connect(&mut sync, 2, 30);
    let mut protocol = Context::new();
    sync.on_needed_blocks(&mut protocol, 1, Some(11..21));
    let mut protocol = Context::new();
    sync.maintain_sync(&mut protocol);
    assert_eq!(
        protocol.into_actions(),
        vec![
            Action::NeededBlocks { who: 2, count: 128, peer_best: 30, common: 30 },
            Action::Extra(ExtraAction::DispatchAll),
        ]
    );
}

#[test]
fn extra_requests_are_passed_on() {
    let mut sync = start(10);
    let mut protocol = Context::new();
    sync.tick(&mut protocol);
    sync.request_justification(&5, 3, &mut protocol);
    sync.clear_justification_requests(&mut protocol);
    sync.justification_import_result(5, 3, true, &mut protocol);
    sync.request_finality_proof(&6, 4, &mut protocol);
    sync.clear_finality_proof_requests(&mut protocol);
    sync.finality_proof_import_result(6, 4, false, &mut protocol);
    sync.on_block_finalized(&7, 5, &mut protocol);
    sync.block_imported(&7, 5);
    assert_eq!(
        protocol.into_actions(),
        vec![
            Action::Extra(ExtraAction::DispatchAll),
            Action::Extra(ExtraAction::Queue(ExtraKind::Justification, 5, 3)),
            Action::Extra(ExtraAction::Dispatch(ExtraKind::Justification)),
            Action::Extra(ExtraAction::Clear(ExtraKind::Justification)),
            Action::Extra(ExtraAction::ImportResult(ExtraKind::Justification, 5, 3, true)),
            Action::Extra(ExtraAction::Queue(ExtraKind::FinalityProof, 6, 4)),
            Action::Extra(ExtraAction::Dispatch(ExtraKind::FinalityProof)),
            Action::Extra(ExtraAction::Clear(ExtraKind::FinalityProof)),
            Action::Extra(ExtraAction::ImportResult(ExtraKind::Justification, 6, 4, false)),
            Action::Extra(ExtraAction::BlockFinalized(7, 5)),
        ]
    );
}
