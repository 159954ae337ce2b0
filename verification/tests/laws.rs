//! The laws of the sync strategy on concrete values.
use chain_sync::context::{Action, Context, ExtraAction, ExtraKind, Fault, Severity};
use chain_sync::message::{
    BlockAttributes, BlockData, BlockOrigin, BlockRequest, BlockResponse, BlockStatus, ChainInfo,
    ClientInfo, Direction, DownloadedBlock, FromBlock, Header, PeerInfo, Roles,
};
use chain_sync::peer::{PeerSyncState, ANNOUNCE_HISTORY_SIZE};
use chain_sync::sync::ChainSync;

const FULL: Roles = Roles { full: true, authority: false };

fn client(best: u64) -> ClientInfo<u64> {
    ClientInfo {
        chain: ChainInfo { genesis_hash: 0, best_hash: best, best_number: best },
        best_queued_hash: None,
        best_queued_number: None,
    }
}

fn start(best: u64) -> ChainSync<u64> {
    ChainSync::new(true, false, FULL, &client(best))
}

fn connect(sync: &mut ChainSync<u64>, who: usize, number: u64) {
    let mut protocol = Context::new();
    let info = PeerInfo { best_hash: number, best_number: number };
    sync.new_peer(&mut protocol, who, Some((info, Ok(BlockStatus::InChain))));
}

fn announce(sync: &mut ChainSync<u64>, who: usize, number: u64) -> Vec<Action<u64>> {
    let mut protocol = Context::new();
    let header = Header { number, hash: number, parent_hash: number - 1, encoded: vec![] };
    sync.on_block_announce(
        &mut protocol,
        who,
        number,
        &header,
        Ok(BlockStatus::Unknown),
        Ok(BlockStatus::Unknown),
    );
    protocol.into_actions()
}

fn block(number: u64) -> BlockData<u64> {
    BlockData {
        hash: number,
        header: Some(Header { number, hash: number, parent_hash: number - 1, encoded: vec![] }),
        body: None,
        justification: None,
    }
}

fn drained(sync: &mut ChainSync<u64>, numbers: std::ops::RangeInclusive<u64>) -> Vec<Action<u64>> {
    let mut blocks = Vec::new();
    for number in numbers {
        blocks.push(DownloadedBlock { block: block(number), origin: None });
    }
    let mut protocol = Context::new();
    sync.on_drained_blocks(&mut protocol, blocks);
    protocol.into_actions()
}

fn request() -> BlockRequest<u64> {
    BlockRequest {
        id: 0,
        fields: BlockAttributes { header: true, body: true, justification: true },
        from: FromBlock::Number(1),
        to: None,
        direction: Direction::Ascending,
        max: Some(1),
    }
}

#[test]
fn history_of_announcements_is_bounded() {
    let mut sync = start(0);
    connect(&mut sync, 1, 0);
    for number in 1..100 {
        announce(&mut sync, 1, number);
    }
    let history = &sync.peer(1).unwrap().recently_announced;
    assert_eq!(history.len(), ANNOUNCE_HISTORY_SIZE);
    assert_eq!(history.front(), Some(&36));
    assert_eq!(history.back(), Some(&99));
}

#[test]
fn offline_flag_is_up_only_without_peers() {
    let mut sync = start(0);
    assert!(sync.is_offline());
    connect(&mut sync, 1, 5);
    assert!(!sync.is_offline());
    connect(&mut sync, 1, 6);
    assert!(!sync.is_offline());
    let mut protocol = Context::new();
    sync.peer_disconnected(&mut protocol, 1);
    assert!(sync.is_offline());
}

#[test]
fn best_queued_number_does_not_fall() {
    let mut sync = start(50);
    drained(&mut sync, 3..=9);
    assert_eq!(sync.best_queued_number(), 50);
    assert_eq!(sync.best_queued_hash(), 50);
    drained(&mut sync, 51..=52);
    assert_eq!(sync.best_queued_number(), 52);
    assert_eq!(sync.best_queued_hash(), 52);
}

#[test]
fn best_importing_number_does_not_fall() {
    let mut sync = start(0);
    drained(&mut sync, 5..=9);
    drained(&mut sync, 3..=4);
    assert_eq!(sync.best_importing_number(), 9);
}

#[test]
fn stopped_sync_is_not_kept_going() {
    let mut sync = start(0);
    connect(&mut sync, 1, 5);
    let mut protocol = Context::new();
    sync.stop(&mut protocol);
    assert_eq!(protocol.into_actions(), vec![Action::StopImport]);
    let mut protocol = Context::new();
    sync.maintain_sync(&mut protocol);
    assert_eq!(protocol.into_actions(), vec![]);
    assert_eq!(
        drained(&mut sync, 1..=1).len(),
        1,
        "only the import is asked for"
    );
}

#[test]
fn long_queue_stops_downloads() {
    let mut sync = start(0);
    connect(&mut sync, 1, 9999);
    drained(&mut sync, 1..=2048);
    let mut protocol = Context::new();
    sync.maintain_sync(&mut protocol);
    assert_eq!(protocol.into_actions().len(), 2);
    drained(&mut sync, 2049..=2049);
    let mut protocol = Context::new();
    sync.maintain_sync(&mut protocol);
    assert_eq!(protocol.into_actions(), vec![Action::Extra(ExtraAction::DispatchAll)]);
    assert_eq!(announce(&mut sync, 1, 10000), vec![]);
}

#[test]
fn queue_is_measured_before_new_blocks_join_it() {
    let mut sync = start(0);
    connect(&mut sync, 1, 9999);
    drained(&mut sync, 1..=2048);
    let actions = drained(&mut sync, 2049..=2050);
    assert_eq!(actions.len(), 3);
    assert_eq!(
        actions[0],
        Action::NeededBlocks { who: 1, count: 128, peer_best: 9999, common: 2050 }
    );
}

#[test]
fn peer_gets_one_request_at_a_time() {
    let mut sync = start(10);
    connect(&mut sync, 1, 10);
    let mut protocol = Context::new();
    sync.on_needed_blocks(&mut protocol, 1, Some(11..12));
    assert_eq!(protocol.into_actions().len(), 1);
    let mut protocol = Context::new();
    sync.on_needed_blocks(&mut protocol, 1, Some(12..13));
    assert_eq!(protocol.into_actions(), vec![]);
    assert_eq!(sync.peer(1).unwrap().state, PeerSyncState::DownloadingNew(11));
}

#[test]
fn maintenance_asks_each_available_peer_once() {
    let mut sync = start(10);
    for who in 0..20 {
        connect(&mut sync, who, 10);
    }
    let mut protocol = Context::new();
    sync.maintain_sync(&mut protocol);
    let actions = protocol.into_actions();
    assert_eq!(actions.len(), 21);
    for who in 0..20 {
        let query = Action::NeededBlocks { who, count: 128, peer_best: 10, common: 10 };
        assert_eq!(actions.iter().filter(|action| **action == query).count(), 1);
    }
    assert_eq!(actions[20], Action::Extra(ExtraAction::DispatchAll));
}

#[test]
fn major_flag_does_not_follow_announcements() {
    let mut sync = start(10);
    connect(&mut sync, 1, 10);
    announce(&mut sync, 1, 30);
    assert!(sync.status().is_major_syncing());
    assert!(!sync.is_major_syncing());
}

#[test]
fn accepted_blocks_are_known_until_processed() {
    let mut sync = start(10);
    connect(&mut sync, 1, 12);
    drained(&mut sync, 11..=12);
    assert_eq!(announce(&mut sync, 1, 12), vec![]);
    assert_eq!(sync.peer(1).unwrap().common_number, 11);
    sync.blocks_processed(vec![11, 12], false);
    assert!(!sync.is_queued(&11));
    assert!(!sync.is_queued(&12));
}

#[test]
fn fork_is_not_fetched_twice() {
    let mut sync = start(10);
    connect(&mut sync, 1, 10);
    connect(&mut sync, 2, 10);
    assert_eq!(announce(&mut sync, 1, 6).len(), 1);
    assert_eq!(announce(&mut sync, 2, 6), vec![]);
    assert_eq!(sync.peer(2).unwrap().state, PeerSyncState::Available);
}

#[test]
fn announced_block_is_imported_as_broadcast() {
    let mut sync = start(10);
    connect(&mut sync, 1, 10);
    announce(&mut sync, 1, 11);
    match drained(&mut sync, 11..=11).pop() {
        Some(Action::ImportBlocks(origin, blocks)) => {
            assert_eq!(origin, BlockOrigin::NetworkBroadcast);
            assert_eq!(blocks.len(), 1);
        }
        other => panic!("{:?}", other),
    }
    match drained(&mut sync, 12..=12).pop() {
        Some(Action::ImportBlocks(origin, _)) => {
            assert_eq!(origin, BlockOrigin::NetworkInitialSync)
        }
        other => panic!("{:?}", other),
    }
}

#[test]
fn strangers_change_nothing() {
    let mut sync = start(10);
    assert_eq!(announce(&mut sync, 3, 11), vec![]);
    let mut protocol = Context::new();
    sync.on_ancestor_hash(&mut protocol, 3, 1, Ok(Some(1)));
    sync.on_extra_request(3, ExtraKind::Justification, 1);
    assert_eq!(protocol.into_actions(), vec![]);
    assert!(sync.peer_ids().is_empty());
    let mut protocol = Context::new();
    let response = BlockResponse { id: 0, blocks: vec![block(11)] };
    sync.on_block_data(&mut protocol, 3, request(), response);
    assert_eq!(
        protocol.into_actions(),
        vec![
            Action::Extra(ExtraAction::DispatchAll),
            Action::ImportBlocks(BlockOrigin::NetworkInitialSync, vec![]),
        ]
    );
}

#[test]
fn ancestor_search_walks_down_to_genesis() {
    let mut sync = start(4);
    let mut protocol = Context::new();
    let info = PeerInfo { best_hash: 99, best_number: 4 };
    sync.new_peer(&mut protocol, 1, Some((info, Ok(BlockStatus::Unknown))));
    for number in (0..4).rev() {
        let mut protocol = Context::new();
        sync.on_ancestor_hash(&mut protocol, 1, 98, Ok(Some(97)));
        assert_eq!(protocol.into_actions().len(), 1);
        assert_eq!(sync.peer(1).unwrap().state, PeerSyncState::AncestorSearch(number));
    }
    let mut protocol = Context::new();
    sync.on_ancestor_hash(&mut protocol, 1, 98, Ok(Some(97)));
    assert_eq!(
        protocol.into_actions(),
        vec![Action::ReportPeer(1, Severity::Bad(Fault::GenesisMismatch))]
    );
}

#[test]
fn answer_frees_the_peer() {
    let mut sync = start(10);
    connect(&mut sync, 1, 20);
    let mut protocol = Context::new();
    sync.on_needed_blocks(&mut protocol, 1, Some(11..12));
    let response = BlockResponse { id: 0, blocks: vec![block(11)] };
    sync.on_block_data(&mut protocol, 1, request(), response);
    assert_eq!(sync.peer(1).unwrap().state, PeerSyncState::Available);
}

#[test]
fn other_peers_are_left_alone() {
    let mut sync = start(10);
    connect(&mut sync, 1, 20);
    connect(&mut sync, 2, 30);
    announce(&mut sync, 1, 40);
    let other = sync.peer(2).unwrap();
    assert_eq!(other.best_number, 30);
    assert_eq!(other.common_number, 30);
    assert!(other.recently_announced.is_empty());
}

#[test]
fn restart_starts_over() {
    let mut sync = start(10);
    connect(&mut sync, 1, 20);
    drained(&mut sync, 11..=12);
    let mut protocol = Context::new();
    sync.restart(&mut protocol, Ok(client(10)));
    let fresh = start(10);
    assert_eq!(sync.status(), fresh.status());
    assert_eq!(sync.best_queued_number(), fresh.best_queued_number());
    assert_eq!(sync.best_queued_hash(), fresh.best_queued_hash());
    assert_eq!(sync.best_importing_number(), fresh.best_importing_number());
    assert!(!sync.is_queued(&11));
}

#[test]
fn second_download_does_nothing() {
    let mut sync = start(10);
    connect(&mut sync, 1, 30);
    let mut protocol = Context::new();
    sync.on_needed_blocks(&mut protocol, 1, Some(11..31));
    assert_eq!(protocol.into_actions().len(), 1);
    let mut protocol = Context::new();
    sync.maintain_sync(&mut protocol);
    assert_eq!(protocol.into_actions(), vec![Action::Extra(ExtraAction::DispatchAll)]);
    let mut protocol = Context::new();
    sync.on_needed_blocks(&mut protocol, 1, Some(20..31));
    sync.on_needed_blocks(&mut protocol, 1, None);
    assert_eq!(protocol.into_actions(), vec![]);
    assert_eq!(sync.peer(1).unwrap().state, PeerSyncState::DownloadingNew(11));
}

#[test]
fn restart_and_clear_do_not_raise_the_offline_flag() {
    let mut sync = start(10);
    connect(&mut sync, 1, 30);
    let mut protocol = Context::new();
    sync.clear(&mut protocol);
    assert!(!sync.is_offline());
    assert!(sync.status().is_offline());
    let mut sync = start(10);
    connect(&mut sync, 1, 30);
    let mut protocol = Context::new();
    sync.restart(&mut protocol, Ok(client(10)));
    assert!(!sync.is_offline());
    assert!(sync.status().is_offline());
}

#[test]
fn restart_ends_with_the_known_peers() {
    let mut sync = start(10);
    for who in 0..5 {
        connect(&mut sync, who, 8);
        announce(&mut sync, who, 9);
    }
    let mut protocol = Context::new();
    sync.restart(&mut protocol, Ok(client(0)));
    let mut reports = 0;
    for action in protocol.into_actions() {
        let who = match action {
            Action::Reconsider(who) => who,
            Action::ClearBlocks => continue,
            other => panic!("{:?}", other),
        };
        let info = PeerInfo { best_hash: 40 + who as u64, best_number: 40 + who as u64 };
        let met = match who {
            0 => None,
            1 => Some((info, Ok(BlockStatus::KnownBad))),
            2 => Some((info, Ok(BlockStatus::InChain))),
            _ => Some((info, Ok(BlockStatus::Unknown))),
        };
        let mut protocol = Context::new();
        sync.new_peer(&mut protocol, who, met);
        for action in protocol.into_actions() {
            let mut protocol = Context::new();
            match action {
                Action::ReportPeer(1, Severity::Bad(Fault::KnownBadBlock { hash: 41, .. })) => {
                    reports += 1
                }
                Action::NeededBlocks { who: 3, .. } => {
                    sync.on_needed_blocks(&mut protocol, 3, Some(1..44));
                    assert_eq!(protocol.into_actions().len(), 1);
                }
                Action::NeededBlocks { who: 4, .. } => {
                    sync.on_needed_blocks(&mut protocol, 4, None);
                    assert_eq!(protocol.into_actions(), vec![]);
                }
                other => panic!("{:?}", other),
            }
        }
    }
    assert_eq!(reports, 1);
    let mut ids = sync.peer_ids();
    ids.sort();
    assert_eq!(ids, vec![2, 3, 4]);
    for who in ids {
        let peer = sync.peer(who).unwrap();
        assert_eq!(peer.best_number, 40 + who as u64);
        assert_eq!(peer.best_hash, 40 + who as u64);
        assert!(peer.recently_announced.is_empty());
    }
    assert_eq!(sync.peer(2).unwrap().common_number, 42);
    assert_eq!(sync.peer(2).unwrap().state, PeerSyncState::Available);
    assert_eq!(sync.peer(3).unwrap().state, PeerSyncState::DownloadingNew(1));
    assert_eq!(sync.peer(4).unwrap().state, PeerSyncState::Available);
    assert!(!sync.is_offline());
    assert!(sync.is_major_syncing());
}
