//! Reported sync status.
use crate::message::BlockNumber;
use vstd::prelude::*;

verus! {

/// Reported sync state.
#[derive(Clone, Copy, Eq, PartialEq, Debug, Structural)]
pub enum SyncState {
    /// Initial sync is complete, keep-up sync is active.
    Idle,
    /// Actively catching up with the chain.
    Downloading,
}

/// Syncing status and statistics
#[derive(Clone, Debug, PartialEq, Eq)]
pub struct Status {
    /// Current global sync state.
    pub state: SyncState,
    /// Target sync block number.
    pub best_seen_block: Option<BlockNumber>,
    /// Number of peers participating in syncing.
    pub num_peers: u32,
}

impl Status {
    /// Whether the synchronization status is doing major downloading work or
    /// is near the head of the chain.
    pub fn is_major_syncing(&self) -> (major: bool)
        ensures
            major == (self.state == SyncState::Downloading),
    {
        match self.state {
            SyncState::Idle => false,
            SyncState::Downloading => true,
        }
    }

    /// Are we all alone?
    pub fn is_offline(&self) -> (offline: bool)
        ensures
            offline == (self.num_peers == 0),
    {
        self.num_peers == 0
    }
}

} // verus!
