//! The plain values that the sync strategy exchanges with the node around it.
use core::ops::Range;
use vstd::prelude::*;

verus! {

/// Index by which the node knows a connected peer.
pub type NodeIndex = usize;

/// Height of a block; the genesis block is number 0.
pub type BlockNumber = u64;

/// A range of block numbers, the end excluded.
pub type BlockRange = Range<BlockNumber>;

/// What a node does in the network, as far as it decides which parts of a block it needs.
#[derive(Clone, Copy, Debug, PartialEq, Eq)]
pub struct Roles {
    /// The node keeps the whole state.
    pub full: bool,
    /// The node takes part in consensus.
    pub authority: bool,
}

/// The parts of a block that a request asks for.
#[derive(Clone, Copy, Debug, PartialEq, Eq)]
pub struct BlockAttributes {
    /// The header.
    pub header: bool,
    /// The body.
    pub body: bool,
    /// The justification.
    pub justification: bool,
}

/// Where a block request starts.
#[derive(Clone, Copy, Debug, PartialEq, Eq)]
pub enum FromBlock<H> {
    /// At the block with this hash.
    Hash(H),
    /// At the block with this number.
    Number(BlockNumber),
}

/// The order in which a block request walks the chain.
#[derive(Clone, Copy, Debug, PartialEq, Eq, Structural)]
pub enum Direction {
    /// From the start towards higher numbers.
    Ascending,
    /// From the start towards the genesis block.
    Descending,
}

/// A request for blocks, sent to a peer.
#[derive(Clone, Copy, Debug, PartialEq, Eq)]
pub struct BlockRequest<H> {
    /// Identifier of the request, which the network layer assigns.
    pub id: u64,
    /// The parts of each block that are asked for.
    pub fields: BlockAttributes,
    /// Where to start.
    pub from: FromBlock<H>,
    /// Where to end, if anywhere in particular.
    pub to: Option<H>,
    /// Which way to walk.
    pub direction: Direction,
    /// How many blocks to send at most.
    pub max: Option<u32>,
}

/// A block header: what the strategy reads of it, and its encoding, which is carried along.
#[derive(Clone, Debug, PartialEq, Eq)]
pub struct Header<H> {
    /// Number of the block.
    pub number: BlockNumber,
    /// Hash of the header.
    pub hash: H,
    /// Hash of the parent block's header.
    pub parent_hash: H,
    /// The header as it is encoded.
    pub encoded: Vec<u8>,
}

/// A block as a peer sends it.
#[derive(Clone, Debug, PartialEq, Eq)]
pub struct BlockData<H> {
    /// Hash of the block.
    pub hash: H,
    /// The header, if it was asked for.
    pub header: Option<Header<H>>,
    /// The encoded extrinsics, if they were asked for.
    pub body: Option<Vec<Vec<u8>>>,
    /// The justification, if there is one.
    pub justification: Option<Vec<u8>>,
}

/// The answer of a peer to a block request.
#[derive(Clone, Debug, PartialEq, Eq)]
pub struct BlockResponse<H> {
    /// Identifier of the request that this answers.
    pub id: u64,
    /// The blocks, in the direction of the request.
    pub blocks: Vec<BlockData<H>>,
}

/// The answer of a peer to a request for a finality proof.
#[derive(Clone, Debug, PartialEq, Eq)]
pub struct FinalityProofResponse<H> {
    /// Identifier of the request that this answers.
    pub id: u64,
    /// Hash of the block that the proof is about.
    pub block: H,
    /// The proof, if the peer has one.
    pub proof: Option<Vec<u8>>,
}

/// A downloaded block that is next in line for import, with the peer that it came from.
#[derive(Clone, Debug, PartialEq, Eq)]
pub struct DownloadedBlock<H> {
    /// The block.
    pub block: BlockData<H>,
    /// The peer that sent it.
    pub origin: Option<NodeIndex>,
}

/// A block on its way to the import queue.
#[derive(Clone, Debug, PartialEq, Eq)]
pub struct IncomingBlock<H> {
    /// Hash of the block.
    pub hash: H,
    /// The header, if it was received.
    pub header: Option<Header<H>>,
    /// The encoded extrinsics, if they were received.
    pub body: Option<Vec<Vec<u8>>>,
    /// The justification, if one was received.
    pub justification: Option<Vec<u8>>,
    /// The peer that sent the block.
    pub origin: Option<NodeIndex>,
}

impl<H> IncomingBlock<H> {
    /// `data`, received from `origin`.
    pub open spec fn received(data: BlockData<H>, origin: Option<NodeIndex>) -> Self {
        IncomingBlock {
            hash: data.hash,
            header: data.header,
            body: data.body,
            justification: data.justification,
            origin,
        }
    }

    /// Number of the block, if its header was received.
    pub open spec fn number(self) -> Option<BlockNumber> {
        match self.header {
            Some(header) => Some(header.number),
            None => None,
        }
    }
}

/// Why a batch of blocks is imported.
#[derive(Clone, Copy, Debug, PartialEq, Eq)]
pub enum BlockOrigin {
    /// The blocks are part of the initial sync.
    NetworkInitialSync,
    /// The blocks were announced on the network.
    NetworkBroadcast,
}

/// What is known of a block.
#[derive(Clone, Copy, Debug, PartialEq, Eq, Structural)]
pub enum BlockStatus {
    /// It waits in the import queue.
    Queued,
    /// It is in the blockchain.
    InChain,
    /// It was found to be invalid.
    KnownBad,
    /// Nothing is known of it.
    Unknown,
}

/// A failure to read the blockchain, as text.
#[derive(Clone, Debug, PartialEq, Eq)]
pub struct ClientError {
    /// What went wrong.
    pub text: String,
}

/// State of the blockchain.
#[derive(Clone, Copy, Debug, PartialEq, Eq)]
pub struct ChainInfo<H> {
    /// Hash of the genesis block.
    pub genesis_hash: H,
    /// Hash of the best block.
    pub best_hash: H,
    /// Number of the best block.
    pub best_number: BlockNumber,
}

/// State of the blockchain and of the import queue in front of it.
#[derive(Clone, Copy, Debug, PartialEq, Eq)]
pub struct ClientInfo<H> {
    /// The blockchain.
    pub chain: ChainInfo<H>,
    /// Hash of the best block in the import queue.
    pub best_queued_hash: Option<H>,
    /// Number of the best block in the import queue.
    pub best_queued_number: Option<BlockNumber>,
}

/// What a peer said of itself when it connected.
#[derive(Clone, Copy, Debug, PartialEq, Eq)]
pub struct PeerInfo<H> {
    /// Hash of the peer's best block.
    pub best_hash: H,
    /// Number of the peer's best block.
    pub best_number: BlockNumber,
}

} // verus!
