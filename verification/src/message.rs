//! The messages that travel between the components.

use vstd::prelude::*;
use crate::primitives::{BlockHash, PeerId, TxHash};

verus! {

/// Largest encoded size, in bytes, of a wire message that is still well formed.
pub const MAX_MESSAGE_SIZE: usize = 10_485_760;

/// A transaction as it travels between peers: its hash and its encoding.
#[derive(Debug, PartialEq, Eq)]
pub struct Transaction {
    pub hash: TxHash,
    pub payload: Vec<u8>,
}

/// Where a range of headers starts.
#[derive(Clone, Copy, Debug, PartialEq, Eq, Structural)]
pub enum BlockHashOrNumber {
    Hash(BlockHash),
    Number(u64),
}

/// A request for a range of block headers.
#[derive(Clone, Copy, Debug, PartialEq, Eq, Structural)]
pub struct HeadersRequest {
    /// The first header of the range.
    pub start: BlockHashOrNumber,
    /// How many headers are asked for.
    pub limit: u64,
    /// How many blocks lie between two consecutive headers of the range.
    pub skip: u64,
    /// Whether the range runs towards the genesis block.
    pub reverse: bool,
}

/// The data requests of the wire protocol.
#[derive(Debug, PartialEq, Eq)]
pub enum EthRequest {
    GetBlockHeaders(HeadersRequest),
    GetBlockBodies(Vec<BlockHash>),
    GetReceipts(Vec<BlockHash>),
}

/// A data request together with the session it arrived on.
#[derive(Debug, PartialEq, Eq)]
pub struct IncomingEthRequest {
    /// The peer that asked.
    pub peer: PeerId,
    /// The number by which the peer matches the response to its request.
    pub request_id: u64,
    /// Size of the request on the wire, in bytes.
    pub encoded_len: usize,
    /// What is asked for.
    pub request: EthRequest,
}

impl IncomingEthRequest {
    /// A request is well formed when its encoding stays within
    /// [`MAX_MESSAGE_SIZE`].
    pub open spec fn well_formed(&self) -> bool {
        self.encoded_len <= MAX_MESSAGE_SIZE
    }

    /// Tells whether the request is well formed.
    pub fn is_well_formed(&self) -> (r: bool)
        ensures
            r == self.well_formed(),
    {
        self.encoded_len <= MAX_MESSAGE_SIZE
    }
}

/// What the network manager hands to the transactions manager.
#[derive(Debug, PartialEq, Eq)]
pub enum NetworkTransactionEvent {
    /// A session with `peer` is up.
    SessionEstablished { peer: PeerId },
    /// The session with `peer` is gone.
    SessionClosed { peer: PeerId },
    /// `peer` sent full transactions.
    IncomingTransactions { peer: PeerId, transactions: Vec<Transaction> },
    /// `peer` announced the hashes of transactions it holds.
    IncomingPooledTransactionHashes { peer: PeerId, hashes: Vec<TxHash> },
}

/// An inbound wire message, as a session decoded it.
#[derive(Debug, PartialEq, Eq)]
pub enum PeerMessage {
    /// Full transactions.
    Transactions(Vec<Transaction>),
    /// Hashes of transactions the peer holds.
    PooledTransactionHashes(Vec<TxHash>),
    /// A data request.
    EthRequest { request_id: u64, encoded_len: usize, request: EthRequest },
    /// Any message that no component of this crate consumes.
    Other { message_id: u8 },
}

/// The category of an inbound wire message, by which its route is chosen.
#[derive(Clone, Copy, Debug, PartialEq, Eq, Structural)]
pub enum MessageCategory {
    /// Destined for the transactions manager.
    Transactions,
    /// Destined for the request handler.
    Requests,
    /// Not routed.
    Unrouted,
}

impl PeerMessage {
    /// The category a message belongs to.
    pub open spec fn category_of(&self) -> MessageCategory {
        match self {
            PeerMessage::Transactions(_) => MessageCategory::Transactions,
            PeerMessage::PooledTransactionHashes(_) => MessageCategory::Transactions,
            PeerMessage::EthRequest { .. } => MessageCategory::Requests,
            PeerMessage::Other { .. } => MessageCategory::Unrouted,
        }
    }

    /// Classifies the message by its type.
    pub fn category(&self) -> (r: MessageCategory)
        ensures
            r == self.category_of(),
    {
        match self {
            PeerMessage::Transactions(_) => MessageCategory::Transactions,
            PeerMessage::PooledTransactionHashes(_) => MessageCategory::Transactions,
            PeerMessage::EthRequest { .. } => MessageCategory::Requests,
            PeerMessage::Other { .. } => MessageCategory::Unrouted,
        }
    }
}

} // verus!
