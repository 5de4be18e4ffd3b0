//! Wiring of the peer-to-peer networking layer of an execution node.
//!
//! Three long-lived components cooperate through channels: the
//! [`manager::NetworkManager`], which owns the peer sessions and sorts inbound
//! wire messages by kind; the [`transactions::TransactionsManager`], which
//! bridges the peer network and the transaction pool; and the
//! [`eth_requests::EthRequestHandler`], which answers data requests from a
//! bounded queue. The [`builder::NetworkBuilder`] assembles them.

pub mod backpressure;
pub mod builder;
pub mod channel;
pub mod eth_requests;
pub mod handle;
pub mod manager;
pub mod message;
pub mod peers;
pub mod primitives;
pub mod seen;
pub mod shared;
pub mod transactions;

pub use primitives::{PeerId, BlockHash, TxHash, B256};
