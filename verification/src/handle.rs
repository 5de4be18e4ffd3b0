//! The control surface of the network manager that other components hold.

use vstd::prelude::*;
use crate::channel::{clone_unbounded_sender, send_unbounded};
use crate::message::{IncomingEthRequest, NetworkTransactionEvent};
use crate::peers::{PeersHandle, ReputationChangeKind};
use crate::primitives::{PeerId, TxHash};

verus! {

/// A command for the network manager.
#[derive(Debug)]
pub enum NetworkHandleMessage {
    /// Install the route for transaction messages.
    SetTransactions(tokio::sync::mpsc::UnboundedSender<NetworkTransactionEvent>),
    /// Install the route for data requests.
    SetEthRequestHandler(tokio::sync::mpsc::Sender<IncomingEthRequest>),
    /// Announce transaction hashes to a peer.
    AnnounceTransactions { peer: PeerId, hashes: Vec<TxHash> },
    /// Change the reputation of a peer.
    ReputationChange { peer: PeerId, kind: ReputationChangeKind },
    /// Close the session with a peer.
    DisconnectPeer { peer: PeerId },
    /// Stop the manager.
    Shutdown,
}

/// A shareable reference to the control surface of one network manager. It
/// gives no access to the manager's event loop: every request is a command
/// that the manager takes up when it gets to it.
#[derive(Debug)]
pub struct NetworkHandle {
    pub(crate) local_peer_id: PeerId,
    pub(crate) to_manager: tokio::sync::mpsc::UnboundedSender<NetworkHandleMessage>,
    pub(crate) peers: PeersHandle,
}

impl NetworkHandle {
    /// The identity of the node this handle belongs to.
    pub closed spec fn local_id(&self) -> PeerId {
        self.local_peer_id
    }

    /// The sending end that carries this handle's commands.
    pub closed spec fn commands(&self) -> tokio::sync::mpsc::UnboundedSender<NetworkHandleMessage> {
        self.to_manager
    }

    /// The peers handle that this handle gives out.
    pub closed spec fn peers(&self) -> PeersHandle {
        self.peers
    }

    /// A handle for the node `local_peer_id`, whose commands travel through
    /// `to_manager`; its peers handle uses the same channel.
    pub fn new(
        local_peer_id: PeerId,
        to_manager: tokio::sync::mpsc::UnboundedSender<NetworkHandleMessage>,
    ) -> (r: NetworkHandle)
        ensures
            r.local_id() == local_peer_id,
            r.commands() == to_manager,
            r.peers().commands() == to_manager,
    {
        let peers = PeersHandle::new(clone_unbounded_sender(&to_manager));
        NetworkHandle { local_peer_id, to_manager, peers }
    }

    /// The identity of the node this handle belongs to.
    pub fn peer_id(&self) -> (r: PeerId)
        ensures
            r == self.local_id(),
    {
        self.local_peer_id
    }

    /// The accessor to the peer set.
    pub fn peers_handle(&self) -> (r: &PeersHandle)
        ensures
            *r == self.peers(),
    {
        &self.peers
    }

    /// Enqueues `message` for the manager, without waiting. The message is
    /// handed back when the manager is gone.
    pub fn send_message(&self, message: NetworkHandleMessage) -> (r: Result<(), NetworkHandleMessage>)
        ensures
            r matches Err(m) ==> m == message,
    {
        send_unbounded(&self.to_manager, message)
    }

    /// Asks the manager to route transaction messages into `tx`.
    pub fn set_transactions(&self, tx: tokio::sync::mpsc::UnboundedSender<NetworkTransactionEvent>) -> (r: Result<(), NetworkHandleMessage>)
        ensures
            r matches Err(m) ==> m == NetworkHandleMessage::SetTransactions(tx),
    {
        self.send_message(NetworkHandleMessage::SetTransactions(tx))
    }

    /// Asks the manager to route data requests into `tx`.
    pub fn set_eth_request_handler(&self, tx: tokio::sync::mpsc::Sender<IncomingEthRequest>) -> (r: Result<(), NetworkHandleMessage>)
        ensures
            r matches Err(m) ==> m == NetworkHandleMessage::SetEthRequestHandler(tx),
    {
        self.send_message(NetworkHandleMessage::SetEthRequestHandler(tx))
    }

    /// Asks the manager to announce `hashes` to `peer`.
    pub fn announce_transactions(&self, peer: PeerId, hashes: Vec<TxHash>) -> (r: Result<(), NetworkHandleMessage>)
        ensures
            r matches Err(m) ==> m == (NetworkHandleMessage::AnnounceTransactions { peer, hashes }),
    {
        self.send_message(NetworkHandleMessage::AnnounceTransactions { peer, hashes })
    }

    /// Asks the manager to stop.
    pub fn shutdown(&self) -> (r: Result<(), NetworkHandleMessage>)
        ensures
            r matches Err(m) ==> m == NetworkHandleMessage::Shutdown,
    {
        self.send_message(NetworkHandleMessage::Shutdown)
    }
}

impl Clone for NetworkHandle {
    /// The clone refers to the same manager: it equals the handle it was
    /// made from.
    fn clone(&self) -> (r: Self)
        ensures
            r == *self,
    {
        NetworkHandle {
            local_peer_id: self.local_peer_id,
            to_manager: clone_unbounded_sender(&self.to_manager),
            peers: self.peers.clone(),
        }
    }
}

} // verus!
