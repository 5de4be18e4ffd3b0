//! The network manager: owner of the peer sessions and of the routes along
//! which inbound wire messages reach their consumers.
//!
//! The manager never waits for a consumer to take a message. Transaction
//! messages go into an unbounded channel; data requests go into a bounded
//! one, and a request that finds it full is dealt with at once, as the
//! manager's [`BackpressurePolicy`] says. Whatever a route did not take comes
//! back to the caller together with its fate.

use vstd::prelude::*;
use crate::channel::{
    commands_channel, commands_joined, max_capacity, request_route_capacity, send_unbounded,
    try_recv_command, try_send, Polled, TrySend,
};
use crate::handle::{NetworkHandle, NetworkHandleMessage};
use crate::message::{
    IncomingEthRequest, MessageCategory, NetworkTransactionEvent, PeerMessage, MAX_MESSAGE_SIZE,
};
use crate::peers::{
    apply_reputation_change, banned, connected, find_session, is_banned, lemma_position, position,
    reputation_after, session_of, unique_peers, with_reputation_change, Direction, PeerSession,
    ReputationChangeKind, DEFAULT_REPUTATION,
};
use crate::primitives::{PeerId, TxHash};

verus! {

/// What the manager does with a data request that finds the request route
/// full.
#[derive(Clone, Copy, Debug, PartialEq, Eq, Structural)]
pub enum BackpressurePolicy {
    /// Drop the request and say nothing.
    Drop,
    /// Drop the request and tell the peer that it was not taken.
    Reject,
    /// Drop the request and lower the peer's reputation.
    Penalize,
}

/// Why a message went nowhere.
#[derive(Clone, Copy, Debug, PartialEq, Eq, Structural)]
pub enum DropReason {
    /// No consumer is installed for the message's category.
    NoRoute,
    /// The request route held as many requests as it may.
    RouteFull,
    /// The consumer of the route is gone.
    RouteClosed,
    /// The message came from a peer without a session.
    UnknownPeer,
    /// The message belongs to no category that is routed.
    Unrouted,
}

/// What became of an inbound message.
#[derive(Clone, Copy, Debug, PartialEq, Eq, Structural)]
pub enum Dispatch {
    /// The consumer's channel took the message.
    Delivered,
    /// The message was dropped.
    Dropped(DropReason),
    /// The request route was full: the peer is to be told that its request
    /// was not taken.
    Rejected { peer: PeerId, request_id: u64 },
    /// The request route was full: the peer's reputation is lowered.
    Penalized { peer: PeerId, kind: ReputationChangeKind },
    /// The request is not well formed; the session layer decides what
    /// happens to the peer.
    Malformed { peer: PeerId },
}

/// What the caller of [`NetworkManager::on_command`] is to do next.
#[derive(Debug, PartialEq, Eq)]
pub enum CommandOutcome {
    /// The manager took the command up; nothing is left to do.
    Applied,
    /// The command named a peer without a session; nothing changed.
    Ignored,
    /// Send these hashes over the session with the peer.
    Announce { peer: PeerId, hashes: Vec<TxHash> },
    /// Close the session with the peer.
    Disconnect { peer: PeerId },
    /// Both routes are closed; stop the event loop.
    Shutdown,
}

/// An inbound wire message, made ready for the route of its category.
#[derive(Debug, PartialEq, Eq)]
pub enum Routed {
    /// What goes to the transactions manager.
    Event(NetworkTransactionEvent),
    /// What goes to the request handler.
    Request(IncomingEthRequest),
    /// The message belongs to no category that is routed.
    Unrouted,
}

/// What is made of `message`, received from `peer`, for its route: full
/// transactions and announced hashes become events for the transactions
/// manager, a data request becomes a request for the request handler, each
/// together with the peer; any other message goes nowhere.
pub open spec fn routed_of(peer: PeerId, message: PeerMessage) -> Routed {
    match message {
        PeerMessage::Transactions(transactions) => Routed::Event(
            NetworkTransactionEvent::IncomingTransactions { peer, transactions },
        ),
        PeerMessage::PooledTransactionHashes(hashes) => Routed::Event(
            NetworkTransactionEvent::IncomingPooledTransactionHashes { peer, hashes },
        ),
        PeerMessage::EthRequest { request_id, encoded_len, request } => Routed::Request(
            IncomingEthRequest { peer, request_id, encoded_len, request },
        ),
        PeerMessage::Other { .. } => Routed::Unrouted,
    }
}

/// Makes of `message`, received from `peer`, what goes to its route.
pub fn route_message(peer: PeerId, message: PeerMessage) -> (r: Routed)
    ensures
        r == routed_of(peer, message),
{
    match message {
        PeerMessage::Transactions(transactions) => Routed::Event(
            NetworkTransactionEvent::IncomingTransactions { peer, transactions },
        ),
        PeerMessage::PooledTransactionHashes(hashes) => Routed::Event(
            NetworkTransactionEvent::IncomingPooledTransactionHashes { peer, hashes },
        ),
        PeerMessage::EthRequest { request_id, encoded_len, request } => Routed::Request(
            IncomingEthRequest { peer, request_id, encoded_len, request },
        ),
        PeerMessage::Other { .. } => Routed::Unrouted,
    }
}

/// What is routed follows the category of the message.
pub proof fn lemma_routed_by_category(peer: PeerId, message: PeerMessage)
    ensures
        routed_of(peer, message) is Event <==> message.category_of() == MessageCategory::Transactions,
        routed_of(peer, message) is Request <==> message.category_of() == MessageCategory::Requests,
        routed_of(peer, message) is Unrouted <==> message.category_of() == MessageCategory::Unrouted,
        routed_of(peer, message) matches Routed::Request(request) ==> request.peer == peer,
{
}

/// What became of a message, given how handing it to its route ended: it
/// was delivered, or it came back together with its fate.
pub open spec fn fate_of<T>(handed: Result<(), (Dispatch, T)>) -> Dispatch {
    match handed {
        Ok(()) => Dispatch::Delivered,
        Err((fate, _)) => fate,
    }
}

/// How handing a data request to the request route ended, given how the
/// attempt to send it ended. A request that the channel did not take comes
/// back together with its fate.
pub open spec fn handed_of_try_send(outcome: TrySend<IncomingEthRequest>, policy: BackpressurePolicy) -> Result<
    (),
    (Dispatch, IncomingEthRequest),
> {
    match outcome {
        TrySend::Sent => Ok(()),
        TrySend::Full(request) => Err((full_route_action(policy, request.peer, request.request_id), request)),
        TrySend::Closed(request) => Err((Dispatch::Dropped(DropReason::RouteClosed), request)),
    }
}

/// How handing a transaction event to the transactions route ended, given
/// how the attempt to send it ended. An event that the channel did not take
/// comes back together with its fate.
pub open spec fn handed_of_send(outcome: Result<(), NetworkTransactionEvent>) -> Result<
    (),
    (Dispatch, NetworkTransactionEvent),
> {
    match outcome {
        Ok(()) => Ok(()),
        Err(event) => Err((Dispatch::Dropped(DropReason::RouteClosed), event)),
    }
}

/// What a full request route means for the request of `peer` under `policy`.
pub open spec fn full_route_action(policy: BackpressurePolicy, peer: PeerId, request_id: u64) -> Dispatch {
    match policy {
        BackpressurePolicy::Drop => Dispatch::Dropped(DropReason::RouteFull),
        BackpressurePolicy::Reject => Dispatch::Rejected { peer, request_id },
        BackpressurePolicy::Penalize => Dispatch::Penalized {
            peer,
            kind: ReputationChangeKind::RequestOverflow,
        },
    }
}

/// What became of a data request, given how the attempt to send it ended.
pub open spec fn dispatch_of_try_send(outcome: TrySend<IncomingEthRequest>, policy: BackpressurePolicy) -> Dispatch {
    match outcome {
        TrySend::Sent => Dispatch::Delivered,
        TrySend::Full(request) => full_route_action(policy, request.peer, request.request_id),
        TrySend::Closed(_) => Dispatch::Dropped(DropReason::RouteClosed),
    }
}

/// What became of a transaction event, given whether the channel took it.
pub open spec fn dispatch_of_send(taken: bool) -> Dispatch {
    if taken {
        Dispatch::Delivered
    } else {
        Dispatch::Dropped(DropReason::RouteClosed)
    }
}

/// Says what became of a message, given how handing it to its route ended.
pub fn fate<T>(handed: Result<(), (Dispatch, T)>) -> (r: Dispatch)
    ensures
        r == fate_of(handed),
{
    match handed {
        Ok(()) => Dispatch::Delivered,
        Err((fate, _)) => fate,
    }
}

/// Says what a full request route means for the request of `peer` under
/// `policy`.
pub fn full_route_fate(policy: BackpressurePolicy, peer: PeerId, request_id: u64) -> (r: Dispatch)
    ensures
        r == full_route_action(policy, peer, request_id),
{
    match policy {
        BackpressurePolicy::Drop => Dispatch::Dropped(DropReason::RouteFull),
        BackpressurePolicy::Reject => Dispatch::Rejected { peer, request_id },
        BackpressurePolicy::Penalize => Dispatch::Penalized { peer, kind: ReputationChangeKind::RequestOverflow },
    }
}

/// Decides how handing a data request to the request route ended, once the
/// attempt to send it has ended.
pub fn request_handed(outcome: TrySend<IncomingEthRequest>, policy: BackpressurePolicy) -> (r: Result<
    (),
    (Dispatch, IncomingEthRequest),
>)
    ensures
        r == handed_of_try_send(outcome, policy),
{
    match outcome {
        TrySend::Sent => Ok(()),
        TrySend::Full(request) => {
            let fate = full_route_fate(policy, request.peer, request.request_id);
            Err((fate, request))
        },
        TrySend::Closed(request) => Err((Dispatch::Dropped(DropReason::RouteClosed), request)),
    }
}

/// Decides how handing a transaction event to the transactions route ended,
/// once the attempt to send it has ended.
pub fn event_handed(outcome: Result<(), NetworkTransactionEvent>) -> (r: Result<
    (),
    (Dispatch, NetworkTransactionEvent),
>)
    ensures
        r == handed_of_send(outcome),
{
    match outcome {
        Ok(()) => Ok(()),
        Err(event) => Err((Dispatch::Dropped(DropReason::RouteClosed), event)),
    }
}

/// Decides what becomes of a data request once the attempt to send it into
/// the request route has ended.
pub fn request_dispatch(outcome: TrySend<IncomingEthRequest>, policy: BackpressurePolicy) -> (r: Dispatch)
    ensures
        r == dispatch_of_try_send(outcome, policy),
{
    fate(request_handed(outcome, policy))
}

/// Decides what becomes of a transaction event once the attempt to send it
/// into the transactions route has ended.
pub fn event_dispatch(outcome: Result<(), NetworkTransactionEvent>) -> (r: Dispatch)
    ensures
        r == dispatch_of_send(outcome is Ok),
{
    fate(event_handed(outcome))
}

/// The state of a network manager.
pub struct ManagerView<C> {
    /// The client that answers block lookups.
    pub client: C,
    /// The handle that the manager gives out.
    pub handle: NetworkHandle,
    /// The receiving end of the commands that handles send.
    pub commands: tokio::sync::mpsc::UnboundedReceiver<NetworkHandleMessage>,
    /// The route for transaction messages, once installed.
    pub transactions_route: Option<tokio::sync::mpsc::UnboundedSender<NetworkTransactionEvent>>,
    /// The route for data requests, once installed.
    pub eth_request_route: Option<tokio::sync::mpsc::Sender<IncomingEthRequest>>,
    /// The active sessions, oldest first.
    pub sessions: Seq<PeerSession>,
    /// What happens to a request that finds the request route full.
    pub policy: BackpressurePolicy,
}

impl<C> ManagerView<C> {
    /// Whether the commands of the manager's handle, and of the peers
    /// handle it gives out, arrive at the manager.
    pub open spec fn reachable(self) -> bool {
        &&& commands_joined(self.handle.commands(), self.commands)
        &&& self.handle.peers().commands() == self.handle.commands()
    }

    /// Whether `d` is a possible fate of a transaction event: without a
    /// route it is dropped; with one, the channel takes it unless the
    /// consumer is gone.
    pub open spec fn may_dispatch_event(self, d: Dispatch) -> bool {
        match self.transactions_route {
            None => d == Dispatch::Dropped(DropReason::NoRoute),
            Some(_) => d == Dispatch::Delivered || d == Dispatch::Dropped(DropReason::RouteClosed),
        }
    }

    /// Whether `d` is a possible fate of a data request of `encoded_len`
    /// bytes: a request that is not well formed is reported and never sent;
    /// without a route a request is dropped; with one, the channel takes it,
    /// or is full, or its consumer is gone.
    pub open spec fn may_dispatch_request(
        self,
        peer: PeerId,
        request_id: u64,
        encoded_len: usize,
        d: Dispatch,
    ) -> bool {
        if encoded_len > MAX_MESSAGE_SIZE {
            d == (Dispatch::Malformed { peer })
        } else {
            match self.eth_request_route {
                None => d == Dispatch::Dropped(DropReason::NoRoute),
                Some(_) => {
                    ||| d == Dispatch::Delivered
                    ||| d == full_route_action(self.policy, peer, request_id)
                    ||| d == Dispatch::Dropped(DropReason::RouteClosed)
                },
            }
        }
    }

    /// Whether `d` is a possible fate of `message`, received from `peer`: a
    /// message of a peer without a session is dropped; any other goes the
    /// way of its category.
    pub open spec fn may_dispatch(self, peer: PeerId, message: PeerMessage, d: Dispatch) -> bool {
        if !connected(self.sessions, peer) {
            d == Dispatch::Dropped(DropReason::UnknownPeer)
        } else {
            match message.category_of() {
                MessageCategory::Transactions => self.may_dispatch_event(d),
                MessageCategory::Requests => {
                    &&& message matches PeerMessage::EthRequest { request_id, encoded_len, .. }
                    &&& self.may_dispatch_request(peer, request_id, encoded_len, d)
                },
                MessageCategory::Unrouted => d == Dispatch::Dropped(DropReason::Unrouted),
            }
        }
    }

    /// The state after a message met the fate `d`: only a penalty changes
    /// it, and only the reputation of the peer it names.
    pub open spec fn after_dispatch(self, d: Dispatch) -> Self {
        match d {
            Dispatch::Penalized { peer, kind } => ManagerView {
                sessions: with_reputation_change(self.sessions, peer, kind),
                ..self
            },
            _ => self,
        }
    }

    /// The state after a session with `peer` came up.
    pub open spec fn after_session_established(self, peer: PeerId, direction: Direction, eth_version: u8) -> Self {
        if connected(self.sessions, peer) {
            self
        } else {
            ManagerView {
                sessions: self.sessions.push(
                    PeerSession { peer, direction, eth_version, reputation: DEFAULT_REPUTATION },
                ),
                ..self
            }
        }
    }

    /// The state after the session with `peer` went away.
    pub open spec fn after_session_closed(self, peer: PeerId) -> Self {
        if connected(self.sessions, peer) {
            ManagerView { sessions: self.sessions.remove(position(self.sessions, peer)), ..self }
        } else {
            self
        }
    }

    /// The state after the manager took up `message`.
    pub open spec fn after_command(self, message: NetworkHandleMessage) -> Self {
        match message {
            NetworkHandleMessage::SetTransactions(tx) => ManagerView { transactions_route: Some(tx), ..self },
            NetworkHandleMessage::SetEthRequestHandler(tx) => ManagerView { eth_request_route: Some(tx), ..self },
            NetworkHandleMessage::AnnounceTransactions { .. } => self,
            NetworkHandleMessage::ReputationChange { peer, kind } => ManagerView {
                sessions: with_reputation_change(self.sessions, peer, kind),
                ..self
            },
            NetworkHandleMessage::DisconnectPeer { .. } => self,
            NetworkHandleMessage::Shutdown => ManagerView {
                transactions_route: None,
                eth_request_route: None,
                ..self
            },
        }
    }

    /// What is left to do once the manager took up `message`.
    pub open spec fn command_outcome(self, message: NetworkHandleMessage) -> CommandOutcome {
        match message {
            NetworkHandleMessage::SetTransactions(_) => CommandOutcome::Applied,
            NetworkHandleMessage::SetEthRequestHandler(_) => CommandOutcome::Applied,
            NetworkHandleMessage::AnnounceTransactions { peer, hashes } => if connected(self.sessions, peer) {
                CommandOutcome::Announce { peer, hashes }
            } else {
                CommandOutcome::Ignored
            },
            NetworkHandleMessage::ReputationChange { peer, kind } => if !connected(self.sessions, peer) {
                CommandOutcome::Ignored
            } else if banned(
                reputation_after(self.sessions[position(self.sessions, peer)].reputation, kind.weight_of()),
            ) {
                CommandOutcome::Disconnect { peer }
            } else {
                CommandOutcome::Applied
            },
            NetworkHandleMessage::DisconnectPeer { peer } => if connected(self.sessions, peer) {
                CommandOutcome::Disconnect { peer }
            } else {
                CommandOutcome::Ignored
            },
            NetworkHandleMessage::Shutdown => CommandOutcome::Shutdown,
        }
    }
}

/// Changing one session's reputation keeps the peers of all sessions.
pub proof fn lemma_reputation_change_keeps_peers(
    sessions: Seq<PeerSession>,
    peer: PeerId,
    kind: ReputationChangeKind,
)
    ensures
        with_reputation_change(sessions, peer, kind).len() == sessions.len(),
        forall|i: int|
            0 <= i < sessions.len() ==> (#[trigger] with_reputation_change(sessions, peer, kind)[i]).peer
                == sessions[i].peer,
        unique_peers(sessions) ==> unique_peers(with_reputation_change(sessions, peer, kind)),
        forall|p: PeerId|
            connected(sessions, p) <==> connected(with_reputation_change(sessions, peer, kind), p),
{
    lemma_position(sessions, peer);
    let after = with_reputation_change(sessions, peer, kind);
    assert forall|i: int| 0 <= i < sessions.len() implies (#[trigger] after[i]).peer == sessions[i].peer by {}
    assert forall|p: PeerId| connected(sessions, p) <==> connected(after, p) by {
        if connected(sessions, p) {
            let i = choose|i: int| 0 <= i < sessions.len() && (#[trigger] sessions[i]).peer == p;
            assert(after[i].peer == p);
        }
        if connected(after, p) {
            let i = choose|i: int| 0 <= i < after.len() && (#[trigger] after[i]).peer == p;
            assert(sessions[i].peer == p);
        }
    }
    if unique_peers(sessions) {
        assert forall|i: int, j: int| 0 <= i < j < after.len() implies (#[trigger] after[i]).peer != (
        #[trigger] after[j]).peer by {
            assert(sessions[i].peer != sessions[j].peer);
        }
    }
}

/// Whatever the manager takes up, no peer gets two sessions.
pub proof fn lemma_sessions_stay_unique<C>(
    state: ManagerView<C>,
    peer: PeerId,
    direction: Direction,
    eth_version: u8,
    command: NetworkHandleMessage,
    fate: Dispatch,
)
    requires
        unique_peers(state.sessions),
    ensures
        unique_peers(state.after_session_established(peer, direction, eth_version).sessions),
        unique_peers(state.after_session_closed(peer).sessions),
        unique_peers(state.after_command(command).sessions),
        unique_peers(state.after_dispatch(fate).sessions),
{
    let sessions = state.sessions;
    if !connected(sessions, peer) {
        let after = state.after_session_established(peer, direction, eth_version).sessions;
        assert forall|i: int, j: int| 0 <= i < j < after.len() implies (#[trigger] after[i]).peer != (
        #[trigger] after[j]).peer by {
            assert(after[i] == sessions[i]);
            if j < sessions.len() {
                assert(after[j] == sessions[j]);
            }
        }
    } else {
        lemma_position(sessions, peer);
        let at = position(sessions, peer);
        let after = sessions.remove(at);
        assert forall|i: int, j: int| 0 <= i < j < after.len() implies (#[trigger] after[i]).peer != (
        #[trigger] after[j]).peer by {
            let a = if i < at { i } else { i + 1 };
            let b = if j < at { j } else { j + 1 };
            assert(after[i] == sessions[a]);
            assert(after[j] == sessions[b]);
        }
    }
    match command {
        NetworkHandleMessage::ReputationChange { peer: p, kind } => {
            lemma_reputation_change_keeps_peers(sessions, p, kind);
        },
        _ => {},
    }
    match fate {
        Dispatch::Penalized { peer: p, kind } => {
            lemma_reputation_change_keeps_peers(sessions, p, kind);
        },
        _ => {},
    }
}

/// The central component: it owns the peer sessions, the routes to the two
/// consumers, and the receiving end of the commands that handles send.
pub struct NetworkManager<C> {
    pub(crate) client: C,
    pub(crate) handle: NetworkHandle,
    pub(crate) from_handle: tokio::sync::mpsc::UnboundedReceiver<NetworkHandleMessage>,
    pub(crate) to_transactions: Option<tokio::sync::mpsc::UnboundedSender<NetworkTransactionEvent>>,
    pub(crate) to_eth_request_handler: Option<tokio::sync::mpsc::Sender<IncomingEthRequest>>,
    pub(crate) sessions: Vec<PeerSession>,
    pub(crate) policy: BackpressurePolicy,
}

impl<C> View for NetworkManager<C> {
    type V = ManagerView<C>;

    closed spec fn view(&self) -> ManagerView<C> {
        ManagerView {
            client: self.client,
            handle: self.handle,
            commands: self.from_handle,
            transactions_route: self.to_transactions,
            eth_request_route: self.to_eth_request_handler,
            sessions: self.sessions@,
            policy: self.policy,
        }
    }
}

impl<C> NetworkManager<C> {
    /// A manager for the node `local_peer_id`, without routes and without
    /// sessions. It makes the channel for the commands of its handle, so
    /// that what any clone of the handle sends arrives at this manager.
    pub fn new(client: C, local_peer_id: PeerId, policy: BackpressurePolicy) -> (r: Self)
        ensures
            r@ == (ManagerView {
                client,
                handle: r@.handle,
                commands: r@.commands,
                transactions_route: None,
                eth_request_route: None,
                sessions: Seq::empty(),
                policy,
            }),
            r@.handle.local_id() == local_peer_id,
            r@.reachable(),
    {
        let (to_manager, from_handle) = commands_channel();
        let handle = NetworkHandle::new(local_peer_id, to_manager);
        NetworkManager {
            client,
            handle,
            from_handle,
            to_transactions: None,
            to_eth_request_handler: None,
            sessions: Vec::new(),
            policy,
        }
    }

    /// The handle of this manager. Every clone of it refers to this manager.
    pub fn handle(&self) -> (r: &NetworkHandle)
        ensures
            *r == self@.handle,
    {
        &self.handle
    }

    /// The client that answers block lookups.
    pub fn client(&self) -> (r: &C)
        ensures
            *r == self@.client,
    {
        &self.client
    }

    /// What happens to a request that finds the request route full.
    pub fn policy(&self) -> (r: BackpressurePolicy)
        ensures
            r == self@.policy,
    {
        self.policy
    }

    /// Installs the route for transaction messages. An earlier route is
    /// replaced: the manager keeps one route for each category, and the
    /// consumer of the earlier one finds its channel closed once no other
    /// sender of it is left.
    pub fn set_transactions(&mut self, tx: tokio::sync::mpsc::UnboundedSender<NetworkTransactionEvent>)
        ensures
            final(self)@ == (ManagerView { transactions_route: Some(tx), ..old(self)@ }),
    {
        self.to_transactions = Some(tx);
    }

    /// Installs the route for data requests. An earlier route is replaced:
    /// the manager keeps one route for each category, and the consumer of
    /// the earlier one finds its channel closed once no other sender of it
    /// is left.
    pub fn set_eth_request_handler(&mut self, tx: tokio::sync::mpsc::Sender<IncomingEthRequest>)
        ensures
            final(self)@ == (ManagerView { eth_request_route: Some(tx), ..old(self)@ }),
    {
        self.to_eth_request_handler = Some(tx);
    }

    /// Tells whether a route for transaction messages is installed.
    pub fn has_transactions_route(&self) -> (r: bool)
        ensures
            r == self@.transactions_route is Some,
    {
        self.to_transactions.is_some()
    }

    /// Tells whether a route for data requests is installed.
    pub fn has_eth_request_route(&self) -> (r: bool)
        ensures
            r == self@.eth_request_route is Some,
    {
        self.to_eth_request_handler.is_some()
    }

    /// The bound of the request route, where one is installed.
    pub fn eth_request_capacity(&self) -> (r: Option<usize>)
        ensures
            match self@.eth_request_route {
                Some(tx) => r == Some(request_route_capacity(tx)),
                None => r is None,
            },
    {
        match &self.to_eth_request_handler {
            Some(tx) => Some(max_capacity(tx)),
            None => None,
        }
    }

    /// Removes both routes. The consumers find their channels closed once
    /// they have taken what was still in them.
    pub fn close_routes(&mut self)
        ensures
            final(self)@ == (ManagerView {
                transactions_route: None,
                eth_request_route: None,
                ..old(self)@
            }),
    {
        self.to_transactions = None;
        self.to_eth_request_handler = None;
    }

    /// How many sessions are active.
    pub fn num_connected_peers(&self) -> (r: usize)
        ensures
            r == self@.sessions.len(),
    {
        self.sessions.len()
    }

    /// The session with `peer`, where there is one.
    pub fn session(&self, peer: PeerId) -> (r: Option<PeerSession>)
        ensures
            match r {
                Some(s) => connected(self@.sessions, peer) && s == self@.sessions[position(
                    self@.sessions,
                    peer,
                )] && s.peer == peer,
                None => !connected(self@.sessions, peer),
            },
    {
        session_of(&self.sessions, peer)
    }

    /// The active sessions, oldest first.
    pub fn sessions(&self) -> (r: Vec<PeerSession>)
        ensures
            r@ == self@.sessions,
    {
        let r = self.sessions.clone();
        assert(r@ =~= self.sessions@);
        r
    }

    /// Publishes the active sessions for the peers handles to read.
    fn publish(&self) {
        self.handle.peers.publish(self.sessions());
    }

    /// Hands a transaction event to the transactions route, without waiting.
    /// An event that was not taken comes back, together with its fate.
    pub fn forward_transaction_event(&self, event: NetworkTransactionEvent) -> (r: Result<(), (Dispatch, NetworkTransactionEvent)>)
        ensures
            self@.may_dispatch_event(fate_of(r)),
            r matches Err((fate, m)) ==> m == event && fate != Dispatch::Delivered,
    {
        match &self.to_transactions {
            None => Err((Dispatch::Dropped(DropReason::NoRoute), event)),
            Some(tx) => event_handed(send_unbounded(tx, event)),
        }
    }

    /// Hands a data request to the request route, without waiting. A request
    /// that is not well formed is not sent. A request that was not taken
    /// comes back, together with its fate.
    pub fn forward_eth_request(&self, request: IncomingEthRequest) -> (r: Result<(), (Dispatch, IncomingEthRequest)>)
        ensures
            self@.may_dispatch_request(request.peer, request.request_id, request.encoded_len, fate_of(r)),
            r matches Err((fate, m)) ==> m == request && fate != Dispatch::Delivered,
    {
        if !request.is_well_formed() {
            let peer = request.peer;
            return Err((Dispatch::Malformed { peer }, request));
        }
        match &self.to_eth_request_handler {
            None => Err((Dispatch::Dropped(DropReason::NoRoute), request)),
            Some(tx) => request_handed(try_send(tx, request), self.policy),
        }
    }

    /// Takes up an inbound wire message of `peer`: sorts it by category and
    /// hands what [`route_message`] makes of it to the route of that
    /// category, without waiting. A message of a peer without a session goes
    /// nowhere. Whatever was not taken comes back, together with its fate.
    pub fn on_peer_message(&mut self, peer: PeerId, message: PeerMessage) -> (r: Result<(), (Dispatch, Routed)>)
        ensures
            old(self)@.may_dispatch(peer, message, fate_of(r)),
            final(self)@ == old(self)@.after_dispatch(fate_of(r)),
            r matches Err((fate, m)) ==> m == routed_of(peer, message) && fate != Dispatch::Delivered,
    {
        let routed = route_message(peer, message);
        if find_session(&self.sessions, peer).is_none() {
            return Err((Dispatch::Dropped(DropReason::UnknownPeer), routed));
        }
        let handed = match routed {
            Routed::Event(event) => match self.forward_transaction_event(event) {
                Ok(()) => Ok(()),
                Err((fate, event)) => Err((fate, Routed::Event(event))),
            },
            Routed::Request(request) => match self.forward_eth_request(request) {
                Ok(()) => Ok(()),
                Err((fate, request)) => Err((fate, Routed::Request(request))),
            },
            Routed::Unrouted => Err((Dispatch::Dropped(DropReason::Unrouted), Routed::Unrouted)),
        };
        match &handed {
            Err((Dispatch::Penalized { peer: penalized, kind }, _)) => {
                self.reputation_change(*penalized, *kind);
            },
            _ => {},
        }
        handed
    }

    /// Moves the reputation of `peer` by the weight of `kind`, publishes the
    /// sessions for the peers handles, and returns the new reputation; `None`
    /// where `peer` has no session.
    pub fn reputation_change(&mut self, peer: PeerId, kind: ReputationChangeKind) -> (r: Option<i32>)
        ensures
            final(self)@ == (ManagerView {
                sessions: with_reputation_change(old(self)@.sessions, peer, kind),
                ..old(self)@
            }),
            match r {
                Some(reputation) => connected(old(self)@.sessions, peer) && reputation == reputation_after(
                    old(self)@.sessions[position(old(self)@.sessions, peer)].reputation,
                    kind.weight_of(),
                ),
                None => !connected(old(self)@.sessions, peer),
            },
    {
        proof {
            lemma_position(self.sessions@, peer);
        }
        match find_session(&self.sessions, peer) {
            Some(i) => {
                let session = self.sessions[i];
                let reputation = apply_reputation_change(session.reputation, kind);
                self.sessions.set(i, PeerSession { reputation, ..session });
                self.publish();
                Some(reputation)
            },
            None => None,
        }
    }

    /// Records a session with `peer`, publishes the sessions for the peers
    /// handles, and tells the transactions manager. A peer that has a
    /// session already keeps it, and `None` is returned.
    /// Otherwise the event that tells of the session is handed to the
    /// transactions route, and comes back where it was not taken.
    pub fn on_session_established(&mut self, peer: PeerId, direction: Direction, eth_version: u8) -> (r: Option<
        Result<(), (Dispatch, NetworkTransactionEvent)>,
    >)
        ensures
            final(self)@ == old(self)@.after_session_established(peer, direction, eth_version),
            r is None <==> connected(old(self)@.sessions, peer),
            r matches Some(handed) ==> old(self)@.may_dispatch_event(fate_of(handed)),
            r matches Some(Err((fate, m))) ==> m == (NetworkTransactionEvent::SessionEstablished { peer })
                && fate != Dispatch::Delivered,
    {
        if find_session(&self.sessions, peer).is_some() {
            return None;
        }
        self.sessions.push(PeerSession { peer, direction, eth_version, reputation: DEFAULT_REPUTATION });
        self.publish();
        Some(self.forward_transaction_event(NetworkTransactionEvent::SessionEstablished { peer }))
    }

    /// Forgets the session with `peer`, publishes the sessions for the peers
    /// handles, and tells the transactions manager. `None` is returned where
    /// `peer` had no session. Otherwise the event
    /// that tells of the end of the session is handed to the transactions
    /// route, and comes back where it was not taken.
    pub fn on_session_closed(&mut self, peer: PeerId) -> (r: Option<Result<(), (Dispatch, NetworkTransactionEvent)>>)
        ensures
            final(self)@ == old(self)@.after_session_closed(peer),
            r is Some <==> connected(old(self)@.sessions, peer),
            r matches Some(handed) ==> old(self)@.may_dispatch_event(fate_of(handed)),
            r matches Some(Err((fate, m))) ==> m == (NetworkTransactionEvent::SessionClosed { peer }) && fate
                != Dispatch::Delivered,
    {
        match find_session(&self.sessions, peer) {
            None => None,
            Some(i) => {
                self.sessions.remove(i);
                self.publish();
                Some(self.forward_transaction_event(NetworkTransactionEvent::SessionClosed { peer }))
            },
        }
    }

    /// The receiving end of the commands that handles send, for a caller
    /// that waits on it. The manager is otherwise left as it is.
    pub fn commands_mut(&mut self) -> (r: &mut tokio::sync::mpsc::UnboundedReceiver<NetworkHandleMessage>)
        ensures
            *r == old(self)@.commands,
            final(self)@ == (ManagerView { commands: *final(r), ..old(self)@ }),
    {
        &mut self.from_handle
    }

    /// Takes the next command that a handle sent, without waiting. The
    /// manager stays the receiver of its handles' commands.
    pub fn poll_command(&mut self) -> (r: Polled<NetworkHandleMessage>)
        ensures
            final(self)@ == (ManagerView { commands: final(self)@.commands, ..old(self)@ }),
            forall|tx: tokio::sync::mpsc::UnboundedSender<NetworkHandleMessage>|
                #[trigger] commands_joined(tx, final(self)@.commands) == commands_joined(tx, old(self)@.commands),
            old(self)@.reachable() ==> final(self)@.reachable(),
    {
        try_recv_command(&mut self.from_handle)
    }

    /// Takes up a command that a handle sent and says what is left to do.
    pub fn on_command(&mut self, message: NetworkHandleMessage) -> (r: CommandOutcome)
        ensures
            final(self)@ == old(self)@.after_command(message),
            r == old(self)@.command_outcome(message),
    {
        match message {
            NetworkHandleMessage::SetTransactions(tx) => {
                self.set_transactions(tx);
                CommandOutcome::Applied
            },
            NetworkHandleMessage::SetEthRequestHandler(tx) => {
                self.set_eth_request_handler(tx);
                CommandOutcome::Applied
            },
            NetworkHandleMessage::AnnounceTransactions { peer, hashes } => {
                if find_session(&self.sessions, peer).is_some() {
                    CommandOutcome::Announce { peer, hashes }
                } else {
                    CommandOutcome::Ignored
                }
            },
            NetworkHandleMessage::ReputationChange { peer, kind } => {
                match self.reputation_change(peer, kind) {
                    None => CommandOutcome::Ignored,
                    Some(reputation) => if is_banned(reputation) {
                        CommandOutcome::Disconnect { peer }
                    } else {
                        CommandOutcome::Applied
                    },
                }
            },
            NetworkHandleMessage::DisconnectPeer { peer } => {
                if find_session(&self.sessions, peer).is_some() {
                    CommandOutcome::Disconnect { peer }
                } else {
                    CommandOutcome::Ignored
                }
            },
            NetworkHandleMessage::Shutdown => {
                self.close_routes();
                CommandOutcome::Shutdown
            },
        }
    }
}

} // verus!
