//! The transactions manager: the bridge between the peer network and the
//! transaction pool.
//!
//! Outwards it announces the transactions of the pool to the connected
//! peers, and never announces to a peer a hash that it remembers the peer to
//! hold. Inwards it sorts out what peers send before anything reaches the
//! pool. The pool itself is never touched here: the manager says what is to
//! be done with it, and is told how that went.

use vstd::prelude::*;
use crate::channel::{transactions_route_joined, try_recv_event, Polled};
use crate::handle::{NetworkHandle, NetworkHandleMessage};
use crate::message::{NetworkTransactionEvent, Transaction};
use crate::peers::ReputationChangeKind;
use crate::primitives::{PeerId, TxHash};
use crate::seen::{
    distinct, forgot_nothing, lemma_excluding_all, lemma_told_again_only_after_forgetting, lemma_excluding_nothing, lemma_never_told_twice, lemma_remembered,
    lemma_unannounced, no_repetition, remember, remembered, remembered_all, total_hashes,
    unannounced, unannounced_hashes,
};

verus! {

/// Largest encoding, in bytes, of a transaction that is passed on to the
/// pool.
pub const MAX_TRANSACTION_SIZE: usize = 131_072;

/// How many hashes the manager remembers of each peer unless told otherwise.
pub const DEFAULT_SEEN_LIMIT: usize = 10_240;

/// Why the pool did not take a transaction.
#[derive(Clone, Copy, Debug, PartialEq, Eq, Structural)]
pub enum PoolError {
    /// The pool holds the transaction already.
    AlreadyKnown,
    /// The transaction pays too little to be kept.
    Underpriced,
    /// The transaction is not valid.
    Invalid,
}

/// Transaction hashes to be announced to one peer.
#[derive(Debug, PartialEq, Eq)]
pub struct Announcement {
    pub peer: PeerId,
    pub hashes: Vec<TxHash>,
}

/// An [`Announcement`] as a plain value.
pub struct AnnouncementView {
    pub peer: PeerId,
    pub hashes: Seq<TxHash>,
}

impl View for Announcement {
    type V = AnnouncementView;

    open spec fn view(&self) -> AnnouncementView {
        AnnouncementView { peer: self.peer, hashes: self.hashes@ }
    }
}

/// What is left to do once the manager took up an event.
#[derive(Debug, PartialEq, Eq)]
pub enum TransactionsAction {
    /// Nothing.
    Nothing,
    /// A session with `peer` came up: announce to it what the pool holds.
    AnnouncePending { peer: PeerId },
    /// Offer these transactions of `peer` to the pool. `malformed` says how
    /// many more the peer sent that are not of a shape the pool is offered.
    Import { peer: PeerId, transactions: Vec<Transaction>, malformed: usize },
    /// Ask `peer` for the transactions behind these hashes.
    Request { peer: PeerId, hashes: Vec<TxHash> },
}

/// A [`TransactionsAction`] as a plain value.
pub enum ActionView {
    Nothing,
    AnnouncePending { peer: PeerId },
    Import { peer: PeerId, transactions: Seq<Transaction>, malformed: nat },
    Request { peer: PeerId, hashes: Seq<TxHash> },
}

impl View for TransactionsAction {
    type V = ActionView;

    open spec fn view(&self) -> ActionView {
        match self {
            TransactionsAction::Nothing => ActionView::Nothing,
            TransactionsAction::AnnouncePending { peer } => ActionView::AnnouncePending { peer: *peer },
            TransactionsAction::Import { peer, transactions, malformed } => ActionView::Import {
                peer: *peer,
                transactions: transactions@,
                malformed: *malformed as nat,
            },
            TransactionsAction::Request { peer, hashes } => ActionView::Request { peer: *peer, hashes: hashes@ },
        }
    }
}

/// What the manager remembers of one peer.
pub struct PeerView {
    /// The peer.
    pub peer: PeerId,
    /// The hashes that the peer is known to hold, most recently touched
    /// last.
    pub seen: Seq<TxHash>,
}

/// Whether a transaction is of a shape that the pool is offered: its
/// encoding is not empty and no longer than [`MAX_TRANSACTION_SIZE`].
pub open spec fn well_shaped(transaction: Transaction) -> bool {
    0 < transaction.payload.len() <= MAX_TRANSACTION_SIZE
}

/// The transactions of `transactions` that are well shaped, in order.
pub open spec fn well_shaped_of(transactions: Seq<Transaction>) -> Seq<Transaction>
    decreases transactions.len(),
{
    if transactions.len() == 0 {
        Seq::empty()
    } else {
        let rest = well_shaped_of(transactions.drop_last());
        if well_shaped(transactions.last()) {
            rest.push(transactions.last())
        } else {
            rest
        }
    }
}

/// The hashes of `transactions`, in order.
pub open spec fn hashes_of(transactions: Seq<Transaction>) -> Seq<TxHash> {
    Seq::new(transactions.len(), |i: int| transactions[i].hash)
}

/// Whether `peers` holds an entry for `peer`.
pub open spec fn known(peers: Seq<PeerView>, peer: PeerId) -> bool {
    exists|i: int| 0 <= i < peers.len() && (#[trigger] peers[i]).peer == peer
}

/// The place of the first entry for `peer`, or the length of `peers` where
/// there is none.
pub open spec fn slot(peers: Seq<PeerView>, peer: PeerId) -> int
    decreases peers.len(),
{
    if peers.len() == 0 {
        0
    } else if peers.first().peer == peer {
        0
    } else {
        1 + slot(peers.drop_first(), peer)
    }
}

/// The entry `entry` after its peer was found to hold `hashes`.
pub open spec fn touched(entry: PeerView, hashes: Seq<TxHash>, limit: nat) -> PeerView {
    PeerView { peer: entry.peer, seen: remembered(entry.seen, hashes, limit) }
}

/// Every entry of `peers` after its peer was found to hold `hashes`.
pub open spec fn all_touched(peers: Seq<PeerView>, hashes: Seq<TxHash>, limit: nat) -> Seq<PeerView> {
    Seq::new(peers.len(), |i: int| touched(peers[i], hashes, limit))
}

/// What is announced when `hashes` are offered to `peers`: to each peer, in
/// order, the hashes it is not known to hold; nothing to a peer that is
/// known to hold them all.
pub open spec fn announcements(peers: Seq<PeerView>, hashes: Seq<TxHash>) -> Seq<AnnouncementView>
    decreases peers.len(),
{
    if peers.len() == 0 {
        Seq::empty()
    } else {
        let rest = announcements(peers.drop_last(), hashes);
        let fresh = unannounced(hashes, peers.last().seen);
        if fresh.len() == 0 {
            rest
        } else {
            rest.push(AnnouncementView { peer: peers.last().peer, hashes: fresh })
        }
    }
}

/// The announcements of `list` as plain values.
pub open spec fn announcement_views(list: Seq<Announcement>) -> Seq<AnnouncementView> {
    Seq::new(list.len(), |i: int| list[i]@)
}

/// What the outcome of offering a transaction to the pool means for the
/// reputation of the peer that sent it: nothing where the pool took the
/// transaction or found it paying too little.
pub open spec fn reputation_for(outcome: Result<(), PoolError>) -> Option<ReputationChangeKind> {
    match outcome {
        Ok(()) => None,
        Err(PoolError::AlreadyKnown) => Some(ReputationChangeKind::AlreadySeenTransaction),
        Err(PoolError::Underpriced) => None,
        Err(PoolError::Invalid) => Some(ReputationChangeKind::BadTransaction),
    }
}

/// What it means for the reputation of a peer that `malformed` of the
/// transactions it sent were not of a shape the pool is offered.
pub open spec fn reputation_for_malformed(malformed: nat) -> Option<ReputationChangeKind> {
    if malformed > 0 {
        Some(ReputationChangeKind::BadMessage)
    } else {
        None
    }
}

/// `slot` stays within the sequence, points at an entry for `peer` exactly
/// when there is one, and no earlier entry is for `peer`.
pub proof fn lemma_slot(peers: Seq<PeerView>, peer: PeerId)
    ensures
        0 <= slot(peers, peer) <= peers.len(),
        known(peers, peer) <==> slot(peers, peer) < peers.len(),
        slot(peers, peer) < peers.len() ==> peers[slot(peers, peer)].peer == peer,
        forall|i: int| 0 <= i < slot(peers, peer) ==> (#[trigger] peers[i]).peer != peer,
    decreases peers.len(),
{
    if peers.len() == 0 {
    } else if peers.first().peer == peer {
        assert(peers[0].peer == peer);
    } else {
        let rest = peers.drop_first();
        lemma_slot(rest, peer);
        assert forall|i: int| 0 <= i < slot(peers, peer) implies (#[trigger] peers[i]).peer != peer by {
            if i > 0 {
                assert(rest[i - 1] == peers[i]);
            }
        }
        if known(peers, peer) {
            let i = choose|i: int| 0 <= i < peers.len() && (#[trigger] peers[i]).peer == peer;
            assert(rest[i - 1] == peers[i]);
        }
        if slot(rest, peer) < rest.len() {
            assert(peers[slot(rest, peer) + 1] == rest[slot(rest, peer)]);
        }
    }
}

/// The state of a transactions manager.
pub struct TransactionsView<Pool> {
    /// The handle of the network manager.
    pub network: NetworkHandle,
    /// The transaction pool.
    pub pool: Pool,
    /// The receiving end of the transactions route.
    pub events: tokio::sync::mpsc::UnboundedReceiver<NetworkTransactionEvent>,
    /// What is remembered of each connected peer, oldest session first.
    pub peers: Seq<PeerView>,
    /// How many hashes are remembered of each peer.
    pub seen_limit: nat,
}

impl<Pool> TransactionsView<Pool> {
    /// The state after `hashes` were offered to every peer.
    pub open spec fn after_propagate(self, hashes: Seq<TxHash>) -> Self {
        TransactionsView { peers: all_touched(self.peers, hashes, self.seen_limit), ..self }
    }

    /// The state after each batch of `batches` was offered to every peer,
    /// one batch after the other.
    pub open spec fn after_propagating(self, batches: Seq<Seq<TxHash>>) -> Self
        decreases batches.len(),
    {
        if batches.len() == 0 {
            self
        } else {
            self.after_propagating(batches.drop_last()).after_propagate(batches.last())
        }
    }

    /// The state after `peer` was found to hold `hashes`. A peer without an
    /// entry leaves the state as it is.
    pub open spec fn after_touch(self, peer: PeerId, hashes: Seq<TxHash>) -> Self {
        if known(self.peers, peer) {
            let i = slot(self.peers, peer);
            TransactionsView {
                peers: self.peers.update(i, touched(self.peers[i], hashes, self.seen_limit)),
                ..self
            }
        } else {
            self
        }
    }

    /// What `peer` is not known to hold of `hashes`; nothing for a peer
    /// without an entry.
    pub open spec fn unannounced_to(self, peer: PeerId, hashes: Seq<TxHash>) -> Seq<TxHash> {
        if known(self.peers, peer) {
            unannounced(hashes, self.peers[slot(self.peers, peer)].seen)
        } else {
            Seq::empty()
        }
    }

    /// The state after the manager took up `event`.
    pub open spec fn after_event(self, event: NetworkTransactionEvent) -> Self {
        match event {
            NetworkTransactionEvent::SessionEstablished { peer } => if known(self.peers, peer) {
                self
            } else {
                TransactionsView { peers: self.peers.push(PeerView { peer, seen: Seq::empty() }), ..self }
            },
            NetworkTransactionEvent::SessionClosed { peer } => if known(self.peers, peer) {
                TransactionsView { peers: self.peers.remove(slot(self.peers, peer)), ..self }
            } else {
                self
            },
            NetworkTransactionEvent::IncomingTransactions { peer, transactions } => self.after_touch(
                peer,
                hashes_of(transactions@),
            ),
            NetworkTransactionEvent::IncomingPooledTransactionHashes { peer, hashes } => self.after_touch(
                peer,
                hashes@,
            ),
        }
    }

    /// What is left to do once the manager took up `event`.
    pub open spec fn action_for(self, event: NetworkTransactionEvent) -> ActionView {
        match event {
            NetworkTransactionEvent::SessionEstablished { peer } => if known(self.peers, peer) {
                ActionView::Nothing
            } else {
                ActionView::AnnouncePending { peer }
            },
            NetworkTransactionEvent::SessionClosed { .. } => ActionView::Nothing,
            NetworkTransactionEvent::IncomingTransactions { peer, transactions } => if known(self.peers, peer) {
                ActionView::Import {
                    peer,
                    transactions: well_shaped_of(transactions@),
                    malformed: (transactions.len() - well_shaped_of(transactions@).len()) as nat,
                }
            } else {
                ActionView::Nothing
            },
            NetworkTransactionEvent::IncomingPooledTransactionHashes { peer, hashes } => if self.unannounced_to(
                peer,
                hashes@,
            ).len() == 0 {
                ActionView::Nothing
            } else {
                ActionView::Request { peer, hashes: self.unannounced_to(peer, hashes@) }
            },
        }
    }
}

/// What the manager keeps of one peer.
struct PeerState {
    peer: PeerId,
    seen: Vec<TxHash>,
}

impl View for PeerState {
    type V = PeerView;

    closed spec fn view(&self) -> PeerView {
        PeerView { peer: self.peer, seen: self.seen@ }
    }
}

/// The entries of `peers` as plain values.
closed spec fn peer_views(peers: Seq<PeerState>) -> Seq<PeerView> {
    Seq::new(peers.len(), |i: int| peers[i]@)
}

/// Looks for the entry of `peer`.
fn find_peer(peers: &Vec<PeerState>, peer: PeerId) -> (r: Option<usize>)
    ensures
        r matches Some(i) ==> i == slot(peer_views(peers@), peer) && i < peers.len(),
        r is Some <==> known(peer_views(peers@), peer),
{
    let ghost views = peer_views(peers@);
    let mut i: usize = 0;
    while i < peers.len()
        invariant
            i <= peers.len(),
            views == peer_views(peers@),
            forall|k: int| 0 <= k < i ==> (#[trigger] views[k]).peer != peer,
        decreases peers.len() - i,
    {
        if peers[i].peer == peer {
            proof {
                assert(views[i as int].peer == peer);
                lemma_slot(views, peer);
            }
            return Some(i);
        }
        i += 1;
    }
    proof {
        lemma_slot(views, peer);
    }
    None
}

/// Records that the peer of entry `i` holds `hashes`, and returns those of
/// them that it was not known to hold.
fn touch(peers: &mut Vec<PeerState>, i: usize, hashes: &Vec<TxHash>, limit: usize) -> (fresh: Vec<TxHash>)
    requires
        i < old(peers).len(),
    ensures
        final(peers).len() == old(peers).len(),
        peer_views(final(peers)@) == peer_views(old(peers)@).update(
            i as int,
            touched(peer_views(old(peers)@)[i as int], hashes@, limit as nat),
        ),
        fresh@ == unannounced(hashes@, peer_views(old(peers)@)[i as int].seen),
{
    let fresh = unannounced_hashes(hashes, &peers[i].seen);
    let seen = remember(&peers[i].seen, hashes, limit);
    peers[i].seen = seen;
    assert(peer_views(peers@) =~= peer_views(old(peers)@).update(
        i as int,
        touched(peer_views(old(peers)@)[i as int], hashes@, limit as nat),
    ));
    fresh
}

/// Offers `hashes` to every peer of `peers`.
fn touch_all(peers: &mut Vec<PeerState>, hashes: &Vec<TxHash>, limit: usize) -> (out: Vec<Announcement>)
    ensures
        peer_views(final(peers)@) == all_touched(peer_views(old(peers)@), hashes@, limit as nat),
        announcement_views(out@) == announcements(peer_views(old(peers)@), hashes@),
{
    let ghost before = peer_views(peers@);
    let mut out: Vec<Announcement> = Vec::new();
    let mut i: usize = 0;
    assert(before.take(0) =~= Seq::<PeerView>::empty());
    assert(announcement_views(out@) =~= Seq::<AnnouncementView>::empty());
    while i < peers.len()
        invariant
            i <= peers.len(),
            peers.len() == before.len(),
            forall|j: int| 0 <= j < i ==> peer_views(peers@)[j] == touched(before[j], hashes@, limit as nat),
            forall|j: int| i <= j < peers.len() ==> peer_views(peers@)[j] == before[j],
            announcement_views(out@) == announcements(before.take(i as int), hashes@),
        decreases peers.len() - i,
    {
        let ghost views = peer_views(peers@);
        let ghost said = announcement_views(out@);
        let peer = peers[i].peer;
        assert(views[i as int].peer == peer);
        let fresh = touch(peers, i, hashes, limit);
        assert(peer_views(peers@) == views.update(i as int, touched(views[i as int], hashes@, limit as nat)));
        assert(before.take(i + 1).drop_last() =~= before.take(i as int));
        if fresh.len() > 0 {
            out.push(Announcement { peer, hashes: fresh });
            assert(announcement_views(out@) =~= said.push(AnnouncementView { peer, hashes: fresh@ }));
        }
        i += 1;
    }
    assert(before.take(i as int) =~= before);
    assert(peer_views(peers@) =~= all_touched(before, hashes@, limit as nat));
    out
}

/// The consumer of the transactions route. It holds the handle of the
/// network manager, the transaction pool, the receiving end of the route,
/// and what it remembers of each connected peer.
pub struct TransactionsManager<Pool> {
    pub(crate) network: NetworkHandle,
    pub(crate) pool: Pool,
    pub(crate) transaction_events: tokio::sync::mpsc::UnboundedReceiver<NetworkTransactionEvent>,
    peers: Vec<PeerState>,
    seen_limit: usize,
}

impl<Pool> View for TransactionsManager<Pool> {
    type V = TransactionsView<Pool>;

    closed spec fn view(&self) -> TransactionsView<Pool> {
        TransactionsView {
            network: self.network,
            pool: self.pool,
            events: self.transaction_events,
            peers: peer_views(self.peers@),
            seen_limit: self.seen_limit as nat,
        }
    }
}

impl<Pool> TransactionsManager<Pool> {
    /// A manager that knows no peer yet and remembers
    /// [`DEFAULT_SEEN_LIMIT`] hashes of each.
    pub fn new(
        network: NetworkHandle,
        pool: Pool,
        events: tokio::sync::mpsc::UnboundedReceiver<NetworkTransactionEvent>,
    ) -> (r: Self)
        ensures
            r@ == (TransactionsView {
                network,
                pool,
                events,
                peers: Seq::empty(),
                seen_limit: DEFAULT_SEEN_LIMIT as nat,
            }),
    {
        Self::with_seen_limit(network, pool, events, DEFAULT_SEEN_LIMIT)
    }

    /// A manager that knows no peer yet and remembers `seen_limit` hashes of
    /// each.
    pub fn with_seen_limit(
        network: NetworkHandle,
        pool: Pool,
        events: tokio::sync::mpsc::UnboundedReceiver<NetworkTransactionEvent>,
        seen_limit: usize,
    ) -> (r: Self)
        ensures
            r@ == (TransactionsView {
                network,
                pool,
                events,
                peers: Seq::empty(),
                seen_limit: seen_limit as nat,
            }),
    {
        let r = TransactionsManager {
            network,
            pool,
            transaction_events: events,
            peers: Vec::new(),
            seen_limit,
        };
        assert(r@.peers =~= Seq::<PeerView>::empty());
        r
    }

    /// The handle of the network manager.
    pub fn network(&self) -> (r: &NetworkHandle)
        ensures
            *r == self@.network,
    {
        &self.network
    }

    /// The transaction pool.
    pub fn pool(&self) -> (r: &Pool)
        ensures
            *r == self@.pool,
    {
        &self.pool
    }

    /// How many hashes are remembered of each peer.
    pub fn seen_limit(&self) -> (r: usize)
        ensures
            r == self@.seen_limit,
    {
        self.seen_limit
    }

    /// How many peers the manager knows.
    pub fn num_peers(&self) -> (r: usize)
        ensures
            r == self@.peers.len(),
    {
        self.peers.len()
    }

    /// Tells whether `peer` is remembered to hold `hash`.
    pub fn has_seen(&self, peer: PeerId, hash: TxHash) -> (r: bool)
        ensures
            r == (known(self@.peers, peer) && self@.peers[slot(self@.peers, peer)].seen.contains(hash)),
    {
        match find_peer(&self.peers, peer) {
            Some(i) => crate::seen::contains_hash(&self.peers[i].seen, hash),
            None => false,
        }
    }

    /// The receiving end of the transactions route, for a caller that waits
    /// on it. The manager is otherwise left as it is.
    pub fn events_mut(&mut self) -> (r: &mut tokio::sync::mpsc::UnboundedReceiver<NetworkTransactionEvent>)
        ensures
            *r == old(self)@.events,
            final(self)@ == (TransactionsView { events: *final(r), ..old(self)@ }),
    {
        &mut self.transaction_events
    }

    /// Takes the next event that the network manager sent, without waiting.
    /// `Disconnected` says that the network manager has closed the route and
    /// that nothing is left in it. The manager stays the consumer of the
    /// route it was wired to.
    pub fn poll_event(&mut self) -> (r: Polled<NetworkTransactionEvent>)
        ensures
            final(self)@ == (TransactionsView { events: final(self)@.events, ..old(self)@ }),
            forall|tx: tokio::sync::mpsc::UnboundedSender<NetworkTransactionEvent>|
                #[trigger] transactions_route_joined(tx, final(self)@.events) == transactions_route_joined(
                    tx,
                    old(self)@.events,
                ),
    {
        try_recv_event(&mut self.transaction_events)
    }

    /// Offers `hashes` to every peer: returns, for each peer that is not
    /// known to hold all of them, the announcement of those it is not known
    /// to hold, and remembers that every peer holds them from now on.
    pub fn propagate(&mut self, hashes: &Vec<TxHash>) -> (r: Vec<Announcement>)
        ensures
            final(self)@ == old(self)@.after_propagate(hashes@),
            announcement_views(r@) == announcements(old(self)@.peers, hashes@),
    {
        touch_all(&mut self.peers, hashes, self.seen_limit)
    }

    /// Offers `hashes` to `peer` alone: returns the announcement of those it
    /// is not known to hold, if there are any, and remembers that it holds
    /// them from now on.
    pub fn announce_to(&mut self, peer: PeerId, hashes: &Vec<TxHash>) -> (r: Option<Announcement>)
        ensures
            final(self)@ == old(self)@.after_touch(peer, hashes@),
            old(self)@.unannounced_to(peer, hashes@).len() == 0 ==> r is None,
            old(self)@.unannounced_to(peer, hashes@).len() > 0 ==> (r matches Some(a) && a@ == (
            AnnouncementView { peer, hashes: old(self)@.unannounced_to(peer, hashes@) })),
    {
        match find_peer(&self.peers, peer) {
            None => None,
            Some(i) => {
                let fresh = touch(&mut self.peers, i, hashes, self.seen_limit);
                if fresh.len() > 0 {
                    Some(Announcement { peer, hashes: fresh })
                } else {
                    None
                }
            },
        }
    }

    /// Hands an announcement to the network manager, without waiting. The
    /// command is handed back when the network manager is gone.
    pub fn announce(&self, announcement: Announcement) -> (r: Result<(), NetworkHandleMessage>)
        ensures
            r matches Err(m) ==> m == (NetworkHandleMessage::AnnounceTransactions {
                peer: announcement.peer,
                hashes: announcement.hashes,
            }),
    {
        self.network.announce_transactions(announcement.peer, announcement.hashes)
    }

    /// Takes up an event of the network manager and says what is left to do.
    pub fn on_event(&mut self, event: NetworkTransactionEvent) -> (r: TransactionsAction)
        ensures
            final(self)@ == old(self)@.after_event(event),
            r@ == old(self)@.action_for(event),
    {
        match event {
            NetworkTransactionEvent::SessionEstablished { peer } => {
                if find_peer(&self.peers, peer).is_some() {
                    TransactionsAction::Nothing
                } else {
                    self.peers.push(PeerState { peer, seen: Vec::new() });
                    assert(self@.peers =~= old(self)@.peers.push(PeerView { peer, seen: Seq::empty() }));
                    TransactionsAction::AnnouncePending { peer }
                }
            },
            NetworkTransactionEvent::SessionClosed { peer } => {
                match find_peer(&self.peers, peer) {
                    Some(i) => {
                        self.peers.remove(i);
                        assert(self@.peers =~= old(self)@.peers.remove(i as int));
                    },
                    None => {},
                }
                TransactionsAction::Nothing
            },
            NetworkTransactionEvent::IncomingTransactions { peer, transactions } => {
                match find_peer(&self.peers, peer) {
                    None => TransactionsAction::Nothing,
                    Some(i) => {
                        let hashes = transaction_hashes(&transactions);
                        touch(&mut self.peers, i, &hashes, self.seen_limit);
                        let total = transactions.len();
                        let good = keep_well_shaped(transactions);
                        proof {
                            lemma_well_shaped_len(transactions@);
                        }
                        let malformed = total - good.len();
                        TransactionsAction::Import { peer, transactions: good, malformed }
                    },
                }
            },
            NetworkTransactionEvent::IncomingPooledTransactionHashes { peer, hashes } => {
                match find_peer(&self.peers, peer) {
                    None => TransactionsAction::Nothing,
                    Some(i) => {
                        let fresh = touch(&mut self.peers, i, &hashes, self.seen_limit);
                        if fresh.len() > 0 {
                            TransactionsAction::Request { peer, hashes: fresh }
                        } else {
                            TransactionsAction::Nothing
                        }
                    },
                }
            },
        }
    }

    /// Says what the outcome of offering a transaction to the pool means for
    /// the peer that sent it. That the pool did not take a transaction is
    /// never an error of the manager.
    pub fn on_import_result(&self, outcome: Result<(), PoolError>) -> (r: Option<ReputationChangeKind>)
        ensures
            r == reputation_for(outcome),
    {
        match outcome {
            Ok(()) => None,
            Err(PoolError::AlreadyKnown) => Some(ReputationChangeKind::AlreadySeenTransaction),
            Err(PoolError::Underpriced) => None,
            Err(PoolError::Invalid) => Some(ReputationChangeKind::BadTransaction),
        }
    }

    /// Says what it means for the reputation of a peer that `malformed` of
    /// the transactions it sent were not of a shape the pool is offered:
    /// nothing where there was none, a bad message otherwise.
    pub fn on_malformed(&self, malformed: usize) -> (r: Option<ReputationChangeKind>)
        ensures
            r == reputation_for_malformed(malformed as nat),
    {
        if malformed > 0 {
            Some(ReputationChangeKind::BadMessage)
        } else {
            None
        }
    }

    /// Asks the network manager to change the reputation of `peer`. The
    /// command is handed back when the network manager is gone.
    pub fn report(&self, peer: PeerId, kind: ReputationChangeKind) -> (r: Result<(), NetworkHandleMessage>)
        ensures
            r matches Err(m) ==> m == (NetworkHandleMessage::ReputationChange { peer, kind }),
    {
        self.network.peers_handle().reputation_change(peer, kind)
    }
}

/// No more transactions are well shaped than there are.
pub proof fn lemma_well_shaped_len(transactions: Seq<Transaction>)
    ensures
        well_shaped_of(transactions).len() <= transactions.len(),
    decreases transactions.len(),
{
    if transactions.len() > 0 {
        lemma_well_shaped_len(transactions.drop_last());
    }
}

/// Tells whether a transaction is of a shape that the pool is offered.
pub fn is_well_shaped(transaction: &Transaction) -> (r: bool)
    ensures
        r == well_shaped(*transaction),
{
    0 < transaction.payload.len() && transaction.payload.len() <= MAX_TRANSACTION_SIZE
}

/// The hashes of `transactions`, in order.
pub fn transaction_hashes(transactions: &Vec<Transaction>) -> (r: Vec<TxHash>)
    ensures
        r@ == hashes_of(transactions@),
{
    let mut out: Vec<TxHash> = Vec::new();
    let mut i: usize = 0;
    while i < transactions.len()
        invariant
            i <= transactions.len(),
            out.len() == i,
            forall|k: int| 0 <= k < i ==> out@[k] == transactions@[k].hash,
        decreases transactions.len() - i,
    {
        out.push(transactions[i].hash);
        i += 1;
    }
    assert(out@ =~= hashes_of(transactions@));
    out
}

/// The transactions of `transactions` that are well shaped, in order.
pub fn keep_well_shaped(transactions: Vec<Transaction>) -> (r: Vec<Transaction>)
    ensures
        r@ == well_shaped_of(transactions@),
{
    let ghost all = transactions@;
    let mut out: Vec<Transaction> = Vec::new();
    for transaction in it: transactions
        invariant
            it.seq() == all,
            out@ == well_shaped_of(all.take(it.index() as int)),
    {
        assert(all.take(it.index() + 1).drop_last() =~= all.take(it.index() as int));
        if is_well_shaped(&transaction) {
            out.push(transaction);
        }
    }
    assert(all.take(all.len() as int) =~= all);
    out
}

/// Whether `a` is what one of `peers` is told when `hashes` are offered:
/// the hashes that this peer is not known to hold, which are some.
pub open spec fn told(peers: Seq<PeerView>, hashes: Seq<TxHash>, a: AnnouncementView) -> bool {
    exists|i: int|
        0 <= i < peers.len() && (#[trigger] peers[i]).peer == a.peer && a.hashes == unannounced(
            hashes,
            peers[i].seen,
        ) && a.hashes.len() > 0
}

/// Whether the state is in order: no peer has two entries, no entry holds a
/// hash twice, and no entry holds more hashes than the limit allows.
pub open spec fn in_order(peers: Seq<PeerView>, limit: nat) -> bool {
    &&& forall|i: int, j: int|
        0 <= i < j < peers.len() ==> (#[trigger] peers[i]).peer != (#[trigger] peers[j]).peer
    &&& forall|i: int| 0 <= i < peers.len() ==> no_repetition((#[trigger] peers[i]).seen)
    &&& forall|i: int| 0 <= i < peers.len() ==> (#[trigger] peers[i]).seen.len() <= limit
}

/// Nothing is announced twice over: every announcement goes to a peer of
/// `peers`, and holds only hashes that were offered and that this peer was
/// not known to hold, none of them twice.
pub proof fn lemma_announcements_are_new(peers: Seq<PeerView>, hashes: Seq<TxHash>)
    ensures
        forall|k: int|
            0 <= k < announcements(peers, hashes).len() ==> told(
                peers,
                hashes,
                #[trigger] announcements(peers, hashes)[k],
            ),
        forall|i: int, h: TxHash|
            0 <= i < peers.len() && #[trigger] unannounced(hashes, peers[i].seen).contains(h)
                ==> hashes.contains(h) && !peers[i].seen.contains(h),
        forall|i: int| 0 <= i < peers.len() ==> no_repetition(#[trigger] unannounced(hashes, peers[i].seen)),
    decreases peers.len(),
{
    assert forall|i: int, h: TxHash|
        0 <= i < peers.len() && #[trigger] unannounced(hashes, peers[i].seen).contains(h) implies hashes.contains(
        h,
    ) && !peers[i].seen.contains(h) by {
        lemma_unannounced(hashes, peers[i].seen);
    }
    assert forall|i: int| 0 <= i < peers.len() implies no_repetition(
        #[trigger] unannounced(hashes, peers[i].seen),
    ) by {
        lemma_unannounced(hashes, peers[i].seen);
    }
    if peers.len() > 0 {
        let front = peers.drop_last();
        lemma_announcements_are_new(front, hashes);
        let rest = announcements(front, hashes);
        let all = announcements(peers, hashes);
        assert forall|k: int| 0 <= k < all.len() implies told(peers, hashes, #[trigger] all[k]) by {
            if k < rest.len() {
                assert(told(front, hashes, rest[k]));
                let i = choose|i: int|
                    0 <= i < front.len() && (#[trigger] front[i]).peer == rest[k].peer && rest[k].hashes
                        == unannounced(hashes, front[i].seen) && rest[k].hashes.len() > 0;
                assert(peers[i] == front[i]);
            } else {
                assert(peers[peers.len() - 1].peer == all[k].peer);
            }
        }
    }
}

/// One offer tells a peer at most once: where no peer has two entries, no
/// two of the announcements that one offer gives go to the same peer.
pub proof fn lemma_one_announcement_per_peer(peers: Seq<PeerView>, hashes: Seq<TxHash>)
    requires
        forall|i: int, j: int|
            0 <= i < j < peers.len() ==> (#[trigger] peers[i]).peer != (#[trigger] peers[j]).peer,
    ensures
        announcements(peers, hashes).len() <= peers.len(),
        forall|a: int, b: int|
            0 <= a < b < announcements(peers, hashes).len() ==> (#[trigger] announcements(peers, hashes)[a]).peer
                != (#[trigger] announcements(peers, hashes)[b]).peer,
    decreases peers.len(),
{
    if peers.len() > 0 {
        let front = peers.drop_last();
        assert forall|i: int, j: int| 0 <= i < j < front.len() implies (#[trigger] front[i]).peer != (
        #[trigger] front[j]).peer by {
            assert(front[i] == peers[i]);
            assert(front[j] == peers[j]);
        }
        lemma_one_announcement_per_peer(front, hashes);
        lemma_announcements_are_new(front, hashes);
        let rest = announcements(front, hashes);
        let all = announcements(peers, hashes);
        assert forall|a: int, b: int| 0 <= a < b < all.len() implies (#[trigger] all[a]).peer != (
        #[trigger] all[b]).peer by {
            assert(all[a] == rest[a]);
            if b < rest.len() {
                assert(all[b] == rest[b]);
            } else {
                assert(told(front, hashes, rest[a]));
                let i = choose|i: int|
                    0 <= i < front.len() && (#[trigger] front[i]).peer == rest[a].peer && rest[a].hashes
                        == unannounced(hashes, front[i].seen) && rest[a].hashes.len() > 0;
                assert(front[i] == peers[i]);
                assert(peers[i].peer != peers[peers.len() - 1].peer);
            }
        }
    }
}

/// Where no peer is left with anything it is not known to hold, nothing is
/// announced.
pub proof fn lemma_nothing_to_announce(peers: Seq<PeerView>, hashes: Seq<TxHash>)
    requires
        forall|i: int| 0 <= i < peers.len() ==> unannounced(hashes, (#[trigger] peers[i]).seen).len() == 0,
    ensures
        announcements(peers, hashes) == Seq::<AnnouncementView>::empty(),
    decreases peers.len(),
{
    if peers.len() > 0 {
        let front = peers.drop_last();
        assert forall|i: int| 0 <= i < front.len() implies unannounced(hashes, (#[trigger] front[i]).seen).len()
            == 0 by {
            assert(front[i] == peers[i]);
        }
        lemma_nothing_to_announce(front, hashes);
        assert(unannounced(hashes, peers[peers.len() - 1].seen).len() == 0);
    }
}

/// A peer that was just found to hold `hashes` is left with nothing of them
/// to be told, as long as they are no more than the limit.
pub proof fn lemma_touched_knows(entry: PeerView, hashes: Seq<TxHash>, limit: nat)
    requires
        distinct(hashes).len() <= limit,
    ensures
        unannounced(hashes, touched(entry, hashes, limit).seen) == Seq::<TxHash>::empty(),
{
    lemma_remembered(entry.seen, hashes, limit);
    lemma_excluding_all(hashes, remembered(entry.seen, hashes, limit));
}

/// Announcing is idempotent: when the same hashes are offered to every peer
/// a second time, nothing is announced. This holds as long as the hashes,
/// counted once each, are no more than the manager remembers of a peer.
pub proof fn lemma_propagate_is_idempotent<Pool>(state: TransactionsView<Pool>, hashes: Seq<TxHash>)
    requires
        distinct(hashes).len() <= state.seen_limit,
    ensures
        announcements(state.after_propagate(hashes).peers, hashes) == Seq::<AnnouncementView>::empty(),
{
    let after = state.after_propagate(hashes).peers;
    assert forall|i: int| 0 <= i < after.len() implies unannounced(hashes, (#[trigger] after[i]).seen).len()
        == 0 by {
        lemma_touched_knows(state.peers[i], hashes, state.seen_limit);
    }
    lemma_nothing_to_announce(after, hashes);
}

/// Which entry is a peer's depends on the peers of the entries alone.
pub proof fn lemma_slot_follows_peers(a: Seq<PeerView>, b: Seq<PeerView>, peer: PeerId)
    requires
        a.len() == b.len(),
        forall|i: int| 0 <= i < a.len() ==> (#[trigger] a[i]).peer == b[i].peer,
    ensures
        slot(a, peer) == slot(b, peer),
        known(a, peer) == known(b, peer),
    decreases a.len(),
{
    lemma_slot(a, peer);
    lemma_slot(b, peer);
    if a.len() > 0 {
        assert(a[0].peer == b[0].peer);
        if a.first().peer != peer {
            let ra = a.drop_first();
            let rb = b.drop_first();
            assert forall|i: int| 0 <= i < ra.len() implies (#[trigger] ra[i]).peer == rb[i].peer by {
                assert(ra[i] == a[i + 1]);
                assert(a[i + 1].peer == b[i + 1].peer);
            }
            lemma_slot_follows_peers(ra, rb, peer);
        }
    }
}

/// Announcing to one peer is idempotent: when the same hashes are offered
/// to the peer a second time, there is nothing it is not known to hold. This
/// holds as long as the hashes, counted once each, are no more than the
/// manager remembers of a peer.
pub proof fn lemma_announce_to_is_idempotent<Pool>(
    state: TransactionsView<Pool>,
    peer: PeerId,
    hashes: Seq<TxHash>,
)
    requires
        distinct(hashes).len() <= state.seen_limit,
    ensures
        state.after_touch(peer, hashes).unannounced_to(peer, hashes) == Seq::<TxHash>::empty(),
{
    if known(state.peers, peer) {
        let i = slot(state.peers, peer);
        lemma_slot(state.peers, peer);
        let after = state.after_touch(peer, hashes).peers;
        lemma_slot_follows_peers(state.peers, after, peer);
        lemma_touched_knows(state.peers[i], hashes, state.seen_limit);
    }
}

/// A peer whose session just came up is told of what the pool holds exactly
/// once: the first offer announces every hash once, and a second offer of
/// the same hashes announces nothing. This holds as long as the hashes,
/// counted once each, are no more than the manager remembers of a peer.
pub proof fn lemma_new_peer_is_told_once<Pool>(state: TransactionsView<Pool>, peer: PeerId, hashes: Seq<TxHash>)
    requires
        !known(state.peers, peer),
        distinct(hashes).len() <= state.seen_limit,
    ensures
        state.after_event(NetworkTransactionEvent::SessionEstablished { peer }).unannounced_to(peer, hashes)
            == distinct(hashes),
        state.after_event(NetworkTransactionEvent::SessionEstablished { peer }).after_touch(
            peer,
            hashes,
        ).unannounced_to(peer, hashes) == Seq::<TxHash>::empty(),
{
    let up = state.after_event(NetworkTransactionEvent::SessionEstablished { peer });
    lemma_slot(state.peers, peer);
    lemma_slot(up.peers, peer);
    assert(up.peers[state.peers.len() as int].peer == peer);
    assert(known(up.peers, peer));
    assert forall|i: int| 0 <= i < state.peers.len() implies (#[trigger] up.peers[i]).peer != peer by {
        assert(up.peers[i] == state.peers[i]);
    }
    assert(slot(up.peers, peer) == state.peers.len());
    lemma_excluding_nothing(hashes);
    lemma_announce_to_is_idempotent(up, peer, hashes);
}

/// The state stays in order: whatever the manager takes up, no peer gets
/// two entries, no entry holds a hash twice, and no entry holds more hashes
/// than the manager remembers of a peer.
pub proof fn lemma_state_stays_in_order<Pool>(
    state: TransactionsView<Pool>,
    event: NetworkTransactionEvent,
    peer: PeerId,
    hashes: Seq<TxHash>,
)
    requires
        in_order(state.peers, state.seen_limit),
    ensures
        in_order(state.after_event(event).peers, state.seen_limit),
        in_order(state.after_propagate(hashes).peers, state.seen_limit),
        in_order(state.after_touch(peer, hashes).peers, state.seen_limit),
{
    let limit = state.seen_limit;
    let peers = state.peers;
    assert(in_order(state.after_propagate(hashes).peers, limit)) by {
        let after = state.after_propagate(hashes).peers;
        assert forall|i: int| 0 <= i < after.len() implies no_repetition((#[trigger] after[i]).seen)
            && after[i].seen.len() <= limit by {
            assert(no_repetition(peers[i].seen));
            lemma_remembered(peers[i].seen, hashes, limit);
        }
        assert forall|i: int, j: int| 0 <= i < j < after.len() implies (#[trigger] after[i]).peer != (
        #[trigger] after[j]).peer by {
            assert(peers[i].peer != peers[j].peer);
        }
    }
    if known(peers, peer) {
        lemma_touch_keeps_order(peers, limit, peer, hashes);
    }
    match event {
        NetworkTransactionEvent::SessionEstablished { peer: p } => {
            if !known(peers, p) {
                let after = peers.push(PeerView { peer: p, seen: Seq::empty() });
                assert forall|i: int, j: int| 0 <= i < j < after.len() implies (#[trigger] after[i]).peer != (
                #[trigger] after[j]).peer by {
                    assert(after[i] == peers[i]);
                    if j < peers.len() {
                        assert(after[j] == peers[j]);
                    }
                }
                assert forall|i: int| 0 <= i < after.len() implies no_repetition((#[trigger] after[i]).seen)
                    && after[i].seen.len() <= limit by {
                    if i < peers.len() {
                        assert(after[i] == peers[i]);
                    }
                }
            }
        },
        NetworkTransactionEvent::SessionClosed { peer: p } => {
            if known(peers, p) {
                lemma_slot(peers, p);
                let at = slot(peers, p);
                let after = peers.remove(at);
                assert forall|i: int| 0 <= i < after.len() implies #[trigger] after[i] == peers[if i < at {
                    i
                } else {
                    i + 1
                }] by {}
                assert forall|i: int, j: int| 0 <= i < j < after.len() implies (#[trigger] after[i]).peer != (
                #[trigger] after[j]).peer by {
                    let a = if i < at { i } else { i + 1 };
                    let b = if j < at { j } else { j + 1 };
                    assert(peers[a].peer != peers[b].peer);
                }
                assert forall|i: int| 0 <= i < after.len() implies no_repetition((#[trigger] after[i]).seen)
                    && after[i].seen.len() <= limit by {
                    let a = if i < at { i } else { i + 1 };
                    assert(no_repetition(peers[a].seen));
                }
            }
        },
        NetworkTransactionEvent::IncomingTransactions { peer: p, transactions } => {
            if known(peers, p) {
                lemma_touch_keeps_order(peers, limit, p, hashes_of(transactions@));
            }
        },
        NetworkTransactionEvent::IncomingPooledTransactionHashes { peer: p, hashes: announced } => {
            if known(peers, p) {
                lemma_touch_keeps_order(peers, limit, p, announced@);
            }
        },
    }
}

/// Finding a peer to hold some hashes keeps the state in order.
pub proof fn lemma_touch_keeps_order(peers: Seq<PeerView>, limit: nat, peer: PeerId, hashes: Seq<TxHash>)
    requires
        in_order(peers, limit),
        known(peers, peer),
    ensures
        in_order(peers.update(slot(peers, peer), touched(peers[slot(peers, peer)], hashes, limit)), limit),
{
    lemma_slot(peers, peer);
    let at = slot(peers, peer);
    let after = peers.update(at, touched(peers[at], hashes, limit));
    assert(no_repetition(peers[at].seen));
    lemma_remembered(peers[at].seen, hashes, limit);
    assert forall|i: int, j: int| 0 <= i < j < after.len() implies (#[trigger] after[i]).peer != (
    #[trigger] after[j]).peer by {
        assert(peers[i].peer != peers[j].peer);
    }
    assert forall|i: int| 0 <= i < after.len() implies no_repetition((#[trigger] after[i]).seen)
        && after[i].seen.len() <= limit by {
        if i != at {
            assert(after[i] == peers[i]);
        }
    }
}

/// Offering batches to every peer touches the memories alone: the peers
/// stay the same, and the memory of each is what it becomes when the peer is
/// found to hold each batch in turn.
pub proof fn lemma_after_propagating<Pool>(state: TransactionsView<Pool>, batches: Seq<Seq<TxHash>>)
    ensures
        state.after_propagating(batches).peers.len() == state.peers.len(),
        state.after_propagating(batches).seen_limit == state.seen_limit,
        forall|p: int|
            0 <= p < state.peers.len() ==> #[trigger] state.after_propagating(batches).peers[p] == (PeerView {
                peer: state.peers[p].peer,
                seen: remembered_all(state.peers[p].seen, batches, state.seen_limit),
            }),
    decreases batches.len(),
{
    if batches.len() > 0 {
        lemma_after_propagating(state, batches.drop_last());
    }
}

/// No peer is told of a hash twice: when batches of hashes are offered to
/// every peer one after the other, a hash that a peer was told of with one
/// batch is not among what it is told with a later batch. This holds of a
/// peer while its memory has room for what it held and all the batches.
pub proof fn lemma_no_peer_is_told_twice<Pool>(
    state: TransactionsView<Pool>,
    batches: Seq<Seq<TxHash>>,
    i: int,
    j: int,
    p: int,
)
    requires
        0 <= i < j < batches.len(),
        0 <= p < state.peers.len(),
        state.peers[p].seen.len() + total_hashes(batches) <= state.seen_limit,
    ensures
        state.after_propagating(batches.take(i)).peers[p].peer == state.peers[p].peer,
        state.after_propagating(batches.take(j)).peers[p].peer == state.peers[p].peer,
        forall|h: TxHash|
            !(#[trigger] unannounced(batches[i], state.after_propagating(batches.take(i)).peers[p].seen).contains(
                h,
            ) && unannounced(batches[j], state.after_propagating(batches.take(j)).peers[p].seen).contains(h)),
{
    lemma_after_propagating(state, batches.take(i));
    lemma_after_propagating(state, batches.take(j));
    lemma_never_told_twice(state.peers[p].seen, batches, state.seen_limit, i, j);
}

/// A peer is told of a hash again only after the manager forgot something
/// of it: when batches of hashes are offered to every peer one after the
/// other, and the memory of a peer forgot nothing before batch `j`, then no
/// hash that the peer was told of with an earlier batch is among what it is
/// told with batch `j`.
pub proof fn lemma_peer_is_told_again_only_after_forgetting<Pool>(
    state: TransactionsView<Pool>,
    batches: Seq<Seq<TxHash>>,
    i: int,
    j: int,
    p: int,
)
    requires
        0 <= i < j < batches.len(),
        0 <= p < state.peers.len(),
        forgot_nothing(state.peers[p].seen, batches.take(j), state.seen_limit),
    ensures
        forall|h: TxHash|
            !(#[trigger] unannounced(batches[i], state.after_propagating(batches.take(i)).peers[p].seen).contains(
                h,
            ) && unannounced(batches[j], state.after_propagating(batches.take(j)).peers[p].seen).contains(h)),
{
    lemma_after_propagating(state, batches.take(i));
    lemma_after_propagating(state, batches.take(j));
    lemma_told_again_only_after_forgetting(state.peers[p].seen, batches, state.seen_limit, i, j);
}

} // verus!
