//! The request handler: it answers the data requests of peers from what the
//! block client holds, and bounds what a single answer may cost.
//!
//! The handler never touches the client itself. For each request it says
//! what is to be looked up, and from what the lookup gave it builds the
//! response, so that every decision it makes is a function of plain values.

use vstd::prelude::*;
use crate::channel::{request_route_joined, try_recv, Polled};
use crate::handle::NetworkHandleMessage;
use crate::message::{EthRequest, HeadersRequest, IncomingEthRequest};
use crate::peers::{PeersHandle, ReputationChangeKind};
use crate::primitives::{BlockHash, PeerId};

verus! {

/// The most headers that one response carries.
pub const MAX_HEADERS_SERVE: usize = 1024;

/// The most block bodies that one response carries.
pub const MAX_BODIES_SERVE: usize = 1024;

/// The most receipt lists that one response carries.
pub const MAX_RECEIPTS_SERVE: usize = 1024;

/// Once a response holds this many bytes, nothing more is added to it.
pub const SOFT_RESPONSE_LIMIT: usize = 2_097_152;

/// What a response carries.
#[derive(Clone, Copy, Debug, PartialEq, Eq, Structural)]
pub enum ResponseKind {
    BlockHeaders,
    BlockBodies,
    Receipts,
}

impl ResponseKind {
    /// The most items that a response of this kind carries.
    pub open spec fn max_items_of(self) -> nat {
        match self {
            ResponseKind::BlockHeaders => MAX_HEADERS_SERVE as nat,
            ResponseKind::BlockBodies => MAX_BODIES_SERVE as nat,
            ResponseKind::Receipts => MAX_RECEIPTS_SERVE as nat,
        }
    }

    /// The most items that a response of this kind carries.
    pub fn max_items(self) -> (r: usize)
        ensures
            r == self.max_items_of(),
    {
        match self {
            ResponseKind::BlockHeaders => MAX_HEADERS_SERVE,
            ResponseKind::BlockBodies => MAX_BODIES_SERVE,
            ResponseKind::Receipts => MAX_RECEIPTS_SERVE,
        }
    }
}

/// What is to be looked up in the block client.
#[derive(Debug, PartialEq, Eq)]
pub enum ClientQuery {
    /// The headers of a range.
    Headers(HeadersRequest),
    /// The bodies of these blocks, in this order.
    Bodies(Vec<BlockHash>),
    /// The receipts of these blocks, in this order.
    Receipts(Vec<BlockHash>),
}

/// A [`ClientQuery`] as a plain value.
pub enum QueryView {
    Headers(HeadersRequest),
    Bodies(Seq<BlockHash>),
    Receipts(Seq<BlockHash>),
}

impl View for ClientQuery {
    type V = QueryView;

    open spec fn view(&self) -> QueryView {
        match self {
            ClientQuery::Headers(range) => QueryView::Headers(*range),
            ClientQuery::Bodies(hashes) => QueryView::Bodies(hashes@),
            ClientQuery::Receipts(hashes) => QueryView::Receipts(hashes@),
        }
    }
}

impl ClientQuery {
    /// The kind of response that answers this query.
    pub open spec fn kind_of(&self) -> ResponseKind {
        match self {
            ClientQuery::Headers(_) => ResponseKind::BlockHeaders,
            ClientQuery::Bodies(_) => ResponseKind::BlockBodies,
            ClientQuery::Receipts(_) => ResponseKind::Receipts,
        }
    }

    /// The kind of response that answers this query.
    pub fn kind(&self) -> (r: ResponseKind)
        ensures
            r == self.kind_of(),
    {
        match self {
            ClientQuery::Headers(_) => ResponseKind::BlockHeaders,
            ClientQuery::Bodies(_) => ResponseKind::BlockBodies,
            ClientQuery::Receipts(_) => ResponseKind::Receipts,
        }
    }
}

/// What the handler decides on a request.
#[derive(Debug, PartialEq, Eq)]
pub enum HandlerAction {
    /// Look `query` up and answer `peer` with what is found.
    Lookup { peer: PeerId, request_id: u64, query: ClientQuery },
    /// The request is not well formed. Nothing is looked up; what happens to
    /// the peer is decided elsewhere.
    Malformed { peer: PeerId },
}

/// The response to one data request.
#[derive(Debug, PartialEq, Eq)]
pub struct EthResponse {
    /// The peer that asked.
    pub peer: PeerId,
    /// The number of the request that this answers.
    pub request_id: u64,
    /// What the items are.
    pub kind: ResponseKind,
    /// The encoded items, in the order in which they were asked for.
    pub items: Vec<Vec<u8>>,
}

/// The first `max` elements of `keys`, or all of them where there are fewer.
pub open spec fn capped<T>(keys: Seq<T>, max: nat) -> Seq<T> {
    if keys.len() <= max {
        keys
    } else {
        keys.take(max as int)
    }
}

/// The lookup that answers `request`: the keys of the request, cut down to
/// as many as one response may carry.
pub open spec fn query_for(request: EthRequest) -> QueryView {
    match request {
        EthRequest::GetBlockHeaders(range) => QueryView::Headers(
            HeadersRequest {
                limit: if range.limit <= MAX_HEADERS_SERVE {
                    range.limit
                } else {
                    MAX_HEADERS_SERVE as u64
                },
                ..range
            },
        ),
        EthRequest::GetBlockBodies(hashes) => QueryView::Bodies(capped(hashes@, MAX_BODIES_SERVE as nat)),
        EthRequest::GetReceipts(hashes) => QueryView::Receipts(capped(hashes@, MAX_RECEIPTS_SERVE as nat)),
    }
}

/// The sizes of `items`, added up.
pub open spec fn total_len(items: Seq<Vec<u8>>) -> nat
    decreases items.len(),
{
    if items.len() == 0 {
        0
    } else {
        total_len(items.drop_last()) + items.last().len() as nat
    }
}

/// Whether a response that holds the first `k` items of `found` takes no
/// further item: nothing is left, or it holds as many items as it may, or it
/// has reached [`SOFT_RESPONSE_LIMIT`].
pub open spec fn stops_at(found: Seq<Vec<u8>>, max_items: nat, k: int) -> bool {
    k >= found.len() || k >= max_items || total_len(found.take(k)) >= SOFT_RESPONSE_LIMIT
}

/// The first place at or after `k` at which the response stops.
pub open spec fn first_stop(found: Seq<Vec<u8>>, max_items: nat, k: int) -> int
    decreases found.len() - k,
{
    if stops_at(found, max_items, k) {
        k
    } else {
        first_stop(found, max_items, k + 1)
    }
}

/// What is served of `found`: its items in order, up to the first place at
/// which the response stops.
pub open spec fn served(found: Seq<Vec<u8>>, max_items: nat) -> Seq<Vec<u8>> {
    found.take(first_stop(found, max_items, 0))
}

/// `total_len` of a sequence that grew by one item.
pub proof fn lemma_total_len_take(items: Seq<Vec<u8>>, k: int)
    requires
        0 <= k < items.len(),
    ensures
        total_len(items.take(k + 1)) == total_len(items.take(k)) + items[k].len(),
{
    assert(items.take(k + 1).drop_last() =~= items.take(k));
}

/// `total_len` never shrinks as a sequence grows.
pub proof fn lemma_total_len_monotonic(items: Seq<Vec<u8>>, j: int, k: int)
    requires
        0 <= j <= k <= items.len(),
    ensures
        total_len(items.take(j)) <= total_len(items.take(k)),
    decreases k - j,
{
    if j < k {
        lemma_total_len_take(items, k - 1);
        lemma_total_len_monotonic(items, j, k - 1);
    }
}

/// `first_stop` is the first place at or after `k` at which the response
/// stops, and lies within `found`.
pub proof fn lemma_first_stop(found: Seq<Vec<u8>>, max_items: nat, k: int)
    requires
        0 <= k <= found.len(),
    ensures
        k <= first_stop(found, max_items, k) <= found.len(),
        stops_at(found, max_items, first_stop(found, max_items, k)),
        forall|j: int| k <= j < first_stop(found, max_items, k) ==> !stops_at(found, max_items, j),
    decreases found.len() - k,
{
    if !stops_at(found, max_items, k) {
        lemma_first_stop(found, max_items, k + 1);
    }
}

/// What a response is held to: it serves the items found in their order,
/// from the first on and without a gap; it carries no more items than
/// `max_items`; and what it held before its last item was below
/// [`SOFT_RESPONSE_LIMIT`], so that it passes the limit by less than one
/// item.
pub proof fn lemma_served_is_bounded(found: Seq<Vec<u8>>, max_items: nat)
    ensures
        served(found, max_items).len() <= found.len(),
        served(found, max_items) == found.take(served(found, max_items).len() as int),
        served(found, max_items).len() <= max_items,
        served(found, max_items).len() > 0 ==> total_len(served(found, max_items).drop_last())
            < SOFT_RESPONSE_LIMIT,
{
    lemma_first_stop(found, max_items, 0);
    let n = first_stop(found, max_items, 0);
    if n > 0 {
        assert(!stops_at(found, max_items, n - 1));
        assert(found.take(n).drop_last() =~= found.take(n - 1));
    }
}

/// A response leaves nothing out without need: where the items found are no
/// more than `max_items` and all but the last of them stay below
/// [`SOFT_RESPONSE_LIMIT`], the response is exactly what was found.
pub proof fn lemma_served_in_full(found: Seq<Vec<u8>>, max_items: nat)
    requires
        found.len() <= max_items,
        found.len() > 0 ==> total_len(found.drop_last()) < SOFT_RESPONSE_LIMIT,
    ensures
        served(found, max_items) == found,
{
    lemma_first_stop(found, max_items, 0);
    let n = first_stop(found, max_items, 0);
    if n < found.len() {
        lemma_total_len_monotonic(found, n, found.len() - 1);
        assert(found.take(found.len() - 1) =~= found.drop_last());
    }
    assert(found.take(found.len() as int) =~= found);
}

/// The round trip of a request: hashes that are no more than a response
/// may carry are looked up as they were asked for; a lookup that found one
/// item is answered with exactly that item, and a lookup that found nothing
/// with an empty response.
pub proof fn lemma_round_trip(hashes: Vec<BlockHash>, item: Vec<u8>, kind: ResponseKind)
    requires
        hashes.len() <= MAX_BODIES_SERVE,
    ensures
        query_for(EthRequest::GetBlockBodies(hashes)) == QueryView::Bodies(hashes@),
        query_for(EthRequest::GetReceipts(hashes)) == QueryView::Receipts(hashes@),
        served(seq![item], kind.max_items_of()) == seq![item],
        served(Seq::<Vec<u8>>::empty(), kind.max_items_of()) == Seq::<Vec<u8>>::empty(),
{
    let one = seq![item];
    assert(one.drop_last() =~= Seq::<Vec<u8>>::empty());
    lemma_served_in_full(one, kind.max_items_of());
    lemma_served_in_full(Seq::<Vec<u8>>::empty(), kind.max_items_of());
}

/// The consumer of the request route. It holds the client that answers
/// lookups, the accessor to the peer set, and the receiving end of the route.
pub struct EthRequestHandler<Client> {
    pub(crate) client: Client,
    pub(crate) peers: PeersHandle,
    pub(crate) incoming_requests: tokio::sync::mpsc::Receiver<IncomingEthRequest>,
}

/// The state of a request handler.
pub struct HandlerView<Client> {
    /// The client that answers block lookups.
    pub client: Client,
    /// The accessor to the peer set.
    pub peers: PeersHandle,
    /// The receiving end of the request route.
    pub incoming: tokio::sync::mpsc::Receiver<IncomingEthRequest>,
}

impl<Client> View for EthRequestHandler<Client> {
    type V = HandlerView<Client>;

    closed spec fn view(&self) -> HandlerView<Client> {
        HandlerView { client: self.client, peers: self.peers, incoming: self.incoming_requests }
    }
}

impl<Client> EthRequestHandler<Client> {
    /// A handler that answers from `client` the requests that arrive on
    /// `incoming`.
    pub fn new(
        client: Client,
        peers: PeersHandle,
        incoming: tokio::sync::mpsc::Receiver<IncomingEthRequest>,
    ) -> (r: Self)
        ensures
            r@ == (HandlerView { client, peers, incoming }),
    {
        EthRequestHandler { client, peers, incoming_requests: incoming }
    }

    /// The client that answers block lookups.
    pub fn client(&self) -> (r: &Client)
        ensures
            *r == self@.client,
    {
        &self.client
    }

    /// The accessor to the peer set.
    pub fn peers(&self) -> (r: &PeersHandle)
        ensures
            *r == self@.peers,
    {
        &self.peers
    }

    /// The receiving end of the request route, for a caller that waits on
    /// it. The handler is otherwise left as it is.
    pub fn requests_mut(&mut self) -> (r: &mut tokio::sync::mpsc::Receiver<IncomingEthRequest>)
        ensures
            *r == old(self)@.incoming,
            final(self)@ == (HandlerView { incoming: *final(r), ..old(self)@ }),
    {
        &mut self.incoming_requests
    }

    /// Takes the next request that the manager sent, without waiting.
    /// `Disconnected` says that the manager has closed the route and that
    /// nothing is left in it. The handler stays the consumer of the route it
    /// was wired to.
    pub fn poll_request(&mut self) -> (r: Polled<IncomingEthRequest>)
        ensures
            final(self)@ == (HandlerView { incoming: final(self)@.incoming, ..old(self)@ }),
            forall|tx: tokio::sync::mpsc::Sender<IncomingEthRequest>|
                #[trigger] request_route_joined(tx, final(self)@.incoming) == request_route_joined(
                    tx,
                    old(self)@.incoming,
                ),
    {
        try_recv(&mut self.incoming_requests)
    }

    /// Decides what to do with a request: a request that is not well formed
    /// is reported; for any other, the lookup that answers it.
    pub fn on_request(&self, request: IncomingEthRequest) -> (r: HandlerAction)
        ensures
            !request.well_formed() ==> r == (HandlerAction::Malformed { peer: request.peer }),
            request.well_formed() ==> (r matches HandlerAction::Lookup { peer, request_id, query }
                && peer == request.peer && request_id == request.request_id && query@ == query_for(
                request.request,
            )),
    {
        if !request.is_well_formed() {
            return HandlerAction::Malformed { peer: request.peer };
        }
        let IncomingEthRequest { peer, request_id, encoded_len: _, request } = request;
        let query = match request {
            EthRequest::GetBlockHeaders(range) => {
                let limit: u64 = if range.limit <= MAX_HEADERS_SERVE as u64 {
                    range.limit
                } else {
                    MAX_HEADERS_SERVE as u64
                };
                ClientQuery::Headers(
                    HeadersRequest { start: range.start, limit, skip: range.skip, reverse: range.reverse },
                )
            },
            EthRequest::GetBlockBodies(hashes) => ClientQuery::Bodies(cap_keys(hashes, MAX_BODIES_SERVE)),
            EthRequest::GetReceipts(hashes) => ClientQuery::Receipts(cap_keys(hashes, MAX_RECEIPTS_SERVE)),
        };
        HandlerAction::Lookup { peer, request_id, query }
    }

    /// Builds the response to the request `request_id` of `peer` from what
    /// the lookup found: the items of `found` in order, until the response
    /// holds as many as its kind allows or has reached
    /// [`SOFT_RESPONSE_LIMIT`]. Data that the client does not hold is simply
    /// not among `found`, so the response to a request for unknown data is
    /// empty or partial.
    pub fn respond(&self, peer: PeerId, request_id: u64, kind: ResponseKind, found: Vec<Vec<u8>>) -> (r:
        EthResponse)
        ensures
            r.peer == peer,
            r.request_id == request_id,
            r.kind == kind,
            r.items@ == served(found@, kind.max_items_of()),
    {
        EthResponse { peer, request_id, kind, items: serve(found, kind.max_items()) }
    }

    /// Reports to the manager that `peer` sent a request that is not well
    /// formed. The command is handed back when the manager is gone.
    pub fn report_malformed(&self, peer: PeerId) -> (r: Result<(), NetworkHandleMessage>)
        ensures
            r matches Err(m) ==> m == (NetworkHandleMessage::ReputationChange {
                peer,
                kind: ReputationChangeKind::BadMessage,
            }),
    {
        self.peers.reputation_change(peer, ReputationChangeKind::BadMessage)
    }
}

/// Cuts `keys` down to its first `max` elements.
pub fn cap_keys(keys: Vec<BlockHash>, max: usize) -> (r: Vec<BlockHash>)
    ensures
        r@ == capped(keys@, max as nat),
{
    let mut keys = keys;
    if keys.len() > max {
        keys.truncate(max);
    }
    keys
}

/// Cuts `found` down to what one response serves of it.
pub fn serve(found: Vec<Vec<u8>>, max_items: usize) -> (r: Vec<Vec<u8>>)
    ensures
        r@ == served(found@, max_items as nat),
{
    let mut found = found;
    let mut n: usize = 0;
    let mut total: usize = 0;
    while n < found.len() && n < max_items && total < SOFT_RESPONSE_LIMIT
        invariant
            n <= found.len(),
            n <= max_items,
            total <= SOFT_RESPONSE_LIMIT,
            total < SOFT_RESPONSE_LIMIT ==> total == total_len(found@.take(n as int)),
            total == SOFT_RESPONSE_LIMIT ==> total_len(found@.take(n as int)) >= SOFT_RESPONSE_LIMIT,
            first_stop(found@, max_items as nat, 0) == first_stop(found@, max_items as nat, n as int),
        decreases found.len() - n,
    {
        proof {
            lemma_total_len_take(found@, n as int);
        }
        let len = found[n].len();
        if len >= SOFT_RESPONSE_LIMIT - total {
            total = SOFT_RESPONSE_LIMIT;
        } else {
            total = total + len;
        }
        n = n + 1;
    }
    found.truncate(n);
    found
}

} // verus!
