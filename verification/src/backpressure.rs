//! The bound on queued data requests, and what follows from it.
//!
//! The request route is a bounded channel shared by two tasks, so what it
//! holds is known to neither end alone. This file states, as a model, what
//! the network manager relies on such a channel to do: it takes a request
//! while it holds fewer than its bound, hands a request back when it holds
//! as many, and gives requests out in the order in which it took them. The
//! laws below hold of the manager's decisions taken against that model.

use vstd::prelude::*;
use crate::builder::{wired_request_handler, NetworkBuilder, ETH_REQUEST_CHANNEL_CAPACITY};
use crate::channel::request_route_capacity;
use crate::eth_requests::EthRequestHandler;
use crate::channel::{Polled, TrySend};
use crate::manager::{dispatch_of_try_send, full_route_action, BackpressurePolicy, Dispatch, ManagerView};
use crate::message::{IncomingEthRequest, MAX_MESSAGE_SIZE};

verus! {

/// A bounded route: its bound, and the requests it holds, oldest first.
pub struct RouteModel {
    pub capacity: nat,
    pub queued: Seq<IncomingEthRequest>,
}

/// The encoded sizes of `requests`, added up.
pub open spec fn encoded_bytes(requests: Seq<IncomingEthRequest>) -> nat
    decreases requests.len(),
{
    if requests.len() == 0 {
        0
    } else {
        encoded_bytes(requests.drop_last()) + requests.last().encoded_len as nat
    }
}

/// The requests of `requests` that are well formed, in order.
pub open spec fn well_formed_of(requests: Seq<IncomingEthRequest>) -> Seq<IncomingEthRequest>
    decreases requests.len(),
{
    if requests.len() == 0 {
        Seq::empty()
    } else {
        let rest = well_formed_of(requests.drop_last());
        if requests.last().well_formed() {
            rest.push(requests.last())
        } else {
            rest
        }
    }
}

/// What becomes of a request that finds room: it is delivered, unless it is
/// not well formed.
pub open spec fn fate_with_room(request: IncomingEthRequest) -> Dispatch {
    if request.well_formed() {
        Dispatch::Delivered
    } else {
        Dispatch::Malformed { peer: request.peer }
    }
}

impl RouteModel {
    /// Whether the route is within its bound and holds well-formed requests
    /// only.
    pub open spec fn sound(self) -> bool {
        &&& self.queued.len() <= self.capacity
        &&& forall|i: int| 0 <= i < self.queued.len() ==> (#[trigger] self.queued[i]).well_formed()
    }

    /// An attempt to send: the route takes the request while it holds fewer
    /// than its bound, and hands it back otherwise.
    pub open spec fn try_send(self, request: IncomingEthRequest) -> (RouteModel, TrySend<IncomingEthRequest>) {
        if self.queued.len() < self.capacity {
            (RouteModel { queued: self.queued.push(request), ..self }, TrySend::Sent)
        } else {
            (self, TrySend::Full(request))
        }
    }

    /// An attempt to receive: the route gives out its oldest request, if it
    /// holds one.
    pub open spec fn try_recv(self) -> (RouteModel, Polled<IncomingEthRequest>) {
        if self.queued.len() > 0 {
            (RouteModel { queued: self.queued.drop_first(), ..self }, Polled::Ready(self.queued.first()))
        } else {
            (self, Polled::Empty)
        }
    }

    /// What the manager does with `request` on this route: a request that
    /// is not well formed is reported and never sent; any other is sent, and
    /// its fate follows from how the attempt ended.
    pub open spec fn forward(self, request: IncomingEthRequest, policy: BackpressurePolicy) -> (
        RouteModel,
        Dispatch,
    ) {
        if !request.well_formed() {
            (self, Dispatch::Malformed { peer: request.peer })
        } else {
            (self.try_send(request).0, dispatch_of_try_send(self.try_send(request).1, policy))
        }
    }

    /// What the manager does with `requests`, one after the other, while
    /// nothing is received in between.
    pub open spec fn forward_all(self, requests: Seq<IncomingEthRequest>, policy: BackpressurePolicy) -> (
        RouteModel,
        Seq<Dispatch>,
    )
        decreases requests.len(),
    {
        if requests.len() == 0 {
            (self, Seq::empty())
        } else {
            let before = self.forward_all(requests.drop_last(), policy);
            let last = before.0.forward(requests.last(), policy);
            (last.0, before.1.push(last.1))
        }
    }
}

/// The model admits no fate that the manager's contract rules out: what
/// becomes of a request on the model is among the fates that
/// [`ManagerView::may_dispatch_request`] allows a manager with a request
/// route and the same policy.
pub proof fn lemma_model_fate_is_allowed<C>(
    route: RouteModel,
    manager: ManagerView<C>,
    request: IncomingEthRequest,
)
    requires
        manager.eth_request_route is Some,
    ensures
        manager.may_dispatch_request(
            request.peer,
            request.request_id,
            request.encoded_len,
            route.forward(request, manager.policy).1,
        ),
{
}

/// Forwarding and receiving keep a route sound.
pub proof fn lemma_route_stays_sound(route: RouteModel, request: IncomingEthRequest, policy: BackpressurePolicy)
    requires
        route.sound(),
    ensures
        route.forward(request, policy).0.sound(),
        route.try_recv().0.sound(),
{
    let sent = route.forward(request, policy).0;
    assert forall|i: int| 0 <= i < sent.queued.len() implies (#[trigger] sent.queued[i]).well_formed() by {
        if i < route.queued.len() {
            assert(sent.queued[i] == route.queued[i]);
        }
    }
    let taken = route.try_recv().0;
    assert forall|i: int| 0 <= i < taken.queued.len() implies (#[trigger] taken.queued[i]).well_formed() by {
        if route.queued.len() > 0 {
            assert(taken.queued[i] == route.queued[i + 1]);
        }
    }
}

/// No more requests are well formed than there are.
pub proof fn lemma_well_formed_len(requests: Seq<IncomingEthRequest>)
    ensures
        well_formed_of(requests).len() <= requests.len(),
    decreases requests.len(),
{
    if requests.len() > 0 {
        lemma_well_formed_len(requests.drop_last());
    }
}

/// No request is dropped for want of room while the route is within its
/// bound: where the requests held and the requests that arrive are together
/// no more than the bound, every request that is well formed is delivered,
/// and the route holds them all in the order of their arrival. (A request
/// that is not well formed is reported, whatever room there is.)
pub proof fn lemma_nothing_dropped_within_capacity(
    route: RouteModel,
    requests: Seq<IncomingEthRequest>,
    policy: BackpressurePolicy,
)
    requires
        route.queued.len() + requests.len() <= route.capacity,
    ensures
        route.forward_all(requests, policy).1.len() == requests.len(),
        forall|i: int|
            0 <= i < requests.len() ==> #[trigger] route.forward_all(requests, policy).1[i] == fate_with_room(
                requests[i],
            ),
        route.forward_all(requests, policy).0 == (RouteModel {
            queued: route.queued + well_formed_of(requests),
            ..route
        }),
    decreases requests.len(),
{
    if requests.len() == 0 {
        assert(route.queued + well_formed_of(requests) =~= route.queued);
    } else {
        let front = requests.drop_last();
        lemma_nothing_dropped_within_capacity(route, front, policy);
        lemma_well_formed_len(front);
        let before = route.forward_all(front, policy);
        let end = route.forward_all(requests, policy);
        assert((route.queued + well_formed_of(front)).push(requests.last()) =~= route.queued + well_formed_of(
            front,
        ).push(requests.last()));
        assert forall|i: int| 0 <= i < requests.len() implies #[trigger] end.1[i] == fate_with_room(
            requests[i],
        ) by {
            if i < front.len() {
                assert(end.1[i] == before.1[i]);
                assert(front[i] == requests[i]);
            }
        }
    }
}

/// A request that finds the route full is turned away at once, and the
/// requests held are not touched: the request is not delivered, and where it
/// is well formed its fate is what the policy says of a full route; the
/// route is the same after as before, so that the next request to be served
/// is the same too.
pub proof fn lemma_full_route_turns_away(route: RouteModel, request: IncomingEthRequest, policy: BackpressurePolicy)
    requires
        route.queued.len() >= route.capacity,
    ensures
        route.forward(request, policy).1 != Dispatch::Delivered,
        request.well_formed() ==> route.forward(request, policy).1 == full_route_action(
            policy,
            request.peer,
            request.request_id,
        ),
        route.forward(request, policy).0 == route,
        route.forward(request, policy).0.try_recv() == route.try_recv(),
{
}

/// A flood: of well-formed requests that arrive at an empty route while
/// nothing is received, as many as the bound are delivered, in the order of
/// their arrival, and every further one is turned away.
pub proof fn lemma_flood(capacity: nat, requests: Seq<IncomingEthRequest>, policy: BackpressurePolicy)
    requires
        forall|i: int| 0 <= i < requests.len() ==> (#[trigger] requests[i]).well_formed(),
    ensures
        ({
            let route = RouteModel { capacity, queued: Seq::empty() };
            let taken = if requests.len() <= capacity { requests.len() } else { capacity };
            let end = route.forward_all(requests, policy);
            &&& end.0 == (RouteModel { capacity, queued: requests.take(taken as int) })
            &&& end.1.len() == requests.len()
            &&& forall|i: int| 0 <= i < taken ==> end.1[i] == Dispatch::Delivered
            &&& forall|i: int|
                taken <= i < requests.len() ==> end.1[i] == full_route_action(
                    policy,
                    requests[i].peer,
                    requests[i].request_id,
                )
        }),
    decreases requests.len(),
{
    let route = RouteModel { capacity, queued: Seq::empty() };
    if requests.len() == 0 {
        assert(requests.take(0) =~= Seq::<IncomingEthRequest>::empty());
    } else {
        let front = requests.drop_last();
        assert forall|i: int| 0 <= i < front.len() implies (#[trigger] front[i]).well_formed() by {
            assert(front[i] == requests[i]);
        }
        lemma_flood(capacity, front, policy);
        let taken_before = if front.len() <= capacity { front.len() } else { capacity };
        let taken = if requests.len() <= capacity { requests.len() } else { capacity };
        let before = route.forward_all(front, policy);
        let end = route.forward_all(requests, policy);
        assert(requests[requests.len() - 1].well_formed());
        assert(before.0.queued == front.take(taken_before as int));
        if requests.len() <= capacity {
            assert(front.take(taken_before as int).push(requests.last()) =~= requests.take(taken as int));
        } else {
            assert(front.take(taken_before as int) =~= requests.take(taken as int));
        }
        assert forall|i: int| 0 <= i < taken implies end.1[i] == Dispatch::Delivered by {
            if i < front.len() {
                assert(end.1[i] == before.1[i]);
            }
        }
        assert forall|i: int| taken <= i < requests.len() implies end.1[i] == full_route_action(
            policy,
            requests[i].peer,
            requests[i].request_id,
        ) by {
            if i < front.len() {
                assert(end.1[i] == before.1[i]);
                assert(front[i] == requests[i]);
            }
        }
    }
}

/// What a sound route holds is bounded: never more bytes than its bound
/// times [`MAX_MESSAGE_SIZE`].
pub proof fn lemma_held_bytes_are_bounded(route: RouteModel)
    requires
        route.sound(),
    ensures
        encoded_bytes(route.queued) <= route.capacity * MAX_MESSAGE_SIZE,
        route.capacity == ETH_REQUEST_CHANNEL_CAPACITY ==> encoded_bytes(route.queued) <= 2_684_354_560,
{
    lemma_encoded_bytes(route.queued);
    assert(route.queued.len() * MAX_MESSAGE_SIZE <= route.capacity * MAX_MESSAGE_SIZE) by (nonlinear_arith)
        requires
            route.queued.len() <= route.capacity,
    ;
}

/// Well-formed requests hold no more bytes than their number times
/// [`MAX_MESSAGE_SIZE`].
pub proof fn lemma_encoded_bytes(requests: Seq<IncomingEthRequest>)
    requires
        forall|i: int| 0 <= i < requests.len() ==> (#[trigger] requests[i]).well_formed(),
    ensures
        encoded_bytes(requests) <= requests.len() * MAX_MESSAGE_SIZE,
    decreases requests.len(),
{
    if requests.len() > 0 {
        let front = requests.drop_last();
        assert forall|i: int| 0 <= i < front.len() implies (#[trigger] front[i]).well_formed() by {
            assert(front[i] == requests[i]);
        }
        lemma_encoded_bytes(front);
        assert(requests[requests.len() - 1].well_formed());
        assert(front.len() * MAX_MESSAGE_SIZE + MAX_MESSAGE_SIZE == requests.len() * MAX_MESSAGE_SIZE)
            by (nonlinear_arith)
            requires
                front.len() + 1 == requests.len(),
        ;
    }
}

/// The model of the request route behind `tx` at the moment it was made:
/// its bound is the bound of that route, and it holds nothing.
pub open spec fn route_as_made(tx: tokio::sync::mpsc::Sender<IncomingEthRequest>) -> RouteModel {
    RouteModel { capacity: request_route_capacity(tx) as nat, queued: Seq::empty() }
}

/// What the bound of the route that the builder installs means, on the
/// model: of well-formed requests that arrive while nothing is received, the
/// first 256 are delivered in the order of their arrival and every further
/// one is turned away, and what the route then holds is no more than
/// 256 times [`MAX_MESSAGE_SIZE`], however many requests arrived.
pub proof fn lemma_built_route_absorbs_a_flood<C, Tx, Eth, Client>(
    before: NetworkBuilder<C, Tx, Eth>,
    client: Client,
    after: NetworkBuilder<C, Tx, EthRequestHandler<Client>>,
    requests: Seq<IncomingEthRequest>,
    policy: BackpressurePolicy,
)
    requires
        wired_request_handler(before, client, after),
        forall|i: int| 0 <= i < requests.len() ==> (#[trigger] requests[i]).well_formed(),
    ensures
        ({
            let route = route_as_made(after.manager()@.eth_request_route->0);
            let taken = if requests.len() <= 256 { requests.len() } else { 256 };
            let end = route.forward_all(requests, policy);
            &&& route.capacity == 256
            &&& end.0.queued == requests.take(taken as int)
            &&& forall|i: int| 0 <= i < taken ==> end.1[i] == Dispatch::Delivered
            &&& forall|i: int|
                taken <= i < requests.len() ==> end.1[i] == full_route_action(
                    policy,
                    requests[i].peer,
                    requests[i].request_id,
                )
            &&& encoded_bytes(end.0.queued) <= 2_684_354_560
        }),
{
    let route = route_as_made(after.manager()@.eth_request_route->0);
    let end = route.forward_all(requests, policy);
    lemma_flood(256, requests, policy);
    assert forall|i: int| 0 <= i < end.0.queued.len() implies (#[trigger] end.0.queued[i]).well_formed() by {
        assert(end.0.queued[i] == requests[i]);
    }
    lemma_held_bytes_are_bounded(end.0);
}

} // verus!
