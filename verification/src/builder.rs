//! Builder support for configuring the entire setup.
//!
//! The builder holds a network manager and two slots, one for the
//! transactions manager and one for the request handler. Filling a slot
//! consumes the builder and returns one of another type, so a slot that was
//! filled cannot be mistaken for one that was not, and nothing is checked at
//! run time.

use vstd::prelude::*;
use crate::channel::{
    eth_request_channel, request_route_capacity, request_route_joined, transactions_channel,
    transactions_route_joined,
};
use crate::eth_requests::{EthRequestHandler, HandlerView};
use crate::handle::NetworkHandle;
use crate::manager::{ManagerView, NetworkManager};
use crate::transactions::{TransactionsManager, TransactionsView, DEFAULT_SEEN_LIMIT};

verus! {

/// The bound of the request route. With data requests of up to 10 MiB each,
/// 256 of them hold about 2.6 GB, which the node can absorb.
pub const ETH_REQUEST_CHANNEL_CAPACITY: usize = 256;

/// A builder that can configure all components of the network.
pub struct NetworkBuilder<C, Tx, Eth> {
    pub(crate) network: NetworkManager<C>,
    pub(crate) transactions: Tx,
    pub(crate) request_handler: Eth,
}

/// Whether `after` is `before` with the transactions slot filled for `pool`:
/// the manager of `after` differs from that of `before` in its transactions
/// route alone; that route leads to the new transactions manager, which
/// holds `pool` and the handle of the network manager and knows no peer yet;
/// the other slot is untouched.
pub open spec fn wired_transactions<C, Tx, Eth, Pool>(
    before: NetworkBuilder<C, Tx, Eth>,
    pool: Pool,
    after: NetworkBuilder<C, TransactionsManager<Pool>, Eth>,
) -> bool {
    let route = after.manager()@.transactions_route;
    let events = after.transactions_slot()@.events;
    &&& route is Some
    &&& after.manager()@ == (ManagerView { transactions_route: route, ..before.manager()@ })
    &&& transactions_route_joined(route->0, events)
    &&& after.transactions_slot()@ == (TransactionsView {
        network: before.manager()@.handle,
        pool,
        events,
        peers: Seq::empty(),
        seen_limit: DEFAULT_SEEN_LIMIT as nat,
    })
    &&& after.request_handler_slot() == before.request_handler_slot()
}

/// Whether `after` is `before` with the request handler slot filled for
/// `client`: the manager of `after` differs from that of `before` in its
/// request route alone; that route is bounded by
/// [`ETH_REQUEST_CHANNEL_CAPACITY`] and leads to the new request handler,
/// which holds `client` and the peers handle of the network manager; the
/// other slot is untouched.
pub open spec fn wired_request_handler<C, Tx, Eth, Client>(
    before: NetworkBuilder<C, Tx, Eth>,
    client: Client,
    after: NetworkBuilder<C, Tx, EthRequestHandler<Client>>,
) -> bool {
    let route = after.manager()@.eth_request_route;
    let incoming = after.request_handler_slot()@.incoming;
    &&& route is Some
    &&& after.manager()@ == (ManagerView { eth_request_route: route, ..before.manager()@ })
    &&& request_route_capacity(route->0) == ETH_REQUEST_CHANNEL_CAPACITY
    &&& request_route_joined(route->0, incoming)
    &&& after.request_handler_slot()@ == (HandlerView {
        client,
        peers: before.manager()@.handle.peers(),
        incoming,
    })
    &&& after.transactions_slot() == before.transactions_slot()
}

impl<C> NetworkManager<C> {
    /// A builder around this manager, with both slots empty.
    pub fn into_builder(self) -> (r: NetworkBuilder<C, (), ()>)
        ensures
            r.manager() == self,
    {
        NetworkBuilder { network: self, transactions: (), request_handler: () }
    }
}

impl<C, Tx, Eth> NetworkBuilder<C, Tx, Eth> {
    /// The network manager that the builder holds.
    pub closed spec fn manager(&self) -> NetworkManager<C> {
        self.network
    }

    /// What the transactions slot holds.
    pub closed spec fn transactions_slot(&self) -> Tx {
        self.transactions
    }

    /// What the request handler slot holds.
    pub closed spec fn request_handler_slot(&self) -> Eth {
        self.request_handler
    }

    /// Consumes the type and returns all fields.
    pub fn split(self) -> (r: (NetworkManager<C>, Tx, Eth))
        ensures
            r.0 == self.manager(),
            r.1 == self.transactions_slot(),
            r.2 == self.request_handler_slot(),
    {
        let NetworkBuilder { network, transactions, request_handler } = self;
        (network, transactions, request_handler)
    }

    /// Returns the network manager.
    pub fn network(&self) -> (r: &NetworkManager<C>)
        ensures
            *r == self.manager(),
    {
        &self.network
    }

    /// Returns the mutable network manager. What is done to it is done to
    /// the manager of the builder; the slots stay as they are.
    pub fn network_mut(&mut self) -> (r: &mut NetworkManager<C>)
        ensures
            *r == old(self).manager(),
            final(self).manager() == *final(r),
            final(self).transactions_slot() == old(self).transactions_slot(),
            final(self).request_handler_slot() == old(self).request_handler_slot(),
    {
        &mut self.network
    }

    /// Returns the handle to the network: a clone of the manager's own
    /// handle, and equal to it.
    pub fn handle(&self) -> (r: NetworkHandle)
        ensures
            r == self.manager()@.handle,
    {
        self.network.handle().clone()
    }

    /// Consumes the type and returns all fields and also return a
    /// [`NetworkHandle`].
    pub fn split_with_handle(self) -> (r: (NetworkHandle, NetworkManager<C>, Tx, Eth))
        ensures
            r.0 == self.manager()@.handle,
            r.1 == self.manager(),
            r.2 == self.transactions_slot(),
            r.3 == self.request_handler_slot(),
    {
        let NetworkBuilder { network, transactions, request_handler } = self;
        let handle = network.handle().clone();
        (handle, network, transactions, request_handler)
    }

    /// Creates a new [`TransactionsManager`] and wires it to the network.
    /// What the transactions slot held before is dropped.
    pub fn transactions<Pool>(self, pool: Pool) -> (r: NetworkBuilder<C, TransactionsManager<Pool>, Eth>)
        ensures
            wired_transactions(self, pool, r),
    {
        let NetworkBuilder { mut network, request_handler, .. } = self;
        let (tx, rx) = transactions_channel();
        network.set_transactions(tx);
        let handle = network.handle().clone();
        let transactions = TransactionsManager::new(handle, pool, rx);
        NetworkBuilder { network, request_handler, transactions }
    }

    /// Creates a new [`EthRequestHandler`] and wires it to the network. What
    /// the request handler slot held before is dropped.
    pub fn request_handler<Client>(self, client: Client) -> (r: NetworkBuilder<
        C,
        Tx,
        EthRequestHandler<Client>,
    >)
        ensures
            wired_request_handler(self, client, r),
    {
        let NetworkBuilder { mut network, transactions, .. } = self;
        let (tx, rx) = eth_request_channel(ETH_REQUEST_CHANNEL_CAPACITY);
        network.set_eth_request_handler(tx);
        let peers = network.handle().peers_handle().clone();
        let request_handler = EthRequestHandler::new(client, peers, rx);
        NetworkBuilder { network, request_handler, transactions }
    }
}

/// Whether `built` is `fresh` with both slots filled, for `pool` and for
/// `client`: its manager differs from that of `fresh` in the two routes
/// alone; each route leads to the consumer in its slot; the request route is
/// bounded by [`ETH_REQUEST_CHANNEL_CAPACITY`]; and both consumers hold what
/// the handle of the manager of `fresh` gives them.
pub open spec fn fully_wired<C, Tx, Eth, Pool, Client>(
    fresh: NetworkBuilder<C, Tx, Eth>,
    pool: Pool,
    client: Client,
    built: NetworkBuilder<C, TransactionsManager<Pool>, EthRequestHandler<Client>>,
) -> bool {
    let manager = built.manager()@;
    let events = built.transactions_slot()@.events;
    let incoming = built.request_handler_slot()@.incoming;
    &&& manager.transactions_route is Some
    &&& manager.eth_request_route is Some
    &&& manager == (ManagerView {
        transactions_route: manager.transactions_route,
        eth_request_route: manager.eth_request_route,
        ..fresh.manager()@
    })
    &&& transactions_route_joined(manager.transactions_route->0, events)
    &&& request_route_joined(manager.eth_request_route->0, incoming)
    &&& request_route_capacity(manager.eth_request_route->0) == ETH_REQUEST_CHANNEL_CAPACITY
    &&& built.transactions_slot()@ == (TransactionsView {
        network: fresh.manager()@.handle,
        pool,
        events,
        peers: Seq::empty(),
        seen_limit: DEFAULT_SEEN_LIMIT as nat,
    })
    &&& built.request_handler_slot()@ == (HandlerView {
        client,
        peers: fresh.manager()@.handle.peers(),
        incoming,
    })
}

/// The two steps of the builder may be taken in either order: both orders
/// end in a fully wired set, and the handle of the manager is the same at
/// every stage on the way. Where the commands of that handle reached the
/// manager before, they do so after.
pub proof fn lemma_build_order_is_free<C, Tx, Eth, Pool, Client>(
    fresh: NetworkBuilder<C, Tx, Eth>,
    pool: Pool,
    client: Client,
    with_transactions: NetworkBuilder<C, TransactionsManager<Pool>, Eth>,
    then_requests: NetworkBuilder<C, TransactionsManager<Pool>, EthRequestHandler<Client>>,
    with_requests: NetworkBuilder<C, Tx, EthRequestHandler<Client>>,
    then_transactions: NetworkBuilder<C, TransactionsManager<Pool>, EthRequestHandler<Client>>,
)
    requires
        wired_transactions(fresh, pool, with_transactions),
        wired_request_handler(with_transactions, client, then_requests),
        wired_request_handler(fresh, client, with_requests),
        wired_transactions(with_requests, pool, then_transactions),
    ensures
        fully_wired(fresh, pool, client, then_requests),
        fully_wired(fresh, pool, client, then_transactions),
        with_transactions.manager()@.handle == fresh.manager()@.handle,
        then_requests.manager()@.handle == fresh.manager()@.handle,
        with_requests.manager()@.handle == fresh.manager()@.handle,
        then_transactions.manager()@.handle == fresh.manager()@.handle,
        fresh.manager()@.reachable() ==> then_requests.manager()@.reachable()
            && then_transactions.manager()@.reachable(),
{
}

} // verus!
