//! The channels between the components, which are `tokio`'s.
//!
//! Nothing in this file is proved: each function states what `tokio`'s source
//! shows of the call it makes, and the rest of the crate is verified against
//! these statements. A channel is shared between its two ends, so what it
//! holds at a given moment is no property of either end: the statements below
//! speak of what stays fixed (which ends belong together, the bound a channel
//! was made with) and of what every outcome of a call has in common. Which
//! ends belong together can be said of a given kind of message only, so the
//! unbounded channel, which carries two kinds, is made and polled by one
//! function for each.

use vstd::prelude::*;
use crate::handle::NetworkHandleMessage;
use crate::message::{IncomingEthRequest, NetworkTransactionEvent};

verus! {

/// `tokio::sync::mpsc::Sender`, a sending end of a bounded channel. Nothing
/// inside it is visible here.
#[verifier::external_type_specification]
#[verifier::external_body]
#[verifier::reject_recursive_types(T)]
pub struct ExSender<T>(tokio::sync::mpsc::Sender<T>);

/// `tokio::sync::mpsc::Receiver`, the receiving end of a bounded channel.
/// Nothing inside it is visible here.
#[verifier::external_type_specification]
#[verifier::external_body]
#[verifier::reject_recursive_types(T)]
pub struct ExReceiver<T>(tokio::sync::mpsc::Receiver<T>);

/// `tokio::sync::mpsc::UnboundedSender`, a sending end of an unbounded
/// channel. Nothing inside it is visible here.
#[verifier::external_type_specification]
#[verifier::external_body]
#[verifier::reject_recursive_types(T)]
pub struct ExUnboundedSender<T>(tokio::sync::mpsc::UnboundedSender<T>);

/// `tokio::sync::mpsc::UnboundedReceiver`, the receiving end of an unbounded
/// channel. Nothing inside it is visible here.
#[verifier::external_type_specification]
#[verifier::external_body]
#[verifier::reject_recursive_types(T)]
pub struct ExUnboundedReceiver<T>(tokio::sync::mpsc::UnboundedReceiver<T>);

/// The bound that the channel behind `tx` was made with: what
/// `Sender::max_capacity` returns, which stays the same for the life of the
/// channel.
pub uninterp spec fn request_route_capacity(tx: tokio::sync::mpsc::Sender<IncomingEthRequest>) -> usize;

/// Whether `tx` sends into the channel that `rx` receives from: the two
/// ends that one call of `tokio::sync::mpsc::channel` returns do.
pub uninterp spec fn request_route_joined(
    tx: tokio::sync::mpsc::Sender<IncomingEthRequest>,
    rx: tokio::sync::mpsc::Receiver<IncomingEthRequest>,
) -> bool;

/// Whether `tx` sends into the channel that `rx` receives from: the two
/// ends that one call of `tokio::sync::mpsc::unbounded_channel` returns do.
pub uninterp spec fn transactions_route_joined(
    tx: tokio::sync::mpsc::UnboundedSender<NetworkTransactionEvent>,
    rx: tokio::sync::mpsc::UnboundedReceiver<NetworkTransactionEvent>,
) -> bool;

/// Whether `tx` sends into the channel that `rx` receives from: the two
/// ends that one call of `tokio::sync::mpsc::unbounded_channel` returns do.
pub uninterp spec fn commands_joined(
    tx: tokio::sync::mpsc::UnboundedSender<NetworkHandleMessage>,
    rx: tokio::sync::mpsc::UnboundedReceiver<NetworkHandleMessage>,
) -> bool;

/// How an attempt to send into a bounded channel ended.
#[derive(Debug, PartialEq, Eq)]
pub enum TrySend<T> {
    /// The message is in the channel.
    Sent,
    /// The channel held as many messages as its bound allows; the message
    /// comes back.
    Full(T),
    /// The receiving end is closed or gone; the message comes back.
    Closed(T),
}

/// How an attempt to receive without waiting ended.
#[derive(Debug, PartialEq, Eq)]
pub enum Polled<T> {
    /// The oldest message of the channel.
    Ready(T),
    /// The channel holds nothing at the moment; more may come.
    Empty,
    /// The channel holds nothing and its sending side is closed: nothing
    /// will ever come.
    Disconnected,
}

/// `tokio::sync::mpsc::channel`, for data requests. The two ends it returns
/// belong to one channel, and `max_capacity` of that channel is `buffer`. The
/// call panics on a `buffer` of 0 or above `Semaphore::MAX_PERMITS`, which is
/// `usize::MAX >> 3`.
#[verifier::external_body]
pub(crate) fn eth_request_channel(buffer: usize) -> (r: (
    tokio::sync::mpsc::Sender<IncomingEthRequest>,
    tokio::sync::mpsc::Receiver<IncomingEthRequest>,
))
    requires
        0 < buffer <= usize::MAX / 8,
    ensures
        request_route_capacity(r.0) == buffer,
        request_route_joined(r.0, r.1),
{
    tokio::sync::mpsc::channel(buffer)
}

/// `tokio::sync::mpsc::unbounded_channel`, for transaction events. The two
/// ends it returns belong to one channel.
#[verifier::external_body]
pub(crate) fn transactions_channel() -> (r: (
    tokio::sync::mpsc::UnboundedSender<NetworkTransactionEvent>,
    tokio::sync::mpsc::UnboundedReceiver<NetworkTransactionEvent>,
))
    ensures
        transactions_route_joined(r.0, r.1),
{
    tokio::sync::mpsc::unbounded_channel()
}

/// `tokio::sync::mpsc::unbounded_channel`, for the commands of handles. The
/// two ends it returns belong to one channel.
#[verifier::external_body]
pub(crate) fn commands_channel() -> (r: (
    tokio::sync::mpsc::UnboundedSender<NetworkHandleMessage>,
    tokio::sync::mpsc::UnboundedReceiver<NetworkHandleMessage>,
))
    ensures
        commands_joined(r.0, r.1),
{
    tokio::sync::mpsc::unbounded_channel()
}

/// `Sender::max_capacity`: the bound the channel was made with.
#[verifier::external_body]
pub(crate) fn max_capacity(tx: &tokio::sync::mpsc::Sender<IncomingEthRequest>) -> (r: usize)
    ensures
        r == request_route_capacity(*tx),
{
    tx.max_capacity()
}

/// `Sender::try_send`, which never waits. Whether the message is taken
/// depends on what the channel holds at that moment, so nothing is said of
/// that; when it is not taken, the message handed back is the one handed in.
#[verifier::external_body]
pub(crate) fn try_send<T>(tx: &tokio::sync::mpsc::Sender<T>, message: T) -> (r: TrySend<T>)
    ensures
        r matches TrySend::Full(m) ==> m == message,
        r matches TrySend::Closed(m) ==> m == message,
{
    match tx.try_send(message) {
        Ok(()) => TrySend::Sent,
        Err(tokio::sync::mpsc::error::TrySendError::Full(m)) => TrySend::Full(m),
        Err(tokio::sync::mpsc::error::TrySendError::Closed(m)) => TrySend::Closed(m),
    }
}

/// `UnboundedSender::send`, which never waits. It fails only when the
/// receiving end is closed or gone, and then hands the message back. (It ends
/// the process where the channel would hold more messages than can be
/// counted.)
#[verifier::external_body]
pub(crate) fn send_unbounded<T>(tx: &tokio::sync::mpsc::UnboundedSender<T>, message: T) -> (r: Result<(), T>)
    ensures
        r matches Err(m) ==> m == message,
{
    match tx.send(message) {
        Ok(()) => Ok(()),
        Err(tokio::sync::mpsc::error::SendError(m)) => Err(m),
    }
}

/// `Receiver::try_recv`, which waits for nothing but a send that is under
/// way. What comes back depends on what the channel holds at that moment, so
/// nothing is said of it. The receiver stays the receiving end of the
/// channel it belonged to.
#[verifier::external_body]
pub(crate) fn try_recv(rx: &mut tokio::sync::mpsc::Receiver<IncomingEthRequest>) -> (r: Polled<
    IncomingEthRequest,
>)
    ensures
        forall|tx: tokio::sync::mpsc::Sender<IncomingEthRequest>|
            #[trigger] request_route_joined(tx, *final(rx)) == request_route_joined(tx, *old(rx)),
{
    match rx.try_recv() {
        Ok(m) => Polled::Ready(m),
        Err(tokio::sync::mpsc::error::TryRecvError::Empty) => Polled::Empty,
        Err(tokio::sync::mpsc::error::TryRecvError::Disconnected) => Polled::Disconnected,
    }
}

/// `UnboundedReceiver::try_recv` on the transactions route, which waits for
/// nothing but a send that is under way. What comes back depends on what the
/// channel holds at that moment, so nothing is said of it. The receiver
/// stays the receiving end of the channel it belonged to.
#[verifier::external_body]
pub(crate) fn try_recv_event(rx: &mut tokio::sync::mpsc::UnboundedReceiver<NetworkTransactionEvent>) -> (r:
    Polled<NetworkTransactionEvent>)
    ensures
        forall|tx: tokio::sync::mpsc::UnboundedSender<NetworkTransactionEvent>|
            #[trigger] transactions_route_joined(tx, *final(rx)) == transactions_route_joined(tx, *old(rx)),
{
    match rx.try_recv() {
        Ok(m) => Polled::Ready(m),
        Err(tokio::sync::mpsc::error::TryRecvError::Empty) => Polled::Empty,
        Err(tokio::sync::mpsc::error::TryRecvError::Disconnected) => Polled::Disconnected,
    }
}

/// `UnboundedReceiver::try_recv` on the commands of handles, which waits for
/// nothing but a send that is under way. What comes back depends on what the
/// channel holds at that moment, so nothing is said of it. The receiver
/// stays the receiving end of the channel it belonged to.
#[verifier::external_body]
pub(crate) fn try_recv_command(rx: &mut tokio::sync::mpsc::UnboundedReceiver<NetworkHandleMessage>) -> (r:
    Polled<NetworkHandleMessage>)
    ensures
        forall|tx: tokio::sync::mpsc::UnboundedSender<NetworkHandleMessage>|
            #[trigger] commands_joined(tx, *final(rx)) == commands_joined(tx, *old(rx)),
{
    match rx.try_recv() {
        Ok(m) => Polled::Ready(m),
        Err(tokio::sync::mpsc::error::TryRecvError::Empty) => Polled::Empty,
        Err(tokio::sync::mpsc::error::TryRecvError::Disconnected) => Polled::Disconnected,
    }
}

/// `Clone` of `UnboundedSender`: the clone is a sender of the same channel,
/// which is all that a sender's value stands for here.
#[verifier::external_body]
pub(crate) fn clone_unbounded_sender<T>(tx: &tokio::sync::mpsc::UnboundedSender<T>) -> (r: tokio::sync::mpsc::UnboundedSender<T>)
    ensures
        r == *tx,
{
    tx.clone()
}

} // verus!
