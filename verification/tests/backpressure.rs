use std::collections::VecDeque;

use eth_network::channel::Polled;
use eth_network::eth_requests::EthRequestHandler;
use eth_network::manager::{fate, BackpressurePolicy, Dispatch, DropReason, NetworkManager};
use eth_network::message::{EthRequest, PeerMessage, MAX_MESSAGE_SIZE};
use eth_network::peers::{Direction, ReputationChangeKind};
use eth_network::B256;

fn id(n: u64) -> B256 {
    B256::from_low_u64(n)
}

fn wired(policy: BackpressurePolicy) -> (NetworkManager<()>, EthRequestHandler<()>) {
    let (mut network, _, handler) = NetworkManager::new((), id(1), policy)
        .into_builder()
        .request_handler(())
        .split();
    network.on_session_established(id(2), Direction::Incoming, 68).map(fate);
    (network, handler)
}

fn message(request_id: u64, encoded_len: usize) -> PeerMessage {
    PeerMessage::EthRequest {
        request_id,
        encoded_len,
        request: EthRequest::GetBlockBodies(vec![id(request_id)]),
    }
}

struct Lcg(u64);

impl Lcg {
    fn next(&mut self) -> u64 {
        self.0 = self.0.wrapping_mul(6364136223846793005).wrapping_add(1442695040888963407);
        self.0 >> 33
    }
}

#[test]
fn the_route_takes_requests_while_it_holds_fewer_than_256() {
    let (mut network, mut handler) = wired(BackpressurePolicy::Drop);
    let mut model: VecDeque<u64> = VecDeque::new();
    let mut random = Lcg(7);
    let mut next_id: u64 = 0;
    let mut dropped: u64 = 0;
    for step in 0..20_000u64 {
        let burst = (step / 2_000) % 2 == 0;
        let send = if burst { random.next() % 4 != 0 } else { random.next() % 4 == 0 };
        if send {
            let fate = fate(network.on_peer_message(id(2), message(next_id, 100)));
            if model.len() < 256 {
                assert_eq!(fate, Dispatch::Delivered);
                model.push_back(next_id);
            } else {
                assert_eq!(fate, Dispatch::Dropped(DropReason::RouteFull));
                dropped += 1;
            }
            next_id += 1;
        } else {
            match handler.poll_request() {
                Polled::Ready(request) => assert_eq!(Some(request.request_id), model.pop_front()),
                Polled::Empty => assert!(model.is_empty()),
                Polled::Disconnected => panic!("the manager is alive"),
            }
        }
        assert!(model.len() <= 256);
    }
    assert!(dropped > 0);
    assert!(next_id > 256);
}

#[test]
fn malformed_requests_take_no_room() {
    let (mut network, mut handler) = wired(BackpressurePolicy::Drop);
    for n in 0..1_000u64 {
        assert_eq!(
            fate(network.on_peer_message(id(2), message(n, MAX_MESSAGE_SIZE + 1 + n as usize))),
            Dispatch::Malformed { peer: id(2) }
        );
    }
    assert_eq!(handler.poll_request(), Polled::Empty);
    for n in 0..256u64 {
        assert_eq!(fate(network.on_peer_message(id(2), message(n, MAX_MESSAGE_SIZE))), Dispatch::Delivered);
    }
}

#[test]
fn a_flood_costs_the_peer_its_reputation() {
    let (mut network, _handler) = wired(BackpressurePolicy::Penalize);
    for n in 0..256u64 {
        assert_eq!(fate(network.on_peer_message(id(2), message(n, 100))), Dispatch::Delivered);
    }
    for n in 0..44u64 {
        assert_eq!(
            fate(network.on_peer_message(id(2), message(256 + n, 100))),
            Dispatch::Penalized { peer: id(2), kind: ReputationChangeKind::RequestOverflow }
        );
        assert_eq!(network.session(id(2)).unwrap().reputation, -4_096 * (n as i32 + 1));
    }
    assert_eq!(network.session(id(2)).unwrap().reputation, -180_224);
}

#[test]
fn a_full_route_does_not_stop_other_traffic() {
    let (mut network, mut transactions, _handler) =
        NetworkManager::new((), id(1), BackpressurePolicy::Drop)
            .into_builder()
            .request_handler(())
            .transactions(())
            .split();
    network.on_session_established(id(2), Direction::Incoming, 68).map(fate);
    network.on_session_established(id(3), Direction::Incoming, 68).map(fate);
    for n in 0..256u64 {
        assert_eq!(fate(network.on_peer_message(id(2), message(n, 100))), Dispatch::Delivered);
    }
    assert_eq!(
        fate(network.on_peer_message(id(2), message(256, 100))),
        Dispatch::Dropped(DropReason::RouteFull)
    );
    assert_eq!(
        fate(network.on_peer_message(id(3), PeerMessage::PooledTransactionHashes(vec![id(9)]))),
        Dispatch::Delivered
    );
    assert_eq!(
        fate(network.on_peer_message(id(3), message(0, 100))),
        Dispatch::Dropped(DropReason::RouteFull)
    );
    let mut events = 0;
    while let Polled::Ready(_) = transactions.poll_event() {
        events += 1;
    }
    assert_eq!(events, 3);
}
