use eth_network::channel::Polled;
use eth_network::handle::{NetworkHandle, NetworkHandleMessage};
use eth_network::message::{NetworkTransactionEvent, Transaction};
use eth_network::peers::ReputationChangeKind;
use eth_network::seen::{contains_hash, distinct_hashes, exclude_hashes, remember, unannounced_hashes};
use eth_network::transactions::{
    is_well_shaped, keep_well_shaped, transaction_hashes, Announcement, PoolError,
    TransactionsAction, TransactionsManager, DEFAULT_SEEN_LIMIT, MAX_TRANSACTION_SIZE,
};
use eth_network::B256;

fn id(n: u64) -> B256 {
    B256::from_low_u64(n)
}

fn ids(ns: &[u64]) -> Vec<B256> {
    ns.iter().map(|n| id(*n)).collect()
}

struct Parts {
    manager: TransactionsManager<()>,
    events: tokio::sync::mpsc::UnboundedSender<NetworkTransactionEvent>,
    commands: tokio::sync::mpsc::UnboundedReceiver<NetworkHandleMessage>,
}

fn parts(seen_limit: usize) -> Parts {
    let (to_manager, commands) = tokio::sync::mpsc::unbounded_channel();
    let (events, event_rx) = tokio::sync::mpsc::unbounded_channel();
    let handle = NetworkHandle::new(id(1), to_manager);
    let manager = TransactionsManager::with_seen_limit(handle, (), event_rx, seen_limit);
    Parts { manager, events, commands }
}

fn with_peers(seen_limit: usize, peers: &[u64]) -> Parts {
    let mut p = parts(seen_limit);
    for peer in peers {
        assert_eq!(
            p.manager.on_event(NetworkTransactionEvent::SessionEstablished { peer: id(*peer) }),
            TransactionsAction::AnnouncePending { peer: id(*peer) }
        );
    }
    p
}

fn transaction(n: u64, len: usize) -> Transaction {
    Transaction { hash: id(n), payload: vec![0x5a; len] }
}

fn announcement(peer: u64, hashes: &[u64]) -> Announcement {
    Announcement { peer: id(peer), hashes: ids(hashes) }
}

#[test]
fn seen_helpers() {
    assert!(contains_hash(&ids(&[1, 2, 3]), id(2)));
    assert!(!contains_hash(&ids(&[1, 2, 3]), id(4)));
    assert!(!contains_hash(&ids(&[]), id(4)));
    assert_eq!(distinct_hashes(&ids(&[3, 1, 3, 2, 1, 1])), ids(&[3, 1, 2]));
    assert_eq!(distinct_hashes(&ids(&[])), ids(&[]));
    assert_eq!(exclude_hashes(&ids(&[1, 2, 3, 2, 4]), &ids(&[2, 9])), ids(&[1, 3, 4]));
    assert_eq!(exclude_hashes(&ids(&[1, 2]), &ids(&[])), ids(&[1, 2]));
    assert_eq!(unannounced_hashes(&ids(&[5, 1, 5, 6, 2]), &ids(&[1, 2])), ids(&[5, 6]));
}

#[test]
fn remember_moves_to_the_end_and_evicts_the_oldest() {
    assert_eq!(remember(&ids(&[]), &ids(&[1, 2]), 4), ids(&[1, 2]));
    assert_eq!(remember(&ids(&[1, 2, 3]), &ids(&[2]), 4), ids(&[1, 3, 2]));
    assert_eq!(remember(&ids(&[1, 2, 3]), &ids(&[4, 5]), 4), ids(&[2, 3, 4, 5]));
    assert_eq!(remember(&ids(&[1, 2, 3]), &ids(&[4, 4, 1]), 4), ids(&[2, 3, 4, 1]));
    assert_eq!(remember(&ids(&[1, 2, 3]), &ids(&[7, 8, 9, 10, 11]), 4), ids(&[8, 9, 10, 11]));
    assert_eq!(remember(&ids(&[1, 2, 3]), &ids(&[7]), 0), ids(&[]));
    assert_eq!(remember(&ids(&[1, 2, 3]), &ids(&[]), 2), ids(&[2, 3]));
}

#[test]
fn shape_of_a_transaction() {
    assert_eq!(MAX_TRANSACTION_SIZE, 128 * 1024);
    assert!(!is_well_shaped(&transaction(1, 0)));
    assert!(is_well_shaped(&transaction(1, 1)));
    assert!(is_well_shaped(&transaction(1, MAX_TRANSACTION_SIZE)));
    assert!(!is_well_shaped(&transaction(1, MAX_TRANSACTION_SIZE + 1)));
}

#[test]
fn keep_well_shaped_keeps_the_order() {
    let all = vec![
        transaction(1, 4),
        transaction(2, 0),
        transaction(3, MAX_TRANSACTION_SIZE + 1),
        transaction(4, MAX_TRANSACTION_SIZE),
        transaction(5, 1),
    ];
    assert_eq!(transaction_hashes(&all), ids(&[1, 2, 3, 4, 5]));
    assert_eq!(
        keep_well_shaped(all),
        vec![transaction(1, 4), transaction(4, MAX_TRANSACTION_SIZE), transaction(5, 1)]
    );
    assert_eq!(keep_well_shaped(vec![]), vec![]);
}

#[test]
fn new_manager_knows_no_peer() {
    let (to_manager, _commands) = tokio::sync::mpsc::unbounded_channel();
    let (_events, event_rx) = tokio::sync::mpsc::unbounded_channel();
    let mut manager = TransactionsManager::new(NetworkHandle::new(id(1), to_manager), "pool", event_rx);
    assert_eq!(DEFAULT_SEEN_LIMIT, 10 * 1024);
    assert_eq!(manager.seen_limit(), DEFAULT_SEEN_LIMIT);
    assert_eq!(manager.num_peers(), 0);
    assert_eq!(*manager.pool(), "pool");
    assert_eq!(manager.network().peer_id(), id(1));
    assert!(!manager.has_seen(id(2), id(7)));
    assert_eq!(manager.propagate(&ids(&[7])), vec![]);
    assert_eq!(manager.announce_to(id(2), &ids(&[7])), None);
}

#[test]
fn sessions_add_and_remove_peers() {
    let mut p = with_peers(8, &[2, 3]);
    assert_eq!(p.manager.num_peers(), 2);
    assert_eq!(
        p.manager.on_event(NetworkTransactionEvent::SessionEstablished { peer: id(2) }),
        TransactionsAction::Nothing
    );
    assert_eq!(p.manager.num_peers(), 2);
    assert_eq!(
        p.manager.on_event(NetworkTransactionEvent::SessionClosed { peer: id(9) }),
        TransactionsAction::Nothing
    );
    assert_eq!(p.manager.num_peers(), 2);
    assert_eq!(
        p.manager.on_event(NetworkTransactionEvent::SessionClosed { peer: id(2) }),
        TransactionsAction::Nothing
    );
    assert_eq!(p.manager.num_peers(), 1);
    assert_eq!(p.manager.propagate(&ids(&[7])), vec![announcement(3, &[7])]);
}

#[test]
fn a_closed_session_forgets_what_the_peer_held() {
    let mut p = with_peers(8, &[2]);
    p.manager.propagate(&ids(&[7]));
    assert!(p.manager.has_seen(id(2), id(7)));
    p.manager.on_event(NetworkTransactionEvent::SessionClosed { peer: id(2) });
    assert!(!p.manager.has_seen(id(2), id(7)));
    p.manager.on_event(NetworkTransactionEvent::SessionEstablished { peer: id(2) });
    assert!(!p.manager.has_seen(id(2), id(7)));
    assert_eq!(p.manager.propagate(&ids(&[7])), vec![announcement(2, &[7])]);
}

#[test]
fn propagate_tells_every_peer_once() {
    let mut p = with_peers(8, &[2, 3, 4]);
    assert_eq!(
        p.manager.propagate(&ids(&[7, 8])),
        vec![announcement(2, &[7, 8]), announcement(3, &[7, 8]), announcement(4, &[7, 8])]
    );
    assert_eq!(p.manager.propagate(&ids(&[7, 8])), vec![]);
    assert_eq!(p.manager.propagate(&ids(&[8, 7])), vec![]);
    assert_eq!(p.manager.propagate(&ids(&[7])), vec![]);
    for peer in [2, 3, 4] {
        assert!(p.manager.has_seen(id(peer), id(7)));
        assert!(p.manager.has_seen(id(peer), id(8)));
        assert!(!p.manager.has_seen(id(peer), id(9)));
    }
}

#[test]
fn propagate_names_each_hash_once() {
    let mut p = with_peers(8, &[2]);
    assert_eq!(p.manager.propagate(&ids(&[7, 7, 8, 7, 8])), vec![announcement(2, &[7, 8])]);
}

#[test]
fn propagate_leaves_out_what_a_peer_holds() {
    let mut p = with_peers(8, &[2, 3]);
    assert_eq!(p.manager.announce_to(id(2), &ids(&[7])), Some(announcement(2, &[7])));
    assert_eq!(
        p.manager.propagate(&ids(&[7, 8])),
        vec![announcement(2, &[8]), announcement(3, &[7, 8])]
    );
    assert_eq!(p.manager.announce_to(id(3), &ids(&[8, 9])), Some(announcement(3, &[9])));
    assert_eq!(p.manager.propagate(&ids(&[9])), vec![announcement(2, &[9])]);
}

#[test]
fn announce_to_an_unknown_peer_does_nothing() {
    let mut p = with_peers(8, &[2]);
    assert_eq!(p.manager.announce_to(id(3), &ids(&[7])), None);
    assert_eq!(p.manager.num_peers(), 1);
    assert!(!p.manager.has_seen(id(3), id(7)));
    assert_eq!(p.manager.announce_to(id(2), &ids(&[])), None);
}

#[test]
fn the_memory_of_a_peer_is_bounded() {
    let mut p = with_peers(2, &[2]);
    assert_eq!(p.manager.seen_limit(), 2);
    assert_eq!(p.manager.propagate(&ids(&[7])), vec![announcement(2, &[7])]);
    assert_eq!(p.manager.propagate(&ids(&[8])), vec![announcement(2, &[8])]);
    assert_eq!(p.manager.propagate(&ids(&[7])), vec![]);
    assert_eq!(p.manager.propagate(&ids(&[9])), vec![announcement(2, &[9])]);
    assert!(!p.manager.has_seen(id(2), id(8)));
    assert!(p.manager.has_seen(id(2), id(7)));
    assert!(p.manager.has_seen(id(2), id(9)));
    assert_eq!(p.manager.propagate(&ids(&[8])), vec![announcement(2, &[8])]);
}

#[test]
fn more_hashes_than_the_memory_holds_are_announced_again() {
    let mut p = with_peers(1, &[2]);
    assert_eq!(p.manager.propagate(&ids(&[7, 8])), vec![announcement(2, &[7, 8])]);
    assert_eq!(p.manager.propagate(&ids(&[7, 8])), vec![announcement(2, &[7])]);
}

#[test]
fn announce_hands_the_announcement_to_the_network() {
    let mut p = with_peers(8, &[2]);
    assert!(p.manager.announce(announcement(2, &[7, 8])).is_ok());
    match p.commands.try_recv() {
        Ok(NetworkHandleMessage::AnnounceTransactions { peer, hashes }) => {
            assert_eq!(peer, id(2));
            assert_eq!(hashes, ids(&[7, 8]));
        }
        other => panic!("unexpected {:?}", other),
    }
    drop(p.commands);
    match p.manager.announce(announcement(2, &[9])) {
        Err(NetworkHandleMessage::AnnounceTransactions { peer, hashes }) => {
            assert_eq!(peer, id(2));
            assert_eq!(hashes, ids(&[9]));
        }
        other => panic!("unexpected {:?}", other),
    }
}

#[test]
fn report_asks_for_a_reputation_change() {
    let mut p = with_peers(8, &[2]);
    assert!(p.manager.report(id(2), ReputationChangeKind::BadTransaction).is_ok());
    match p.commands.try_recv() {
        Ok(NetworkHandleMessage::ReputationChange { peer, kind }) => {
            assert_eq!(peer, id(2));
            assert_eq!(kind, ReputationChangeKind::BadTransaction);
        }
        other => panic!("unexpected {:?}", other),
    }
}

#[test]
fn incoming_transactions_are_sorted_by_shape() {
    let mut p = with_peers(8, &[2]);
    let action = p.manager.on_event(NetworkTransactionEvent::IncomingTransactions {
        peer: id(2),
        transactions: vec![
            transaction(7, 10),
            transaction(8, 0),
            transaction(9, 20),
            transaction(10, MAX_TRANSACTION_SIZE + 1),
        ],
    });
    assert_eq!(
        action,
        TransactionsAction::Import {
            peer: id(2),
            transactions: vec![transaction(7, 10), transaction(9, 20)],
            malformed: 2,
        }
    );
    for hash in [7, 8, 9, 10] {
        assert!(p.manager.has_seen(id(2), id(hash)));
    }
    assert_eq!(p.manager.propagate(&ids(&[7, 9, 11])), vec![announcement(2, &[11])]);
}

#[test]
fn incoming_transactions_may_be_none() {
    let mut p = with_peers(8, &[2]);
    assert_eq!(
        p.manager.on_event(NetworkTransactionEvent::IncomingTransactions { peer: id(2), transactions: vec![] }),
        TransactionsAction::Import { peer: id(2), transactions: vec![], malformed: 0 }
    );
}

#[test]
fn events_of_an_unknown_peer_are_ignored() {
    let mut p = with_peers(8, &[2]);
    assert_eq!(
        p.manager.on_event(NetworkTransactionEvent::IncomingTransactions {
            peer: id(3),
            transactions: vec![transaction(7, 10)],
        }),
        TransactionsAction::Nothing
    );
    assert_eq!(
        p.manager.on_event(NetworkTransactionEvent::IncomingPooledTransactionHashes {
            peer: id(3),
            hashes: ids(&[7]),
        }),
        TransactionsAction::Nothing
    );
    assert!(!p.manager.has_seen(id(3), id(7)));
    assert!(!p.manager.has_seen(id(2), id(7)));
    assert_eq!(p.manager.num_peers(), 1);
}

#[test]
fn announced_hashes_are_requested_once() {
    let mut p = with_peers(8, &[2, 3]);
    assert_eq!(
        p.manager.on_event(NetworkTransactionEvent::IncomingPooledTransactionHashes {
            peer: id(2),
            hashes: ids(&[7, 8, 7]),
        }),
        TransactionsAction::Request { peer: id(2), hashes: ids(&[7, 8]) }
    );
    assert_eq!(
        p.manager.on_event(NetworkTransactionEvent::IncomingPooledTransactionHashes {
            peer: id(2),
            hashes: ids(&[8, 9]),
        }),
        TransactionsAction::Request { peer: id(2), hashes: ids(&[9]) }
    );
    assert_eq!(
        p.manager.on_event(NetworkTransactionEvent::IncomingPooledTransactionHashes {
            peer: id(2),
            hashes: ids(&[7, 8, 9]),
        }),
        TransactionsAction::Nothing
    );
    assert_eq!(p.manager.propagate(&ids(&[7])), vec![announcement(3, &[7])]);
}

#[test]
fn pool_rejections_are_never_errors() {
    let p = parts(8);
    assert_eq!(p.manager.on_import_result(Ok(())), None);
    assert_eq!(
        p.manager.on_import_result(Err(PoolError::AlreadyKnown)),
        Some(ReputationChangeKind::AlreadySeenTransaction)
    );
    assert_eq!(p.manager.on_import_result(Err(PoolError::Underpriced)), None);
    assert_eq!(
        p.manager.on_import_result(Err(PoolError::Invalid)),
        Some(ReputationChangeKind::BadTransaction)
    );
}

#[test]
fn malformed_transactions_cost_reputation() {
    let p = parts(8);
    assert_eq!(p.manager.on_malformed(0), None);
    assert_eq!(p.manager.on_malformed(1), Some(ReputationChangeKind::BadMessage));
    assert_eq!(p.manager.on_malformed(usize::MAX), Some(ReputationChangeKind::BadMessage));
}

#[test]
fn poll_event_takes_events_in_order() {
    let mut p = parts(8);
    assert_eq!(p.manager.poll_event(), Polled::Empty);
    p.events.send(NetworkTransactionEvent::SessionEstablished { peer: id(2) }).unwrap();
    p.events.send(NetworkTransactionEvent::SessionClosed { peer: id(2) }).unwrap();
    assert_eq!(
        p.manager.poll_event(),
        Polled::Ready(NetworkTransactionEvent::SessionEstablished { peer: id(2) })
    );
    assert_eq!(
        p.manager.events_mut().try_recv(),
        Ok(NetworkTransactionEvent::SessionClosed { peer: id(2) })
    );
    assert_eq!(p.manager.poll_event(), Polled::Empty);
    drop(p.events);
    assert_eq!(p.manager.poll_event(), Polled::Disconnected);
}
