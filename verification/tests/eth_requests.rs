use eth_network::channel::Polled;
use eth_network::eth_requests::{
    cap_keys, serve, ClientQuery, EthRequestHandler, EthResponse, HandlerAction, ResponseKind,
    MAX_BODIES_SERVE, MAX_HEADERS_SERVE, MAX_RECEIPTS_SERVE, SOFT_RESPONSE_LIMIT,
};
use eth_network::handle::NetworkHandleMessage;
use eth_network::message::{
    BlockHashOrNumber, EthRequest, HeadersRequest, IncomingEthRequest, MAX_MESSAGE_SIZE,
};
use eth_network::peers::{PeersHandle, ReputationChangeKind};
use eth_network::B256;

fn id(n: u64) -> B256 {
    B256::from_low_u64(n)
}

struct Parts {
    handler: EthRequestHandler<&'static str>,
    requests: tokio::sync::mpsc::Sender<IncomingEthRequest>,
    commands: tokio::sync::mpsc::UnboundedReceiver<NetworkHandleMessage>,
}

fn parts() -> Parts {
    let (to_manager, commands) = tokio::sync::mpsc::unbounded_channel();
    let (requests, incoming) = tokio::sync::mpsc::channel(4);
    let handler = EthRequestHandler::new("db", PeersHandle::new(to_manager), incoming);
    Parts { handler, requests, commands }
}

fn incoming(request: EthRequest, encoded_len: usize) -> IncomingEthRequest {
    IncomingEthRequest { peer: id(2), request_id: 11, encoded_len, request }
}

fn hashes(n: u64) -> Vec<B256> {
    (0..n).map(id).collect()
}

#[test]
fn limits() {
    assert_eq!(MAX_HEADERS_SERVE, 1024);
    assert_eq!(MAX_BODIES_SERVE, 1024);
    assert_eq!(MAX_RECEIPTS_SERVE, 1024);
    assert_eq!(SOFT_RESPONSE_LIMIT, 2 * 1024 * 1024);
    assert_eq!(ResponseKind::BlockHeaders.max_items(), 1024);
    assert_eq!(ResponseKind::BlockBodies.max_items(), 1024);
    assert_eq!(ResponseKind::Receipts.max_items(), 1024);
}

#[test]
fn query_kinds() {
    let range = HeadersRequest { start: BlockHashOrNumber::Number(1), limit: 1, skip: 0, reverse: false };
    assert_eq!(ClientQuery::Headers(range).kind(), ResponseKind::BlockHeaders);
    assert_eq!(ClientQuery::Bodies(vec![]).kind(), ResponseKind::BlockBodies);
    assert_eq!(ClientQuery::Receipts(vec![]).kind(), ResponseKind::Receipts);
}

#[test]
fn new_handler_holds_its_parts() {
    let mut p = parts();
    assert_eq!(*p.handler.client(), "db");
    assert!(p.handler.peers().disconnect_peer(id(9)).is_ok());
    assert!(matches!(
        p.commands.try_recv(),
        Ok(NetworkHandleMessage::DisconnectPeer { peer }) if peer == id(9)
    ));
    assert_eq!(p.handler.poll_request(), Polled::Empty);
}

#[test]
fn poll_request_takes_requests_in_order() {
    let mut p = parts();
    for n in 0..3u64 {
        p.requests
            .try_send(IncomingEthRequest {
                peer: id(2),
                request_id: n,
                encoded_len: 10,
                request: EthRequest::GetBlockBodies(vec![id(n)]),
            })
            .unwrap();
    }
    for n in 0..3u64 {
        match p.handler.poll_request() {
            Polled::Ready(request) => assert_eq!(request.request_id, n),
            other => panic!("unexpected {:?}", other),
        }
    }
    assert_eq!(p.handler.poll_request(), Polled::Empty);
    drop(p.requests);
    assert_eq!(p.handler.poll_request(), Polled::Disconnected);
}

#[test]
fn buffered_requests_outlive_the_sender() {
    let mut p = parts();
    p.requests.try_send(incoming(EthRequest::GetReceipts(vec![id(1)]), 10)).unwrap();
    drop(p.requests);
    assert!(matches!(p.handler.poll_request(), Polled::Ready(_)));
    assert_eq!(p.handler.poll_request(), Polled::Disconnected);
}

#[test]
fn requests_mut_is_the_request_receiver() {
    let mut p = parts();
    p.requests.try_send(incoming(EthRequest::GetReceipts(vec![id(1)]), 10)).unwrap();
    assert_eq!(p.handler.requests_mut().max_capacity(), 4);
    assert_eq!(p.handler.requests_mut().try_recv().unwrap().request_id, 11);
    assert_eq!(p.handler.poll_request(), Polled::Empty);
}

#[test]
fn malformed_request_is_signalled() {
    let p = parts();
    assert_eq!(
        p.handler.on_request(incoming(EthRequest::GetBlockBodies(vec![id(1)]), MAX_MESSAGE_SIZE + 1)),
        HandlerAction::Malformed { peer: id(2) }
    );
    assert_eq!(
        p.handler.on_request(incoming(EthRequest::GetBlockBodies(vec![id(1)]), MAX_MESSAGE_SIZE)),
        HandlerAction::Lookup { peer: id(2), request_id: 11, query: ClientQuery::Bodies(vec![id(1)]) }
    );
}

#[test]
fn report_malformed_lowers_the_reputation() {
    let mut p = parts();
    assert!(p.handler.report_malformed(id(2)).is_ok());
    match p.commands.try_recv() {
        Ok(NetworkHandleMessage::ReputationChange { peer, kind }) => {
            assert_eq!(peer, id(2));
            assert_eq!(kind, ReputationChangeKind::BadMessage);
        }
        other => panic!("unexpected {:?}", other),
    }
    drop(p.commands);
    assert!(matches!(
        p.handler.report_malformed(id(2)),
        Err(NetworkHandleMessage::ReputationChange { .. })
    ));
}

#[test]
fn body_and_receipt_lookups_are_capped() {
    let p = parts();
    assert_eq!(
        p.handler.on_request(incoming(EthRequest::GetBlockBodies(hashes(1030)), 40_000)),
        HandlerAction::Lookup { peer: id(2), request_id: 11, query: ClientQuery::Bodies(hashes(1024)) }
    );
    assert_eq!(
        p.handler.on_request(incoming(EthRequest::GetReceipts(hashes(1025)), 40_000)),
        HandlerAction::Lookup { peer: id(2), request_id: 11, query: ClientQuery::Receipts(hashes(1024)) }
    );
    assert_eq!(
        p.handler.on_request(incoming(EthRequest::GetReceipts(hashes(1024)), 40_000)),
        HandlerAction::Lookup { peer: id(2), request_id: 11, query: ClientQuery::Receipts(hashes(1024)) }
    );
    assert_eq!(
        p.handler.on_request(incoming(EthRequest::GetBlockBodies(vec![]), 1)),
        HandlerAction::Lookup { peer: id(2), request_id: 11, query: ClientQuery::Bodies(vec![]) }
    );
}

#[test]
fn header_lookups_are_capped() {
    let p = parts();
    let range = |limit: u64| HeadersRequest {
        start: BlockHashOrNumber::Hash(id(77)),
        limit,
        skip: 3,
        reverse: true,
    };
    for (asked, given) in [(0, 0), (10, 10), (1024, 1024), (1025, 1024), (u64::MAX, 1024)] {
        assert_eq!(
            p.handler.on_request(incoming(EthRequest::GetBlockHeaders(range(asked)), 50)),
            HandlerAction::Lookup {
                peer: id(2),
                request_id: 11,
                query: ClientQuery::Headers(range(given)),
            }
        );
    }
}

#[test]
fn cap_keys_keeps_the_front() {
    assert_eq!(cap_keys(hashes(5), 3), hashes(3));
    assert_eq!(cap_keys(hashes(3), 3), hashes(3));
    assert_eq!(cap_keys(hashes(2), 3), hashes(2));
    assert_eq!(cap_keys(hashes(2), 0), Vec::<B256>::new());
}

#[test]
fn present_data_comes_back_exactly() {
    let p = parts();
    let body = vec![0xab_u8; 500];
    assert_eq!(
        p.handler.respond(id(2), 11, ResponseKind::BlockBodies, vec![body.clone()]),
        EthResponse { peer: id(2), request_id: 11, kind: ResponseKind::BlockBodies, items: vec![body] }
    );
}

#[test]
fn absent_data_gives_an_empty_response() {
    let p = parts();
    for kind in [ResponseKind::BlockHeaders, ResponseKind::BlockBodies, ResponseKind::Receipts] {
        assert_eq!(
            p.handler.respond(id(2), 11, kind, vec![]),
            EthResponse { peer: id(2), request_id: 11, kind, items: vec![] }
        );
    }
}

#[test]
fn partial_data_gives_a_partial_response() {
    let p = parts();
    let found = vec![vec![1u8, 2], vec![3u8]];
    let response = p.handler.respond(id(2), 11, ResponseKind::Receipts, found.clone());
    assert_eq!(response.items, found);
}

#[test]
fn response_stops_at_the_item_limit() {
    let found: Vec<Vec<u8>> = (0..1030u32).map(|n| vec![(n % 251) as u8]).collect();
    let served = serve(found.clone(), 1024);
    assert_eq!(served.len(), 1024);
    assert_eq!(served[..], found[..1024]);
    assert_eq!(serve(found.clone(), 0), Vec::<Vec<u8>>::new());
    assert_eq!(serve(found.clone(), 2000), found);
}

#[test]
fn response_stops_once_it_reaches_the_soft_limit() {
    let mib = vec![7u8; 1_048_576];
    let served = serve(vec![mib.clone(), mib.clone(), mib.clone()], 1024);
    assert_eq!(served.len(), 2);

    let served = serve(vec![vec![1u8; 2_097_151], vec![2u8], vec![3u8]], 1024);
    assert_eq!(served.len(), 2);
    assert_eq!(served[1], vec![2u8]);

    let served = serve(vec![vec![1u8; 2_097_150], vec![2u8], vec![3u8]], 1024);
    assert_eq!(served.len(), 3);

    let served = serve(vec![vec![1u8; 2_097_152], vec![2u8]], 1024);
    assert_eq!(served.len(), 1);
}

#[test]
fn an_item_above_the_soft_limit_is_still_served() {
    let big = vec![9u8; 3_000_000];
    let served = serve(vec![big.clone(), vec![1u8]], 1024);
    assert_eq!(served, vec![big]);
}

#[test]
fn empty_items_do_not_count_towards_the_soft_limit() {
    let found: Vec<Vec<u8>> = vec![vec![]; 10];
    assert_eq!(serve(found.clone(), 1024), found);
    assert_eq!(serve(found.clone(), 4).len(), 4);
}
