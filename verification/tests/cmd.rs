use safe_network::address::{AddrProtocol, AddressSet, Multiaddr, NetworkAddress, Record, RecordKey};
use safe_network::cmd::{
    CmdAction, CmdError, CmdHandler, CmdOutcome, CmdThen, KadStoreAction, KadStoreOutcome, KadStoreResult,
    KadStoreThen, MsgResponder, NetworkEvent, PendingReplies, RecordKeyStep, ReplyPayload, Request,
    Response, SwarmCmd, SwarmLocalState,
};
use safe_network::distance::{Distance, KBucketKey};
use safe_network::driver::{DialOpts, SwarmDriver};
use safe_network::peer::{PeerId, PeerSet};
use safe_network::record_cfg::{
    GetRecordCfg, PutRecordCfg, Quorum, RetryStrategy, VerificationKind,
};

fn peer(n: u8) -> PeerId {
    PeerId::from_bytes(&[0, 1, n]).unwrap()
}

fn key(n: u8) -> RecordKey {
    RecordKey::new(&[n, n])
}

fn record(n: u8) -> Record {
    Record { key: key(n), value: vec![n], publisher: None, expires: None }
}

fn address(n: u8) -> NetworkAddress {
    NetworkAddress::RecordKey(vec![n, n])
}

fn held() -> AddressSet {
    let mut set = AddressSet::new();
    for n in 0..30 {
        set.insert(address(n));
    }
    set.insert(NetworkAddress::Content { kind: 0, name: vec![99] });
    set.insert(NetworkAddress::from_peer(&peer(1)));
    set
}

fn addr() -> Multiaddr {
    Multiaddr { protocols: vec![AddrProtocol::Ip4([1, 2, 3, 4]), AddrProtocol::Udp(9)] }
}

/// One command of each sort.
fn all_cmds() -> Vec<SwarmCmd> {
    vec![
        SwarmCmd::StartListening { addr: addr(), sender: 1 },
        SwarmCmd::Dial { addr: addr(), sender: 1 },
        SwarmCmd::AddToRoutingTable { peer_id: peer(1), peer_addr: addr(), sender: 1 },
        SwarmCmd::GetClosestPeers { key: address(1), sender: 1 },
        SwarmCmd::GetClosestLocalPeers { key: address(1), sender: 1 },
        SwarmCmd::GetAllLocalPeers { sender: 1 },
        SwarmCmd::SendRequest { req: Request { bytes: vec![] }, peer: peer(1), sender: None },
        SwarmCmd::SendResponse {
            resp: Response { bytes: vec![] },
            channel: MsgResponder::FromPeer(4),
        },
        SwarmCmd::GetSwarmLocalState(1),
        SwarmCmd::RecordStoreHasKey { key: key(1), sender: 1 },
        SwarmCmd::GetNetworkRecord { key: key(1), sender: 1 },
        SwarmCmd::GetLocalRecord { key: key(1), sender: 1 },
        SwarmCmd::PutRecord { record: record(1), sender: 1 },
        SwarmCmd::PutLocalRecord { record: record(1) },
        SwarmCmd::GetRecordKeysClosestToTarget {
            key: address(1),
            distance: Distance::zero(),
            sender: 1,
        },
        SwarmCmd::AddKeysToReplicationFetcher { peer: peer(1), keys: vec![], sender: 1 },
        SwarmCmd::NotifyFetchResult { peer: peer(1), key: address(1), result: true, sender: 1 },
        SwarmCmd::SetRecordDistanceRange { distance: Distance::zero() },
    ]
}

#[test]
fn each_command_has_one_handler() {
    let n = all_cmds().len();
    for i in 0..n {
        let pick = || all_cmds().into_iter().nth(i).unwrap();
        let keys = !matches!(
            SwarmDriver::handle_record_key_cmds(pick(), &held()),
            RecordKeyStep::Unsupported
        );
        let store =
            !matches!(SwarmDriver::handle_kad_store_cmd(pick()).0, KadStoreAction::Unsupported);
        let swarm =
            !matches!(SwarmDriver::handle_cmd(pick(), &peer(0)).0, CmdAction::Unsupported);
        assert_eq!([keys, store, swarm].iter().filter(|handled| **handled).count(), 1);
        let handler = pick().handler();
        assert_eq!(handler == CmdHandler::RecordKeys, keys);
        assert_eq!(handler == CmdHandler::KadStore, store);
        assert_eq!(handler == CmdHandler::Swarm, swarm);
    }
}

#[test]
fn listed_keys_are_the_close_ones() {
    let target = KBucketKey::new(&[7, 7]);
    let their_target = libp2p::kad::KBucketKey::new(vec![7u8, 7]);
    // The bar is the distance of some key, which is itself not closer.
    for limit in [2u8, 11, 29] {
        let bar = target.distance(&KBucketKey::new(&[limit, limit]));
        let their_bar = their_target.distance(&libp2p::kad::KBucketKey::from(vec![limit; 2]));
        let keys = SwarmDriver::get_existing_keys_closest_to_target(&held(), &target, &bar);
        let mut expected = vec![];
        for n in 0..30u8 {
            if their_target.distance(&libp2p::kad::KBucketKey::from(vec![n, n])) < their_bar {
                expected.push(key(n));
            }
        }
        assert!(!expected.is_empty() && expected.len() < 30);
        assert!(keys == expected);
        assert!(keys.contains(&key(7)) && !keys.contains(&key(limit)));
    }
    // Nothing is closer than the target itself.
    let none = SwarmDriver::get_existing_keys_closest_to_target(&held(), &target, &Distance::zero());
    assert!(none.is_empty());
}

#[test]
fn key_commands_are_decided() {
    let mut bar = Distance { bytes: [0; 32] };
    bar.bytes[31] = 1;
    let cmd =
        SwarmCmd::GetRecordKeysClosestToTarget { key: address(3), distance: bar, sender: 8 };
    match SwarmDriver::handle_record_key_cmds(cmd, &held()) {
        RecordKeyStep::ReplyKeys { keys, sender: 8 } => assert!(keys == vec![key(3)]),
        other => panic!("{other:?}"),
    }
    for (n, expected) in [(3, true), (40, false)] {
        let cmd = SwarmCmd::RecordStoreHasKey { key: key(n), sender: 5 };
        match SwarmDriver::handle_record_key_cmds(cmd, &held()) {
            RecordKeyStep::ReplyHasKey { has_key, sender: 5 } => assert_eq!(has_key, expected),
            other => panic!("{other:?}"),
        }
    }
    let cmd = SwarmCmd::NotifyFetchResult {
        peer: peer(2),
        key: address(4),
        result: false,
        sender: 6,
    };
    match SwarmDriver::handle_record_key_cmds(cmd, &held()) {
        RecordKeyStep::NotifyFetcher { peer: from, key, result, sender } => {
            assert!(from == peer(2) && key == address(4));
            assert_eq!((result, sender), (false, 6));
        }
        other => panic!("{other:?}"),
    }
}

#[test]
fn only_missing_addresses_are_fetched() {
    let content = |n: u8| NetworkAddress::Content { kind: 0, name: vec![n] };
    let wanted =
        vec![address(1), address(50), content(99), content(7), address(50), address(60)];
    let cmd = SwarmCmd::AddKeysToReplicationFetcher { peer: peer(3), keys: wanted, sender: 2 };
    match SwarmDriver::handle_record_key_cmds(cmd, &held()) {
        RecordKeyStep::FetchMissing { peer: from, missing, sender: 2 } => {
            assert!(from == peer(3));
            assert!(missing == vec![address(50), content(7), address(50), address(60)]);
        }
        other => panic!("{other:?}"),
    }
}

#[test]
fn store_commands_are_routed() {
    let cmd = SwarmCmd::PutRecord { record: record(2), sender: 3 };
    match SwarmDriver::handle_kad_store_cmd(cmd) {
        (KadStoreAction::PutRecord { record: put, quorum }, then) => {
            assert!(put == record(2));
            assert_eq!((quorum, then), (Quorum::All, KadStoreThen::AwaitPut(3)));
        }
        other => panic!("{other:?}"),
    }
    let cmd = SwarmCmd::GetLocalRecord { key: key(2), sender: 4 };
    match SwarmDriver::handle_kad_store_cmd(cmd) {
        (KadStoreAction::ReadRecord(read), then) => {
            assert!(read == key(2));
            assert_eq!(then, KadStoreThen::ReplyRecord(4));
        }
        other => panic!("{other:?}"),
    }
}

#[test]
fn store_commands_are_finished() {
    let mut pending = PendingReplies::new();
    let done = SwarmDriver::finish_kad_store_cmd::<&str>(
        KadStoreThen::AwaitPut(3),
        KadStoreOutcome::PutStarted(Ok(17)),
        &mut pending,
    );
    assert!(matches!(done, Ok(KadStoreResult::Nothing)));
    assert_eq!(pending.record_puts.get(&17), Some(&3));

    let refused = SwarmDriver::finish_kad_store_cmd(
        KadStoreThen::AwaitPut(3),
        KadStoreOutcome::PutStarted(Err("too large")),
        &mut pending,
    );
    assert_eq!(refused.err(), Some("too large"));
    assert_eq!(pending.record_puts.len(), 1);

    let stored = SwarmDriver::finish_kad_store_cmd::<&str>(
        KadStoreThen::ReportAddresses,
        KadStoreOutcome::Stored(Ok(held())),
        &mut pending,
    );
    assert!(matches!(stored, Ok(KadStoreResult::UpdatedAddresses(now)) if now.len() == 32));

    let refused = SwarmDriver::finish_kad_store_cmd(
        KadStoreThen::ReportAddresses,
        KadStoreOutcome::Stored(Err("full")),
        &mut pending,
    );
    assert_eq!(refused.err(), Some("full"));

    match SwarmDriver::finish_kad_store_cmd::<&str>(
        KadStoreThen::ReplyRecord(9),
        KadStoreOutcome::Read(Some(record(5))),
        &mut pending,
    ) {
        Ok(KadStoreResult::ReplyRecord { record: Some(read), sender: 9 }) => {
            assert!(read == record(5));
        }
        other => panic!("{other:?}"),
    }
}

#[test]
fn request_to_ourselves_is_answered_by_ourselves() {
    for sender in [Some(12), None] {
        let req = Request { bytes: vec![1] };
        let cmd = SwarmCmd::SendRequest { req, peer: peer(0), sender };
        let channel = match SwarmDriver::handle_cmd(cmd, &peer(0)) {
            (
                CmdAction::SendEvent(NetworkEvent::RequestReceived { req, channel }),
                CmdThen::Nothing,
            ) => {
                assert_eq!(req.bytes, vec![1]);
                channel
            }
            other => panic!("{other:?}"),
        };
        let cmd = SwarmCmd::SendResponse { resp: Response { bytes: vec![2] }, channel };
        match (sender, SwarmDriver::handle_cmd(cmd, &peer(0))) {
            (Some(12), (CmdAction::DeliverResponse { channel: 12, resp }, then)) => {
                assert_eq!(resp.bytes, vec![2]);
                assert_eq!(then, CmdThen::CheckDelivered);
            }
            (
                None,
                (
                    CmdAction::SendEvent(NetworkEvent::ResponseReceived { res }),
                    CmdThen::Nothing,
                ),
            ) => assert_eq!(res.bytes, vec![2]),
            other => panic!("{other:?}"),
        }
    }
}

#[test]
fn request_to_a_peer_is_tracked() {
    let req = Request { bytes: vec![1] };
    let cmd = SwarmCmd::SendRequest { req, peer: peer(5), sender: Some(2) };
    let then = match SwarmDriver::handle_cmd(cmd, &peer(0)) {
        (CmdAction::SendRequest { peer: to, req }, then) => {
            assert!(to == peer(5));
            assert_eq!(req.bytes, vec![1]);
            then
        }
        other => panic!("{other:?}"),
    };
    let mut pending = PendingReplies::new();
    let outcome: CmdOutcome<()> = CmdOutcome::RequestStarted(31);
    assert!(matches!(
        SwarmDriver::finish_cmd(then, outcome, &mut pending, &peer(0), 5),
        Ok(None)
    ));
    assert_eq!(pending.requests.get(&31), Some(&Some(2)));
    assert!(pending.queries.is_empty() && pending.get_closest_peers.is_empty());
}

#[test]
fn queries_are_tracked() {
    let mut pending = PendingReplies::new();
    let outcome: CmdOutcome<()> = CmdOutcome::QueryStarted(3);
    let done =
        SwarmDriver::finish_cmd(CmdThen::TrackQuery(1), outcome, &mut pending, &peer(0), 5);
    assert!(matches!(done, Ok(None)));
    let outcome: CmdOutcome<()> = CmdOutcome::QueryStarted(4);
    let done =
        SwarmDriver::finish_cmd(CmdThen::TrackClosestPeers(2), outcome, &mut pending, &peer(0), 5);
    assert!(matches!(done, Ok(None)));
    assert_eq!(pending.queries.get(&3), Some(&1));
    let (sender, found) = pending.get_closest_peers.get(&4).unwrap();
    assert_eq!(*sender, 2);
    assert!(!found.contains(&peer(0)) && !found.contains(&peer(1)));
}

#[test]
fn peers_are_replied() {
    let mut pending = PendingReplies::new();
    let peers: Vec<PeerId> = (1..9).map(peer).collect();
    let outcome: CmdOutcome<()> = CmdOutcome::Peers(peers);
    let reply =
        SwarmDriver::finish_cmd(CmdThen::ReplyClosestPeers(4), outcome, &mut pending, &peer(0), 5)
            .unwrap()
            .unwrap();
    assert_eq!((reply.sender, reply.required), (4, false));
    match reply.payload {
        ReplyPayload::Peers(peers) => assert!(peers == (1..6).map(peer).collect::<Vec<_>>()),
        other => panic!("{other:?}"),
    }
    let outcome: CmdOutcome<()> = CmdOutcome::Buckets(vec![vec![peer(3)], vec![peer(2), peer(1)]]);
    let reply =
        SwarmDriver::finish_cmd(CmdThen::ReplyAllPeers(4), outcome, &mut pending, &peer(0), 5)
            .unwrap()
            .unwrap();
    match reply.payload {
        ReplyPayload::Peers(peers) => {
            assert!(peers == vec![peer(3), peer(2), peer(1), peer(0)]);
        }
        other => panic!("{other:?}"),
    }
}

#[test]
fn outcomes_are_replied() {
    let mut pending = PendingReplies::new();
    let outcome = CmdOutcome::Finished(Err("no route"));
    let reply = SwarmDriver::finish_cmd(CmdThen::ReplyResult(4), outcome, &mut pending, &peer(0), 5)
        .unwrap()
        .unwrap();
    assert!(matches!(reply.payload, ReplyPayload::Result(Err("no route"))));
    let outcome: CmdOutcome<()> = CmdOutcome::Done;
    let reply = SwarmDriver::finish_cmd(CmdThen::ReplyDone(4), outcome, &mut pending, &peer(0), 5)
        .unwrap()
        .unwrap();
    assert!(matches!(reply.payload, ReplyPayload::Result(Ok(()))));
    let state = SwarmLocalState { connected_peers: vec![peer(1)], listeners: vec![addr()] };
    let outcome: CmdOutcome<()> = CmdOutcome::State(state);
    let reply = SwarmDriver::finish_cmd(CmdThen::ReplyState(4), outcome, &mut pending, &peer(0), 5)
        .unwrap()
        .unwrap();
    assert!(reply.required);
    match reply.payload {
        ReplyPayload::State(state) => {
            assert_eq!((state.connected_peers.len(), state.listeners.len()), (1, 1));
        }
        other => panic!("{other:?}"),
    }
}

#[test]
fn dropped_channels_are_errors() {
    let mut pending = PendingReplies::new();
    for delivered in [true, false] {
        let outcome: CmdOutcome<()> = CmdOutcome::Delivered(delivered);
        let then = CmdThen::CheckDelivered;
        match SwarmDriver::finish_cmd(then, outcome, &mut pending, &peer(0), 5) {
            Ok(None) => assert!(delivered),
            Err(CmdError::InternalMsgChannelDropped) => assert!(!delivered),
            other => panic!("{other:?}"),
        }
    }
    for sent in [true, false] {
        let back = if sent { Ok(()) } else { Err(Response { bytes: vec![8] }) };
        let outcome: CmdOutcome<()> = CmdOutcome::Sent(back);
        match SwarmDriver::finish_cmd(CmdThen::CheckSent, outcome, &mut pending, &peer(0), 5) {
            Ok(None) => assert!(sent),
            Err(CmdError::OutgoingResponseDropped(resp)) => {
                assert!(!sent);
                assert_eq!(resp.bytes, vec![8]);
            }
            other => panic!("{other:?}"),
        }
    }
    let dropped = SwarmDriver::reply_sent(true, false);
    assert!(matches!(dropped, Err(CmdError::InternalMsgChannelDropped)));
    assert!(SwarmDriver::reply_sent(true, true).is_ok());
    assert!(SwarmDriver::reply_sent(false, false).is_ok());
    let cmd = SwarmCmd::SendResponse {
        resp: Response { bytes: vec![] },
        channel: MsgResponder::FromPeer(4),
    };
    let (action, then) = SwarmDriver::handle_cmd(cmd, &peer(0));
    assert!(matches!(action, CmdAction::SendResponse { channel: 4, .. }));
    assert_eq!(then, CmdThen::CheckSent);
}

#[test]
fn dial_command_prevents_simultaneous_dials() {
    let mut named = addr();
    named.protocols.push(AddrProtocol::P2p(peer(8)));
    match SwarmDriver::handle_cmd(SwarmCmd::Dial { addr: named, sender: 7 }, &peer(0)) {
        (CmdAction::Dial(DialOpts::PeerUnlessDialing { peer_id, addresses }), then) => {
            assert!(peer_id == peer(8));
            assert_eq!(addresses[0].protocols.len(), 2);
            assert_eq!(then, CmdThen::ReplyResult(7));
        }
        other => panic!("{other:?}"),
    }
}

#[test]
fn target_record_has_to_match_in_everything() {
    let mut cfg = GetRecordCfg::majority();
    assert!(!cfg.does_target_match(&record(1)));
    assert!(cfg.printed_target().is_none());
    cfg.target_record = Some(record(1));
    assert!(cfg.does_target_match(&record(1)));
    assert!(!cfg.does_target_match(&record(2)));
    assert!(cfg.printed_target() == Some(key(1)));
    for other in [
        Record { value: vec![], ..record(1) },
        Record { publisher: Some(peer(1)), ..record(1) },
        Record { expires: Some(0), ..record(1) },
    ] {
        assert!(!cfg.does_target_match(&other));
    }
}

#[test]
fn settings_and_states_are_copied() {
    let mut holders = PeerSet::new();
    holders.insert(peer(3));
    let get = GetRecordCfg {
        get_quorum: Quorum::N(2),
        retry_strategy: Some(RetryStrategy::Quick),
        target_record: Some(Record { publisher: Some(peer(4)), ..record(1) }),
        expected_holders: holders,
    };
    let put = PutRecordCfg {
        put_quorum: Quorum::One,
        retry_strategy: None,
        use_put_record_to: Some(vec![peer(5), peer(6)]),
        verification: Some((
            VerificationKind::ChunkProof { expected_proof: vec![1, 2], nonce: 9 },
            get,
        )),
    };
    let copy = put.clone();
    assert_eq!((copy.put_quorum, copy.retry_strategy), (Quorum::One, None));
    assert!(copy.use_put_record_to == Some(vec![peer(5), peer(6)]));
    match copy.verification {
        Some((VerificationKind::ChunkProof { expected_proof, nonce: 9 }, get)) => {
            assert_eq!(expected_proof, vec![1, 2]);
            assert_eq!(get.get_quorum, Quorum::N(2));
            assert_eq!(get.retry_strategy, Some(RetryStrategy::Quick));
            let target = Record { publisher: Some(peer(4)), ..record(1) };
            assert!(get.does_target_match(&target));
            assert!(get.expected_holders.contains(&peer(3)));
            assert!(!get.expected_holders.contains(&peer(4)));
        }
        _ => panic!("another verification"),
    }
    let mut named = addr();
    named.protocols.push(AddrProtocol::P2p(peer(8)));
    named.protocols.push(AddrProtocol::Ws("/".to_string()));
    let state = SwarmLocalState { connected_peers: vec![peer(1)], listeners: vec![named] };
    let copy = state.clone();
    assert!(copy.connected_peers == state.connected_peers);
    assert_eq!(format!("{:?}", copy.listeners), format!("{:?}", state.listeners));
}
