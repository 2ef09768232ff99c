//! The commands that the swarm is driven by.
//!
//! A command is first turned into an action on the swarm, together with a note of what is to
//! happen when the action has been done. Channels, queries and requests that live outside are
//! referred to by numbers.

use std::collections::HashMap;

use vstd::prelude::*;

use crate::address::{
    address_views, protocol_views, AddrProtocol, AddressSet, AddressView, Multiaddr, NetworkAddress,
    ProtocolView, Record, RecordKey,
};
use crate::distance::{kbucket_digest, preimage_distance, xor_distance, Distance, KBucketKey};
use crate::driver::{
    all_local_peers, bucket_peers, dials, law_buckets_are_read_in_order, DialOpts, SwarmDriver,
};
use crate::peer::{clone_peers, peer_views, PeerId, PeerSet};
use crate::record_cfg::Quorum;

verus! {

/// The number of a channel that somebody waits at for a reply.
pub type ReplyId = u64;

/// The number of a query that the network was asked.
pub type QueryId = u64;

/// The number of a request that was sent to a peer.
pub type RequestId = u64;

/// The number of a channel on which a peer waits for a response.
pub type ChannelId = u64;

/// A request between peers, as it is sent.
#[derive(Debug)]
pub struct Request {
    pub bytes: Vec<u8>,
}

/// A response between peers, as it is sent.
#[derive(Debug)]
pub struct Response {
    pub bytes: Vec<u8>,
}

/// Where the response to a request goes.
#[derive(Debug)]
pub enum MsgResponder {
    /// To ourselves, by a channel if somebody waits.
    FromSelf(Option<ReplyId>),
    /// To a peer.
    FromPeer(ChannelId),
}

/// What the layer above is told.
#[derive(Debug)]
pub enum NetworkEvent {
    RequestReceived { req: Request, channel: MsgResponder },
    ResponseReceived { res: Response },
}

/// Commands to the swarm.
#[allow(inconsistent_fields)]
#[derive(Debug)]
pub enum SwarmCmd {
    StartListening { addr: Multiaddr, sender: ReplyId },
    Dial { addr: Multiaddr, sender: ReplyId },
    AddToRoutingTable { peer_id: PeerId, peer_addr: Multiaddr, sender: ReplyId },
    /// Get the closest peers from the network.
    GetClosestPeers { key: NetworkAddress, sender: ReplyId },
    /// Get the closest peers from the local routing table.
    GetClosestLocalPeers { key: NetworkAddress, sender: ReplyId },
    /// Get all peers of the local routing table, ourselves included.
    GetAllLocalPeers { sender: ReplyId },
    /// Send a request to a peer. Without a `sender` nobody waits for the response, and the layer
    /// above is told of it.
    SendRequest { req: Request, peer: PeerId, sender: Option<ReplyId> },
    SendResponse { resp: Response, channel: MsgResponder },
    GetSwarmLocalState(ReplyId),
    /// Check whether the local record store has the key.
    RecordStoreHasKey { key: RecordKey, sender: ReplyId },
    /// Get a record from the network.
    GetNetworkRecord { key: RecordKey, sender: ReplyId },
    /// Get a record from the local record store.
    GetLocalRecord { key: RecordKey, sender: ReplyId },
    /// Put a record to the network.
    PutRecord { record: Record, sender: ReplyId },
    /// Put a record to the local record store.
    PutLocalRecord { record: Record },
    /// Get the keys within a distance of a target.
    GetRecordKeysClosestToTarget { key: NetworkAddress, distance: Distance, sender: ReplyId },
    AddKeysToReplicationFetcher { peer: PeerId, keys: Vec<NetworkAddress>, sender: ReplyId },
    NotifyFetchResult { peer: PeerId, key: NetworkAddress, result: bool, sender: ReplyId },
    /// Set the acceptable range of records.
    SetRecordDistanceRange { distance: Distance },
}

/// Snapshot of the swarm's local state.
#[derive(Debug)]
pub struct SwarmLocalState {
    /// The peers that are connected.
    pub connected_peers: Vec<PeerId>,
    /// The addresses that are listened on.
    pub listeners: Vec<Multiaddr>,
}

/// What the addresses of a list say.
pub open spec fn listener_views(listeners: Seq<Multiaddr>) -> Seq<Seq<ProtocolView>> {
    listeners.map_values(|addr: Multiaddr| protocol_views(addr@))
}

impl Clone for SwarmLocalState {
    fn clone(&self) -> (copy: Self)
        ensures
            peer_views(copy.connected_peers@) == peer_views(self.connected_peers@),
            listener_views(copy.listeners@) == listener_views(self.listeners@),
    {
        let ghost views = listener_views(self.listeners@);
        let mut listeners: Vec<Multiaddr> = Vec::new();
        let mut i: usize = 0;
        assert(listener_views(listeners@) =~= views.take(0));
        while i < self.listeners.len()
            invariant
                i <= self.listeners@.len(),
                views == listener_views(self.listeners@),
                listener_views(listeners@) == views.take(i as int),
            decreases self.listeners@.len() - i,
        {
            let ghost before = listeners@;
            listeners.push(self.listeners[i].clone());
            assert(listener_views(listeners@) =~= listener_views(before).push(views[i as int]));
            assert(listener_views(listeners@) =~= views.take(i + 1));
            i += 1;
        }
        assert(views.take(i as int) =~= views);
        SwarmLocalState { connected_peers: clone_peers(&self.connected_peers), listeners }
    }
}

/// Who handles a command.
#[derive(Clone, Copy, Debug, PartialEq, Eq, Structural)]
pub enum CmdHandler {
    /// `SwarmDriver::handle_record_key_cmds`.
    RecordKeys,
    /// `SwarmDriver::handle_kad_store_cmd`.
    KadStore,
    /// `SwarmDriver::handle_cmd`.
    Swarm,
}

impl SwarmCmd {
    /// Who handles the command.
    pub open spec fn handled_by(self) -> CmdHandler {
        if self is GetRecordKeysClosestToTarget || self is AddKeysToReplicationFetcher || self
            is NotifyFetchResult || self is RecordStoreHasKey {
            CmdHandler::RecordKeys
        } else if self is SetRecordDistanceRange || self is GetLocalRecord || self is PutRecord
            || self is PutLocalRecord {
            CmdHandler::KadStore
        } else {
            CmdHandler::Swarm
        }
    }

    /// Who handles the command.
    pub fn handler(&self) -> (handler: CmdHandler)
        ensures
            handler == self.handled_by(),
    {
        match self {
            SwarmCmd::GetRecordKeysClosestToTarget { .. } => CmdHandler::RecordKeys,
            SwarmCmd::AddKeysToReplicationFetcher { .. } => CmdHandler::RecordKeys,
            SwarmCmd::NotifyFetchResult { .. } => CmdHandler::RecordKeys,
            SwarmCmd::RecordStoreHasKey { .. } => CmdHandler::RecordKeys,
            SwarmCmd::SetRecordDistanceRange { .. } => CmdHandler::KadStore,
            SwarmCmd::GetLocalRecord { .. } => CmdHandler::KadStore,
            SwarmCmd::PutRecord { .. } => CmdHandler::KadStore,
            SwarmCmd::PutLocalRecord { .. } => CmdHandler::KadStore,
            _ => CmdHandler::Swarm,
        }
    }
}

/// Why a command failed.
#[derive(Debug)]
pub enum CmdError {
    /// Nobody waits at the channel any more.
    InternalMsgChannelDropped,
    /// The peer no longer waits for this response.
    OutgoingResponseDropped(Response),
}

// ---------- commands about record keys ----------

/// Of the addresses, the record keys that are closer to `target` than `bar`.
pub open spec fn record_keys_closer(
    addresses: Seq<AddressView>,
    target: Seq<u8>,
    bar: nat,
) -> Seq<Seq<u8>>
    decreases addresses.len(),
{
    if addresses.len() == 0 {
        Seq::empty()
    } else {
        let before = record_keys_closer(addresses.drop_last(), target, bar);
        match addresses.last() {
            AddressView::RecordKey(key) => if xor_distance(target, kbucket_digest(key)) < bar {
                before.push(key)
            } else {
                before
            },
            _ => before,
        }
    }
}

/// The bytes of some record keys.
pub open spec fn key_views(keys: Seq<RecordKey>) -> Seq<Seq<u8>> {
    keys.map_values(|k: RecordKey| k@)
}

/// The wanted addresses that are not held.
pub open spec fn missing_addresses(wanted: Seq<AddressView>, held: Seq<AddressView>) -> Seq<
    AddressView,
>
    decreases wanted.len(),
{
    if wanted.len() == 0 {
        Seq::empty()
    } else {
        let before = missing_addresses(wanted.drop_last(), held);
        if held.contains(wanted.last()) {
            before
        } else {
            before.push(wanted.last())
        }
    }
}

/// What a command about record keys leads to.
#[derive(Debug)]
pub enum RecordKeyStep {
    /// Reply with the keys.
    ReplyKeys { keys: Vec<RecordKey>, sender: ReplyId },
    /// Take all held addresses off the replication fetcher, hand it the missing ones, and reply
    /// with what it wants fetched.
    FetchMissing { peer: PeerId, missing: Vec<NetworkAddress>, sender: ReplyId },
    /// Tell the replication fetcher of the outcome and reply with what it wants fetched.
    NotifyFetcher { peer: PeerId, key: NetworkAddress, result: bool, sender: ReplyId },
    /// Reply whether the key is held.
    ReplyHasKey { has_key: bool, sender: ReplyId },
    /// The command is not about record keys. Nothing is done.
    Unsupported,
}

/// Whether `step` is what `cmd` leads to, where the record store holds `held`.
pub open spec fn leads_to(cmd: SwarmCmd, held: Seq<AddressView>, step: RecordKeyStep) -> bool {
    match cmd {
        SwarmCmd::GetRecordKeysClosestToTarget { key, distance, sender } => {
            &&& step matches RecordKeyStep::ReplyKeys { keys, sender: to }
            &&& key_views(keys@) == record_keys_closer(
                held,
                kbucket_digest(key@.bytes()),
                distance@,
            )
            &&& to == sender
        },
        SwarmCmd::AddKeysToReplicationFetcher { peer, keys, sender } => {
            &&& step matches RecordKeyStep::FetchMissing { peer: from, missing, sender: to }
            &&& from == peer
            &&& address_views(missing@) == missing_addresses(address_views(keys@), held)
            &&& to == sender
        },
        SwarmCmd::NotifyFetchResult { peer, key, result, sender } => {
            step == (RecordKeyStep::NotifyFetcher { peer, key, result, sender })
        },
        SwarmCmd::RecordStoreHasKey { key, sender } => {
            step == (RecordKeyStep::ReplyHasKey {
                has_key: held.contains(AddressView::RecordKey(key@)),
                sender,
            })
        },
        _ => step == RecordKeyStep::Unsupported,
    }
}

// ---------- commands to the record store ----------

/// What the record store, or the network through it, is to do.
#[derive(Debug)]
pub enum KadStoreAction {
    SetDistanceRange(Distance),
    ReadRecord(RecordKey),
    PutRecord { record: Record, quorum: Quorum },
    StoreRecord(Record),
    /// The command is not one to the record store. Nothing is done.
    Unsupported,
}

/// What is to happen when the record store has done its part.
#[derive(Clone, Copy, Debug, PartialEq, Eq, Structural)]
pub enum KadStoreThen {
    Nothing,
    ReplyRecord(ReplyId),
    AwaitPut(ReplyId),
    ReportAddresses,
}

/// What the record store did.
#[derive(Debug)]
pub enum KadStoreOutcome<E> {
    Done,
    Read(Option<Record>),
    /// The put is under way as a query, or was refused.
    PutStarted(Result<QueryId, E>),
    /// The record was stored, and these are all addresses that are now held; or it was refused.
    Stored(Result<AddressSet, E>),
}

impl KadStoreThen {
    /// Whether the outcome is one of the action that came with this note.
    pub open spec fn fits<E>(self, outcome: KadStoreOutcome<E>) -> bool {
        match self {
            KadStoreThen::Nothing => outcome is Done,
            KadStoreThen::ReplyRecord(_) => outcome is Read,
            KadStoreThen::AwaitPut(_) => outcome is PutStarted,
            KadStoreThen::ReportAddresses => outcome is Stored,
        }
    }
}

/// What is left to do after a command to the record store.
#[derive(Debug)]
pub enum KadStoreResult {
    Nothing,
    ReplyRecord { record: Option<Record>, sender: ReplyId },
    /// The addresses that are held have changed to these.
    UpdatedAddresses(AddressSet),
}

/// Whether `after` is `before` with the put that the note and the outcome add, if they add one.
pub open spec fn store_tracks<E>(
    before: PendingReplies,
    then: KadStoreThen,
    outcome: KadStoreOutcome<E>,
    after: PendingReplies,
) -> bool {
    &&& after.get_closest_peers == before.get_closest_peers
    &&& after.requests == before.requests
    &&& after.queries == before.queries
    &&& match (then, outcome) {
        (KadStoreThen::AwaitPut(sender), KadStoreOutcome::PutStarted(Ok(id))) => {
            after.record_puts@ == before.record_puts@.insert(id, sender)
        },
        _ => after.record_puts == before.record_puts,
    }
}

/// Whether `result` is what is left to do after the outcome.
pub open spec fn store_finishes<E>(
    then: KadStoreThen,
    outcome: KadStoreOutcome<E>,
    result: Result<KadStoreResult, E>,
) -> bool {
    match (then, outcome) {
        (KadStoreThen::ReplyRecord(sender), KadStoreOutcome::Read(record)) => {
            result == Ok::<KadStoreResult, E>(KadStoreResult::ReplyRecord { record, sender })
        },
        (KadStoreThen::ReportAddresses, KadStoreOutcome::Stored(Ok(held))) => {
            result == Ok::<KadStoreResult, E>(KadStoreResult::UpdatedAddresses(held))
        },
        (_, KadStoreOutcome::PutStarted(Err(error))) => result == Err::<KadStoreResult, E>(error),
        (_, KadStoreOutcome::Stored(Err(error))) => result == Err::<KadStoreResult, E>(error),
        _ => result == Ok::<KadStoreResult, E>(KadStoreResult::Nothing),
    }
}

/// What becomes of a command when its reply has been sent.
pub open spec fn outcome_of_reply(required: bool, delivered: bool) -> Result<(), CmdError> {
    if required && !delivered {
        Err(CmdError::InternalMsgChannelDropped)
    } else {
        Ok(())
    }
}

/// What a command to the record store asks for.
pub open spec fn kad_store_route(cmd: SwarmCmd) -> (KadStoreAction, KadStoreThen) {
    match cmd {
        SwarmCmd::SetRecordDistanceRange { distance } => (
            KadStoreAction::SetDistanceRange(distance),
            KadStoreThen::Nothing,
        ),
        SwarmCmd::GetLocalRecord { key, sender } => (
            KadStoreAction::ReadRecord(key),
            KadStoreThen::ReplyRecord(sender),
        ),
        SwarmCmd::PutRecord { record, sender } => (
            KadStoreAction::PutRecord { record, quorum: Quorum::All },
            KadStoreThen::AwaitPut(sender),
        ),
        SwarmCmd::PutLocalRecord { record } => (
            KadStoreAction::StoreRecord(record),
            KadStoreThen::ReportAddresses,
        ),
        _ => (KadStoreAction::Unsupported, KadStoreThen::Nothing),
    }
}

// ---------- commands to the swarm ----------

/// What the swarm is to do.
#[allow(inconsistent_fields)]
#[derive(Debug)]
pub enum CmdAction {
    GetRecord(RecordKey),
    Listen(Multiaddr),
    AddAddress { peer_id: PeerId, peer_addr: Multiaddr },
    Dial(DialOpts),
    GetClosestPeers(NetworkAddress),
    ReadClosestLocalPeers(NetworkAddress),
    ReadBuckets,
    SendRequest { peer: PeerId, req: Request },
    /// Tell the layer above.
    SendEvent(NetworkEvent),
    /// Hand the response to whoever of us waits for it.
    DeliverResponse { channel: ReplyId, resp: Response },
    SendResponse { channel: ChannelId, resp: Response },
    ReadLocalState,
    /// The command is not one to the swarm. Nothing is done.
    Unsupported,
}

/// What is to happen when the swarm has done its part.
#[derive(Clone, Copy, Debug, PartialEq, Eq, Structural)]
pub enum CmdThen {
    Nothing,
    /// Keep who waits for the record that the query finds.
    TrackQuery(ReplyId),
    /// Keep who waits for the peers that the query finds.
    TrackClosestPeers(ReplyId),
    /// Keep who waits for the response, if anybody does.
    TrackRequest(Option<ReplyId>),
    /// Reply how it went.
    ReplyResult(ReplyId),
    /// Reply that it was done.
    ReplyDone(ReplyId),
    ReplyClosestPeers(ReplyId),
    ReplyAllPeers(ReplyId),
    ReplyState(ReplyId),
    /// Fail if nobody of us took the response.
    CheckDelivered,
    /// Fail with the response if it could not be sent to the peer.
    CheckSent,
}

/// What the swarm did.
#[derive(Debug)]
pub enum CmdOutcome<E> {
    Done,
    QueryStarted(QueryId),
    RequestStarted(RequestId),
    Finished(Result<(), E>),
    Peers(Vec<PeerId>),
    Buckets(Vec<Vec<PeerId>>),
    State(SwarmLocalState),
    /// Whether somebody of us took the response.
    Delivered(bool),
    /// The response was sent to the peer, or came back.
    Sent(Result<(), Response>),
}

impl CmdThen {
    /// Whether the outcome is one of the action that came with this note.
    pub open spec fn fits<E>(self, outcome: CmdOutcome<E>) -> bool {
        match self {
            CmdThen::Nothing => outcome is Done,
            CmdThen::TrackQuery(_) => outcome is QueryStarted,
            CmdThen::TrackClosestPeers(_) => outcome is QueryStarted,
            CmdThen::TrackRequest(_) => outcome is RequestStarted,
            CmdThen::ReplyResult(_) => outcome is Finished,
            CmdThen::ReplyDone(_) => outcome is Done,
            CmdThen::ReplyClosestPeers(_) => outcome is Peers,
            CmdThen::ReplyAllPeers(_) => outcome is Buckets,
            CmdThen::ReplyState(_) => outcome is State,
            CmdThen::CheckDelivered => outcome is Delivered,
            CmdThen::CheckSent => outcome is Sent,
        }
    }
}

/// What is replied.
#[derive(Debug)]
pub enum ReplyPayload<E> {
    Result(Result<(), E>),
    Peers(Vec<PeerId>),
    State(SwarmLocalState),
}

/// A reply to whoever waits.
#[derive(Debug)]
pub struct Reply<E> {
    pub sender: ReplyId,
    pub payload: ReplyPayload<E>,
    /// Whether it is an error if nobody waits any more.
    pub required: bool,
}

/// Whether `action`, and `then` after it, are what `cmd` asks of the swarm of the peer `own`.
pub open spec fn cmd_routes(
    cmd: SwarmCmd,
    own: Seq<u8>,
    action: CmdAction,
    then: CmdThen,
) -> bool {
    match cmd {
        SwarmCmd::GetNetworkRecord { key, sender } => {
            action == CmdAction::GetRecord(key) && then == CmdThen::TrackQuery(sender)
        },
        SwarmCmd::StartListening { addr, sender } => {
            action == CmdAction::Listen(addr) && then == CmdThen::ReplyResult(sender)
        },
        SwarmCmd::AddToRoutingTable { peer_id, peer_addr, sender } => {
            action == (CmdAction::AddAddress { peer_id, peer_addr }) && then
                == CmdThen::ReplyDone(sender)
        },
        SwarmCmd::Dial { addr, sender } => {
            &&& action matches CmdAction::Dial(opts)
            &&& dials(opts, addr@)
            &&& then == CmdThen::ReplyResult(sender)
        },
        SwarmCmd::GetClosestPeers { key, sender } => {
            action == CmdAction::GetClosestPeers(key) && then == CmdThen::TrackClosestPeers(
                sender,
            )
        },
        SwarmCmd::GetClosestLocalPeers { key, sender } => {
            action == CmdAction::ReadClosestLocalPeers(key) && then
                == CmdThen::ReplyClosestPeers(sender)
        },
        SwarmCmd::GetAllLocalPeers { sender } => {
            action == CmdAction::ReadBuckets && then == CmdThen::ReplyAllPeers(sender)
        },
        SwarmCmd::SendRequest { req, peer, sender } => if peer@ == own {
            action == CmdAction::SendEvent(
                NetworkEvent::RequestReceived { req, channel: MsgResponder::FromSelf(sender) },
            ) && then == CmdThen::Nothing
        } else {
            action == (CmdAction::SendRequest { peer, req }) && then == CmdThen::TrackRequest(
                sender,
            )
        },
        SwarmCmd::SendResponse { resp, channel } => match channel {
            MsgResponder::FromSelf(Some(waiting)) => {
                action == (CmdAction::DeliverResponse { channel: waiting, resp }) && then
                    == CmdThen::CheckDelivered
            },
            MsgResponder::FromSelf(None) => {
                action == CmdAction::SendEvent(NetworkEvent::ResponseReceived { res: resp })
                    && then == CmdThen::Nothing
            },
            MsgResponder::FromPeer(waiting) => {
                action == (CmdAction::SendResponse { channel: waiting, resp }) && then
                    == CmdThen::CheckSent
            },
        },
        SwarmCmd::GetSwarmLocalState(sender) => {
            action == CmdAction::ReadLocalState && then == CmdThen::ReplyState(sender)
        },
        _ => action == CmdAction::Unsupported && then == CmdThen::Nothing,
    }
}

/// Who waits for what.
#[derive(Debug)]
pub struct PendingReplies {
    /// Who waits for the peers closest to something, with the peers found so far.
    pub get_closest_peers: HashMap<QueryId, (ReplyId, PeerSet)>,
    /// Who, if anybody, waits for the response to a request.
    pub requests: HashMap<RequestId, Option<ReplyId>>,
    /// Who waits for a record.
    pub queries: HashMap<QueryId, ReplyId>,
    /// Who waits for a put to be done.
    pub record_puts: HashMap<QueryId, ReplyId>,
}

impl PendingReplies {
    /// Nobody waits for anything.
    pub fn new() -> (pending: PendingReplies)
        ensures
            pending.get_closest_peers@ == Map::<QueryId, (ReplyId, PeerSet)>::empty(),
            pending.requests@ == Map::<RequestId, Option<ReplyId>>::empty(),
            pending.queries@ == Map::<QueryId, ReplyId>::empty(),
            pending.record_puts@ == Map::<QueryId, ReplyId>::empty(),
    {
        PendingReplies {
            get_closest_peers: HashMap::new(),
            requests: HashMap::new(),
            queries: HashMap::new(),
            record_puts: HashMap::new(),
        }
    }
}

/// Whether `after` is `before` with the entries that the note and the outcome add.
pub open spec fn tracks<E>(
    before: PendingReplies,
    then: CmdThen,
    outcome: CmdOutcome<E>,
    after: PendingReplies,
) -> bool {
    &&& after.record_puts == before.record_puts
    &&& match (then, outcome) {
        (CmdThen::TrackQuery(sender), CmdOutcome::QueryStarted(id)) => {
            after.queries@ == before.queries@.insert(id, sender)
        },
        _ => after.queries == before.queries,
    }
    &&& match (then, outcome) {
        (CmdThen::TrackClosestPeers(sender), CmdOutcome::QueryStarted(id)) => {
            &&& after.get_closest_peers@.dom() == before.get_closest_peers@.dom().insert(id)
            &&& after.get_closest_peers@[id].0 == sender
            &&& after.get_closest_peers@[id].1@ == Set::<Seq<u8>>::empty()
            &&& forall|other: QueryId|
                other != id && before.get_closest_peers@.contains_key(other)
                    ==> #[trigger] after.get_closest_peers@[other]
                    == before.get_closest_peers@[other]
        },
        _ => after.get_closest_peers == before.get_closest_peers,
    }
    &&& match (then, outcome) {
        (CmdThen::TrackRequest(sender), CmdOutcome::RequestStarted(id)) => {
            after.requests@ == before.requests@.insert(id, sender)
        },
        _ => after.requests == before.requests,
    }
}

/// The first `n` peers, or all of them.
pub open spec fn first_peers(peers: Seq<PeerId>, n: nat) -> Seq<PeerId> {
    if peers.len() <= n {
        peers
    } else {
        peers.take(n as int)
    }
}

/// Whether `result` is what is left to do after the outcome.
pub open spec fn cmd_finishes<E>(
    then: CmdThen,
    outcome: CmdOutcome<E>,
    own: Seq<u8>,
    close_group_size: nat,
    result: Result<Option<Reply<E>>, CmdError>,
) -> bool {
    match (then, outcome) {
        (CmdThen::ReplyResult(sender), CmdOutcome::Finished(how)) => {
            result == Ok::<Option<Reply<E>>, CmdError>(
                Some(Reply { sender, payload: ReplyPayload::Result(how), required: false }),
            )
        },
        (CmdThen::ReplyDone(sender), _) => {
            result == Ok::<Option<Reply<E>>, CmdError>(
                Some(Reply { sender, payload: ReplyPayload::Result(Ok(())), required: false }),
            )
        },
        (CmdThen::ReplyClosestPeers(sender), CmdOutcome::Peers(found)) => {
            &&& result matches Ok(Some(reply))
            &&& reply.sender == sender
            &&& !reply.required
            &&& reply.payload matches ReplyPayload::Peers(peers)
            &&& peers@ == first_peers(found@, close_group_size)
        },
        (CmdThen::ReplyAllPeers(sender), CmdOutcome::Buckets(buckets)) => {
            &&& result matches Ok(Some(reply))
            &&& reply.sender == sender
            &&& !reply.required
            &&& reply.payload matches ReplyPayload::Peers(peers)
            &&& peer_views(peers@) == bucket_peers(buckets@).push(own)
        },
        (CmdThen::ReplyState(sender), CmdOutcome::State(state)) => {
            result == Ok::<Option<Reply<E>>, CmdError>(
                Some(Reply { sender, payload: ReplyPayload::State(state), required: true }),
            )
        },
        (CmdThen::CheckDelivered, CmdOutcome::Delivered(delivered)) => {
            result == if delivered {
                Ok::<Option<Reply<E>>, CmdError>(None)
            } else {
                Err::<Option<Reply<E>>, CmdError>(CmdError::InternalMsgChannelDropped)
            }
        },
        (CmdThen::CheckSent, CmdOutcome::Sent(sent)) => {
            result == match sent {
                Ok(_) => Ok::<Option<Reply<E>>, CmdError>(None),
                Err(resp) => Err::<Option<Reply<E>>, CmdError>(
                    CmdError::OutgoingResponseDropped(resp),
                ),
            }
        },
        _ => result == Ok::<Option<Reply<E>>, CmdError>(None),
    }
}

impl SwarmDriver {
    /// The keys among the addresses that are closer to the target than the given distance.
    pub fn get_existing_keys_closest_to_target(
        existing_keys: &AddressSet,
        target: &KBucketKey,
        distance_bar: &Distance,
    ) -> (keys: Vec<RecordKey>)
        ensures
            key_views(keys@) == record_keys_closer(
                existing_keys.ordered(),
                target@,
                distance_bar@,
            ),
    {
        let ghost held = existing_keys.ordered();
        let mut keys: Vec<RecordKey> = Vec::new();
        let mut i: usize = 0;
        let n: usize = existing_keys.len();
        assert(key_views(keys@) =~= record_keys_closer(held.take(0), target@, distance_bar@));
        while i < n
            invariant
                i <= n,
                n == held.len(),
                held == existing_keys.ordered(),
                key_views(keys@) == record_keys_closer(
                    held.take(i as int),
                    target@,
                    distance_bar@,
                ),
            decreases n - i,
        {
            let ghost before = keys@;
            assert(held.take(i + 1).drop_last() =~= held.take(i as int));
            if let NetworkAddress::RecordKey(key) = existing_keys.get(i) {
                let record_key = KBucketKey::new(key.as_slice());
                if target.distance(&record_key).less_than(distance_bar) {
                    keys.push(RecordKey::new(key.as_slice()));
                    assert(key_views(keys@) =~= key_views(before).push(key@));
                }
            }
            i += 1;
        }
        assert(held.take(i as int) =~= held);
        keys
    }

    /// Decides on a command about record keys, where the record store holds `existing_keys`.
    pub fn handle_record_key_cmds(cmd: SwarmCmd, existing_keys: &AddressSet) -> (step:
        RecordKeyStep)
        ensures
            leads_to(cmd, existing_keys.ordered(), step),
    {
        match cmd {
            SwarmCmd::GetRecordKeysClosestToTarget { key, distance, sender } => {
                let keys = Self::get_existing_keys_closest_to_target(
                    existing_keys,
                    &key.as_kbucket_key(),
                    &distance,
                );
                RecordKeyStep::ReplyKeys { keys, sender }
            },
            SwarmCmd::AddKeysToReplicationFetcher { peer, keys, sender } => {
                let missing = missing_from(&keys, existing_keys);
                RecordKeyStep::FetchMissing { peer, missing, sender }
            },
            SwarmCmd::NotifyFetchResult { peer, key, result, sender } => {
                RecordKeyStep::NotifyFetcher { peer, key, result, sender }
            },
            SwarmCmd::RecordStoreHasKey { key, sender } => {
                let address = NetworkAddress::RecordKey(key.bytes);
                RecordKeyStep::ReplyHasKey { has_key: existing_keys.contains(&address), sender }
            },
            _ => RecordKeyStep::Unsupported,
        }
    }

    /// Decides on a command to the record store.
    pub fn handle_kad_store_cmd(cmd: SwarmCmd) -> (route: (KadStoreAction, KadStoreThen))
        ensures
            route == kad_store_route(cmd),
    {
        match cmd {
            SwarmCmd::SetRecordDistanceRange { distance } => {
                (KadStoreAction::SetDistanceRange(distance), KadStoreThen::Nothing)
            },
            SwarmCmd::GetLocalRecord { key, sender } => {
                (KadStoreAction::ReadRecord(key), KadStoreThen::ReplyRecord(sender))
            },
            SwarmCmd::PutRecord { record, sender } => {
                (
                    KadStoreAction::PutRecord { record, quorum: Quorum::All },
                    KadStoreThen::AwaitPut(sender),
                )
            },
            SwarmCmd::PutLocalRecord { record } => {
                (KadStoreAction::StoreRecord(record), KadStoreThen::ReportAddresses)
            },
            _ => (KadStoreAction::Unsupported, KadStoreThen::Nothing),
        }
    }

    /// Finishes a command to the record store, once that has done its part.
    pub fn finish_kad_store_cmd<E>(
        then: KadStoreThen,
        outcome: KadStoreOutcome<E>,
        pending: &mut PendingReplies,
    ) -> (result: Result<KadStoreResult, E>)
        requires
            then.fits(outcome),
        ensures
            final(pending).get_closest_peers == old(pending).get_closest_peers,
            final(pending).requests == old(pending).requests,
            final(pending).queries == old(pending).queries,
            match (then, outcome) {
                (KadStoreThen::AwaitPut(sender), KadStoreOutcome::PutStarted(Ok(id))) => {
                    final(pending).record_puts@ == old(pending).record_puts@.insert(id, sender)
                },
                _ => final(pending).record_puts == old(pending).record_puts,
            },
            match (then, outcome) {
                (KadStoreThen::ReplyRecord(sender), KadStoreOutcome::Read(record)) => {
                    result == Ok::<KadStoreResult, E>(
                        KadStoreResult::ReplyRecord { record, sender },
                    )
                },
                (KadStoreThen::ReportAddresses, KadStoreOutcome::Stored(Ok(held))) => {
                    result == Ok::<KadStoreResult, E>(KadStoreResult::UpdatedAddresses(held))
                },
                (_, KadStoreOutcome::PutStarted(Err(error))) => {
                    result == Err::<KadStoreResult, E>(error)
                },
                (_, KadStoreOutcome::Stored(Err(error))) => {
                    result == Err::<KadStoreResult, E>(error)
                },
                _ => result == Ok::<KadStoreResult, E>(KadStoreResult::Nothing),
            },
            store_tracks(*old(pending), then, outcome, *final(pending)),
            store_finishes(then, outcome, result),
    {
        broadcast use vstd::std_specs::hash::group_hash_axioms;

        match (then, outcome) {
            (KadStoreThen::ReplyRecord(sender), KadStoreOutcome::Read(record)) => {
                Ok(KadStoreResult::ReplyRecord { record, sender })
            },
            (KadStoreThen::AwaitPut(sender), KadStoreOutcome::PutStarted(started)) => {
                match started {
                    Ok(id) => {
                        let _ = pending.record_puts.insert(id, sender);
                        Ok(KadStoreResult::Nothing)
                    },
                    Err(error) => Err(error),
                }
            },
            (KadStoreThen::ReportAddresses, KadStoreOutcome::Stored(held)) => match held {
                Ok(held) => Ok(KadStoreResult::UpdatedAddresses(held)),
                Err(error) => Err(error),
            },
            _ => Ok(KadStoreResult::Nothing),
        }
    }

    /// Decides on a command to the swarm of the peer `local_peer_id`.
    pub fn handle_cmd(cmd: SwarmCmd, local_peer_id: &PeerId) -> (route: (CmdAction, CmdThen))
        ensures
            cmd_routes(cmd, local_peer_id@, route.0, route.1),
    {
        match cmd {
            SwarmCmd::GetNetworkRecord { key, sender } => {
                (CmdAction::GetRecord(key), CmdThen::TrackQuery(sender))
            },
            SwarmCmd::StartListening { addr, sender } => {
                (CmdAction::Listen(addr), CmdThen::ReplyResult(sender))
            },
            SwarmCmd::AddToRoutingTable { peer_id, peer_addr, sender } => {
                (CmdAction::AddAddress { peer_id, peer_addr }, CmdThen::ReplyDone(sender))
            },
            SwarmCmd::Dial { addr, sender } => {
                (CmdAction::Dial(Self::dial(addr)), CmdThen::ReplyResult(sender))
            },
            SwarmCmd::GetClosestPeers { key, sender } => {
                (CmdAction::GetClosestPeers(key), CmdThen::TrackClosestPeers(sender))
            },
            SwarmCmd::GetClosestLocalPeers { key, sender } => {
                (CmdAction::ReadClosestLocalPeers(key), CmdThen::ReplyClosestPeers(sender))
            },
            SwarmCmd::GetAllLocalPeers { sender } => {
                (CmdAction::ReadBuckets, CmdThen::ReplyAllPeers(sender))
            },
            SwarmCmd::SendRequest { req, peer, sender } => {
                // A request to ourselves goes straight to the layer above, which answers it with
                // a response to ourselves.
                if peer == *local_peer_id {
                    let channel = MsgResponder::FromSelf(sender);
                    (
                        CmdAction::SendEvent(NetworkEvent::RequestReceived { req, channel }),
                        CmdThen::Nothing,
                    )
                } else {
                    (CmdAction::SendRequest { peer, req }, CmdThen::TrackRequest(sender))
                }
            },
            SwarmCmd::SendResponse { resp, channel } => match channel {
                MsgResponder::FromSelf(Some(waiting)) => {
                    (CmdAction::DeliverResponse { channel: waiting, resp }, CmdThen::CheckDelivered)
                },
                MsgResponder::FromSelf(None) => {
                    (
                        CmdAction::SendEvent(NetworkEvent::ResponseReceived { res: resp }),
                        CmdThen::Nothing,
                    )
                },
                MsgResponder::FromPeer(waiting) => {
                    (CmdAction::SendResponse { channel: waiting, resp }, CmdThen::CheckSent)
                },
            },
            SwarmCmd::GetSwarmLocalState(sender) => {
                (CmdAction::ReadLocalState, CmdThen::ReplyState(sender))
            },
            _ => (CmdAction::Unsupported, CmdThen::Nothing),
        }
    }

    /// Finishes a command to the swarm, once that has done its part.
    pub fn finish_cmd<E>(
        then: CmdThen,
        outcome: CmdOutcome<E>,
        pending: &mut PendingReplies,
        our_peer_id: &PeerId,
        close_group_size: usize,
    ) -> (result: Result<Option<Reply<E>>, CmdError>)
        requires
            then.fits(outcome),
        ensures
            tracks(*old(pending), then, outcome, *final(pending)),
            cmd_finishes(then, outcome, our_peer_id@, close_group_size as nat, result),
    {
        broadcast use vstd::std_specs::hash::group_hash_axioms;

        match (then, outcome) {
            (CmdThen::TrackQuery(sender), CmdOutcome::QueryStarted(id)) => {
                let _ = pending.queries.insert(id, sender);
                Ok(None)
            },
            (CmdThen::TrackClosestPeers(sender), CmdOutcome::QueryStarted(id)) => {
                let found = PeerSet::new();
                let _ = pending.get_closest_peers.insert(id, (sender, found));
                Ok(None)
            },
            (CmdThen::TrackRequest(sender), CmdOutcome::RequestStarted(id)) => {
                let _ = pending.requests.insert(id, sender);
                Ok(None)
            },
            (CmdThen::ReplyResult(sender), CmdOutcome::Finished(how)) => {
                Ok(Some(Reply { sender, payload: ReplyPayload::Result(how), required: false }))
            },
            (CmdThen::ReplyDone(sender), _) => {
                Ok(Some(Reply { sender, payload: ReplyPayload::Result(Ok(())), required: false }))
            },
            (CmdThen::ReplyClosestPeers(sender), CmdOutcome::Peers(found)) => {
                let mut peers = found;
                peers.truncate(close_group_size);
                assert(peers@ =~= first_peers(found@, close_group_size as nat));
                Ok(Some(Reply { sender, payload: ReplyPayload::Peers(peers), required: false }))
            },
            (CmdThen::ReplyAllPeers(sender), CmdOutcome::Buckets(buckets)) => {
                let peers = all_local_peers(&buckets, our_peer_id);
                Ok(Some(Reply { sender, payload: ReplyPayload::Peers(peers), required: false }))
            },
            (CmdThen::ReplyState(sender), CmdOutcome::State(state)) => {
                Ok(Some(Reply { sender, payload: ReplyPayload::State(state), required: true }))
            },
            (CmdThen::CheckDelivered, CmdOutcome::Delivered(delivered)) => {
                if delivered {
                    Ok(None)
                } else {
                    Err(CmdError::InternalMsgChannelDropped)
                }
            },
            (CmdThen::CheckSent, CmdOutcome::Sent(sent)) => match sent {
                Ok(_) => Ok(None),
                Err(resp) => Err(CmdError::OutgoingResponseDropped(resp)),
            },
            _ => Ok(None),
        }
    }

    /// What becomes of a command when its reply has been sent.
    pub fn reply_sent(required: bool, delivered: bool) -> (result: Result<(), CmdError>)
        ensures
            result == outcome_of_reply(required, delivered),
            result == if required && !delivered {
                Err::<(), CmdError>(CmdError::InternalMsgChannelDropped)
            } else {
                Ok::<(), CmdError>(())
            },
    {
        if required && !delivered {
            Err(CmdError::InternalMsgChannelDropped)
        } else {
            Ok(())
        }
    }
}

/// The wanted addresses that the set does not hold.
fn missing_from(wanted: &Vec<NetworkAddress>, held: &AddressSet) -> (missing: Vec<NetworkAddress>)
    ensures
        address_views(missing@) == missing_addresses(address_views(wanted@), held.ordered()),
{
    let ghost views = address_views(wanted@);
    let mut missing: Vec<NetworkAddress> = Vec::new();
    let mut i: usize = 0;
    assert(address_views(missing@) =~= missing_addresses(views.take(0), held.ordered()));
    while i < wanted.len()
        invariant
            i <= wanted@.len(),
            views == address_views(wanted@),
            address_views(missing@) == missing_addresses(views.take(i as int), held.ordered()),
        decreases wanted@.len() - i,
    {
        let ghost before = missing@;
        assert(views.take(i + 1).drop_last() =~= views.take(i as int));
        if !held.contains(&wanted[i]) {
            missing.push(wanted[i].clone());
            assert(address_views(missing@) =~= address_views(before).push(views[i as int]));
        }
        i += 1;
    }
    assert(views.take(i as int) =~= views);
    missing
}

impl CmdAction {
    /// Whether doing the action can have the outcome.
    pub open spec fn can_give<E>(self, outcome: CmdOutcome<E>) -> bool {
        match self {
            CmdAction::GetRecord(_) => outcome is QueryStarted,
            CmdAction::Listen(_) => outcome is Finished,
            CmdAction::AddAddress { .. } => outcome is Done,
            CmdAction::Dial(_) => outcome is Finished,
            CmdAction::GetClosestPeers(_) => outcome is QueryStarted,
            CmdAction::ReadClosestLocalPeers(_) => outcome is Peers,
            CmdAction::ReadBuckets => outcome is Buckets,
            CmdAction::SendRequest { .. } => outcome is RequestStarted,
            CmdAction::SendEvent(_) => outcome is Done,
            CmdAction::DeliverResponse { .. } => outcome is Delivered,
            CmdAction::SendResponse { .. } => outcome is Sent,
            CmdAction::ReadLocalState => outcome is State,
            CmdAction::Unsupported => outcome is Done,
        }
    }
}

impl KadStoreAction {
    /// Whether doing the action can have the outcome.
    pub open spec fn can_give<E>(self, outcome: KadStoreOutcome<E>) -> bool {
        match self {
            KadStoreAction::SetDistanceRange(_) => outcome is Done,
            KadStoreAction::ReadRecord(_) => outcome is Read,
            KadStoreAction::PutRecord { .. } => outcome is PutStarted,
            KadStoreAction::StoreRecord(_) => outcome is Stored,
            KadStoreAction::Unsupported => outcome is Done,
        }
    }
}

/// Whatever comes of the action for a command, the command can be finished with it.
pub proof fn law_every_command_can_be_finished<E>(
    cmd: SwarmCmd,
    own: Seq<u8>,
    action: CmdAction,
    then: CmdThen,
    outcome: CmdOutcome<E>,
    store_outcome: KadStoreOutcome<E>,
)
    requires
        cmd_routes(cmd, own, action, then),
    ensures
        action.can_give(outcome) ==> then.fits(outcome),
        kad_store_route(cmd).0.can_give(store_outcome) ==> kad_store_route(cmd).1.fits(
            store_outcome,
        ),
{
}

/// Every command has exactly one of the three handlers, and the other two do nothing about it.
pub proof fn law_each_command_has_one_handler(
    cmd: SwarmCmd,
    held: Seq<AddressView>,
    step: RecordKeyStep,
    own: Seq<u8>,
    action: CmdAction,
    then: CmdThen,
)
    requires
        leads_to(cmd, held, step),
        cmd_routes(cmd, own, action, then),
    ensures
        step is Unsupported <==> cmd.handled_by() != CmdHandler::RecordKeys,
        kad_store_route(cmd).0 is Unsupported <==> cmd.handled_by() != CmdHandler::KadStore,
        action is Unsupported <==> cmd.handled_by() != CmdHandler::Swarm,
        action is Unsupported ==> then is Nothing,
        kad_store_route(cmd).0 is Unsupported ==> kad_store_route(cmd).1 is Nothing,
{
}

/// A request to ourselves never reaches the network, and its response, whatever it is, goes to
/// whoever waits for it, or to the layer above if nobody does.
pub proof fn law_request_to_self_is_answered(
    req: Request,
    peer: PeerId,
    sender: Option<ReplyId>,
    own: Seq<u8>,
    action: CmdAction,
    then: CmdThen,
    resp: Response,
    back: CmdAction,
    after: CmdThen,
)
    requires
        peer@ == own,
        cmd_routes(SwarmCmd::SendRequest { req, peer, sender }, own, action, then),
        action matches CmdAction::SendEvent(NetworkEvent::RequestReceived { req: _, channel })
            ==> cmd_routes(SwarmCmd::SendResponse { resp, channel }, own, back, after),
    ensures
        action matches CmdAction::SendEvent(NetworkEvent::RequestReceived { req: told, channel: _ })
            && told == req,
        sender is Some ==> back == (CmdAction::DeliverResponse { channel: sender->0, resp }),
        sender is None ==> back == CmdAction::SendEvent(
            NetworkEvent::ResponseReceived { res: resp },
        ),
{
}

/// What the replication fetcher is handed is exactly what is wanted and not yet held.
pub proof fn law_only_missing_addresses_are_fetched(
    wanted: Seq<AddressView>,
    held: Seq<AddressView>,
    address: AddressView,
)
    ensures
        missing_addresses(wanted, held).contains(address) <==> wanted.contains(address)
            && !held.contains(address),
    decreases wanted.len(),
{
    if wanted.len() > 0 {
        let earlier = wanted.drop_last();
        let before = missing_addresses(earlier, held);
        law_only_missing_addresses_are_fetched(earlier, held, address);
        assert(wanted =~= earlier.push(wanted.last()));
        assert(wanted.contains(address) <==> earlier.contains(address) || address == wanted.last())
            by {
            lemma_push_contains(earlier, wanted.last(), address);
        }
        lemma_push_contains(before, wanted.last(), address);
    }
}

/// A key is listed exactly when it is held as a record key and closer to the target than the
/// given distance.
pub proof fn law_listed_keys_are_the_close_ones(
    held: Seq<AddressView>,
    target: Seq<u8>,
    bar: nat,
    key: Seq<u8>,
)
    ensures
        record_keys_closer(held, target, bar).contains(key) <==> held.contains(
            AddressView::RecordKey(key),
        ) && xor_distance(target, kbucket_digest(key)) < bar,
    decreases held.len(),
{
    if held.len() > 0 {
        let earlier = held.drop_last();
        let before = record_keys_closer(earlier, target, bar);
        law_listed_keys_are_the_close_ones(earlier, target, bar, key);
        assert(held =~= earlier.push(held.last()));
        lemma_push_contains(earlier, held.last(), AddressView::RecordKey(key));
        if let AddressView::RecordKey(last) = held.last() {
            lemma_push_contains(before, last, key);
        }
    }
}

proof fn lemma_push_contains<A>(s: Seq<A>, last: A, a: A)
    ensures
        s.push(last).contains(a) <==> s.contains(a) || a == last,
{
    let t = s.push(last);
    if s.contains(a) {
        let i = choose|i: int| 0 <= i < s.len() && s[i] == a;
        assert(t[i] == a);
    }
    if a == last {
        assert(t[s.len() as int] == a);
    }
    if t.contains(a) {
        let i = choose|i: int| 0 <= i < t.len() && t[i] == a;
        if i < s.len() {
            assert(s[i] == a);
        }
    }
}

/// Whoever asks the network for a record waits among those who wait for records, under the number
/// of the query that was started for just that key, and nowhere else.
pub proof fn law_record_query_reaches_its_asker<E>(
    key: RecordKey,
    sender: ReplyId,
    own: Seq<u8>,
    action: CmdAction,
    then: CmdThen,
    id: QueryId,
    before: PendingReplies,
    after: PendingReplies,
    close_group_size: nat,
    result: Result<Option<Reply<E>>, CmdError>,
)
    requires
        cmd_routes(SwarmCmd::GetNetworkRecord { key, sender }, own, action, then),
        tracks(before, then, CmdOutcome::<E>::QueryStarted(id), after),
        cmd_finishes(then, CmdOutcome::<E>::QueryStarted(id), own, close_group_size, result),
    ensures
        action == CmdAction::GetRecord(key),
        after.queries@ == before.queries@.insert(id, sender),
        after.get_closest_peers@ == before.get_closest_peers@,
        after.requests@ == before.requests@,
        after.record_puts@ == before.record_puts@,
        result == Ok::<Option<Reply<E>>, CmdError>(None),
{
}

/// Whoever asks the network for the peers closest to something waits among those who wait for
/// peers, with none found so far, under the number of the query for just that key, and nowhere
/// else.
pub proof fn law_peer_query_reaches_its_asker<E>(
    key: NetworkAddress,
    sender: ReplyId,
    own: Seq<u8>,
    action: CmdAction,
    then: CmdThen,
    id: QueryId,
    before: PendingReplies,
    after: PendingReplies,
    close_group_size: nat,
    result: Result<Option<Reply<E>>, CmdError>,
)
    requires
        cmd_routes(SwarmCmd::GetClosestPeers { key, sender }, own, action, then),
        tracks(before, then, CmdOutcome::<E>::QueryStarted(id), after),
        cmd_finishes(then, CmdOutcome::<E>::QueryStarted(id), own, close_group_size, result),
    ensures
        action == CmdAction::GetClosestPeers(key),
        after.get_closest_peers@.contains_key(id),
        after.get_closest_peers@[id].0 == sender,
        after.get_closest_peers@[id].1@ == Set::<Seq<u8>>::empty(),
        forall|other: QueryId|
            other != id ==> (after.get_closest_peers@.contains_key(other)
                <==> before.get_closest_peers@.contains_key(other)),
        forall|other: QueryId|
            other != id && before.get_closest_peers@.contains_key(other)
                ==> after.get_closest_peers@[other] == before.get_closest_peers@[other],
        after.queries@ == before.queries@,
        after.requests@ == before.requests@,
        after.record_puts@ == before.record_puts@,
        result == Ok::<Option<Reply<E>>, CmdError>(None),
{
}

/// A request to another peer is sent to that peer as it is, and whoever waits for the response, if
/// anybody, waits under the number of the request and nowhere else.
pub proof fn law_response_reaches_its_asker<E>(
    req: Request,
    peer: PeerId,
    sender: Option<ReplyId>,
    own: Seq<u8>,
    action: CmdAction,
    then: CmdThen,
    id: RequestId,
    before: PendingReplies,
    after: PendingReplies,
    close_group_size: nat,
    result: Result<Option<Reply<E>>, CmdError>,
)
    requires
        peer@ != own,
        cmd_routes(SwarmCmd::SendRequest { req, peer, sender }, own, action, then),
        tracks(before, then, CmdOutcome::<E>::RequestStarted(id), after),
        cmd_finishes(then, CmdOutcome::<E>::RequestStarted(id), own, close_group_size, result),
    ensures
        action == (CmdAction::SendRequest { peer, req }),
        after.requests@ == before.requests@.insert(id, sender),
        after.get_closest_peers@ == before.get_closest_peers@,
        after.queries@ == before.queries@,
        after.record_puts@ == before.record_puts@,
        result == Ok::<Option<Reply<E>>, CmdError>(None),
{
}

/// A request to ourselves goes to the layer above at once, with whoever waits for the response,
/// and nobody is kept waiting for the network.
pub proof fn law_request_to_self_is_not_tracked<E>(
    req: Request,
    peer: PeerId,
    sender: Option<ReplyId>,
    own: Seq<u8>,
    action: CmdAction,
    then: CmdThen,
    before: PendingReplies,
    after: PendingReplies,
    close_group_size: nat,
    result: Result<Option<Reply<E>>, CmdError>,
)
    requires
        peer@ == own,
        cmd_routes(SwarmCmd::SendRequest { req, peer, sender }, own, action, then),
        tracks(before, then, CmdOutcome::<E>::Done, after),
        cmd_finishes(then, CmdOutcome::<E>::Done, own, close_group_size, result),
    ensures
        action == CmdAction::SendEvent(
            NetworkEvent::RequestReceived { req, channel: MsgResponder::FromSelf(sender) },
        ),
        after.get_closest_peers@ == before.get_closest_peers@,
        after.requests@ == before.requests@,
        after.queries@ == before.queries@,
        after.record_puts@ == before.record_puts@,
        result == Ok::<Option<Reply<E>>, CmdError>(None),
{
}

/// Whoever asks to listen on an address is told how just that went, and nobody is kept waiting.
pub proof fn law_listening_is_answered<E>(
    addr: Multiaddr,
    sender: ReplyId,
    own: Seq<u8>,
    action: CmdAction,
    then: CmdThen,
    how: Result<(), E>,
    before: PendingReplies,
    after: PendingReplies,
    close_group_size: nat,
    result: Result<Option<Reply<E>>, CmdError>,
)
    requires
        cmd_routes(SwarmCmd::StartListening { addr, sender }, own, action, then),
        tracks(before, then, CmdOutcome::Finished(how), after),
        cmd_finishes(then, CmdOutcome::Finished(how), own, close_group_size, result),
    ensures
        action == CmdAction::Listen(addr),
        result matches Ok(Some(reply)) && reply.sender == sender && !reply.required && reply.payload
            == ReplyPayload::Result(how),
        after.get_closest_peers@ == before.get_closest_peers@,
        after.requests@ == before.requests@,
        after.queries@ == before.queries@,
        after.record_puts@ == before.record_puts@,
{
}

/// Whoever asks to dial an address is told how just that went. Where the address ends in a peer
/// id, that peer is dialed at the rest of the address, and not twice at once; otherwise whoever
/// answers at the address is.
pub proof fn law_dialing_is_answered<E>(
    addr: Multiaddr,
    sender: ReplyId,
    own: Seq<u8>,
    action: CmdAction,
    then: CmdThen,
    how: Result<(), E>,
    before: PendingReplies,
    after: PendingReplies,
    close_group_size: nat,
    result: Result<Option<Reply<E>>, CmdError>,
)
    requires
        cmd_routes(SwarmCmd::Dial { addr, sender }, own, action, then),
        tracks(before, then, CmdOutcome::Finished(how), after),
        cmd_finishes(then, CmdOutcome::Finished(how), own, close_group_size, result),
    ensures
        action matches CmdAction::Dial(DialOpts::PeerUnlessDialing { peer_id, addresses }) ==> {
            &&& addresses@.len() == 1
            &&& addr@ == addresses@[0]@.push(AddrProtocol::P2p(peer_id))
        },
        action matches CmdAction::Dial(DialOpts::UnknownPeer { address }) ==> {
            &&& address@ == addr@
            &&& addr@.len() == 0 || !(addr@[addr@.len() - 1] is P2p)
        },
        action is Dial,
        result matches Ok(Some(reply)) && reply.sender == sender && !reply.required && reply.payload
            == ReplyPayload::Result(how),
        after.get_closest_peers@ == before.get_closest_peers@,
        after.requests@ == before.requests@,
        after.queries@ == before.queries@,
        after.record_puts@ == before.record_puts@,
{
    assert(addr@.len() > 0 ==> addr@ =~= addr@.drop_last().push(addr@.last()));
}

/// An address that is to enter the routing table enters it for the peer that it was given for, and
/// whoever asked is told that it was done.
pub proof fn law_routing_table_is_filled<E>(
    peer_id: PeerId,
    peer_addr: Multiaddr,
    sender: ReplyId,
    own: Seq<u8>,
    action: CmdAction,
    then: CmdThen,
    before: PendingReplies,
    after: PendingReplies,
    close_group_size: nat,
    result: Result<Option<Reply<E>>, CmdError>,
)
    requires
        cmd_routes(
            SwarmCmd::AddToRoutingTable { peer_id, peer_addr, sender },
            own,
            action,
            then,
        ),
        tracks(before, then, CmdOutcome::<E>::Done, after),
        cmd_finishes(then, CmdOutcome::<E>::Done, own, close_group_size, result),
    ensures
        action == (CmdAction::AddAddress { peer_id, peer_addr }),
        result matches Ok(Some(reply)) && reply.sender == sender && !reply.required && reply.payload
            == ReplyPayload::Result(Ok::<(), E>(())),
        after.get_closest_peers@ == before.get_closest_peers@,
        after.requests@ == before.requests@,
        after.queries@ == before.queries@,
        after.record_puts@ == before.record_puts@,
{
}

/// Whoever asks for the local peers closest to something gets those that were found for it, the
/// closest first, as many as a close group has.
pub proof fn law_close_local_peers_are_answered<E>(
    key: NetworkAddress,
    sender: ReplyId,
    own: Seq<u8>,
    action: CmdAction,
    then: CmdThen,
    found: Vec<PeerId>,
    before: PendingReplies,
    after: PendingReplies,
    close_group_size: nat,
    result: Result<Option<Reply<E>>, CmdError>,
)
    requires
        cmd_routes(SwarmCmd::GetClosestLocalPeers { key, sender }, own, action, then),
        tracks(before, then, CmdOutcome::<E>::Peers(found), after),
        cmd_finishes(then, CmdOutcome::<E>::Peers(found), own, close_group_size, result),
    ensures
        action == CmdAction::ReadClosestLocalPeers(key),
        result matches Ok(Some(reply)) && reply.sender == sender && !reply.required && (
        reply.payload matches ReplyPayload::Peers(peers) && peers@.len() <= found@.len()
            && peers@.len() <= close_group_size && (peers@.len() == found@.len() || peers@.len()
            == close_group_size) && (forall|i: int|
            0 <= i < peers@.len() ==> peers@[i]@ == found@[i]@)),
        after.get_closest_peers@ == before.get_closest_peers@,
        after.requests@ == before.requests@,
        after.queries@ == before.queries@,
        after.record_puts@ == before.record_puts@,
{
}

/// Whoever asks for all local peers gets every peer of every bucket, in order, and ourselves last.
pub proof fn law_all_local_peers_are_answered<E>(
    sender: ReplyId,
    own: Seq<u8>,
    action: CmdAction,
    then: CmdThen,
    buckets: Vec<Vec<PeerId>>,
    before: PendingReplies,
    after: PendingReplies,
    close_group_size: nat,
    result: Result<Option<Reply<E>>, CmdError>,
)
    requires
        cmd_routes(SwarmCmd::GetAllLocalPeers { sender }, own, action, then),
        tracks(before, then, CmdOutcome::<E>::Buckets(buckets), after),
        cmd_finishes(then, CmdOutcome::<E>::Buckets(buckets), own, close_group_size, result),
    ensures
        action == CmdAction::ReadBuckets,
        result matches Ok(Some(reply)) && reply.sender == sender && !reply.required && (
        reply.payload matches ReplyPayload::Peers(peers) && peers@.map_values(|p: PeerId| p@)
            == buckets@.map_values(|b: Vec<PeerId>| b@.map_values(|p: PeerId| p@)).flatten().push(
            own,
        )),
        after.get_closest_peers@ == before.get_closest_peers@,
        after.requests@ == before.requests@,
        after.queries@ == before.queries@,
        after.record_puts@ == before.record_puts@,
{
    law_buckets_are_read_in_order(buckets@);
    if let Ok(Some(reply)) = result {
        if let ReplyPayload::Peers(peers) = reply.payload {
            assert(peer_views(peers@) =~= peers@.map_values(|p: PeerId| p@));
        }
    }
}

/// Whoever asks for the local state gets it, and it is an error if they no longer wait.
pub proof fn law_local_state_is_answered<E>(
    sender: ReplyId,
    own: Seq<u8>,
    action: CmdAction,
    then: CmdThen,
    state: SwarmLocalState,
    before: PendingReplies,
    after: PendingReplies,
    close_group_size: nat,
    result: Result<Option<Reply<E>>, CmdError>,
    delivered: bool,
)
    requires
        cmd_routes(SwarmCmd::GetSwarmLocalState(sender), own, action, then),
        tracks(before, then, CmdOutcome::<E>::State(state), after),
        cmd_finishes(then, CmdOutcome::<E>::State(state), own, close_group_size, result),
    ensures
        action == CmdAction::ReadLocalState,
        result matches Ok(Some(reply)) && reply.sender == sender && reply.payload
            == ReplyPayload::<E>::State(state) && (outcome_of_reply(reply.required, delivered) is Ok
            <==> delivered) && (!delivered ==> outcome_of_reply(reply.required, delivered) == Err::<
            (),
            CmdError,
        >(CmdError::InternalMsgChannelDropped)),
        after.get_closest_peers@ == before.get_closest_peers@,
        after.requests@ == before.requests@,
        after.queries@ == before.queries@,
        after.record_puts@ == before.record_puts@,
{
}

/// It does not matter whether a reply that is not required arrives.
pub proof fn law_other_replies_may_be_lost(delivered: bool)
    ensures
        outcome_of_reply(false, delivered) == Ok::<(), CmdError>(()),
{
}

/// A response goes out as it is, to whoever waits at its channel. If it does not get through, the
/// command fails: for ourselves because the channel is gone, for a peer with the response itself.
pub proof fn law_lost_responses_are_errors<E>(
    resp: Response,
    channel: MsgResponder,
    own: Seq<u8>,
    action: CmdAction,
    then: CmdThen,
    delivered: bool,
    sent: Result<(), Response>,
    before: PendingReplies,
    after_self: PendingReplies,
    after_peer: PendingReplies,
    after_event: PendingReplies,
    close_group_size: nat,
    to_self: Result<Option<Reply<E>>, CmdError>,
    to_peer: Result<Option<Reply<E>>, CmdError>,
    told: Result<Option<Reply<E>>, CmdError>,
)
    requires
        tracks(before, then, CmdOutcome::<E>::Delivered(delivered), after_self),
        tracks(before, then, CmdOutcome::<E>::Sent(sent), after_peer),
        tracks(before, then, CmdOutcome::<E>::Done, after_event),
        cmd_finishes(then, CmdOutcome::<E>::Done, own, close_group_size, told),
        cmd_routes(SwarmCmd::SendResponse { resp, channel }, own, action, then),
        cmd_finishes(then, CmdOutcome::<E>::Delivered(delivered), own, close_group_size, to_self),
        cmd_finishes(then, CmdOutcome::<E>::Sent(sent), own, close_group_size, to_peer),
    ensures
        channel matches MsgResponder::FromSelf(Some(waiting)) ==> {
            &&& action == (CmdAction::DeliverResponse { channel: waiting, resp })
            &&& delivered ==> to_self == Ok::<Option<Reply<E>>, CmdError>(None)
            &&& !delivered ==> to_self == Err::<Option<Reply<E>>, CmdError>(
                CmdError::InternalMsgChannelDropped,
            )
        },
        channel matches MsgResponder::FromSelf(None) ==> action == CmdAction::SendEvent(
            NetworkEvent::ResponseReceived { res: resp },
        ) && told == Ok::<Option<Reply<E>>, CmdError>(None),
        forall|after: PendingReplies|
            after == after_self || after == after_peer || after == after_event ==> {
                &&& #[trigger] after.get_closest_peers@ == before.get_closest_peers@
                &&& after.requests@ == before.requests@
                &&& after.queries@ == before.queries@
                &&& after.record_puts@ == before.record_puts@
            },
        channel matches MsgResponder::FromPeer(waiting) ==> {
            &&& action == (CmdAction::SendResponse { channel: waiting, resp })
            &&& sent is Ok ==> to_peer == Ok::<Option<Reply<E>>, CmdError>(None)
            &&& sent matches Err(back) ==> to_peer == Err::<Option<Reply<E>>, CmdError>(
                CmdError::OutgoingResponseDropped(back),
            )
        },
{
}

/// The replication fetcher is told of each fetch what the command says: the peer, the address, and
/// success exactly where the command says success. Two fetches with different outcomes are never
/// told alike.
pub proof fn law_fetch_results_are_passed_on(
    peer: PeerId,
    key: NetworkAddress,
    sender: ReplyId,
    held: Seq<AddressView>,
    good: RecordKeyStep,
    bad: RecordKeyStep,
)
    requires
        leads_to(SwarmCmd::NotifyFetchResult { peer, key, result: true, sender }, held, good),
        leads_to(SwarmCmd::NotifyFetchResult { peer, key, result: false, sender }, held, bad),
    ensures
        good matches RecordKeyStep::NotifyFetcher { peer: from, key: of, result, sender: to }
            && result && from == peer && of == key && to == sender,
        bad matches RecordKeyStep::NotifyFetcher { peer: from, key: of, result, sender: to }
            && !result && from == peer && of == key && to == sender,
        good != bad,
{
}

/// Whoever asks for the keys near an address gets the record keys that are held and closer to it
/// than the distance, each once, in the order in which they are held.
pub proof fn law_near_keys_are_answered(
    key: NetworkAddress,
    distance: Distance,
    sender: ReplyId,
    held: Seq<AddressView>,
    step: RecordKeyStep,
)
    requires
        leads_to(
            SwarmCmd::GetRecordKeysClosestToTarget { key, distance, sender },
            held,
            step,
        ),
    ensures
        step matches RecordKeyStep::ReplyKeys { keys, sender: to } && to == sender
            && keys@.map_values(|k: RecordKey| k.bytes@) == held.filter(
            |a: AddressView|
                a is RecordKey && preimage_distance(key@.bytes(), a->RecordKey_0) < distance@,
        ).map_values(|a: AddressView| a->RecordKey_0),
{
    law_listed_keys_keep_their_order(held, kbucket_digest(key@.bytes()), distance@);
    if let RecordKeyStep::ReplyKeys { keys, sender: _ } = step {
        assert(key_views(keys@) =~= keys@.map_values(|k: RecordKey| k.bytes@));
        let near = |a: AddressView|
            a is RecordKey && preimage_distance(key@.bytes(), a->RecordKey_0) < distance@;
        let near2 = |a: AddressView|
            a is RecordKey && xor_distance(
                kbucket_digest(key@.bytes()),
                kbucket_digest(a->RecordKey_0),
            ) < distance@;
        assert(near =~= near2);
    }
}

/// The listed keys are the held record keys that are close enough, no more and no fewer, in the
/// order in which they are held.
pub proof fn law_listed_keys_keep_their_order(held: Seq<AddressView>, target: Seq<u8>, bar: nat)
    ensures
        record_keys_closer(held, target, bar) == held.filter(
            |a: AddressView|
                a is RecordKey && xor_distance(target, kbucket_digest(a->RecordKey_0)) < bar,
        ).map_values(|a: AddressView| a->RecordKey_0),
    decreases held.len(),
{
    let near = |a: AddressView|
        a is RecordKey && xor_distance(target, kbucket_digest(a->RecordKey_0)) < bar;
    reveal(Seq::filter);
    if held.len() > 0 {
        law_listed_keys_keep_their_order(held.drop_last(), target, bar);
    }
    assert(record_keys_closer(held, target, bar) =~= held.filter(near).map_values(
        |a: AddressView| a->RecordKey_0,
    ));
}

/// The replication fetcher is handed, for the peer that told of them, the addresses that are not
/// held, as often and in the order as they were told.
pub proof fn law_missing_addresses_keep_their_order(
    peer: PeerId,
    keys: Vec<NetworkAddress>,
    sender: ReplyId,
    held: Seq<AddressView>,
    step: RecordKeyStep,
)
    requires
        leads_to(SwarmCmd::AddKeysToReplicationFetcher { peer, keys, sender }, held, step),
    ensures
        step matches RecordKeyStep::FetchMissing { peer: from, missing, sender: to } && from == peer
            && to == sender && missing@.map_values(|a: NetworkAddress| a@) == keys@.map_values(
            |a: NetworkAddress| a@,
        ).filter(|a: AddressView| !held.contains(a)),
{
    lemma_missing_is_filter(address_views(keys@), held);
    assert(address_views(keys@) =~= keys@.map_values(|a: NetworkAddress| a@));
    if let RecordKeyStep::FetchMissing { peer: _, missing, sender: _ } = step {
        assert(address_views(missing@) =~= missing@.map_values(|a: NetworkAddress| a@));
    }
}

proof fn lemma_missing_is_filter(wanted: Seq<AddressView>, held: Seq<AddressView>)
    ensures
        missing_addresses(wanted, held) == wanted.filter(|a: AddressView| !held.contains(a)),
    decreases wanted.len(),
{
    reveal(Seq::filter);
    if wanted.len() > 0 {
        lemma_missing_is_filter(wanted.drop_last(), held);
    }
}

/// Whoever asks whether a key is held is told so exactly where the key is held as a record key.
pub proof fn law_held_keys_are_told(
    key: RecordKey,
    sender: ReplyId,
    held: Seq<AddressView>,
    step: RecordKeyStep,
)
    requires
        leads_to(SwarmCmd::RecordStoreHasKey { key, sender }, held, step),
    ensures
        step matches RecordKeyStep::ReplyHasKey { has_key, sender: to } && to == sender && (has_key
            <==> exists|i: int| 0 <= i < held.len() && held[i] == AddressView::RecordKey(key.bytes@)),
{
}

/// A put to the network is of the record that was given and has to reach everybody. Where it was
/// started, whoever asked waits under its number among those who wait for puts and nowhere else;
/// where it was refused, nobody waits and the refusal is the outcome.
pub proof fn law_put_reaches_everybody<E>(
    record: Record,
    sender: ReplyId,
    started: Result<QueryId, E>,
    before: PendingReplies,
    after: PendingReplies,
    result: Result<KadStoreResult, E>,
)
    requires
        store_tracks(
            before,
            kad_store_route(SwarmCmd::PutRecord { record, sender }).1,
            KadStoreOutcome::PutStarted(started),
            after,
        ),
        store_finishes(
            kad_store_route(SwarmCmd::PutRecord { record, sender }).1,
            KadStoreOutcome::PutStarted(started),
            result,
        ),
    ensures
        kad_store_route(SwarmCmd::PutRecord { record, sender }).0 == (KadStoreAction::PutRecord {
            record,
            quorum: Quorum::All,
        }),
        started matches Ok(id) ==> after.record_puts@ == before.record_puts@.insert(id, sender)
            && result == Ok::<KadStoreResult, E>(KadStoreResult::Nothing),
        started matches Err(error) ==> after.record_puts@ == before.record_puts@ && result == Err::<
            KadStoreResult,
            E,
        >(error),
        after.get_closest_peers@ == before.get_closest_peers@,
        after.requests@ == before.requests@,
        after.queries@ == before.queries@,
{
}

/// Whoever asks for a local record gets what the record store has under just that key.
pub proof fn law_local_record_is_answered<E>(
    key: RecordKey,
    sender: ReplyId,
    record: Option<Record>,
    before: PendingReplies,
    after: PendingReplies,
    result: Result<KadStoreResult, E>,
)
    requires
        store_tracks(
            before,
            kad_store_route(SwarmCmd::GetLocalRecord { key, sender }).1,
            KadStoreOutcome::<E>::Read(record),
            after,
        ),
        store_finishes(
            kad_store_route(SwarmCmd::GetLocalRecord { key, sender }).1,
            KadStoreOutcome::<E>::Read(record),
            result,
        ),
    ensures
        kad_store_route(SwarmCmd::GetLocalRecord { key, sender }).0 == KadStoreAction::ReadRecord(
            key,
        ),
        result == Ok::<KadStoreResult, E>(KadStoreResult::ReplyRecord { record, sender }),
        after.get_closest_peers@ == before.get_closest_peers@,
        after.requests@ == before.requests@,
        after.queries@ == before.queries@,
        after.record_puts@ == before.record_puts@,
{
}

/// A record that is to be kept is stored as it is. The addresses that are then held are told; a
/// refusal is the outcome.
pub proof fn law_stored_addresses_are_told<E>(
    record: Record,
    stored: Result<AddressSet, E>,
    before: PendingReplies,
    after: PendingReplies,
    result: Result<KadStoreResult, E>,
)
    requires
        store_tracks(
            before,
            kad_store_route(SwarmCmd::PutLocalRecord { record }).1,
            KadStoreOutcome::Stored(stored),
            after,
        ),
        store_finishes(
            kad_store_route(SwarmCmd::PutLocalRecord { record }).1,
            KadStoreOutcome::Stored(stored),
            result,
        ),
    ensures
        kad_store_route(SwarmCmd::PutLocalRecord { record }).0 == KadStoreAction::StoreRecord(
            record,
        ),
        stored matches Ok(held) ==> result == Ok::<KadStoreResult, E>(
            KadStoreResult::UpdatedAddresses(held),
        ),
        stored matches Err(error) ==> result == Err::<KadStoreResult, E>(error),
        after.get_closest_peers@ == before.get_closest_peers@,
        after.requests@ == before.requests@,
        after.queries@ == before.queries@,
        after.record_puts@ == before.record_puts@,
{
}

/// The range of the record store is set to the distance that was given, and nobody is told.
pub proof fn law_distance_range_is_set<E>(
    distance: Distance,
    before: PendingReplies,
    after: PendingReplies,
    result: Result<KadStoreResult, E>,
)
    requires
        store_tracks(
            before,
            kad_store_route(SwarmCmd::SetRecordDistanceRange { distance }).1,
            KadStoreOutcome::<E>::Done,
            after,
        ),
        store_finishes(
            kad_store_route(SwarmCmd::SetRecordDistanceRange { distance }).1,
            KadStoreOutcome::<E>::Done,
            result,
        ),
    ensures
        kad_store_route(SwarmCmd::SetRecordDistanceRange { distance }).0
            == KadStoreAction::SetDistanceRange(distance),
        result == Ok::<KadStoreResult, E>(KadStoreResult::Nothing),
        after.get_closest_peers@ == before.get_closest_peers@,
        after.requests@ == before.requests@,
        after.queries@ == before.queries@,
        after.record_puts@ == before.record_puts@,
{
}

/// The bytes of some record keys, and what some listen addresses say, are told in order and
/// nothing is left out.
pub proof fn law_what_keys_and_listeners_say(keys: Seq<RecordKey>, listeners: Seq<Multiaddr>)
    ensures
        key_views(keys).len() == keys.len(),
        forall|i: int| 0 <= i < keys.len() ==> #[trigger] key_views(keys)[i] == keys[i].bytes@,
        listener_views(listeners).len() == listeners.len(),
        forall|i: int, j: int|
            0 <= i < listeners.len() && 0 <= j < listeners[i]@.len()
                ==> #[trigger] listener_views(listeners)[i][j] == listeners[i]@[j]@,
        forall|i: int|
            0 <= i < listeners.len() ==> (#[trigger] listener_views(listeners)[i]).len()
                == listeners[i]@.len(),
{
}

} // verus!
