//! The settings of getting a record from the network and putting one there.

use vstd::prelude::*;

use crate::address::{Record, RecordKey, RecordView};
use crate::byte_strings::bytes_to_vec;
use crate::peer::{clone_peers, peer_views, PeerId, PeerSet};

verus! {

/// How many peers have to agree.
#[derive(Clone, Copy, Debug, PartialEq, Eq, Structural)]
pub enum Quorum {
    One,
    Majority,
    All,
    N(usize),
}

/// How eagerly a failed attempt is tried again.
#[derive(Clone, Copy, Debug, PartialEq, Eq, Structural)]
pub enum RetryStrategy {
    Quick,
    Balanced,
    Persistent,
}

/// The settings of fetching a record from the network.
pub struct GetRecordCfg {
    /// The query fails with fewer records than this.
    pub get_quorum: Quorum,
    /// How to retry a failed get, if at all.
    pub retry_strategy: Option<RetryStrategy>,
    /// Only this record is taken for an answer.
    pub target_record: Option<Record>,
    /// The peers that are expected to hold the record.
    pub expected_holders: PeerSet,
}

/// What the settings of fetching a record say.
pub struct GetRecordCfgView {
    pub get_quorum: Quorum,
    pub retry_strategy: Option<RetryStrategy>,
    pub target_record: Option<RecordView>,
    pub expected_holders: Set<Seq<u8>>,
}

impl View for GetRecordCfg {
    type V = GetRecordCfgView;

    open spec fn view(&self) -> GetRecordCfgView {
        GetRecordCfgView {
            get_quorum: self.get_quorum,
            retry_strategy: self.retry_strategy,
            target_record: match self.target_record {
                Some(record) => Some(record@),
                None => None,
            },
            expected_holders: self.expected_holders@,
        }
    }
}

impl Clone for GetRecordCfg {
    fn clone(&self) -> (copy: Self)
        ensures
            copy@ == self@,
    {
        let target_record = match &self.target_record {
            Some(record) => Some(record.clone()),
            None => None,
        };
        GetRecordCfg {
            get_quorum: self.get_quorum,
            retry_strategy: self.retry_strategy,
            target_record,
            expected_holders: self.expected_holders.clone(),
        }
    }
}

impl GetRecordCfg {
    /// Whether the record is the one that is looked for.
    pub fn does_target_match(&self, record: &Record) -> (matches: bool)
        ensures
            matches == (self.target_record is Some && self.target_record->0@ == record@),
            matches == self.targets(*record),
    {
        match &self.target_record {
            Some(target) => *target == *record,
            None => false,
        }
    }

    /// What stands for the target record where the settings are printed: its key, without the
    /// value.
    pub fn printed_target(&self) -> (target: Option<RecordKey>)
        ensures
            target is Some <==> self.target_record is Some,
            target is Some ==> target->0@ == self.target_record->0.key@,
            self.prints(target),
    {
        match &self.target_record {
            Some(record) => Some(record.key.clone()),
            None => None,
        }
    }

    /// Whether the record is the one that is looked for.
    pub open spec fn targets(&self, record: Record) -> bool {
        self.target_record is Some && self.target_record->0@ == record@
    }

    /// Whether `target` stands for the target record where the settings are printed.
    pub open spec fn prints(&self, target: Option<RecordKey>) -> bool {
        match (self.target_record, target) {
            (Some(record), Some(key)) => key@ == record.key@,
            (None, None) => true,
            _ => false,
        }
    }

    /// The settings of a get that a majority has to answer, and nothing else.
    pub open spec fn is_majority(&self) -> bool {
        &&& self.get_quorum == Quorum::Majority
        &&& self.retry_strategy is None
        &&& self.target_record is None
        &&& self.expected_holders@ == Set::<Seq<u8>>::empty()
    }

    /// The settings of a get that a majority has to answer, and nothing else.
    pub fn majority() -> (cfg: GetRecordCfg)
        ensures
            cfg.is_majority(),
    {
        GetRecordCfg {
            get_quorum: Quorum::Majority,
            retry_strategy: None,
            target_record: None,
            expected_holders: PeerSet::new(),
        }
    }
}

/// How a put is verified.
#[derive(Debug)]
pub enum VerificationKind {
    /// By getting the record.
    Network,
    /// By asking for a hash over the chunk and a nonce.
    ChunkProof { expected_proof: Vec<u8>, nonce: u64 },
}

/// What a way of verifying a put says.
pub enum VerificationKindView {
    Network,
    ChunkProof { expected_proof: Seq<u8>, nonce: u64 },
}

impl View for VerificationKind {
    type V = VerificationKindView;

    open spec fn view(&self) -> VerificationKindView {
        match *self {
            VerificationKind::Network => VerificationKindView::Network,
            VerificationKind::ChunkProof { expected_proof, nonce } => {
                VerificationKindView::ChunkProof { expected_proof: expected_proof@, nonce }
            },
        }
    }
}

impl Clone for VerificationKind {
    fn clone(&self) -> (copy: Self)
        ensures
            copy@ == self@,
    {
        match self {
            VerificationKind::Network => VerificationKind::Network,
            VerificationKind::ChunkProof { expected_proof, nonce } => {
                VerificationKind::ChunkProof {
                    expected_proof: bytes_to_vec(expected_proof.as_slice()),
                    nonce: *nonce,
                }
            },
        }
    }
}

/// The settings of writing a record to the network.
pub struct PutRecordCfg {
    /// How many peers have to accept the record.
    pub put_quorum: Quorum,
    /// How to retry a failed put, if at all.
    pub retry_strategy: Option<RetryStrategy>,
    /// The peers that the record goes to. If missing, it goes to all that are close to it.
    pub use_put_record_to: Option<Vec<PeerId>>,
    /// How the put is verified, if it is.
    pub verification: Option<(VerificationKind, GetRecordCfg)>,
}

/// What the settings of writing a record say.
pub struct PutRecordCfgView {
    pub put_quorum: Quorum,
    pub retry_strategy: Option<RetryStrategy>,
    pub use_put_record_to: Option<Seq<Seq<u8>>>,
    pub verification: Option<(VerificationKindView, GetRecordCfgView)>,
}

impl View for PutRecordCfg {
    type V = PutRecordCfgView;

    open spec fn view(&self) -> PutRecordCfgView {
        PutRecordCfgView {
            put_quorum: self.put_quorum,
            retry_strategy: self.retry_strategy,
            use_put_record_to: match self.use_put_record_to {
                Some(peers) => Some(peer_views(peers@)),
                None => None,
            },
            verification: match self.verification {
                Some((kind, cfg)) => Some((kind@, cfg@)),
                None => None,
            },
        }
    }
}

impl Clone for PutRecordCfg {
    fn clone(&self) -> (copy: Self)
        ensures
            copy@ == self@,
    {
        let use_put_record_to = match &self.use_put_record_to {
            Some(peers) => Some(clone_peers(peers)),
            None => None,
        };
        let verification = match &self.verification {
            Some((kind, cfg)) => Some((kind.clone(), cfg.clone())),
            None => None,
        };
        PutRecordCfg {
            put_quorum: self.put_quorum,
            retry_strategy: self.retry_strategy,
            use_put_record_to,
            verification,
        }
    }
}

/// Settings of a get say the same exactly where each of them does.
pub proof fn law_equal_get_settings(a: GetRecordCfg, b: GetRecordCfg)
    ensures
        a@ == b@ <==> {
            &&& a.get_quorum == b.get_quorum
            &&& a.retry_strategy == b.retry_strategy
            &&& a.target_record is Some <==> b.target_record is Some
            &&& a.target_record is Some ==> a.target_record->0@ == b.target_record->0@
            &&& a.expected_holders@ == b.expected_holders@
        },
{
}

/// Settings of a put say the same exactly where each of them does.
pub proof fn law_equal_put_settings(a: PutRecordCfg, b: PutRecordCfg)
    ensures
        a@ == b@ <==> {
            &&& a.put_quorum == b.put_quorum
            &&& a.retry_strategy == b.retry_strategy
            &&& a.use_put_record_to is Some <==> b.use_put_record_to is Some
            &&& a.use_put_record_to is Some ==> a.use_put_record_to->0@.map_values(|p: PeerId| p@)
                == b.use_put_record_to->0@.map_values(|p: PeerId| p@)
            &&& match (a.verification, b.verification) {
                (Some((kind, get)), Some((other, other_get))) => kind@ == other@ && get@
                    == other_get@,
                (None, None) => true,
                _ => false,
            }
        },
{
}

/// Ways of verifying say the same exactly where both get the record, or both ask for the same
/// proof with the same nonce.
pub proof fn law_equal_verifications(a: VerificationKind, b: VerificationKind)
    ensures
        a@ == b@ <==> match (a, b) {
            (VerificationKind::Network, VerificationKind::Network) => true,
            (
                VerificationKind::ChunkProof { expected_proof: p, nonce: m },
                VerificationKind::ChunkProof { expected_proof: q, nonce: n },
            ) => p@ == q@ && m == n,
            _ => false,
        },
{
}

/// The record that is looked for is found in every record that agrees with it in key, value,
/// publisher and expiry, and in no other; and where none is looked for, none is found. Of the
/// record its key is printed, and nothing where there is none.
pub proof fn law_target_is_found_exactly(
    cfg: GetRecordCfg,
    record: Record,
    printed: Option<RecordKey>,
)
    requires
        cfg.prints(printed),
    ensures
        cfg.target_record is None ==> !cfg.targets(record) && printed is None,
        cfg.target_record matches Some(target) ==> {
            &&& cfg.targets(record) <==> {
                &&& target.key.bytes@ == record.key.bytes@
                &&& target.value@ == record.value@
                &&& target.publisher is Some <==> record.publisher is Some
                &&& target.publisher is Some ==> target.publisher->0@ == record.publisher->0@
                &&& target.expires == record.expires
            }
            &&& printed matches Some(key) && key.bytes@ == target.key.bytes@
        },
{
}

} // verus!
