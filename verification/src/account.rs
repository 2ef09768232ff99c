//! The account packet of a client: a scratchpad on the network that only the client can read.
//!
//! The scratchpad itself, the wallet and the network stay with the caller. Reading and writing
//! the account are sequences of steps: each takes what came of the last action and gives the
//! next one.

use vstd::prelude::*;

use crate::address::{Record, RecordKey};
use crate::byte_strings::be_nat;
use crate::content_name::{content_name, name_of_content};
use crate::record_cfg::{GetRecordCfg, PutRecordCfg, Quorum, RetryStrategy, VerificationKind};

verus! {

/// `blsttc::Error`, which is only carried through.
#[verifier::external_type_specification]
#[verifier::external_body]
pub struct ExBlsError(blsttc::Error);

/// The order of the field that secret keys are taken from.
pub open spec fn field_order() -> nat {
    0x73eda753299d7d483339d80809a1d80553bda402fffe5bfeffffffff00000001nat
}

/// The public key that belongs to the secret key `secret`, in its 48 bytes.
pub uninterp spec fn public_key_of(secret: Seq<u8>) -> Seq<u8>;

/// The error that `bytes` are refused with as a secret key.
pub uninterp spec fn secret_key_error(bytes: Seq<u8>) -> blsttc::Error;

/// Calls `blsttc::SecretKey::from_bytes` and reads the key back with `to_bytes`. Trusted: the
/// bytes are taken exactly when the number they spell is below the order of the field, and the
/// key then has these bytes. The error that comes otherwise depends on the bytes alone.
#[verifier::external_body]
fn parse_secret_key(bytes: [u8; 32]) -> (key: Result<[u8; 32], blsttc::Error>)
    ensures
        key is Ok <==> be_nat(bytes@) < field_order(),
        key is Ok ==> key->Ok_0@ == bytes@,
        key is Err ==> key->Err_0 == secret_key_error(bytes@),
{
    match blsttc::SecretKey::from_bytes(bytes) {
        Ok(key) => Ok(key.to_bytes()),
        Err(error) => Err(error),
    }
}

/// Calls `blsttc::SecretKey::public_key`. Trusted: the public key depends on the secret key alone,
/// and has 48 bytes.
#[verifier::external_body]
fn derive_public_key(secret: [u8; 32]) -> (public: [u8; 48])
    requires
        be_nat(secret@) < field_order(),
    ensures
        public@ == public_key_of(secret@),
{
    let key = blsttc::SecretKey::from_bytes(secret).expect("a number below the field's order");
    key.public_key().to_bytes()
}

/// The secret key of an account.
#[derive(Clone, Copy)]
pub struct SecretKey {
    bytes: [u8; 32],
}

impl View for SecretKey {
    type V = Seq<u8>;

    closed spec fn view(&self) -> Seq<u8> {
        self.bytes@
    }
}

impl SecretKey {
    #[verifier::type_invariant]
    spec fn is_valid(self) -> bool {
        be_nat(self.bytes@) < field_order()
    }

    /// The key with the given big endian bytes.
    pub fn from_bytes(bytes: [u8; 32]) -> (key: Result<SecretKey, blsttc::Error>)
        ensures
            key is Ok <==> be_nat(bytes@) < field_order(),
            key is Ok ==> key->Ok_0@ == bytes@,
            key is Err ==> key->Err_0 == secret_key_error(bytes@),
    {
        match parse_secret_key(bytes) {
            Ok(bytes) => Ok(SecretKey { bytes }),
            Err(error) => Err(error),
        }
    }

    /// The bytes of the key.
    pub fn to_bytes(&self) -> (bytes: [u8; 32])
        ensures
            bytes@ == self@,
            be_nat(self@) < field_order(),
    {
        proof {
            use_type_invariant(self);
        }
        self.bytes
    }

    /// The public key.
    pub fn public_key(&self) -> (public: [u8; 48])
        ensures
            public@ == public_key_of(self@),
    {
        proof {
            use_type_invariant(self);
        }
        derive_public_key(self.bytes)
    }
}

/// The address of a scratchpad: the public key of its owner.
#[derive(Clone, Copy, Debug, PartialEq, Eq)]
pub struct ScratchpadAddress {
    pub owner: [u8; 48],
}

/// What went wrong with an account.
#[derive(Debug)]
pub enum AccountError {
    /// The entropy gave no secret key.
    Bls(blsttc::Error),
    /// The client has no account.
    NoAccountPacketDefined,
    /// What lies at the address is no scratchpad.
    CouldNotDeserializeAccountScratchPad(ScratchpadAddress),
    /// The scratchpad could not be decrypted.
    Protocol(String),
    /// The network did not give the record.
    Network(String),
}

/// What went wrong with writing an account.
#[derive(Debug)]
pub enum PutError {
    /// The scratchpad's address has no name to pay for.
    AccountPacketXorName,
    /// The wallet has no payment for the scratchpad.
    Payment(String),
    /// The scratchpad could not be serialised.
    Serialization,
    /// The network did not take the record.
    Network(String),
}

/// What came of fetching the account's scratchpad.
#[derive(Debug)]
pub enum FetchOutcome<P> {
    /// The network did not give a record.
    Failed(String),
    /// The record is no scratchpad.
    NotAScratchpad,
    Scratchpad(P),
}

/// What happened last while the account is read.
#[derive(Debug)]
pub enum ReadEvent<P> {
    Start,
    Fetched(FetchOutcome<P>),
    Decrypted(Result<Option<Vec<u8>>, String>),
}

/// What is to be done next to read the account.
pub enum ReadAction<P> {
    /// Get the scratchpad at the address from the network.
    Fetch { address: ScratchpadAddress, cfg: GetRecordCfg },
    /// Decrypt the scratchpad with the account's secret key.
    Decrypt(P),
    Finish(Result<Option<Vec<u8>>, AccountError>),
}

/// How the record of a scratchpad is serialised.
#[derive(Clone, Copy, Debug, PartialEq, Eq, Structural)]
pub enum RecordKind {
    Scratchpad,
    /// The payment comes with the scratchpad.
    ScratchpadWithPayment,
}

/// A scratchpad that holds the new data and is signed, with what it tells of itself.
#[derive(Debug)]
pub struct SignedPad<P> {
    pub pad: P,
    /// The number of the version that the scratchpad holds now.
    pub count: u64,
    /// The record key of the scratchpad's network address.
    pub key: RecordKey,
    /// The name of the scratchpad's network address, if it has one.
    pub name: Option<[u8; 32]>,
}

/// What the last action of writing the account was.
#[derive(Debug)]
pub enum WriteState<P> {
    Started { data: Vec<u8> },
    Fetching { data: Vec<u8> },
    Updating { is_new: bool },
    Paying { signed: SignedPad<P> },
    FindingPayment { signed: SignedPad<P> },
    Serializing { count: u64, key: RecordKey },
    Putting { count: u64 },
    Finished,
}

/// What came of the last action of writing the account. A payment that fails gives no event. `Y`
/// is a payment.
#[derive(Debug)]
pub enum WriteEvent<P, Y> {
    Start,
    Fetched(FetchOutcome<P>),
    Updated(SignedPad<P>),
    Paid,
    PaymentFound(Result<Y, PutError>),
    /// The bytes of the record, if it could be serialised.
    Serialized(Option<Vec<u8>>),
    Put(Result<(), String>),
}

/// What is to be done next to write the account.
#[allow(inconsistent_fields)]
pub enum WriteAction<P, Y> {
    /// Get the scratchpad at the address from the network.
    Fetch { address: ScratchpadAddress, cfg: GetRecordCfg },
    /// Put the data into the scratchpad, or into a new one for the owner, and sign it.
    Update { existing: Option<P>, owner: ScratchpadAddress, data: Vec<u8> },
    /// Pay for the names.
    Pay { names: Vec<[u8; 32]> },
    /// Find the recent payment for the name.
    FindPayment { name: [u8; 32] },
    /// Serialise the scratchpad, with the payment in front of it where there is one.
    Serialize { kind: RecordKind, pad: P, payment: Option<Y> },
    Put { record: Record, cfg: PutRecordCfg },
    Finish(Result<Option<u64>, PutError>),
}

impl<P> WriteState<P> {
    /// Whether the event can come of the last action.
    pub open spec fn expects<Y>(self, event: WriteEvent<P, Y>) -> bool {
        match self {
            WriteState::Started { .. } => event is Start,
            WriteState::Fetching { .. } => event is Fetched,
            WriteState::Updating { .. } => event is Updated,
            WriteState::Paying { .. } => event is Paid,
            WriteState::FindingPayment { .. } => event is PaymentFound,
            WriteState::Serializing { .. } => event is Serialized,
            WriteState::Putting { .. } => event is Put,
            WriteState::Finished => false,
        }
    }
}

/// What is paid for: the name of the scratchpad's address, if it has one.
pub open spec fn names_to_pay(name: Option<[u8; 32]>) -> Seq<[u8; 32]> {
    match name {
        Some(name) => seq![name],
        None => Seq::empty(),
    }
}

/// Whether `address` is where the account of the secret key lies.
pub open spec fn is_account_address(secret: Seq<u8>, address: ScratchpadAddress) -> bool {
    address.owner@ == public_key_of(secret)
}

/// Whether `cfg` are the settings that an account is put with: a majority takes it, tried again
/// in a balanced way, and a majority then has it.
pub open spec fn is_account_put_cfg(cfg: PutRecordCfg) -> bool {
    &&& cfg.put_quorum == Quorum::Majority
    &&& cfg.retry_strategy == Some(RetryStrategy::Balanced)
    &&& cfg.use_put_record_to is None
    &&& cfg.verification matches Some((VerificationKind::Network, get_cfg))
    &&& get_cfg.is_majority()
}

/// Whether `action` is what reading the account of the secret key does about `event`.
pub open spec fn reads<P>(
    secret: Option<Seq<u8>>,
    event: ReadEvent<P>,
    action: ReadAction<P>,
) -> bool {
    match secret {
        None => action == ReadAction::<P>::Finish(Err(AccountError::NoAccountPacketDefined)),
        Some(secret) => match event {
            ReadEvent::Start => {
                &&& action matches ReadAction::Fetch { address, cfg }
                &&& is_account_address(secret, address)
                &&& cfg.is_majority()
            },
            ReadEvent::Fetched(FetchOutcome::Failed(error)) => {
                action == ReadAction::<P>::Finish(Err(AccountError::Network(error)))
            },
            ReadEvent::Fetched(FetchOutcome::NotAScratchpad) => {
                &&& action matches ReadAction::Finish(Err(
                    AccountError::CouldNotDeserializeAccountScratchPad(address),
                ))
                &&& is_account_address(secret, address)
            },
            ReadEvent::Fetched(FetchOutcome::Scratchpad(pad)) => {
                action == ReadAction::<P>::Decrypt(pad)
            },
            ReadEvent::Decrypted(Ok(data)) => action == ReadAction::<P>::Finish(Ok(data)),
            ReadEvent::Decrypted(Err(error)) => {
                action == ReadAction::<P>::Finish(Err(AccountError::Protocol(error)))
            },
        },
    }
}

/// Whether writing the account of the secret key goes from `state` by `event` to `next` with
/// `action`.
pub open spec fn writes<P, Y>(
    secret: Option<Seq<u8>>,
    state: WriteState<P>,
    event: WriteEvent<P, Y>,
    next: WriteState<P>,
    action: WriteAction<P, Y>,
) -> bool {
    match secret {
        None => next is Finished && action == WriteAction::<P, Y>::Finish(Ok(None)),
        Some(secret) => match (state, event) {
            (WriteState::Started { data }, _) => {
                &&& next == (WriteState::<P>::Fetching { data })
                &&& action matches WriteAction::Fetch { address, cfg }
                &&& is_account_address(secret, address)
                &&& cfg.is_majority()
            },
            (WriteState::Fetching { data }, WriteEvent::Fetched(outcome)) => {
                &&& next == (WriteState::<P>::Updating { is_new: !(outcome is Scratchpad) })
                &&& action matches WriteAction::Update { existing, owner, data: written }
                &&& existing == match outcome {
                    FetchOutcome::Scratchpad(pad) => Some(pad),
                    _ => None,
                }
                &&& is_account_address(secret, owner)
                &&& written == data
            },
            (WriteState::Updating { is_new }, WriteEvent::Updated(signed)) => if is_new {
                &&& next == (WriteState::Paying { signed })
                &&& action matches WriteAction::Pay { names }
                &&& names@ == names_to_pay(signed.name)
            } else {
                &&& next == (WriteState::<P>::Serializing { count: signed.count, key: signed.key })
                &&& action == (WriteAction::<P, Y>::Serialize {
                    kind: RecordKind::Scratchpad,
                    pad: signed.pad,
                    payment: None,
                })
            },
            (WriteState::Paying { signed }, _) => match signed.name {
                Some(name) => {
                    &&& next == (WriteState::FindingPayment { signed })
                    &&& action == (WriteAction::<P, Y>::FindPayment { name })
                },
                None => {
                    &&& next is Finished
                    &&& action == WriteAction::<P, Y>::Finish(Err(PutError::AccountPacketXorName))
                },
            },
            (WriteState::FindingPayment { signed }, WriteEvent::PaymentFound(Ok(payment))) => {
                &&& next == (WriteState::<P>::Serializing { count: signed.count, key: signed.key })
                &&& action == (WriteAction::Serialize {
                    kind: RecordKind::ScratchpadWithPayment,
                    pad: signed.pad,
                    payment: Some(payment),
                })
            },
            (WriteState::FindingPayment { .. }, WriteEvent::PaymentFound(Err(error))) => {
                next is Finished && action == WriteAction::<P, Y>::Finish(Err(error))
            },
            (WriteState::Serializing { count, key }, WriteEvent::Serialized(Some(bytes))) => {
                &&& next == (WriteState::<P>::Putting { count })
                &&& action matches WriteAction::Put { record, cfg }
                &&& record == (Record { key, value: bytes, publisher: None, expires: None })
                &&& is_account_put_cfg(cfg)
            },
            (WriteState::Serializing { .. }, WriteEvent::Serialized(None)) => {
                next is Finished && action == WriteAction::<P, Y>::Finish(
                    Err(PutError::Serialization),
                )
            },
            (WriteState::Putting { count }, WriteEvent::Put(Ok(_))) => {
                next is Finished && action == WriteAction::<P, Y>::Finish(Ok(Some(count)))
            },
            (WriteState::Putting { .. }, WriteEvent::Put(Err(error))) => {
                next is Finished && action == WriteAction::<P, Y>::Finish(
                    Err(PutError::Network(error)),
                )
            },
            _ => false,
        },
    }
}

/// The secret key that entropy gives, or why it gives none.
pub open spec fn account_of(entropy: Seq<u8>) -> Result<Seq<u8>, AccountError> {
    if be_nat(content_name(entropy)) < field_order() {
        Ok(content_name(entropy))
    } else {
        Err(AccountError::Bls(secret_key_error(content_name(entropy))))
    }
}

/// A client, as far as its account goes.
#[derive(Clone, Copy)]
pub struct Client {
    pub account_secret_key: Option<SecretKey>,
}

impl Client {
    /// The bytes of the account's secret key.
    pub open spec fn secret(&self) -> Option<Seq<u8>> {
        match self.account_secret_key {
            Some(key) => Some(key@),
            None => None,
        }
    }

    /// A client without an account.
    pub fn new() -> (client: Client)
        ensures
            client.secret() is None,
    {
        Client { account_secret_key: None }
    }

    /// Gives the client the account whose secret key is derived from the bytes: the name of the
    /// bytes as content, taken for a key.
    pub fn with_account_entropy(self, bytes: &[u8]) -> (client: Result<Client, AccountError>)
        ensures
            match client {
                Ok(client) => be_nat(content_name(bytes@)) < field_order() && client.secret()
                    == Some(content_name(bytes@)),
                Err(error) => be_nat(content_name(bytes@)) >= field_order() && error
                    == AccountError::Bls(secret_key_error(content_name(bytes@))),
            },
            match client {
                Ok(client) => account_of(bytes@) == Ok::<Seq<u8>, AccountError>(
                    client.secret()->0,
                ) && client.secret() is Some,
                Err(error) => account_of(bytes@) == Err::<Seq<u8>, AccountError>(error),
            },
    {
        let mut client = self;
        match SecretKey::from_bytes(name_of_content(bytes)) {
            Ok(key) => {
                client.account_secret_key = Some(key);
                Ok(client)
            },
            Err(error) => Err(AccountError::Bls(error)),
        }
    }

    /// The next step of reading and decrypting the account.
    pub fn get_decrypt_account<P>(&self, event: ReadEvent<P>) -> (action: ReadAction<P>)
        ensures
            reads(self.secret(), event, action),
    {
        let key = match self.account_secret_key {
            Some(key) => key,
            None => {
                return ReadAction::Finish(Err(AccountError::NoAccountPacketDefined));
            },
        };
        let address = ScratchpadAddress { owner: key.public_key() };
        match event {
            ReadEvent::Start => ReadAction::Fetch { address, cfg: GetRecordCfg::majority() },
            ReadEvent::Fetched(outcome) => {
                match Self::get_account_scratchpad_from_network(address, outcome) {
                    Ok(pad) => ReadAction::Decrypt(pad),
                    Err(error) => ReadAction::Finish(Err(error)),
                }
            },
            ReadEvent::Decrypted(Ok(data)) => ReadAction::Finish(Ok(data)),
            ReadEvent::Decrypted(Err(error)) => {
                ReadAction::Finish(Err(AccountError::Protocol(error)))
            },
        }
    }

    /// The account's scratchpad, or what became of fetching it from the address.
    pub fn get_account_scratchpad_from_network<P>(
        address: ScratchpadAddress,
        outcome: FetchOutcome<P>,
    ) -> (pad: Result<P, AccountError>)
        ensures
            pad == match outcome {
                FetchOutcome::Scratchpad(pad) => Ok::<P, AccountError>(pad),
                FetchOutcome::NotAScratchpad => Err::<P, AccountError>(
                    AccountError::CouldNotDeserializeAccountScratchPad(address),
                ),
                FetchOutcome::Failed(error) => Err::<P, AccountError>(
                    AccountError::Network(error),
                ),
            },
    {
        match outcome {
            FetchOutcome::Scratchpad(pad) => Ok(pad),
            FetchOutcome::NotAScratchpad => {
                Err(AccountError::CouldNotDeserializeAccountScratchPad(address))
            },
            FetchOutcome::Failed(error) => Err(AccountError::Network(error)),
        }
    }

    /// The next step of putting data into the account. Without an account nothing is done. An
    /// account that is not on the network yet is paid for. The outcome is the number of the
    /// version that was written.
    pub fn write_bytes_to_account_packet_if_defined<P, Y>(
        &self,
        state: WriteState<P>,
        event: WriteEvent<P, Y>,
    ) -> (step: (WriteState<P>, WriteAction<P, Y>))
        requires
            state.expects(event),
        ensures
            writes(self.secret(), state, event, step.0, step.1),
    {
        let key = match self.account_secret_key {
            Some(key) => key,
            None => {
                return (WriteState::Finished, WriteAction::Finish(Ok(None)));
            },
        };
        let address = ScratchpadAddress { owner: key.public_key() };
        match (state, event) {
            (WriteState::Started { data }, _) => {
                (
                    WriteState::Fetching { data },
                    WriteAction::Fetch { address, cfg: GetRecordCfg::majority() },
                )
            },
            (WriteState::Fetching { data }, WriteEvent::Fetched(outcome)) => {
                match Self::get_account_scratchpad_from_network(address, outcome) {
                    Ok(pad) => {
                        (
                            WriteState::Updating { is_new: false },
                            WriteAction::Update { existing: Some(pad), owner: address, data },
                        )
                    },
                    Err(_) => {
                        (
                            WriteState::Updating { is_new: true },
                            WriteAction::Update { existing: None, owner: address, data },
                        )
                    },
                }
            },
            (WriteState::Updating { is_new }, WriteEvent::Updated(signed)) => {
                if is_new {
                    let mut names: Vec<[u8; 32]> = Vec::new();
                    if let Some(name) = signed.name {
                        names.push(name);
                    }
                    assert(names@ =~= names_to_pay(signed.name));
                    (WriteState::Paying { signed }, WriteAction::Pay { names })
                } else {
                    (
                        WriteState::Serializing { count: signed.count, key: signed.key },
                        WriteAction::Serialize {
                            kind: RecordKind::Scratchpad,
                            pad: signed.pad,
                            payment: None,
                        },
                    )
                }
            },
            (WriteState::Paying { signed }, _) => match signed.name {
                Some(name) => {
                    (WriteState::FindingPayment { signed }, WriteAction::FindPayment { name })
                },
                None => {
                    (WriteState::Finished, WriteAction::Finish(Err(PutError::AccountPacketXorName)))
                },
            },
            (WriteState::FindingPayment { signed }, WriteEvent::PaymentFound(found)) => {
                match found {
                    Ok(payment) => {
                        (
                            WriteState::Serializing { count: signed.count, key: signed.key },
                            WriteAction::Serialize {
                                kind: RecordKind::ScratchpadWithPayment,
                                pad: signed.pad,
                                payment: Some(payment),
                            },
                        )
                    },
                    Err(error) => (WriteState::Finished, WriteAction::Finish(Err(error))),
                }
            },
            (WriteState::Serializing { count, key }, WriteEvent::Serialized(bytes)) => match bytes {
                Some(value) => {
                    let record = Record { key, value, publisher: None, expires: None };
                    let cfg = PutRecordCfg {
                        put_quorum: Quorum::Majority,
                        retry_strategy: Some(RetryStrategy::Balanced),
                        use_put_record_to: None,
                        verification: Some((VerificationKind::Network, GetRecordCfg::majority())),
                    };
                    (WriteState::Putting { count }, WriteAction::Put { record, cfg })
                },
                None => {
                    (WriteState::Finished, WriteAction::Finish(Err(PutError::Serialization)))
                },
            },
            (WriteState::Putting { count }, WriteEvent::Put(put)) => match put {
                Ok(_) => (WriteState::Finished, WriteAction::Finish(Ok(Some(count)))),
                Err(error) => {
                    (WriteState::Finished, WriteAction::Finish(Err(PutError::Network(error))))
                },
            },
            _ => (WriteState::Finished, WriteAction::Finish(Ok(None))),
        }
    }
}

impl<P, Y> WriteAction<P, Y> {
    /// Whether doing the action can have the outcome.
    pub open spec fn can_give(self, event: WriteEvent<P, Y>) -> bool {
        match self {
            WriteAction::Fetch { .. } => event is Fetched,
            WriteAction::Update { .. } => event is Updated,
            WriteAction::Pay { .. } => event is Paid,
            WriteAction::FindPayment { .. } => event is PaymentFound,
            WriteAction::Serialize { .. } => event is Serialized,
            WriteAction::Put { .. } => event is Put,
            WriteAction::Finish(_) => false,
        }
    }
}

/// Whatever comes of an action, writing the account goes on with it; and it is over exactly when
/// there is nothing more to do.
pub proof fn law_writing_goes_on<P, Y>(
    secret: Option<Seq<u8>>,
    state: WriteState<P>,
    event: WriteEvent<P, Y>,
    next: WriteState<P>,
    action: WriteAction<P, Y>,
    outcome: WriteEvent<P, Y>,
)
    requires
        writes(secret, state, event, next, action),
    ensures
        action.can_give(outcome) ==> next.expects(outcome),
        next is Finished <==> action is Finish,
{
}

/// The version that a state of writing the account has on the way, if any.
pub open spec fn version_under_way<P>(state: WriteState<P>) -> Option<u64> {
    match state {
        WriteState::Paying { signed } => Some(signed.count),
        WriteState::FindingPayment { signed } => Some(signed.count),
        WriteState::Serializing { count, .. } => Some(count),
        WriteState::Putting { count } => Some(count),
        _ => None,
    }
}

/// An account is paid for exactly when the network gave no scratchpad for it, and then for the
/// name of the scratchpad that was signed and nothing else. One that was there is serialised
/// alone.
pub proof fn law_only_new_accounts_are_paid_for<P, Y>(
    secret: Seq<u8>,
    data: Vec<u8>,
    outcome: FetchOutcome<P>,
    updating: WriteState<P>,
    update: WriteAction<P, Y>,
    signed: SignedPad<P>,
    next: WriteState<P>,
    action: WriteAction<P, Y>,
)
    requires
        writes(
            Some(secret),
            WriteState::Fetching { data },
            WriteEvent::Fetched(outcome),
            updating,
            update,
        ),
        writes(Some(secret), updating, WriteEvent::Updated(signed), next, action),
    ensures
        action is Pay <==> !(outcome is Scratchpad),
        action matches WriteAction::Pay { names } ==> names@ == names_to_pay(signed.name),
        outcome is Scratchpad ==> action == (WriteAction::<P, Y>::Serialize {
            kind: RecordKind::Scratchpad,
            pad: signed.pad,
            payment: None,
        }),
        version_under_way(next) == Some(signed.count),
{
}

/// The record of a new account holds the payment for its name and the scratchpad that was signed;
/// a scratchpad without a name is given up after the payment.
pub proof fn law_new_account_holds_its_payment<P, Y>(
    secret: Seq<u8>,
    signed: SignedPad<P>,
    finding: WriteState<P>,
    find: WriteAction<P, Y>,
    payment: Y,
    serializing: WriteState<P>,
    serialize: WriteAction<P, Y>,
)
    requires
        writes(
            Some(secret),
            WriteState::Paying { signed },
            WriteEvent::<P, Y>::Paid,
            finding,
            find,
        ),
        signed.name is Some ==> writes(
            Some(secret),
            finding,
            WriteEvent::PaymentFound(Ok(payment)),
            serializing,
            serialize,
        ),
    ensures
        signed.name is None ==> find == WriteAction::<P, Y>::Finish(
            Err(PutError::AccountPacketXorName),
        ),
        signed.name is Some ==> find == (WriteAction::<P, Y>::FindPayment { name: signed.name->0 })
            && serialize == (WriteAction::Serialize {
            kind: RecordKind::ScratchpadWithPayment,
            pad: signed.pad,
            payment: Some(payment),
        }),
{
}

/// The scratchpad that is signed when a state of writing the account meets an event, if any.
pub open spec fn signed_pad<P, Y>(state: WriteState<P>, event: WriteEvent<P, Y>) -> Option<
    SignedPad<P>,
> {
    match (state, event) {
        (WriteState::Updating { .. }, WriteEvent::Updated(signed)) => Some(signed),
        (WriteState::Paying { signed }, _) => Some(signed),
        (WriteState::FindingPayment { signed }, _) => Some(signed),
        _ => None,
    }
}

/// What is put is the record of the scratchpad that was signed: it is serialised as it is, and
/// its bytes go to its own key, without publisher or expiry.
pub proof fn law_signed_pad_is_put<P, Y>(
    secret: Seq<u8>,
    state: WriteState<P>,
    event: WriteEvent<P, Y>,
    serializing: WriteState<P>,
    serialize: WriteAction<P, Y>,
    bytes: Vec<u8>,
    putting: WriteState<P>,
    put: WriteAction<P, Y>,
)
    requires
        signed_pad(state, event) is Some,
        writes(Some(secret), state, event, serializing, serialize),
        serialize is Serialize,
        writes(
            Some(secret),
            serializing,
            WriteEvent::<P, Y>::Serialized(Some(bytes)),
            putting,
            put,
        ),
    ensures
        ({
            let signed = signed_pad(state, event)->0;
            &&& serialize matches WriteAction::Serialize { kind: _, pad, payment: _ }
            &&& pad == signed.pad
            &&& put matches WriteAction::Put { record, cfg: _ }
            &&& record == (Record {
                key: signed.key,
                value: bytes,
                publisher: None,
                expires: None,
            })
            &&& version_under_way(putting) == Some(signed.count)
        }),
{
}

/// The version that writing an account returns is the one that the update of the scratchpad
/// gave: no step in between changes it. With an account there is always one.
pub proof fn law_written_version_is_returned<P, Y>(
    secret: Seq<u8>,
    state: WriteState<P>,
    event: WriteEvent<P, Y>,
    next: WriteState<P>,
    action: WriteAction<P, Y>,
)
    requires
        writes(Some(secret), state, event, next, action),
    ensures
        version_under_way(state) is Some && !(action is Finish) ==> version_under_way(next)
            == version_under_way(state),
        action matches WriteAction::Finish(Ok(version)) ==> version is Some && version
            == version_under_way(state) && state is Putting,
{
}

/// Reading an account gives back what was written to it. The record is put at the key of the
/// address that is read from, if the scratchpad lies at the address of its owner, whatever keys
/// the addresses have; and what the scratchpad decrypts to is returned as it is.
pub proof fn law_read_gives_back_what_was_written<P, Y>(
    secret: Seq<u8>,
    data: Vec<u8>,
    outcome: FetchOutcome<P>,
    updating: WriteState<P>,
    update: WriteAction<P, Y>,
    signed: SignedPad<P>,
    key_of: spec_fn(Seq<u8>) -> Seq<u8>,
    state: WriteState<P>,
    event: WriteEvent<P, Y>,
    serializing: WriteState<P>,
    serialize: WriteAction<P, Y>,
    bytes: Vec<u8>,
    putting: WriteState<P>,
    put: WriteAction<P, Y>,
    fetch: ReadAction<P>,
    decrypt: ReadAction<P>,
    plain: Vec<u8>,
    finish: ReadAction<P>,
)
    requires
        writes(
            Some(secret),
            WriteState::Fetching { data },
            WriteEvent::Fetched(outcome),
            updating,
            update,
        ),
        update matches WriteAction::Update { existing: _, owner, data: sealed } ==> signed.key@
            == key_of(owner.owner@) && plain@ == sealed@,
        signed_pad(state, event) == Some(signed),
        writes(Some(secret), state, event, serializing, serialize),
        serialize is Serialize,
        writes(
            Some(secret),
            serializing,
            WriteEvent::<P, Y>::Serialized(Some(bytes)),
            putting,
            put,
        ),
        reads(Some(secret), ReadEvent::<P>::Start, fetch),
        reads(Some(secret), ReadEvent::Fetched(FetchOutcome::Scratchpad(signed.pad)), decrypt),
        reads(Some(secret), ReadEvent::<P>::Decrypted(Ok(Some(plain))), finish),
    ensures
        put matches WriteAction::Put { record, cfg: _ } && fetch matches ReadAction::Fetch {
            address,
            cfg: _,
        } && record.key@ == key_of(address.owner@),
        serialize matches WriteAction::Serialize { kind: _, pad, payment: _ } && decrypt
            == ReadAction::<P>::Decrypt(pad),
        finish matches ReadAction::Finish(Ok(Some(read))) && read@ == data@,
{
}

/// Two clients that were given the same entropy have the same account at the same address.
pub proof fn law_same_entropy_gives_same_account(
    a: Client,
    b: Client,
    entropy: Seq<u8>,
    at_a: ScratchpadAddress,
    at_b: ScratchpadAddress,
)
    requires
        a.secret() == Some(content_name(entropy)),
        b.secret() == Some(content_name(entropy)),
        is_account_address(a.secret()->0, at_a),
        is_account_address(b.secret()->0, at_b),
    ensures
        a.secret() == b.secret(),
        at_a.owner@ == at_b.owner@,
{
}

/// A scratchpad that was fetched is the one that is updated, whatever the data; a new one is made
/// only where none was fetched. Either way it gets the data that was given, for the owner of the
/// account's key.
pub proof fn law_fetched_pad_is_updated<P, Y>(
    secret: Seq<u8>,
    data: Vec<u8>,
    outcome: FetchOutcome<P>,
    next: WriteState<P>,
    action: WriteAction<P, Y>,
)
    requires
        writes(
            Some(secret),
            WriteState::Fetching { data },
            WriteEvent::Fetched(outcome),
            next,
            action,
        ),
    ensures
        action matches WriteAction::Update { existing, owner, data: written } && (forall|pad: P|
            outcome == FetchOutcome::Scratchpad(pad) <==> existing == Some(pad)) && written@
            == data@ && owner.owner@ == public_key_of(secret),
        next matches WriteState::Updating { is_new } && (is_new <==> forall|pad: P|
            outcome != FetchOutcome::Scratchpad(pad)),
{
    if let FetchOutcome::Scratchpad(pad) = outcome {
        assert(outcome == FetchOutcome::Scratchpad(pad));
    }
}

/// Reading and writing an account both begin with getting the scratchpad at the public key of the
/// account, from a majority, once, whatever the record is and whoever holds it; and the data to be
/// written waits unchanged.
pub proof fn law_account_is_looked_for_first<P, Y>(
    secret: Seq<u8>,
    data: Vec<u8>,
    next: WriteState<P>,
    write: WriteAction<P, Y>,
    read: ReadAction<P>,
)
    requires
        writes(Some(secret), WriteState::Started { data }, WriteEvent::Start, next, write),
        reads(Some(secret), ReadEvent::<P>::Start, read),
    ensures
        next matches WriteState::Fetching { data: kept } && kept@ == data@,
        write matches WriteAction::Fetch { address, cfg } && address.owner@ == public_key_of(secret)
            && cfg.get_quorum == Quorum::Majority && cfg.retry_strategy is None
            && cfg.target_record is None && cfg.expected_holders@ == Set::<Seq<u8>>::empty(),
        read matches ReadAction::Fetch { address, cfg } && address.owner@ == public_key_of(secret)
            && cfg.get_quorum == Quorum::Majority && cfg.retry_strategy is None
            && cfg.target_record is None && cfg.expected_holders@ == Set::<Seq<u8>>::empty(),
{
}

/// Every account is put so that a majority takes it, tried again in a balanced way, to whoever is
/// close, and then got back from a majority to see that it is there.
pub proof fn law_accounts_are_put_to_a_majority<P, Y>(
    secret: Seq<u8>,
    count: u64,
    key: RecordKey,
    bytes: Vec<u8>,
    next: WriteState<P>,
    action: WriteAction<P, Y>,
)
    requires
        writes(
            Some(secret),
            WriteState::Serializing { count, key },
            WriteEvent::Serialized(Some(bytes)),
            next,
            action,
        ),
    ensures
        next == (WriteState::<P>::Putting { count }),
        action matches WriteAction::Put { record, cfg } && record.key@ == key@ && record.value@
            == bytes@ && record.publisher is None && record.expires is None && cfg.put_quorum
            == Quorum::Majority && cfg.retry_strategy == Some(RetryStrategy::Balanced)
            && cfg.use_put_record_to is None,
        action matches WriteAction::Put { record: _, cfg } && cfg.verification matches Some(
            (VerificationKind::Network, get),
        ) && get.get_quorum == Quorum::Majority && get.retry_strategy is None
            && get.target_record is None && get.expected_holders@ == Set::<Seq<u8>>::empty(),
{
}

/// Writing an account fails with what went wrong and nothing else: with the wallet's error where
/// no payment is found, with the network's where the record is not taken, with a serialisation
/// error where there are no bytes. No failure is passed over, and none comes up where all went
/// well.
pub proof fn law_failed_writes_say_why<P, Y>(
    secret: Seq<u8>,
    state: WriteState<P>,
    event: WriteEvent<P, Y>,
    next: WriteState<P>,
    action: WriteAction<P, Y>,
)
    requires
        state.expects(event),
        writes(Some(secret), state, event, next, action),
    ensures
        event matches WriteEvent::PaymentFound(Err(error)) ==> action == WriteAction::<P, Y>::Finish(
            Err(error),
        ),
        event matches WriteEvent::Serialized(None) ==> action == WriteAction::<P, Y>::Finish(
            Err(PutError::Serialization),
        ),
        event matches WriteEvent::Put(Err(error)) ==> action == WriteAction::<P, Y>::Finish(
            Err(PutError::Network(error)),
        ),
        event matches WriteEvent::Put(Ok(_)) ==> (action matches WriteAction::Finish(Ok(_))),
        action matches WriteAction::Finish(Err(_)) ==> (event matches WriteEvent::PaymentFound(Err(_)))
            || (event matches WriteEvent::Serialized(None)) || (event matches WriteEvent::Put(Err(_)))
            || (state matches WriteState::Paying { signed } && signed.name is None),
{
}

/// Without an account, writing does nothing at all and reading fails for want of one.
pub proof fn law_nothing_happens_without_an_account<P, Y>(
    state: WriteState<P>,
    event: WriteEvent<P, Y>,
    next: WriteState<P>,
    write: WriteAction<P, Y>,
    read_event: ReadEvent<P>,
    read: ReadAction<P>,
)
    requires
        writes(None, state, event, next, write),
        reads(None, read_event, read),
    ensures
        next == WriteState::<P>::Finished,
        write == WriteAction::<P, Y>::Finish(Ok(None)),
        read == ReadAction::<P>::Finish(Err(AccountError::NoAccountPacketDefined)),
{
}

/// A whole reading of an account: it gives what the scratchpad that was fetched decrypts to, and
/// otherwise the error of the step that failed.
pub proof fn law_reading_tells_what_was_found<P>(
    secret: Seq<u8>,
    outcome: FetchOutcome<P>,
    fetched: ReadAction<P>,
    plain: Result<Option<Vec<u8>>, String>,
    decrypted: ReadAction<P>,
)
    requires
        reads(Some(secret), ReadEvent::Fetched(outcome), fetched),
        reads(Some(secret), ReadEvent::Decrypted(plain), decrypted),
    ensures
        forall|pad: P|
            outcome == FetchOutcome::Scratchpad(pad) <==> fetched == ReadAction::Decrypt(pad),
        outcome matches FetchOutcome::Failed(error) ==> fetched == ReadAction::<P>::Finish(
            Err(AccountError::Network(error)),
        ),
        outcome matches FetchOutcome::NotAScratchpad ==> (fetched matches ReadAction::Finish(
            Err(AccountError::CouldNotDeserializeAccountScratchPad(at)),
        ) && at.owner@ == public_key_of(secret)),
        plain matches Ok(data) ==> decrypted == ReadAction::<P>::Finish(Ok(data)),
        plain matches Err(error) ==> decrypted == ReadAction::<P>::Finish(
            Err(AccountError::Protocol(error)),
        ),
{
}

/// A new account is paid for by the name of its own scratchpad: with a name exactly that one, and
/// without a name nothing. The payment that is then looked for is the one for that name.
pub proof fn law_payment_is_for_the_pads_name<P, Y>(
    secret: Seq<u8>,
    signed: SignedPad<P>,
    paying: WriteState<P>,
    pay: WriteAction<P, Y>,
    finding: WriteState<P>,
    find: WriteAction<P, Y>,
)
    requires
        writes(
            Some(secret),
            WriteState::Updating { is_new: true },
            WriteEvent::Updated(signed),
            paying,
            pay,
        ),
        writes(Some(secret), paying, WriteEvent::Paid, finding, find),
    ensures
        pay matches WriteAction::Pay { names } && (signed.name is None ==> names@.len() == 0) && (
        signed.name matches Some(name) ==> names@.len() == 1 && names@[0] == name),
        forall|name: [u8; 32]|
            find == (WriteAction::<P, Y>::FindPayment { name }) <==> signed.name == Some(name),
        signed.name is None ==> find == WriteAction::<P, Y>::Finish(
            Err(PutError::AccountPacketXorName),
        ),
{
}

/// Entropy gives an account exactly where its name is below the order of the field, and the key of
/// the account is then that name itself; otherwise the name is refused as a key.
pub proof fn law_entropy_names_the_key(entropy: Seq<u8>)
    ensures
        account_of(entropy) is Ok <==> be_nat(content_name(entropy))
            < 0x73eda753299d7d483339d80809a1d80553bda402fffe5bfeffffffff00000001nat,
        account_of(entropy) matches Ok(secret) ==> secret == content_name(entropy),
        account_of(entropy) matches Err(error) ==> error == AccountError::Bls(
            secret_key_error(content_name(entropy)),
        ),
{
}

/// Writing an account that is on the network, from the fetch to the end: the scratchpad that was
/// fetched gets the data, what was signed is serialised alone and put at its key, and its version
/// is returned.
pub proof fn law_existing_account_is_written<P, Y>(
    secret: Seq<u8>,
    data: Vec<u8>,
    fetched: P,
    signed: SignedPad<P>,
    bytes: Vec<u8>,
    updating: WriteState<P>,
    update: WriteAction<P, Y>,
    serializing: WriteState<P>,
    serialize: WriteAction<P, Y>,
    putting: WriteState<P>,
    put: WriteAction<P, Y>,
    finished: WriteState<P>,
    finish: WriteAction<P, Y>,
)
    requires
        writes(
            Some(secret),
            WriteState::Fetching { data },
            WriteEvent::Fetched(FetchOutcome::Scratchpad(fetched)),
            updating,
            update,
        ),
        writes(Some(secret), updating, WriteEvent::Updated(signed), serializing, serialize),
        writes(Some(secret), serializing, WriteEvent::Serialized(Some(bytes)), putting, put),
        writes(Some(secret), putting, WriteEvent::Put(Ok(())), finished, finish),
    ensures
        update matches WriteAction::Update { existing: Some(pad), owner: _, data: written } && pad
            == fetched && written@ == data@,
        serialize matches WriteAction::Serialize { kind, pad, payment } && pad == signed.pad && kind
            is Scratchpad && payment is None,
        put matches WriteAction::Put { record, cfg: _ } && record.key@ == signed.key@
            && record.value@ == bytes@,
        finish matches WriteAction::Finish(Ok(Some(version))) && version == signed.count,
        finished is Finished,
{
}

/// Writing an account that is not on the network yet, from the fetch to the end: a new scratchpad
/// gets the data, its name is paid for, what was signed is serialised with that payment and put at
/// its key, and its version is returned.
pub proof fn law_new_account_is_written<P, Y>(
    secret: Seq<u8>,
    data: Vec<u8>,
    outcome: FetchOutcome<P>,
    signed: SignedPad<P>,
    name: [u8; 32],
    paid: Y,
    bytes: Vec<u8>,
    updating: WriteState<P>,
    update: WriteAction<P, Y>,
    paying: WriteState<P>,
    pay: WriteAction<P, Y>,
    finding: WriteState<P>,
    find: WriteAction<P, Y>,
    serializing: WriteState<P>,
    serialize: WriteAction<P, Y>,
    putting: WriteState<P>,
    put: WriteAction<P, Y>,
    finished: WriteState<P>,
    finish: WriteAction<P, Y>,
)
    requires
        forall|pad: P| outcome != FetchOutcome::Scratchpad(pad),
        signed.name == Some(name),
        writes(
            Some(secret),
            WriteState::Fetching { data },
            WriteEvent::Fetched(outcome),
            updating,
            update,
        ),
        writes(Some(secret), updating, WriteEvent::Updated(signed), paying, pay),
        writes(Some(secret), paying, WriteEvent::Paid, finding, find),
        writes(Some(secret), finding, WriteEvent::PaymentFound(Ok(paid)), serializing, serialize),
        writes(Some(secret), serializing, WriteEvent::Serialized(Some(bytes)), putting, put),
        writes(Some(secret), putting, WriteEvent::Put(Ok(())), finished, finish),
    ensures
        update matches WriteAction::Update { existing: None, owner, data: written } && written@
            == data@ && owner.owner@ == public_key_of(secret),
        pay matches WriteAction::Pay { names } && names@.len() == 1 && names@[0] == name,
        find == (WriteAction::<P, Y>::FindPayment { name }),
        serialize matches WriteAction::Serialize { kind, pad, payment } && pad == signed.pad && kind
            is ScratchpadWithPayment && payment == Some(paid),
        put matches WriteAction::Put { record, cfg: _ } && record.key@ == signed.key@
            && record.value@ == bytes@,
        finish matches WriteAction::Finish(Ok(Some(version))) && version == signed.count,
        finished is Finished,
{
    if let FetchOutcome::Scratchpad(pad) = outcome {
        assert(outcome != FetchOutcome::Scratchpad(pad));
    }
}

} // verus!
