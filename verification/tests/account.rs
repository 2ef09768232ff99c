use std::collections::HashMap;

use safe_network::account::{
    AccountError, Client, FetchOutcome, PutError, ReadAction, ReadEvent, RecordKind,
    ScratchpadAddress, SecretKey, SignedPad, WriteAction, WriteEvent, WriteState,
};
use safe_network::address::RecordKey;
use safe_network::peer::PeerId;
use safe_network::record_cfg::{PutRecordCfg, Quorum, RetryStrategy, VerificationKind};

const ENTROPY: &[u8] = b"at least 32 bytes of entropy here";

fn client() -> Client {
    Client::new().with_account_entropy(ENTROPY).unwrap()
}

fn address(client: &Client) -> ScratchpadAddress {
    ScratchpadAddress { owner: client.account_secret_key.unwrap().public_key() }
}

const PAYMENT: &str = "paid";

/// A scratchpad that keeps its data in the clear.
#[derive(Clone, Debug, PartialEq)]
struct Pad {
    owner: [u8; 48],
    count: u64,
    data: Vec<u8>,
}

fn signed(pad: Pad) -> SignedPad<Pad> {
    let mut name = [0u8; 32];
    name.copy_from_slice(&pad.owner[..32]);
    SignedPad { count: pad.count, key: RecordKey::new(&pad.owner), name: Some(name), pad }
}

/// Writes through all steps, on a network of scratchpads. Returns what was paid and the outcome.
fn write(
    client: &Client,
    network: &mut HashMap<[u8; 48], Pad>,
    data: &[u8],
) -> (bool, Option<u64>) {
    let mut state = WriteState::Started { data: data.to_vec() };
    let mut event: WriteEvent<Pad, &str> = WriteEvent::Start;
    let mut pad = Pad { owner: [0; 48], count: 0, data: vec![] };
    let mut paid = false;
    loop {
        let (next, action) = client.write_bytes_to_account_packet_if_defined(state, event);
        state = next;
        event = match action {
            WriteAction::Fetch { address, cfg } => {
                assert_eq!(cfg.get_quorum, Quorum::Majority);
                WriteEvent::Fetched(match network.get(&address.owner) {
                    Some(pad) => FetchOutcome::Scratchpad(pad.clone()),
                    None => FetchOutcome::Failed("not found".to_string()),
                })
            }
            WriteAction::Update { existing, owner, data } => {
                assert_eq!(owner, address(client));
                pad = existing.unwrap_or(Pad { owner: owner.owner, count: 0, data: vec![] });
                pad.count += 1;
                pad.data = data;
                WriteEvent::Updated(signed(pad.clone()))
            }
            WriteAction::Pay { names } => {
                assert_eq!(names, vec![signed(pad.clone()).name.unwrap()]);
                paid = true;
                WriteEvent::Paid
            }
            WriteAction::FindPayment { name } => {
                assert_eq!(Some(name), signed(pad.clone()).name);
                WriteEvent::PaymentFound(Ok(PAYMENT))
            }
            WriteAction::Serialize { kind, pad: written, payment } => {
                assert_eq!(kind == RecordKind::ScratchpadWithPayment, paid);
                assert_eq!(payment, if paid { Some(PAYMENT) } else { None });
                assert_eq!(written, pad);
                WriteEvent::Serialized(Some(written.data))
            }
            WriteAction::Put { record, cfg } => {
                assert!(is_account_cfg(&cfg));
                assert!(record.key == RecordKey::new(&pad.owner));
                assert_eq!(record.value, pad.data);
                assert!(record.publisher.is_none() && record.expires.is_none());
                network.insert(pad.owner, pad.clone());
                WriteEvent::Put(Ok(()))
            }
            WriteAction::Finish(outcome) => return (paid, outcome.unwrap()),
        };
    }
}

fn is_account_cfg(cfg: &PutRecordCfg) -> bool {
    let peer = PeerId::from_bytes(&[0, 1, 1]).unwrap();
    let verified = match &cfg.verification {
        Some((VerificationKind::Network, get)) => {
            get.get_quorum == Quorum::Majority
                && get.retry_strategy.is_none()
                && get.target_record.is_none()
                && !get.expected_holders.contains(&peer)
        }
        _ => false,
    };
    cfg.put_quorum == Quorum::Majority
        && cfg.retry_strategy == Some(RetryStrategy::Balanced)
        && cfg.use_put_record_to.is_none()
        && verified
}

fn read(
    client: &Client,
    network: &HashMap<[u8; 48], Pad>,
) -> Result<Option<Vec<u8>>, AccountError> {
    let mut event: ReadEvent<Pad> = ReadEvent::Start;
    loop {
        event = match client.get_decrypt_account(event) {
            ReadAction::Fetch { address, .. } => {
                ReadEvent::Fetched(match network.get(&address.owner) {
                    Some(pad) => FetchOutcome::Scratchpad(pad.clone()),
                    None => FetchOutcome::Failed("not found".to_string()),
                })
            }
            ReadAction::Decrypt(pad) => ReadEvent::Decrypted(Ok(Some(pad.data))),
            ReadAction::Finish(outcome) => return outcome,
        };
    }
}

#[test]
fn secret_key_is_the_name_of_the_entropy() {
    let key = client().account_secret_key.unwrap();
    let name = xor_name::XorName::from_content(ENTROPY);
    assert_eq!(key.to_bytes(), name.0);
    let theirs = blsttc::SecretKey::from_bytes(name.0).unwrap();
    assert_eq!(key.public_key(), theirs.public_key().to_bytes());

    let abc = Client::new().with_account_entropy(b"abc").unwrap();
    let expected: [u8; 32] = [
        0x3a, 0x98, 0x5d, 0xa7, 0x4f, 0xe2, 0x25, 0xb2, 0x04, 0x5c, 0x17, 0x2d, 0x6b, 0xd3, 0x90,
        0xbd, 0x85, 0x5f, 0x08, 0x6e, 0x3e, 0x9d, 0x52, 0x5b, 0x46, 0xbf, 0xe2, 0x45, 0x11, 0x43,
        0x15, 0x32,
    ];
    assert_eq!(abc.account_secret_key.unwrap().to_bytes(), expected);
}

#[test]
fn entropy_beyond_the_field_is_refused() {
    let mut refused = 0;
    for i in 0..64u8 {
        let name = xor_name::XorName::from_content(&[i]);
        let valid = blsttc::SecretKey::from_bytes(name.0).is_ok();
        match Client::new().with_account_entropy(&[i]) {
            Ok(client) => {
                assert!(valid);
                assert!(client.account_secret_key.is_some());
            }
            Err(error) => {
                assert!(!valid);
                let theirs = blsttc::SecretKey::from_bytes(name.0).err().unwrap();
                match error {
                    AccountError::Bls(error) => assert_eq!(error, theirs),
                    other => panic!("{other:?}"),
                }
                refused += 1;
            }
        }
    }
    assert!(refused > 0);
}

#[test]
fn keys_are_numbers_below_the_order_of_the_field() {
    let order: [u8; 32] = [
        0x73, 0xed, 0xa7, 0x53, 0x29, 0x9d, 0x7d, 0x48, 0x33, 0x39, 0xd8, 0x08, 0x09, 0xa1, 0xd8,
        0x05, 0x53, 0xbd, 0xa4, 0x02, 0xff, 0xfe, 0x5b, 0xfe, 0xff, 0xff, 0xff, 0xff, 0x00, 0x00,
        0x00, 0x01,
    ];
    assert!(SecretKey::from_bytes(order).is_err());
    assert!(SecretKey::from_bytes([0xff; 32]).is_err());
    let mut below = order;
    below[31] = 0;
    assert_eq!(SecretKey::from_bytes(below).unwrap().to_bytes(), below);
    assert!(SecretKey::from_bytes([0; 32]).is_ok());
    let mut one = [0; 32];
    one[31] = 1;
    assert_eq!(SecretKey::from_bytes(one).unwrap().to_bytes(), one);
}

#[test]
fn same_entropy_gives_the_same_account() {
    assert_eq!(address(&client()), address(&client()));
    let other = Client::new().with_account_entropy(b"abc").unwrap();
    assert_ne!(address(&client()), address(&other));
}

#[test]
fn account_is_read_back_by_a_new_client() {
    let mut network = HashMap::new();
    assert_eq!(write(&client(), &mut network, b"root"), (true, Some(1)));
    let new_client = Client::new().with_account_entropy(ENTROPY).unwrap();
    assert_eq!(read(&new_client, &network).unwrap(), Some(b"root".to_vec()));
}

#[test]
fn only_the_first_version_is_paid_for() {
    let mut network = HashMap::new();
    assert_eq!(write(&client(), &mut network, b"one"), (true, Some(1)));
    assert_eq!(write(&client(), &mut network, b"two"), (false, Some(2)));
    assert_eq!(write(&client(), &mut network, b"three"), (false, Some(3)));
    assert_eq!(read(&client(), &network).unwrap(), Some(b"three".to_vec()));
}

#[test]
fn nothing_is_done_without_an_account() {
    let mut network = HashMap::new();
    assert_eq!(write(&Client::new(), &mut network, b"data"), (false, None));
    assert!(network.is_empty());
    assert!(matches!(
        read(&Client::new(), &network),
        Err(AccountError::NoAccountPacketDefined)
    ));
}

#[test]
fn reading_reports_what_went_wrong() {
    let client = client();
    match client.get_decrypt_account::<Pad>(ReadEvent::Fetched(FetchOutcome::NotAScratchpad)) {
        ReadAction::Finish(Err(AccountError::CouldNotDeserializeAccountScratchPad(at))) => {
            assert_eq!(at, address(&client));
        }
        _ => panic!("another action"),
    }
    match client.get_decrypt_account::<Pad>(ReadEvent::Decrypted(Err("bad".to_string()))) {
        ReadAction::Finish(Err(AccountError::Protocol(error))) => assert_eq!(error, "bad"),
        _ => panic!("another action"),
    }
    match read(&client, &HashMap::new()) {
        Err(AccountError::Network(error)) => assert_eq!(error, "not found"),
        other => panic!("{other:?}"),
    }
}

#[test]
fn something_else_at_the_address_is_written_over() {
    let fetching = WriteState::Fetching { data: vec![1] };
    let event: WriteEvent<Pad, &str> = WriteEvent::Fetched(FetchOutcome::NotAScratchpad);
    let (state, action) = client().write_bytes_to_account_packet_if_defined(fetching, event);
    assert!(matches!(state, WriteState::Updating { is_new: true }));
    assert!(matches!(action, WriteAction::Update { existing: None, .. }));
}

#[test]
fn fetched_pad_is_put_to_its_own_key() {
    let other = signed(Pad { owner: [7; 48], count: 4, data: vec![9] });
    let event: WriteEvent<Pad, &str> = WriteEvent::Updated(other);
    let updating = WriteState::Updating { is_new: false };
    let (state, action) = client().write_bytes_to_account_packet_if_defined(updating, event);
    match action {
        WriteAction::Serialize { kind: RecordKind::Scratchpad, pad, payment: None } => {
            assert_eq!(pad.owner, [7; 48]);
        }
        _ => panic!("another action"),
    }
    let event: WriteEvent<Pad, &str> = WriteEvent::Serialized(Some(vec![3]));
    let (_, action) = client().write_bytes_to_account_packet_if_defined(state, event);
    match action {
        WriteAction::Put { record, .. } => {
            assert!(record.key == RecordKey::new(&[7; 48]));
            assert_eq!(record.value, vec![3]);
        }
        _ => panic!("another action"),
    }
}

#[test]
fn nothing_is_paid_for_without_a_name() {
    let nameless = SignedPad { name: None, ..signed(Pad { owner: [7; 48], count: 1, data: vec![] }) };
    let event: WriteEvent<Pad, &str> = WriteEvent::Updated(nameless);
    let updating = WriteState::Updating { is_new: true };
    let (_, action) = client().write_bytes_to_account_packet_if_defined(updating, event);
    assert!(matches!(action, WriteAction::Pay { names } if names.is_empty()));
}

#[test]
fn writing_reports_what_went_wrong() {
    let client = client();
    let pad = || signed(Pad { owner: [1; 48], count: 1, data: vec![] });
    let nameless = SignedPad { name: None, ..pad() };
    let key = RecordKey::new(&[1; 48]);
    let steps: Vec<(WriteState<Pad>, WriteEvent<Pad, &str>, &str)> = vec![
        (WriteState::Paying { signed: nameless }, WriteEvent::Paid, "AccountPacketXorName"),
        (
            WriteState::FindingPayment { signed: pad() },
            WriteEvent::PaymentFound(Err(PutError::Payment("none".to_string()))),
            "Payment(\"none\")",
        ),
        (WriteState::Serializing { count: 1, key }, WriteEvent::Serialized(None), "Serialization"),
        (
            WriteState::Putting { count: 1 },
            WriteEvent::Put(Err("refused".to_string())),
            "Network(\"refused\")",
        ),
    ];
    for (state, event, expected) in steps {
        let (next, action) = client.write_bytes_to_account_packet_if_defined(state, event);
        assert!(matches!(next, WriteState::Finished));
        match action {
            WriteAction::Finish(Err(error)) => assert_eq!(format!("{error:?}"), expected),
            _ => panic!("another action"),
        }
    }
}
