use safe_network::address::{multiaddr_pop_p2p, AddrProtocol, AddressSet, Multiaddr, NetworkAddress};
use safe_network::peer::{Keypair, PeerId, PeerSet};

fn identity_peer(n: u8) -> PeerId {
    PeerId::from_bytes(&[0, 1, n]).unwrap()
}

#[test]
fn peer_ids_are_multihashes_of_two_codes() {
    let mut sha = vec![0x12u8, 32];
    sha.extend([7u8; 32]);
    let mut long_identity = vec![0u8, 43];
    long_identity.extend([7u8; 43]);
    let mut too_long = vec![0x12u8, 65];
    too_long.extend([7u8; 65]);
    let cases: Vec<Vec<u8>> = vec![
        sha.clone(),
        vec![0, 1, 9],
        vec![0, 0],
        vec![0x12, 0],
        long_identity,
        too_long,
        vec![],
        vec![0x12],
        vec![0x12, 2, 1],
        vec![0x12, 1, 1, 1],
        vec![0x13, 1, 1],
        vec![0x92, 0, 1, 1],
    ];
    let expected = [
        true, true, true, true, false, false, false, false, false, false, false, false,
    ];
    for (case, expected) in cases.iter().zip(expected) {
        let parsed = PeerId::from_bytes(case);
        assert_eq!(parsed.is_some(), expected);
        if let Some(peer) = parsed {
            assert_eq!(peer.as_bytes(), &case[..]);
        }
        assert_eq!(libp2p::PeerId::from_bytes(case).is_ok(), expected);
    }
}

#[test]
fn roundabout_peer_ids_get_their_raw_form() {
    let mut code = vec![0x92u8];
    code.extend([0x80; 8]);
    code.extend([0x02, 0x00]);
    let mut length = vec![0x12u8];
    length.extend([0x80; 9]);
    length.push(0x02);
    for bytes in [code, length] {
        let theirs = libp2p::PeerId::from_bytes(&bytes).unwrap().to_bytes();
        let ours = PeerId::from_bytes(&bytes).unwrap();
        assert_eq!(theirs, vec![0x12, 0]);
        assert_eq!(ours.as_bytes(), &theirs[..]);
        assert!(ours == PeerId::from_bytes(&[0x12, 0]).unwrap());
        assert_eq!(ours.to_base58(), libp2p::PeerId::from_bytes(&bytes).unwrap().to_base58());
    }
}

#[test]
fn peer_id_is_shown_in_base_58() {
    let mut raw = vec![0x12u8, 32];
    raw.extend([7u8; 32]);
    let shown = PeerId::from_bytes(&raw).unwrap().to_base58();
    assert_eq!(shown, libp2p::PeerId::from_bytes(&raw).unwrap().to_string());
    assert!(shown.starts_with("Qm"));
    assert_eq!(identity_peer(9).to_base58(), "15a");
}

#[test]
fn keypair_has_the_peer_id_of_its_public_half() {
    let theirs = libp2p::identity::Keypair::generate_ed25519();
    let encoding = theirs.to_protobuf_encoding().unwrap();
    let ours = Keypair::from_protobuf_encoding(&encoding).unwrap();
    assert_eq!(ours.as_bytes(), &encoding[..]);
    assert_eq!(
        ours.peer_id().as_bytes(),
        &libp2p::PeerId::from(theirs.public()).to_bytes()[..]
    );
    assert!(Keypair::from_protobuf_encoding(b"no keypair").is_none());
}

#[test]
fn trailing_peer_is_taken_off() {
    let mut addr = Multiaddr {
        protocols: vec![
            AddrProtocol::Ip4([127, 0, 0, 1]),
            AddrProtocol::Udp(12),
            AddrProtocol::P2p(identity_peer(3)),
        ],
    };
    assert!(multiaddr_pop_p2p(&mut addr) == Some(identity_peer(3)));
    assert_eq!(addr.protocols.len(), 2);
    assert!(multiaddr_pop_p2p(&mut addr).is_none());
    assert_eq!(addr.protocols.len(), 2);
    let mut empty = Multiaddr { protocols: vec![] };
    assert!(multiaddr_pop_p2p(&mut empty).is_none());
}

#[test]
fn address_set_holds_each_address_once() {
    let mut set = AddressSet::new();
    assert!(set.insert(NetworkAddress::RecordKey(vec![1, 2])));
    assert!(!set.insert(NetworkAddress::RecordKey(vec![1, 2])));
    assert!(set.insert(NetworkAddress::Content { kind: 0, name: vec![1, 2] }));
    assert!(set.insert(NetworkAddress::Content { kind: 1, name: vec![1, 2] }));
    assert!(set.insert(NetworkAddress::PeerId(identity_peer(1))));
    assert_eq!(set.len(), 4);
    assert!(set.contains(&NetworkAddress::RecordKey(vec![1, 2])));
    assert!(!set.contains(&NetworkAddress::RecordKey(vec![1])));
    assert!(set.contains(&NetworkAddress::from_peer(&identity_peer(1))));
}

#[test]
fn peer_set_holds_each_peer_once() {
    let mut set = PeerSet::new();
    assert!(!set.contains(&identity_peer(1)));
    assert!(set.insert(identity_peer(1)));
    assert!(!set.insert(identity_peer(1)));
    assert!(set.insert(identity_peer(2)));
    assert!(set.contains(&identity_peer(1)) && set.contains(&identity_peer(2)));
    assert!(!set.contains(&identity_peer(3)));
}
