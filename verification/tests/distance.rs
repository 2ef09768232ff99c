use libp2p::kad::KBucketKey as KadKey;
use safe_network::distance::{Distance, KBucketKey};

fn samples() -> Vec<Vec<u8>> {
    vec![
        b"abc".to_vec(),
        b"".to_vec(),
        b"some random content here for you".to_vec(),
        vec![0u8; 38],
        vec![255u8; 64],
        b"peer one".to_vec(),
        b"peer two".to_vec(),
    ]
}

#[test]
fn key_is_the_digest_of_the_preimage() {
    let key = KBucketKey::new(b"abc");
    let expected: [u8; 32] = [
        0xba, 0x78, 0x16, 0xbf, 0x8f, 0x01, 0xcf, 0xea, 0x41, 0x41, 0x40, 0xde, 0x5d, 0xae, 0x22,
        0x23, 0xb0, 0x03, 0x61, 0xa3, 0x96, 0x17, 0x7a, 0x9c, 0xb4, 0x10, 0xff, 0x61, 0xf2, 0x00,
        0x15, 0xad,
    ];
    assert_eq!(key.digest, expected);
}

#[test]
fn logarithm_agrees_with_the_key_space() {
    for a in samples() {
        for b in samples() {
            let theirs = KadKey::new(a.clone()).distance(&KadKey::new(b.clone()));
            assert_eq!(Distance::between(&a, &b).ilog2(), theirs.ilog2());
        }
    }
}

#[test]
fn order_agrees_with_the_key_space() {
    let from = KadKey::new(b"here".to_vec());
    for a in samples() {
        for b in samples() {
            let theirs = from.distance(&KadKey::new(a.clone()))
                < from.distance(&KadKey::new(b.clone()));
            let ours = Distance::between(b"here", &a).less_than(&Distance::between(b"here", &b));
            assert_eq!(ours, theirs);
        }
    }
}

#[test]
fn distance_is_symmetric_and_zero_only_to_itself() {
    for a in samples() {
        for b in samples() {
            assert_eq!(Distance::between(&a, &b), Distance::between(&b, &a));
            assert_eq!(Distance::between(&a, &b).is_zero(), a == b);
        }
    }
    assert_eq!(Distance::zero().ilog2(), None);
}

#[test]
fn one_distance_leads_to_one_key() {
    let from = KBucketKey::new(b"from");
    for a in samples() {
        for b in samples() {
            let (ka, kb) = (KBucketKey::new(&a), KBucketKey::new(&b));
            assert_eq!(from.distance(&ka) == from.distance(&kb), ka == kb);
        }
    }
}

#[test]
fn logarithm_of_small_distances() {
    let mut d = Distance { bytes: [0u8; 32] };
    d.bytes[31] = 1;
    assert_eq!(d.ilog2(), Some(0));
    d.bytes[31] = 255;
    assert_eq!(d.ilog2(), Some(7));
    d.bytes[30] = 1;
    assert_eq!(d.ilog2(), Some(8));
    d.bytes[0] = 128;
    assert_eq!(d.ilog2(), Some(255));
}
