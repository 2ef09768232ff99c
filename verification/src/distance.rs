//! Keys of the network's key space and the XOR metric between them.

use vstd::arithmetic::power2::{lemma2_to64, lemma_pow2_adds, pow2};
use vstd::prelude::*;

use crate::byte_strings::{be_nat, lemma_be_nat_first_difference};

verus! {

/// What `libp2p::kad::KBucketKey` hashes the byte string `preimage` to.
pub uninterp spec fn kbucket_digest(preimage: Seq<u8>) -> Seq<u8>;

/// Calls `libp2p::kad::KBucketKey::new` and reads its `hashed_bytes`. Trusted: the digest depends
/// on the bytes of the preimage alone, and is 32 bytes long.
#[verifier::external_body]
fn hash_preimage(preimage: &[u8]) -> (digest: [u8; 32])
    ensures
        digest@ == kbucket_digest(preimage@),
{
    let key = libp2p::kad::KBucketKey::new(preimage.to_vec());
    let mut digest = [0u8; 32];
    digest.copy_from_slice(key.hashed_bytes());
    digest
}

/// The bytewise exclusive or of two byte strings of one length.
pub open spec fn xor_bytes(a: Seq<u8>, b: Seq<u8>) -> Seq<u8> {
    Seq::new(a.len(), |i: int| a[i] ^ b[i])
}

/// The XOR distance between the digests `a` and `b`, as a number.
pub open spec fn xor_distance(a: Seq<u8>, b: Seq<u8>) -> nat {
    be_nat(xor_bytes(a, b))
}

/// The distance in the key space between what two byte strings are hashed to.
pub open spec fn preimage_distance(a: Seq<u8>, b: Seq<u8>) -> nat {
    xor_distance(kbucket_digest(a), kbucket_digest(b))
}

/// A distance between two keys: a number below 2^256, in big endian bytes.
#[derive(Clone, Copy, Debug, PartialEq, Eq)]
pub struct Distance {
    pub bytes: [u8; 32],
}

impl View for Distance {
    type V = nat;

    open spec fn view(&self) -> nat {
        be_nat(self.bytes@)
    }
}

/// A key in the key space.
#[derive(Clone, Copy, Debug, PartialEq, Eq)]
pub struct KBucketKey {
    pub digest: [u8; 32],
}

impl View for KBucketKey {
    type V = Seq<u8>;

    open spec fn view(&self) -> Seq<u8> {
        self.digest@
    }
}

impl KBucketKey {
    /// The key of a byte string.
    pub fn new(preimage: &[u8]) -> (key: KBucketKey)
        ensures
            key@ == kbucket_digest(preimage@),
    {
        KBucketKey { digest: hash_preimage(preimage) }
    }

    /// The distance from this key to another, by the XOR metric.
    pub fn distance(&self, other: &KBucketKey) -> (d: Distance)
        ensures
            d.bytes@ == xor_bytes(self@, other@),
            d@ == xor_distance(self@, other@),
    {
        let mut bytes: [u8; 32] = [0u8; 32];
        let mut i: usize = 0;
        while i < 32
            invariant
                i <= 32,
                bytes@.len() == 32,
                forall|j: int| 0 <= j < i ==> bytes@[j] == self.digest@[j] ^ other.digest@[j],
            decreases 32 - i,
        {
            bytes[i] = self.digest[i] ^ other.digest[i];
            i += 1;
        }
        assert(bytes@ =~= xor_bytes(self@, other@));
        Distance { bytes }
    }
}

impl Distance {
    /// The distance of a key to itself.
    pub fn zero() -> (d: Distance)
        ensures
            d@ == 0,
    {
        let bytes: [u8; 32] = [0u8; 32];
        proof {
            lemma_be_nat_zeros(bytes@);
        }
        Distance { bytes }
    }

    /// The distance between what two byte strings are hashed to.
    pub fn between(a: &[u8], b: &[u8]) -> (d: Distance)
        ensures
            d@ == preimage_distance(a@, b@),
    {
        KBucketKey::new(a).distance(&KBucketKey::new(b))
    }

    /// Whether this distance is smaller than `other`.
    pub fn less_than(&self, other: &Distance) -> (less: bool)
        ensures
            less == (self@ < other@),
    {
        let mut i: usize = 0;
        while i < 32
            invariant
                i <= 32,
                forall|j: int| 0 <= j < i ==> self.bytes@[j] == other.bytes@[j],
            decreases 32 - i,
        {
            if self.bytes[i] < other.bytes[i] {
                proof {
                    lemma_be_nat_first_difference(self.bytes@, other.bytes@, i as int);
                }
                return true;
            }
            if other.bytes[i] < self.bytes[i] {
                proof {
                    lemma_be_nat_first_difference(other.bytes@, self.bytes@, i as int);
                }
                return false;
            }
            i += 1;
        }
        assert(self.bytes@ =~= other.bytes@);
        false
    }

    /// Whether this is the distance of a key to itself.
    pub fn is_zero(&self) -> (zero: bool)
        ensures
            zero == (self@ == 0),
    {
        let mut i: usize = 0;
        while i < 32
            invariant
                i <= 32,
                forall|j: int| 0 <= j < i ==> self.bytes@[j] == 0,
            decreases 32 - i,
        {
            if self.bytes[i] != 0 {
                proof {
                    lemma_be_nat_nonzero(self.bytes@, i as int);
                }
                return false;
            }
            i += 1;
        }
        proof {
            lemma_be_nat_zeros(self.bytes@);
        }
        true
    }

    /// The integer part of the base 2 logarithm, and nothing for the distance zero.
    pub fn ilog2(&self) -> (log: Option<u32>)
        ensures
            match log {
                None => self@ == 0,
                Some(k) => k < 256 && pow2(k as nat) <= self@ < pow2((k + 1) as nat),
            },
    {
        let mut i: usize = 0;
        while i < 32
            invariant
                i <= 32,
                forall|j: int| 0 <= j < i ==> self.bytes@[j] == 0,
            decreases 32 - i,
        {
            if self.bytes[i] != 0 {
                let top: u32 = byte_ilog2(self.bytes[i]);
                let low: u32 = 8 * (31 - i as u32);
                proof {
                    lemma_be_nat_leading_byte(self.bytes@, i as int);
                    lemma_scaled_bounds(
                        self.bytes@[i as int] as nat,
                        top as nat,
                        low as nat,
                        self@,
                    );
                }
                return Some(low + top);
            }
            i += 1;
        }
        proof {
            lemma_be_nat_zeros(self.bytes@);
        }
        None
    }
}

/// The position of the highest bit that is set in a byte.
fn byte_ilog2(b: u8) -> (log: u32)
    requires
        b != 0,
    ensures
        log < 8,
        pow2(log as nat) <= b < pow2((log + 1) as nat),
{
    proof {
        lemma2_to64();
    }
    if b >= 128 {
        7
    } else if b >= 64 {
        6
    } else if b >= 32 {
        5
    } else if b >= 16 {
        4
    } else if b >= 8 {
        3
    } else if b >= 4 {
        2
    } else if b >= 2 {
        1
    } else {
        0
    }
}

proof fn lemma_be_nat_zeros(s: Seq<u8>)
    requires
        forall|j: int| 0 <= j < s.len() ==> s[j] == 0,
    ensures
        be_nat(s) == 0,
    decreases s.len(),
{
    if s.len() > 0 {
        lemma_be_nat_zeros(s.drop_last());
    }
}

/// A number lies between its leading byte and that byte plus one, both scaled by its position.
proof fn lemma_be_nat_leading_byte(s: Seq<u8>, i: int)
    requires
        0 <= i < s.len(),
        forall|j: int| 0 <= j < i ==> s[j] == 0,
    ensures
        s[i] * pow2((8 * (s.len() - 1 - i)) as nat) <= be_nat(s),
        be_nat(s) < (s[i] + 1) * pow2((8 * (s.len() - 1 - i)) as nat),
    decreases s.len(),
{
    lemma2_to64();
    if i == s.len() - 1 {
        lemma_be_nat_zeros(s.drop_last());
        let one = pow2((8 * (s.len() - 1 - i)) as nat);
        let b = s[i] as int;
        assert(b * one == b && (b + 1) * one == b + 1) by (nonlinear_arith)
            requires
                one == 1,
        ;
    } else {
        lemma_be_nat_leading_byte(s.drop_last(), i);
        let m = (8 * (s.len() - 2 - i)) as nat;
        lemma_pow2_adds(m, 8);
        let p = pow2(m);
        let q = pow2((8 * (s.len() - 1 - i)) as nat);
        let v = be_nat(s.drop_last());
        let b = s[i] as int;
        assert(s.drop_last()[i] == s[i]);
        assert((8 * (s.len() - 1 - i)) as nat == m + 8);
        assert(b * q <= v * 256 + s.last() && v * 256 + s.last() < (b + 1) * q)
            by (nonlinear_arith)
            requires
                b * p <= v,
                v < (b + 1) * p,
                0 <= s.last() < 256,
                q == p * 256,
        ;
    }
}

proof fn lemma_scaled_bounds(byte: nat, top: nat, low: nat, value: nat)
    requires
        pow2(top) <= byte < pow2(top + 1),
        byte * pow2(low) <= value < (byte + 1) * pow2(low),
    ensures
        pow2(low + top) <= value < pow2(low + top + 1),
{
    lemma_pow2_adds(top, low);
    lemma_pow2_adds(top + 1, low);
    let t = pow2(top);
    let t1 = pow2(top + 1);
    let l = pow2(low);
    assert(t * l <= byte * l) by (nonlinear_arith)
        requires
            t <= byte,
            0 <= l,
    ;
    assert((byte + 1) * l <= t1 * l) by (nonlinear_arith)
        requires
            byte + 1 <= t1,
            0 <= l,
    ;
}

/// What is hashed alike is at distance zero.
pub proof fn lemma_distance_to_self(a: Seq<u8>)
    ensures
        preimage_distance(a, a) == 0,
{
    let d = kbucket_digest(a);
    assert forall|i: int| 0 <= i < d.len() implies xor_bytes(d, d)[i] == 0 by {
        lemma_xor_byte(d[i], d[i]);
    }
    lemma_be_nat_zeros(xor_bytes(d, d));
}

/// The distance does not depend on the direction.
pub proof fn law_distance_is_symmetric(a: KBucketKey, b: KBucketKey)
    ensures
        xor_distance(a@, b@) == xor_distance(b@, a@),
{
    assert forall|i: int| 0 <= i < 32 implies a@[i] ^ b@[i] == b@[i] ^ a@[i] by {
        lemma_xor_byte(a@[i], b@[i]);
    }
    assert(xor_bytes(a@, b@) =~= xor_bytes(b@, a@));
}

/// Two keys are at distance zero exactly when they are the same key.
pub proof fn law_distance_zero_is_identity(a: KBucketKey, b: KBucketKey)
    ensures
        xor_distance(a@, b@) == 0 <==> a@ == b@,
{
    let d = xor_bytes(a@, b@);
    assert forall|i: int| 0 <= i < 32 implies (d[i] == 0 <==> a@[i] == b@[i]) by {
        lemma_xor_byte(a@[i], b@[i]);
    }
    if a@ == b@ {
        lemma_be_nat_zeros(d);
    } else {
        assert(!(a@ =~= b@));
        let k = choose|k: int| 0 <= k < 32 && a@[k] != b@[k];
        assert(d[k] != 0);
        lemma_be_nat_nonzero(d, k);
    }
}

/// No two keys are at the same distance from a third one.
pub proof fn law_distance_is_unidirectional(from: KBucketKey, a: KBucketKey, b: KBucketKey)
    requires
        xor_distance(from@, a@) == xor_distance(from@, b@),
    ensures
        a@ == b@,
{
    let d = xor_bytes(from@, a@);
    let e = xor_bytes(from@, b@);
    lemma_be_nat_injective(d, e);
    assert forall|i: int| 0 <= i < 32 implies a@[i] == b@[i] by {
        assert(d[i] == e[i]);
        let (x, y, z) = (from@[i], a@[i], b@[i]);
        assert(x ^ y == x ^ z ==> y == z) by (bit_vector);
    }
    assert(a@ =~= b@);
}

proof fn lemma_xor_byte(x: u8, y: u8)
    ensures
        x ^ y == y ^ x,
        x ^ y == 0 <==> x == y,
{
    assert(x ^ y == y ^ x) by (bit_vector);
    assert(x ^ y == 0 <==> x == y) by (bit_vector);
}

proof fn lemma_be_nat_nonzero(s: Seq<u8>, k: int)
    requires
        0 <= k < s.len(),
        s[k] != 0,
    ensures
        be_nat(s) > 0,
    decreases s.len(),
{
    if k < s.len() - 1 {
        lemma_be_nat_nonzero(s.drop_last(), k);
    }
}

proof fn lemma_be_nat_injective(a: Seq<u8>, b: Seq<u8>)
    requires
        a.len() == b.len(),
        be_nat(a) == be_nat(b),
    ensures
        a == b,
    decreases a.len(),
{
    if a.len() > 0 {
        lemma_be_nat_injective(a.drop_last(), b.drop_last());
        assert(a =~= a.drop_last().push(a.last()));
        assert(b =~= b.drop_last().push(b.last()));
    } else {
        assert(a =~= b);
    }
}

/// The distance has a bit set exactly where two keys differ, so two steps make up a third: what
/// leads from one key to another and on to a third one leads from the first to the third.
pub proof fn law_distances_compose(a: KBucketKey, b: KBucketKey, c: KBucketKey, i: int)
    requires
        0 <= i < 32,
    ensures
        xor_bytes(a@, b@).len() == 32,
        xor_bytes(a@, b@)[i] == a.digest@[i] ^ b.digest@[i],
        xor_bytes(a@, b@)[i] ^ xor_bytes(b@, c@)[i] == xor_bytes(a@, c@)[i],
        xor_distance(a@, b@) == be_nat(xor_bytes(a@, b@)),
{
    let (x, y, z) = (a@[i], b@[i], c@[i]);
    assert((x ^ y) ^ (y ^ z) == x ^ z) by (bit_vector);
}

/// The distance between two byte strings is that between the keys they are hashed to.
pub proof fn law_distance_is_between_digests(a: Seq<u8>, b: Seq<u8>, x: KBucketKey, y: KBucketKey)
    requires
        x@ == kbucket_digest(a),
        y@ == kbucket_digest(b),
    ensures
        preimage_distance(a, b) == be_nat(
            Seq::new(32, |i: int| x.digest@[i] ^ y.digest@[i]),
        ),
        preimage_distance(a, b) == preimage_distance(b, a),
        preimage_distance(a, b) == 0 <==> x@ == y@,
{
    assert(xor_bytes(x@, y@) =~= Seq::new(32, |i: int| x.digest@[i] ^ y.digest@[i]));
    law_distance_is_symmetric(x, y);
    law_distance_zero_is_identity(x, y);
}

} // verus!
