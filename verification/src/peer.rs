//! Identities of the peers of the network.

use vstd::prelude::*;
use vstd::std_specs::cmp::{PartialEqSpec, PartialEqSpecImpl};

use crate::byte_strings::{bytes_equal, bytes_to_vec};

verus! {

/// Whether `bytes` are the raw form of a peer id: a hash code, the length of the digest and the
/// digest, where the code is SHA2-256, or the identity with a digest of at most 42 bytes.
pub open spec fn is_peer_id(bytes: Seq<u8>) -> bool {
    &&& bytes.len() >= 2
    &&& bytes[0] == 0x12 || bytes[0] == 0 && bytes[1] <= 42
    &&& bytes[1] <= 64
    &&& bytes.len() == 2 + bytes[1]
}

/// The base 58 text of the peer id with the raw form `bytes`.
pub uninterp spec fn peer_id_base58(bytes: Seq<u8>) -> Seq<char>;

/// The raw peer id of the keypair with the protobuf encoding `encoding`, or nothing where the
/// encoding is no keypair's.
pub uninterp spec fn keypair_peer_id(encoding: Seq<u8>) -> Option<Seq<u8>>;

/// The raw form of the peer id that `bytes` are read as, or nothing where they are none.
pub uninterp spec fn parsed_peer_id(bytes: Seq<u8>) -> Option<Seq<u8>>;

/// Calls `libp2p::PeerId::from_bytes` and takes the raw form with `to_bytes`. Trusted: the outcome
/// depends on the bytes alone; what comes out is a raw form; and a raw form is read as itself.
/// Of other bytes, in which the code or the length takes up more space than it needs, nothing more
/// is claimed.
#[verifier::external_body]
fn parse_peer_id(bytes: &[u8]) -> (raw: Option<Vec<u8>>)
    ensures
        raw is Some <==> parsed_peer_id(bytes@) is Some,
        raw is Some ==> raw->0@ == parsed_peer_id(bytes@)->0 && is_peer_id(raw->0@),
        is_peer_id(bytes@) ==> raw is Some && raw->0@ == bytes@,
{
    match libp2p::PeerId::from_bytes(bytes) {
        Ok(peer_id) => Some(peer_id.to_bytes()),
        Err(_) => None,
    }
}

/// Calls `libp2p::PeerId::to_base58`, which is also the peer id's display. Trusted: the text
/// depends on the raw form of the peer id alone.
#[verifier::external_body]
fn encode_base58(bytes: &[u8]) -> (text: String)
    requires
        is_peer_id(bytes@),
    ensures
        text@ == peer_id_base58(bytes@),
{
    let peer_id = libp2p::PeerId::from_bytes(bytes).expect("the raw form of a peer id");
    peer_id.to_base58()
}

/// Decodes a keypair with `libp2p::identity::Keypair::from_protobuf_encoding` and calls
/// `libp2p::PeerId::from` on its public half. Trusted: the outcome depends on the encoding
/// alone, and what comes out is the raw form of a peer id.
#[verifier::external_body]
fn derive_peer_id(encoding: &[u8]) -> (peer_id: Option<Vec<u8>>)
    ensures
        peer_id is Some <==> keypair_peer_id(encoding@) is Some,
        peer_id is Some ==> peer_id->0@ == keypair_peer_id(encoding@)->0 && is_peer_id(
            peer_id->0@,
        ),
{
    match libp2p::identity::Keypair::from_protobuf_encoding(encoding) {
        Ok(keypair) => Some(libp2p::PeerId::from(keypair.public()).to_bytes()),
        Err(_) => None,
    }
}

/// The identity of a peer, in its raw form.
#[derive(Debug)]
pub struct PeerId {
    bytes: Vec<u8>,
}

impl View for PeerId {
    type V = Seq<u8>;

    closed spec fn view(&self) -> Seq<u8> {
        self.bytes@
    }
}

impl PeerId {
    #[verifier::type_invariant]
    spec fn is_valid(self) -> bool {
        is_peer_id(self.bytes@)
    }

    /// The peer id that the bytes are read as, if any. A raw form is read as itself.
    pub fn from_bytes(bytes: &[u8]) -> (peer_id: Option<PeerId>)
        ensures
            peer_id is Some <==> parsed_peer_id(bytes@) is Some,
            peer_id is Some ==> peer_id->0@ == parsed_peer_id(bytes@)->0 && is_peer_id(
                peer_id->0@,
            ),
            is_peer_id(bytes@) ==> peer_id is Some && peer_id->0@ == bytes@,
    {
        match parse_peer_id(bytes) {
            Some(bytes) => Some(PeerId { bytes }),
            None => None,
        }
    }

    /// The raw form.
    pub fn as_bytes(&self) -> (bytes: &[u8])
        ensures
            bytes@ == self@,
            is_peer_id(self@),
    {
        proof {
            use_type_invariant(self);
        }
        self.bytes.as_slice()
    }

    /// The text that the peer id is shown as.
    pub fn to_base58(&self) -> (text: String)
        ensures
            text@ == peer_id_base58(self@),
    {
        proof {
            use_type_invariant(self);
        }
        encode_base58(self.bytes.as_slice())
    }
}

impl Clone for PeerId {
    fn clone(&self) -> (copy: Self)
        ensures
            copy@ == self@,
    {
        proof {
            use_type_invariant(self);
        }
        PeerId { bytes: bytes_to_vec(self.bytes.as_slice()) }
    }
}

impl PartialEq for PeerId {
    fn eq(&self, other: &Self) -> (same: bool) {
        bytes_equal(self.bytes.as_slice(), other.bytes.as_slice())
    }
}

impl PartialEqSpecImpl for PeerId {
    open spec fn obeys_eq_spec() -> bool {
        true
    }

    open spec fn eq_spec(&self, other: &Self) -> bool {
        self@ == other@
    }
}

/// A set of peers.
#[derive(Debug)]
pub struct PeerSet {
    items: Vec<PeerId>,
}

/// The raw forms of some peer ids.
pub open spec fn peer_views(peers: Seq<PeerId>) -> Seq<Seq<u8>> {
    peers.map_values(|p: PeerId| p@)
}

impl View for PeerSet {
    type V = Set<Seq<u8>>;

    closed spec fn view(&self) -> Set<Seq<u8>> {
        peer_views(self.items@).to_set()
    }
}

impl PeerSet {
    #[verifier::type_invariant]
    spec fn is_valid(self) -> bool {
        peer_views(self.items@).no_duplicates()
    }

    /// The set without peers.
    pub fn new() -> (set: PeerSet)
        ensures
            set@ == Set::<Seq<u8>>::empty(),
    {
        let set = PeerSet { items: Vec::new() };
        assert(peer_views(set.items@).to_set() =~= Set::<Seq<u8>>::empty());
        set
    }

    /// Whether the peer is in the set.
    pub fn contains(&self, peer: &PeerId) -> (found: bool)
        ensures
            found == self@.contains(peer@),
    {
        let mut i: usize = 0;
        while i < self.items.len()
            invariant
                i <= self.items@.len(),
                forall|j: int| 0 <= j < i ==> peer_views(self.items@)[j] != peer@,
            decreases self.items@.len() - i,
        {
            if self.items[i] == *peer {
                assert(peer_views(self.items@)[i as int] == peer@);
                return true;
            }
            i += 1;
        }
        false
    }

    /// Puts a peer into the set. Returns whether it is new there.
    pub fn insert(&mut self, peer: PeerId) -> (added: bool)
        ensures
            added == !old(self)@.contains(peer@),
            final(self)@ == old(self)@.insert(peer@),
    {
        proof {
            use_type_invariant(&*self);
        }
        let ghost before = peer_views(self.items@);
        if self.contains(&peer) {
            assert(self@ =~= old(self)@.insert(peer@));
            return false;
        }
        let mut items: Vec<PeerId> = Vec::new();
        std::mem::swap(&mut items, &mut self.items);
        items.push(peer);
        assert(peer_views(items@) =~= before.push(peer@));
        self.items = items;
        proof {
            let after = peer_views(self.items@);
            assert forall|raw: Seq<u8>| after.to_set().contains(raw) == before.to_set().insert(
                peer@,
            ).contains(raw) by {
                if before.contains(raw) {
                    let k = choose|k: int| 0 <= k < before.len() && before[k] == raw;
                    assert(after[k] == raw);
                }
                if after.contains(raw) {
                    let k = choose|k: int| 0 <= k < after.len() && after[k] == raw;
                    if k < before.len() {
                        assert(before[k] == raw);
                    }
                }
                assert(after[before.len() as int] == peer@);
            }
            assert(self@ =~= old(self)@.insert(peer@));
        }
        true
    }
}

impl Clone for PeerSet {
    fn clone(&self) -> (copy: Self)
        ensures
            copy@ == self@,
    {
        proof {
            use_type_invariant(self);
        }
        let items = clone_peers(&self.items);
        assert(peer_views(items@) == peer_views(self.items@));
        PeerSet { items }
    }
}

/// A copy of some peer ids.
pub fn clone_peers(peers: &Vec<PeerId>) -> (copy: Vec<PeerId>)
    ensures
        peer_views(copy@) == peer_views(peers@),
{
    let mut copy: Vec<PeerId> = Vec::new();
    let mut i: usize = 0;
    assert(peer_views(copy@) =~= peer_views(peers@).take(0));
    while i < peers.len()
        invariant
            i <= peers@.len(),
            peer_views(copy@) == peer_views(peers@).take(i as int),
        decreases peers@.len() - i,
    {
        let ghost before = copy@;
        copy.push(peers[i].clone());
        assert(peer_views(copy@) =~= peer_views(before).push(peers@[i as int]@));
        assert(peer_views(copy@) =~= peer_views(peers@).take(i + 1));
        i += 1;
    }
    assert(peer_views(peers@).take(i as int) =~= peer_views(peers@));
    copy
}

/// A node's keypair in its protobuf encoding, with the peer id that belongs to it. It holds the
/// private half and is not printed.
pub struct Keypair {
    encoding: Vec<u8>,
    peer_id: PeerId,
}

impl View for Keypair {
    type V = Seq<u8>;

    closed spec fn view(&self) -> Seq<u8> {
        self.encoding@
    }
}

impl Keypair {
    #[verifier::type_invariant]
    spec fn is_valid(self) -> bool {
        keypair_peer_id(self.encoding@) == Some(self.peer_id@)
    }

    /// Decodes a keypair.
    pub fn from_protobuf_encoding(encoding: &[u8]) -> (keypair: Option<Keypair>)
        ensures
            keypair is Some <==> keypair_peer_id(encoding@) is Some,
            keypair is Some ==> keypair->0@ == encoding@,
    {
        match derive_peer_id(encoding) {
            Some(raw) => match PeerId::from_bytes(raw.as_slice()) {
                Some(peer_id) => Some(Keypair { encoding: bytes_to_vec(encoding), peer_id }),
                None => None,
            },
            None => None,
        }
    }

    /// The protobuf encoding.
    pub fn as_bytes(&self) -> (bytes: &[u8])
        ensures
            bytes@ == self@,
    {
        self.encoding.as_slice()
    }

    /// The peer id that the public half gives.
    pub fn peer_id(&self) -> (peer_id: PeerId)
        ensures
            keypair_peer_id(self@) == Some(peer_id@),
    {
        proof {
            use_type_invariant(self);
        }
        self.peer_id.clone()
    }
}

/// A hash code, the length of a digest and the digest are the raw form of a peer id exactly where
/// the digest is SHA2-256 and has at most 64 bytes, or stands for itself and has at most 42; and
/// nothing else is one.
pub proof fn law_raw_form_of_peer_ids(code: u8, digest: Seq<u8>, bytes: Seq<u8>)
    ensures
        digest.len() < 256 ==> (is_peer_id(seq![code, digest.len() as u8] + digest) <==> code
            == 0x12 && digest.len() <= 64 || code == 0 && digest.len() <= 42),
        is_peer_id(bytes) ==> bytes.len() >= 2 && bytes == seq![
            bytes[0],
            (bytes.len() - 2) as u8,
        ] + bytes.skip(2),
{
    if digest.len() < 256 {
        let raw = seq![code, digest.len() as u8] + digest;
        assert(raw[0] == code);
        assert(raw[1] == digest.len() as u8);
    }
    if is_peer_id(bytes) {
        assert(bytes =~= seq![bytes[0], (bytes.len() - 2) as u8] + bytes.skip(2));
    }
}

/// Peer ids are equal exactly where their raw forms are.
pub proof fn law_equal_peer_ids(a: PeerId, b: PeerId)
    ensures
        PartialEqSpec::eq_spec(&a, &b) <==> a@ == b@,
{
}

/// The raw forms of some peer ids are those of each of them, in order.
pub proof fn law_raw_forms_of_a_list(peers: Seq<PeerId>)
    ensures
        peer_views(peers).len() == peers.len(),
        forall|i: int| 0 <= i < peers.len() ==> #[trigger] peer_views(peers)[i] == peers[i]@,
{
}

} // verus!
