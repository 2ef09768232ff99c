//! Where things are: transport addresses of peers and addresses of records.

use vstd::prelude::*;
use vstd::std_specs::cmp::{PartialEqSpec, PartialEqSpecImpl};

use crate::byte_strings::{bytes_equal, bytes_to_vec};
use crate::distance::{kbucket_digest, KBucketKey};
use crate::peer::PeerId;

verus! {

/// One component of a transport address.
#[derive(Debug)]
pub enum AddrProtocol {
    Ip4([u8; 4]),
    Ip6([u8; 16]),
    Udp(u16),
    Tcp(u16),
    QuicV1,
    Ws(String),
    P2p(PeerId),
    /// Any other component, in its text form.
    Other(String),
}

/// What a component of a transport address says.
pub enum ProtocolView {
    Ip4([u8; 4]),
    Ip6([u8; 16]),
    Udp(u16),
    Tcp(u16),
    QuicV1,
    Ws(Seq<char>),
    P2p(Seq<u8>),
    Other(Seq<char>),
}

impl View for AddrProtocol {
    type V = ProtocolView;

    open spec fn view(&self) -> ProtocolView {
        match *self {
            AddrProtocol::Ip4(octets) => ProtocolView::Ip4(octets),
            AddrProtocol::Ip6(octets) => ProtocolView::Ip6(octets),
            AddrProtocol::Udp(port) => ProtocolView::Udp(port),
            AddrProtocol::Tcp(port) => ProtocolView::Tcp(port),
            AddrProtocol::QuicV1 => ProtocolView::QuicV1,
            AddrProtocol::Ws(path) => ProtocolView::Ws(path@),
            AddrProtocol::P2p(peer) => ProtocolView::P2p(peer@),
            AddrProtocol::Other(text) => ProtocolView::Other(text@),
        }
    }
}

impl Clone for AddrProtocol {
    fn clone(&self) -> (copy: Self)
        ensures
            copy@ == self@,
    {
        match self {
            AddrProtocol::Ip4(octets) => AddrProtocol::Ip4(*octets),
            AddrProtocol::Ip6(octets) => AddrProtocol::Ip6(*octets),
            AddrProtocol::Udp(port) => AddrProtocol::Udp(*port),
            AddrProtocol::Tcp(port) => AddrProtocol::Tcp(*port),
            AddrProtocol::QuicV1 => AddrProtocol::QuicV1,
            AddrProtocol::Ws(path) => AddrProtocol::Ws(path.clone()),
            AddrProtocol::P2p(peer) => AddrProtocol::P2p(peer.clone()),
            AddrProtocol::Other(text) => AddrProtocol::Other(text.clone()),
        }
    }
}

/// What the components of a transport address say.
pub open spec fn protocol_views(protocols: Seq<AddrProtocol>) -> Seq<ProtocolView> {
    protocols.map_values(|p: AddrProtocol| p@)
}

/// A transport address: its components, outermost first.
#[derive(Debug)]
pub struct Multiaddr {
    pub protocols: Vec<AddrProtocol>,
}

impl View for Multiaddr {
    type V = Seq<AddrProtocol>;

    open spec fn view(&self) -> Seq<AddrProtocol> {
        self.protocols@
    }
}

impl Clone for Multiaddr {
    fn clone(&self) -> (copy: Self)
        ensures
            protocol_views(copy@) == protocol_views(self@),
    {
        let ghost views = protocol_views(self@);
        let mut protocols: Vec<AddrProtocol> = Vec::new();
        let mut i: usize = 0;
        assert(protocol_views(protocols@) =~= views.take(0));
        while i < self.protocols.len()
            invariant
                i <= self.protocols@.len(),
                views == protocol_views(self.protocols@),
                protocol_views(protocols@) == views.take(i as int),
            decreases self.protocols@.len() - i,
        {
            let ghost before = protocols@;
            protocols.push(self.protocols[i].clone());
            assert(protocol_views(protocols@) =~= protocol_views(before).push(views[i as int]));
            assert(protocol_views(protocols@) =~= views.take(i + 1));
            i += 1;
        }
        assert(views.take(i as int) =~= views);
        Multiaddr { protocols }
    }
}

/// The peer that a transport address names at its end.
pub open spec fn trailing_peer(addr: Seq<AddrProtocol>) -> Option<PeerId> {
    if addr.len() > 0 && addr.last() is P2p {
        Some(addr.last()->P2p_0)
    } else {
        None
    }
}

/// A transport address without the peer that it names at its end.
pub open spec fn without_trailing_peer(addr: Seq<AddrProtocol>) -> Seq<AddrProtocol> {
    if trailing_peer(addr) is Some {
        addr.drop_last()
    } else {
        addr
    }
}

/// Takes the peer that the address names at its end off the address.
pub fn multiaddr_pop_p2p(addr: &mut Multiaddr) -> (peer_id: Option<PeerId>)
    ensures
        peer_id == trailing_peer(old(addr)@),
        final(addr)@ == without_trailing_peer(old(addr)@),
        trailing_peer(old(addr)@) is None ==> *final(addr) == *old(addr),
{
    let len: usize = addr.protocols.len();
    if len == 0 {
        return None;
    }
    let ends_in_peer = match &addr.protocols[len - 1] {
        AddrProtocol::P2p(_) => true,
        _ => false,
    };
    if !ends_in_peer {
        return None;
    }
    match addr.protocols.pop() {
        Some(AddrProtocol::P2p(peer_id)) => {
            assert(addr@ =~= old(addr)@.drop_last());
            Some(peer_id)
        },
        _ => None,
    }
}

/// The key of a record.
#[derive(Debug)]
pub struct RecordKey {
    pub bytes: Vec<u8>,
}

impl View for RecordKey {
    type V = Seq<u8>;

    open spec fn view(&self) -> Seq<u8> {
        self.bytes@
    }
}

impl RecordKey {
    /// The record key with these bytes.
    pub fn new(bytes: &[u8]) -> (key: RecordKey)
        ensures
            key@ == bytes@,
    {
        RecordKey { bytes: bytes_to_vec(bytes) }
    }
}

impl Clone for RecordKey {
    fn clone(&self) -> (copy: Self)
        ensures
            copy@ == self@,
    {
        RecordKey::new(self.bytes.as_slice())
    }
}

impl PartialEq for RecordKey {
    fn eq(&self, other: &Self) -> (same: bool) {
        bytes_equal(self.bytes.as_slice(), other.bytes.as_slice())
    }
}

impl PartialEqSpecImpl for RecordKey {
    open spec fn obeys_eq_spec() -> bool {
        true
    }

    open spec fn eq_spec(&self, other: &Self) -> bool {
        self@ == other@
    }
}

/// A record as the network stores it.
#[derive(Debug)]
pub struct Record {
    pub key: RecordKey,
    pub value: Vec<u8>,
    /// The peer that first published the record.
    pub publisher: Option<PeerId>,
    /// When the record expires, in nanoseconds of a local monotonic clock.
    pub expires: Option<u64>,
}

/// What a record holds.
pub struct RecordView {
    pub key: Seq<u8>,
    pub value: Seq<u8>,
    pub publisher: Option<Seq<u8>>,
    pub expires: Option<u64>,
}

/// The raw form of a peer id that may be missing.
pub open spec fn peer_view(peer: Option<PeerId>) -> Option<Seq<u8>> {
    match peer {
        Some(p) => Some(p@),
        None => None,
    }
}

impl View for Record {
    type V = RecordView;

    open spec fn view(&self) -> RecordView {
        RecordView {
            key: self.key@,
            value: self.value@,
            publisher: peer_view(self.publisher),
            expires: self.expires,
        }
    }
}

impl Clone for Record {
    fn clone(&self) -> (copy: Self)
        ensures
            copy@ == self@,
    {
        let publisher = match &self.publisher {
            Some(peer) => Some(peer.clone()),
            None => None,
        };
        Record {
            key: self.key.clone(),
            value: bytes_to_vec(self.value.as_slice()),
            publisher,
            expires: self.expires,
        }
    }
}

impl PartialEq for Record {
    fn eq(&self, other: &Self) -> (same: bool) {
        let same_publisher = match (&self.publisher, &other.publisher) {
            (Some(a), Some(b)) => *a == *b,
            (None, None) => true,
            _ => false,
        };
        let same_expiry = match (&self.expires, &other.expires) {
            (Some(a), Some(b)) => *a == *b,
            (None, None) => true,
            _ => false,
        };
        self.key == other.key && bytes_equal(self.value.as_slice(), other.value.as_slice())
            && same_publisher && same_expiry
    }
}

impl PartialEqSpecImpl for Record {
    open spec fn obeys_eq_spec() -> bool {
        true
    }

    open spec fn eq_spec(&self, other: &Self) -> bool {
        self@ == other@
    }
}

/// An address in the network's key space.
#[derive(Debug)]
pub enum NetworkAddress {
    /// The address of a peer.
    PeerId(PeerId),
    /// The address of a record, by the record's key.
    RecordKey(Vec<u8>),
    /// The address of a piece of content by its name, of the kind with the given number.
    Content { kind: u8, name: Vec<u8> },
}

/// What an address says.
pub enum AddressView {
    PeerId(Seq<u8>),
    RecordKey(Seq<u8>),
    Content(u8, Seq<u8>),
}

impl View for NetworkAddress {
    type V = AddressView;

    open spec fn view(&self) -> AddressView {
        match *self {
            NetworkAddress::PeerId(peer) => AddressView::PeerId(peer@),
            NetworkAddress::RecordKey(key) => AddressView::RecordKey(key@),
            NetworkAddress::Content { kind, name } => AddressView::Content(kind, name@),
        }
    }
}

impl AddressView {
    /// The bytes that are hashed into the key space.
    pub open spec fn bytes(self) -> Seq<u8> {
        match self {
            AddressView::PeerId(bytes) => bytes,
            AddressView::RecordKey(bytes) => bytes,
            AddressView::Content(_, bytes) => bytes,
        }
    }
}

impl NetworkAddress {
    /// The address of a peer.
    pub fn from_peer(peer: &PeerId) -> (address: NetworkAddress)
        ensures
            address@ == AddressView::PeerId(peer@),
    {
        NetworkAddress::PeerId(peer.clone())
    }

    /// The bytes that are hashed into the key space.
    pub fn as_bytes(&self) -> (bytes: &[u8])
        ensures
            bytes@ == self@.bytes(),
    {
        match self {
            NetworkAddress::PeerId(peer) => peer.as_bytes(),
            NetworkAddress::RecordKey(key) => key.as_slice(),
            NetworkAddress::Content { kind: _, name } => name.as_slice(),
        }
    }

    /// The key that the address is hashed to.
    pub fn as_kbucket_key(&self) -> (key: KBucketKey)
        ensures
            key@ == kbucket_digest(self@.bytes()),
    {
        KBucketKey::new(self.as_bytes())
    }
}

impl Clone for NetworkAddress {
    fn clone(&self) -> (copy: Self)
        ensures
            copy@ == self@,
    {
        match self {
            NetworkAddress::PeerId(peer) => NetworkAddress::PeerId(peer.clone()),
            NetworkAddress::RecordKey(key) => {
                NetworkAddress::RecordKey(bytes_to_vec(key.as_slice()))
            },
            NetworkAddress::Content { kind, name } => {
                NetworkAddress::Content { kind: *kind, name: bytes_to_vec(name.as_slice()) }
            },
        }
    }
}

impl PartialEq for NetworkAddress {
    fn eq(&self, other: &Self) -> (same: bool) {
        match (self, other) {
            (NetworkAddress::PeerId(a), NetworkAddress::PeerId(b)) => *a == *b,
            (NetworkAddress::RecordKey(a), NetworkAddress::RecordKey(b)) => {
                bytes_equal(a.as_slice(), b.as_slice())
            },
            (
                NetworkAddress::Content { kind: k, name: a },
                NetworkAddress::Content { kind: l, name: b },
            ) => *k == *l && bytes_equal(a.as_slice(), b.as_slice()),
            _ => false,
        }
    }
}

impl PartialEqSpecImpl for NetworkAddress {
    open spec fn obeys_eq_spec() -> bool {
        true
    }

    open spec fn eq_spec(&self, other: &Self) -> bool {
        self@ == other@
    }
}

/// A set of addresses. It keeps them in the order in which they were first put in.
#[derive(Debug)]
pub struct AddressSet {
    items: Vec<NetworkAddress>,
}

/// What each address of a list says.
pub open spec fn address_views(addresses: Seq<NetworkAddress>) -> Seq<AddressView> {
    addresses.map_values(|a: NetworkAddress| a@)
}

/// The addresses with one more, if it is not among them.
pub open spec fn with_address(ordered: Seq<AddressView>, address: AddressView) -> Seq<AddressView> {
    if ordered.contains(address) {
        ordered
    } else {
        ordered.push(address)
    }
}

impl AddressSet {
    #[verifier::type_invariant]
    spec fn is_valid(self) -> bool {
        address_views(self.items@).no_duplicates()
    }

    /// The addresses in the order in which they were first put in.
    pub closed spec fn ordered(self) -> Seq<AddressView> {
        address_views(self.items@)
    }

    /// The set without addresses.
    pub fn new() -> (set: AddressSet)
        ensures
            set.ordered() == Seq::<AddressView>::empty(),
    {
        let items: Vec<NetworkAddress> = Vec::new();
        assert(address_views(items@) =~= Seq::<AddressView>::empty());
        AddressSet { items }
    }

    /// Whether the address is in the set.
    pub fn contains(&self, address: &NetworkAddress) -> (found: bool)
        ensures
            found == self.ordered().contains(address@),
    {
        let mut i: usize = 0;
        while i < self.items.len()
            invariant
                i <= self.items@.len(),
                forall|j: int| 0 <= j < i ==> self.ordered()[j] != address@,
            decreases self.items@.len() - i,
        {
            if self.items[i] == *address {
                assert(self.ordered()[i as int] == address@);
                return true;
            }
            i += 1;
        }
        false
    }

    /// Puts an address into the set. Returns whether it is new there.
    pub fn insert(&mut self, address: NetworkAddress) -> (added: bool)
        ensures
            added == !old(self).ordered().contains(address@),
            final(self).ordered() == if added {
                old(self).ordered().push(address@)
            } else {
                old(self).ordered()
            },
            final(self).ordered() == with_address(old(self).ordered(), address@),
    {
        proof {
            use_type_invariant(&*self);
        }
        if self.contains(&address) {
            return false;
        }
        let mut items: Vec<NetworkAddress> = Vec::new();
        std::mem::swap(&mut items, &mut self.items);
        items.push(address);
        assert(address_views(items@) =~= old(self).ordered().push(address@));
        self.items = items;
        true
    }

    /// How many addresses there are.
    pub fn len(&self) -> (n: usize)
        ensures
            n == self.ordered().len(),
            self.ordered().no_duplicates(),
    {
        proof {
            use_type_invariant(self);
        }
        self.items.len()
    }

    /// The address at a position.
    pub fn get(&self, i: usize) -> (address: &NetworkAddress)
        requires
            i < self.ordered().len(),
        ensures
            address@ == self.ordered()[i as int],
    {
        &self.items[i]
    }
}

/// Records are equal exactly where their keys, values, publishers and times of expiry all are.
pub proof fn law_equal_records(a: Record, b: Record)
    ensures
        PartialEqSpec::eq_spec(&a, &b) <==> {
            &&& a.key.bytes@ == b.key.bytes@
            &&& a.value@ == b.value@
            &&& a.publisher is Some <==> b.publisher is Some
            &&& a.publisher is Some ==> a.publisher->0@ == b.publisher->0@
            &&& a.expires == b.expires
        },
        a@ == b@ <==> PartialEqSpec::eq_spec(&a, &b),
        PartialEqSpec::eq_spec(&a.key, &b.key) <==> a.key.bytes@ == b.key.bytes@,
{
}

/// Addresses are equal exactly where they are of the same kind and name the same.
pub proof fn law_equal_addresses(a: NetworkAddress, b: NetworkAddress)
    ensures
        PartialEqSpec::eq_spec(&a, &b) <==> match (a, b) {
            (NetworkAddress::PeerId(p), NetworkAddress::PeerId(q)) => p@ == q@,
            (NetworkAddress::RecordKey(p), NetworkAddress::RecordKey(q)) => p@ == q@,
            (
                NetworkAddress::Content { kind: k, name: p },
                NetworkAddress::Content { kind: l, name: q },
            ) => k == l && p@ == q@,
            _ => false,
        },
        a@ == b@ <==> PartialEqSpec::eq_spec(&a, &b),
{
}

/// What is hashed of an address is what it names, whatever its kind.
pub proof fn law_hashed_bytes(peer: PeerId, bytes: Vec<u8>, kind: u8)
    ensures
        NetworkAddress::PeerId(peer)@.bytes() == peer@,
        NetworkAddress::RecordKey(bytes)@.bytes() == bytes@,
        (NetworkAddress::Content { kind, name: bytes })@.bytes() == bytes@,
{
}

/// Components of transport addresses say the same exactly where they are of the same protocol with
/// the same details.
pub proof fn law_equal_protocols(a: AddrProtocol, b: AddrProtocol)
    ensures
        a@ == b@ <==> match (a, b) {
            (AddrProtocol::Ip4(p), AddrProtocol::Ip4(q)) => p == q,
            (AddrProtocol::Ip6(p), AddrProtocol::Ip6(q)) => p == q,
            (AddrProtocol::Udp(p), AddrProtocol::Udp(q)) => p == q,
            (AddrProtocol::Tcp(p), AddrProtocol::Tcp(q)) => p == q,
            (AddrProtocol::QuicV1, AddrProtocol::QuicV1) => true,
            (AddrProtocol::Ws(p), AddrProtocol::Ws(q)) => p@ == q@,
            (AddrProtocol::P2p(p), AddrProtocol::P2p(q)) => p@ == q@,
            (AddrProtocol::Other(p), AddrProtocol::Other(q)) => p@ == q@,
            _ => false,
        },
{
}

/// A peer behind an address is taken off it and told, the rest of the address stays. From an
/// address that ends otherwise nothing is taken.
pub proof fn law_peer_is_taken_off(addr: Seq<AddrProtocol>, peer: PeerId)
    ensures
        trailing_peer(addr.push(AddrProtocol::P2p(peer))) == Some(peer),
        without_trailing_peer(addr.push(AddrProtocol::P2p(peer))) == addr,
        addr.len() == 0 || !(addr[addr.len() - 1] is P2p) ==> trailing_peer(addr) is None
            && without_trailing_peer(addr) == addr,
{
    assert(addr.push(AddrProtocol::P2p(peer)).drop_last() =~= addr);
}

/// What each address of a list says, and what each component of a transport address says, is told
/// in order and nothing is left out.
pub proof fn law_what_lists_say(addresses: Seq<NetworkAddress>, protocols: Seq<AddrProtocol>)
    ensures
        address_views(addresses).len() == addresses.len(),
        forall|i: int|
            0 <= i < addresses.len() ==> #[trigger] address_views(addresses)[i] == addresses[i]@,
        protocol_views(protocols).len() == protocols.len(),
        forall|i: int|
            0 <= i < protocols.len() ==> #[trigger] protocol_views(protocols)[i] == protocols[i]@,
{
}

/// An address that is put in is held then, behind those that were there before. Nothing else comes
/// or goes, none is held twice, and to put it in again changes nothing.
pub proof fn law_addresses_are_held_once(ordered: Seq<AddressView>, address: AddressView)
    requires
        ordered.no_duplicates(),
    ensures
        with_address(ordered, address).contains(address),
        forall|i: int|
            0 <= i < ordered.len() ==> #[trigger] with_address(ordered, address)[i] == ordered[i],
        with_address(ordered, address).len() == ordered.len() + if ordered.contains(address) {
            0int
        } else {
            1
        },
        with_address(ordered, address).no_duplicates(),
        with_address(with_address(ordered, address), address) == with_address(ordered, address),
{
    let after = with_address(ordered, address);
    if !ordered.contains(address) {
        assert(after[ordered.len() as int] == address);
    }
}

} // verus!
