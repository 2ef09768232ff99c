//! What the swarm driver keeps about the network around it, and what it does when.

use std::collections::VecDeque;

use vstd::arithmetic::power2::pow2;
use vstd::prelude::*;

use crate::address::{
    multiaddr_pop_p2p, trailing_peer, without_trailing_peer, AddrProtocol, Multiaddr,
};
use crate::distance::{lemma_distance_to_self, preimage_distance, Distance};
use crate::peer::{peer_views, PeerId};
use crate::statistics::{
    is_report, logs, report_fits, with_measurement, HandlingStat, HandlingStatistics, LONGEST_SPAN,
    REPORT_INTERVAL,
};

verus! {

/// How many range distances are kept.
pub const X_RANGE_STORAGE_LIMIT: usize = 100;

/// The peer that the range distance is measured at, counted from the second closest on.
pub const TARGET_PEER: usize = 42;

/// How often the farthest record that should be held is checked for, in seconds.
pub const CLOSET_RECORD_CHECK_INTERVAL: u64 = 15;

/// How often the relay manager is asked for more reservations, in seconds.
pub const RELAY_MANAGER_RESERVATION_INTERVAL: u64 = 30;

/// The number of peers in a bucket, as `kad` has it.
pub open spec fn bucket_size() -> nat {
    20
}

/// Reads `libp2p::kad::K_VALUE`. Trusted: it is 20.
#[verifier::external_body]
fn k_value() -> (k: usize)
    ensures
        k == bucket_size(),
{
    libp2p::kad::K_VALUE.get()
}

/// How a peer is dialed.
#[derive(Debug)]
pub enum DialOpts {
    /// A peer at one of some addresses, unless it is already being dialed.
    PeerUnlessDialing { peer_id: PeerId, addresses: Vec<Multiaddr> },
    /// Whoever answers at an address.
    UnknownPeer { address: Multiaddr },
}

/// Whether `opts` are the way to dial `addr`.
pub open spec fn dials(opts: DialOpts, addr: Seq<AddrProtocol>) -> bool {
    match trailing_peer(addr) {
        Some(peer) => {
            &&& opts matches DialOpts::PeerUnlessDialing { peer_id, addresses }
            &&& peer_id == peer
            &&& addresses@.len() == 1
            &&& addresses@[0]@ == without_trailing_peer(addr)
        },
        None => {
            &&& opts matches DialOpts::UnknownPeer { address }
            &&& address@ == addr
        },
    }
}

/// The distance between the last two peers that the range is measured over, and zero where there
/// are no two.
pub open spec fn range_distance(peers: Seq<Seq<u8>>) -> nat {
    if peers.len() < 2 {
        0
    } else {
        let last = if peers.len() - 1 < TARGET_PEER + 1 {
            peers.len() - 1
        } else {
            TARGET_PEER + 1
        };
        preimage_distance(peers[last - 1], peers[last])
    }
}

/// The distances of a list as numbers.
pub open spec fn distance_views(distances: Seq<Distance>) -> Seq<nat> {
    distances.map_values(|d: Distance| d@)
}

/// The list of range distances with one more, where the oldest gives way if the list is full.
pub open spec fn with_range(ranges: Seq<nat>, distance: nat) -> Seq<nat> {
    if ranges.len() == X_RANGE_STORAGE_LIMIT {
        ranges.drop_first().push(distance)
    } else {
        ranges.push(distance)
    }
}

/// The list of range distances after the routing table has shown these peers.
pub open spec fn ranges_after(ranges: Seq<nat>, peers: Seq<Seq<u8>>) -> Seq<nat> {
    if range_distance(peers) == 0 {
        ranges
    } else {
        with_range(ranges, range_distance(peers))
    }
}

/// Whether `range` is what gets go by: the largest of the recent range distances.
pub open spec fn is_get_range(ranges: Seq<nat>, range: Option<nat>) -> bool {
    match range {
        None => ranges.len() == 0,
        Some(largest) => ranges.contains(largest) && forall|i: int|
            0 <= i < ranges.len() ==> #[trigger] ranges[i] <= largest,
    }
}

/// Whether `bucket` is the position of the highest bit of a distance, and nothing for none.
pub open spec fn is_bucket(bucket: Option<u32>, distance: nat) -> bool {
    match bucket {
        None => distance == 0,
        Some(k) => pow2(k as nat) <= distance < pow2((k + 1) as nat),
    }
}

/// Whether `bucket` is the one that the last of the peers lies in, as seen from `own`.
pub open spec fn is_farthest_bucket(
    own: Seq<u8>,
    peers: Seq<Seq<u8>>,
    bucket: Option<u32>,
) -> bool {
    if peers.len() == 0 {
        bucket is None
    } else {
        is_bucket(bucket, preimage_distance(own, peers.last()))
    }
}

/// The positions of the peers that are closer to `own` than `range`.
pub open spec fn positions_closer(peers: Seq<Seq<u8>>, own: Seq<u8>, range: nat) -> Seq<int>
    decreases peers.len(),
{
    if peers.len() == 0 {
        Seq::empty()
    } else {
        let before = positions_closer(peers.drop_last(), own, range);
        if preimage_distance(peers.last(), own) < range {
            before.push(peers.len() - 1)
        } else {
            before
        }
    }
}

/// The closest peers with ourselves in front, cut to the size of a bucket.
pub open spec fn closest_with_self(own: Seq<u8>, peers: Seq<Seq<u8>>) -> Seq<Seq<u8>> {
    let all = seq![own] + peers;
    if all.len() <= bucket_size() {
        all
    } else {
        all.take(bucket_size() as int)
    }
}

/// The peers of all buckets, bucket by bucket.
pub open spec fn bucket_peers(buckets: Seq<Vec<PeerId>>) -> Seq<Seq<u8>>
    decreases buckets.len(),
{
    if buckets.len() == 0 {
        Seq::empty()
    } else {
        bucket_peers(buckets.drop_last()) + peer_views(buckets.last()@)
    }
}

/// The state of a swarm driver that its decisions rest on.
#[derive(Debug)]
pub struct SwarmDriver {
    pub self_peer_id: PeerId,
    /// When true, local addresses are not filtered.
    pub local: bool,
    pub is_client: bool,
    pub is_behind_home_network: bool,
    /// The port that the user set.
    pub listen_port: Option<u16>,
    pub peers_in_rt: usize,
    pub hard_disk_write_error: usize,
    pub handling_statistics: HandlingStatistics,
    /// The recent range distances, oldest first.
    pub range_distances: VecDeque<Distance>,
}

impl SwarmDriver {
    /// What holds between calls.
    pub open spec fn wf(&self) -> bool {
        &&& self.range_distances@.len() <= X_RANGE_STORAGE_LIMIT
        &&& self.handling_statistics.wf()
    }

    /// The recent range distances as numbers, oldest first.
    pub open spec fn ranges(&self) -> Seq<nat> {
        distance_views(self.range_distances@)
    }

    /// A driver as it starts.
    pub fn new(
        self_peer_id: PeerId,
        local: bool,
        is_client: bool,
        is_behind_home_network: bool,
        listen_port: Option<u16>,
    ) -> (driver: SwarmDriver)
        ensures
            driver.wf(),
            driver.self_peer_id == self_peer_id,
            driver.local == local,
            driver.is_client == is_client,
            driver.is_behind_home_network == is_behind_home_network,
            driver.listen_port == listen_port,
            driver.peers_in_rt == 0,
            driver.hard_disk_write_error == 0,
            driver.handling_statistics@ == Map::<Seq<char>, Seq<u128>>::empty(),
            driver.handling_statistics.handled() == 0,
            driver.ranges() == Seq::<nat>::empty(),
    {
        let driver = SwarmDriver {
            self_peer_id,
            local,
            is_client,
            is_behind_home_network,
            listen_port,
            peers_in_rt: 0,
            hard_disk_write_error: 0,
            handling_statistics: HandlingStatistics::new(),
            range_distances: VecDeque::with_capacity(X_RANGE_STORAGE_LIMIT),
        };
        assert(driver.ranges() =~= Seq::<nat>::empty());
        driver
    }

    /// Whether two drivers differ at most in their range distances.
    pub open spec fn same_but_ranges(&self, other: &SwarmDriver) -> bool {
        *self == (SwarmDriver { range_distances: self.range_distances, ..*other })
    }

    /// Adds the range distance that the routing table shows now. `sorted_peers` are the local
    /// peers by increasing distance to us.
    pub fn add_distance_range_for_gets(&mut self, sorted_peers: &Vec<PeerId>)
        requires
            old(self).wf(),
        ensures
            final(self).wf(),
            final(self).same_but_ranges(old(self)),
            final(self).ranges() == ranges_after(old(self).ranges(), peer_views(sorted_peers@)),
            final(self).ranges() == if range_distance(peer_views(sorted_peers@)) == 0 {
                old(self).ranges()
            } else {
                with_range(old(self).ranges(), range_distance(peer_views(sorted_peers@)))
            },
    {
        let ghost views = peer_views(sorted_peers@);
        let mut last_peers_distance = Distance::zero();
        let mut i: usize = 1;
        while i < sorted_peers.len() && i <= TARGET_PEER + 1
            invariant
                1 <= i,
                sorted_peers@.len() > 0 ==> i <= sorted_peers@.len(),
                sorted_peers@.len() == 0 ==> i == 1,
                i <= TARGET_PEER + 2,
                views == peer_views(sorted_peers@),
                i > 1 ==> last_peers_distance@ == preimage_distance(views[i - 2], views[i - 1]),
                i == 1 ==> last_peers_distance@ == 0,
            decreases sorted_peers@.len() - i,
        {
            last_peers_distance = Distance::between(
                sorted_peers[i - 1].as_bytes(),
                sorted_peers[i].as_bytes(),
            );
            i += 1;
        }
        assert(last_peers_distance@ == range_distance(views));
        if last_peers_distance.is_zero() {
            return;
        }
        let ghost before = self.range_distances@;
        if self.range_distances.len() == X_RANGE_STORAGE_LIMIT {
            let _ = self.range_distances.pop_front();
        }
        self.range_distances.push_back(last_peers_distance);
        assert(self.ranges() =~= with_range(distance_views(before), last_peers_distance@));
    }

    /// The range that gets go by: the largest of the recent range distances.
    pub fn get_peers_within_get_range(&self) -> (range: Option<Distance>)
        ensures
            is_get_range(
                self.ranges(),
                match range {
                    Some(d) => Some(d@),
                    None => None,
                },
            ),
            range is None <==> self.ranges().len() == 0,
            range is Some ==> self.ranges().contains(range->0@) && forall|i: int|
                0 <= i < self.ranges().len() ==> self.ranges()[i] <= range->0@,
    {
        if self.range_distances.len() == 0 {
            return None;
        }
        let mut farthest: Distance = self.range_distances[0];
        assert(self.ranges()[0] == farthest@);
        let mut i: usize = 1;
        while i < self.range_distances.len()
            invariant
                1 <= i <= self.range_distances@.len(),
                self.ranges().contains(farthest@),
                forall|j: int| 0 <= j < i ==> self.ranges()[j] <= farthest@,
            decreases self.range_distances@.len() - i,
        {
            assert(self.ranges()[i as int] == self.range_distances@[i as int]@);
            if farthest.less_than(&self.range_distances[i]) {
                farthest = self.range_distances[i];
            }
            i += 1;
        }
        Some(farthest)
    }

    /// Which of the given peers are closer to us than `range`, by their positions.
    pub fn positions_within(&self, sorted_peers: &Vec<PeerId>, range: &Distance) -> (within: Vec<
        usize,
    >)
        ensures
            within@.map_values(|i: usize| i as int) == positions_closer(
                peer_views(sorted_peers@),
                self.self_peer_id@,
                range@,
            ),
    {
        let ghost views = peer_views(sorted_peers@);
        let ghost own = self.self_peer_id@;
        let mut within: Vec<usize> = Vec::new();
        let mut i: usize = 0;
        assert(within@.map_values(|i: usize| i as int) =~= positions_closer(
            views.take(0),
            own,
            range@,
        ));
        while i < sorted_peers.len()
            invariant
                i <= sorted_peers@.len(),
                views == peer_views(sorted_peers@),
                own == self.self_peer_id@,
                within@.map_values(|i: usize| i as int) == positions_closer(
                    views.take(i as int),
                    own,
                    range@,
                ),
            decreases sorted_peers@.len() - i,
        {
            let ghost before = within@;
            let from_us = Distance::between(
                sorted_peers[i].as_bytes(),
                self.self_peer_id.as_bytes(),
            );
            assert(views.take(i + 1).drop_last() =~= views.take(i as int));
            if from_us.less_than(range) {
                within.push(i);
                assert(within@.map_values(|i: usize| i as int) =~= before.map_values(
                    |i: usize| i as int,
                ).push(i as int));
            }
            i += 1;
        }
        assert(views.take(i as int) =~= views);
        within
    }

    /// The farthest bucket, close to but probably farther than the range that we are responsible
    /// for: that of the last of the closest peers.
    pub fn get_farthest_data_address_estimate(&self, closest_k_peers: &Vec<PeerId>) -> (bucket:
        Option<u32>)
        ensures
            is_farthest_bucket(self.self_peer_id@, peer_views(closest_k_peers@), bucket),
            bucket is Some <==> closest_k_peers@.len() > 0 && preimage_distance(
                self.self_peer_id@,
                closest_k_peers@.last()@,
            ) > 0,
            bucket is Some ==> pow2(bucket->0 as nat) <= preimage_distance(
                self.self_peer_id@,
                closest_k_peers@.last()@,
            ) < pow2((bucket->0 + 1) as nat),
    {
        if closest_k_peers.len() == 0 {
            return None;
        }
        let last: &PeerId = &closest_k_peers[closest_k_peers.len() - 1];
        let d = Distance::between(self.self_peer_id.as_bytes(), last.as_bytes());
        proof {
            vstd::arithmetic::power2::lemma_pow2_pos(0);
        }
        let bucket = d.ilog2();
        proof {
            if let Some(k) = bucket {
                vstd::arithmetic::power2::lemma_pow2_pos(k as nat);
            }
        }
        bucket
    }

    /// All peers of the routing table, given bucket by bucket, and ourselves.
    pub fn get_all_local_peers(&self, buckets: &Vec<Vec<PeerId>>) -> (peers: Vec<PeerId>)
        ensures
            peer_views(peers@) == bucket_peers(buckets@).push(self.self_peer_id@),
    {
        all_local_peers(buckets, &self.self_peer_id)
    }

    /// The closest peers of the routing table, ourselves first. `sorted_peers` are the local
    /// peers by increasing distance to us.
    pub fn get_closest_k_value_local_peers(&self, sorted_peers: &Vec<PeerId>) -> (peers: Vec<
        PeerId,
    >)
        ensures
            peer_views(peers@) == closest_with_self(
                self.self_peer_id@,
                peer_views(sorted_peers@),
            ),
    {
        let k: usize = k_value();
        let mut peers: Vec<PeerId> = Vec::new();
        peers.push(self.self_peer_id.clone());
        let ghost all = seq![self.self_peer_id@] + peer_views(sorted_peers@);
        let mut i: usize = 0;
        assert(peer_views(peers@) =~= all.take(1));
        while i < sorted_peers.len() && peers.len() < k
            invariant
                i <= sorted_peers@.len(),
                k == bucket_size(),
                peers@.len() == i + 1,
                peers@.len() <= k,
                all == seq![self.self_peer_id@] + peer_views(sorted_peers@),
                peer_views(peers@) == all.take(i + 1),
            decreases sorted_peers@.len() - i,
        {
            let ghost before = peers@;
            peers.push(sorted_peers[i].clone());
            assert(peer_views(peers@) =~= peer_views(before).push(sorted_peers@[i as int]@));
            assert(all.take(i + 2) =~= all.take(i + 1).push(all[i + 1]));
            i += 1;
        }
        proof {
            if all.len() <= bucket_size() {
                assert(all.take(i + 1) =~= all);
            }
        }
        peers
    }

    /// How to dial an address. If it ends in a peer id, simultaneous dials to that peer are
    /// prevented.
    pub fn dial(addr: Multiaddr) -> (opts: DialOpts)
        ensures
            dials(opts, addr@),
    {
        let mut addr = addr;
        match multiaddr_pop_p2p(&mut addr) {
            Some(peer_id) => {
                let mut addresses: Vec<Multiaddr> = Vec::new();
                addresses.push(addr);
                DialOpts::PeerUnlessDialing { peer_id, addresses }
            },
            None => DialOpts::UnknownPeer { address: addr },
        }
    }

    /// Records one handling time. Every hundredth one gives a report, after which the statistics
    /// start anew.
    pub fn log_handling(&mut self, handle_string: String, handle_time: u128) -> (report: Option<
        Vec<HandlingStat>,
    >)
        requires
            old(self).wf(),
            handle_time <= LONGEST_SPAN,
            report_fits(
                old(self).handling_statistics@,
                old(self).handling_statistics.handled(),
                handle_string@,
                handle_time,
            ),
        ensures
            final(self).wf(),
            *final(self) == (SwarmDriver {
                handling_statistics: final(self).handling_statistics,
                ..*old(self)
            }),
            handle_string@.len() == 0 ==> report is None && *final(self) == *old(self),
            handle_string@.len() > 0 && old(self).handling_statistics.handled() + 1
                < REPORT_INTERVAL ==> {
                &&& report is None
                &&& final(self).handling_statistics@ == with_measurement(
                    old(self).handling_statistics@,
                    handle_string@,
                    handle_time,
                )
                &&& final(self).handling_statistics.handled()
                    == old(self).handling_statistics.handled() + 1
            },
            handle_string@.len() > 0 && old(self).handling_statistics.handled() + 1
                == REPORT_INTERVAL ==> {
                &&& report is Some
                &&& is_report(
                    with_measurement(
                        old(self).handling_statistics@,
                        handle_string@,
                        handle_time,
                    ),
                    report->0@,
                )
                &&& final(self).handling_statistics@ == Map::<Seq<char>, Seq<u128>>::empty()
                &&& final(self).handling_statistics.handled() == 0
            },
            old(self).handling_statistics.handled() < REPORT_INTERVAL,
            logs(
                old(self).handling_statistics@,
                old(self).handling_statistics.handled(),
                handle_string@,
                handle_time,
                match report {
                    Some(stats) => Some(stats@),
                    None => None,
                },
                final(self).handling_statistics@,
                final(self).handling_statistics.handled(),
            ),
    {
        self.handling_statistics.log_handling(handle_string, handle_time)
    }
}

/// The peers of all buckets, bucket by bucket, and ourselves.
pub fn all_local_peers(buckets: &Vec<Vec<PeerId>>, own: &PeerId) -> (peers: Vec<PeerId>)
    ensures
        peer_views(peers@) == bucket_peers(buckets@).push(own@),
{
    let mut peers: Vec<PeerId> = Vec::new();
    let mut i: usize = 0;
    assert(peer_views(peers@) =~= bucket_peers(buckets@.take(0)));
    while i < buckets.len()
        invariant
            i <= buckets@.len(),
            peer_views(peers@) == bucket_peers(buckets@.take(i as int)),
        decreases buckets@.len() - i,
    {
        let ghost before = peer_views(peers@);
        let bucket: &Vec<PeerId> = &buckets[i];
        let mut j: usize = 0;
        assert(before =~= before + peer_views(bucket@.take(0)));
        while j < bucket.len()
            invariant
                j <= bucket@.len(),
                peer_views(peers@) == before + peer_views(bucket@.take(j as int)),
            decreases bucket@.len() - j,
        {
            let ghost partial = peers@;
            peers.push(bucket[j].clone());
            assert(peer_views(peers@) =~= peer_views(partial).push(bucket@[j as int]@));
            assert(peer_views(bucket@.take(j + 1)) =~= peer_views(bucket@.take(j as int)).push(
                bucket@[j as int]@,
            ));
            assert(peer_views(peers@) =~= before + peer_views(bucket@.take(j + 1)));
            j += 1;
        }
        assert(bucket@.take(j as int) =~= bucket@);
        assert(buckets@.take(i + 1).drop_last() =~= buckets@.take(i as int));
        i += 1;
    }
    assert(buckets@.take(i as int) =~= buckets@);
    let ghost partial = peers@;
    peers.push(own.clone());
    assert(peer_views(peers@) =~= peer_views(partial).push(own@));
    peers
}

/// Whether the peers are sorted by their distance to `own`.
pub open spec fn sorted_by_closeness(own: Seq<u8>, peers: Seq<Seq<u8>>) -> bool {
    forall|i: int, j: int|
        0 <= i < j < peers.len() ==> preimage_distance(own, #[trigger] peers[i])
            <= preimage_distance(own, #[trigger] peers[j])
}

/// The closest peers contain ourselves, are no more than a bucket holds, and are sorted by
/// closeness to us where the peers of the routing table are.
pub proof fn law_closest_peers_are_sorted(own: Seq<u8>, peers: Seq<Seq<u8>>)
    requires
        sorted_by_closeness(own, peers),
    ensures
        closest_with_self(own, peers)[0] == own,
        0 < closest_with_self(own, peers).len() <= bucket_size(),
        sorted_by_closeness(own, closest_with_self(own, peers)),
{
    let all = seq![own] + peers;
    lemma_distance_to_self(own);
    assert forall|i: int, j: int| 0 <= i < j < all.len() implies preimage_distance(
        own,
        #[trigger] all[i],
    ) <= preimage_distance(own, #[trigger] all[j]) by {
        if i > 0 {
            assert(preimage_distance(own, peers[i - 1]) <= preimage_distance(own, peers[j - 1]));
        }
    }
}

/// No more range distances are kept than the limit, and the newest one is always kept.
pub proof fn law_ranges_are_bounded(ranges: Seq<nat>, distance: nat)
    requires
        ranges.len() <= X_RANGE_STORAGE_LIMIT,
    ensures
        with_range(ranges, distance).len() <= X_RANGE_STORAGE_LIMIT,
        with_range(ranges, distance).last() == distance,
        with_range(ranges, distance).len() >= ranges.len(),
{
}

/// The closest peers are ourselves and then the peers of the routing table one by one, as many of
/// them as a bucket of twenty has room for.
pub proof fn law_closest_peers_follow_ourselves(own: Seq<u8>, peers: Seq<Seq<u8>>)
    ensures
        closest_with_self(own, peers).len() == if peers.len() + 1 <= 20 {
            peers.len() + 1
        } else {
            20
        },
        closest_with_self(own, peers)[0] == own,
        forall|i: int|
            1 <= i < closest_with_self(own, peers).len() ==> #[trigger] closest_with_self(
                own,
                peers,
            )[i] == peers[i - 1],
{
}

/// The range distance is that of the last two peers, of which no more than the first forty-four
/// count: whoever comes later changes nothing. Fewer than two peers have none.
pub proof fn law_range_is_the_last_gap(peers: Seq<Seq<u8>>)
    ensures
        peers.len() < 2 ==> range_distance(peers) == 0,
        2 <= peers.len() <= 44 ==> range_distance(peers) == preimage_distance(
            peers[peers.len() - 2],
            peers[peers.len() - 1],
        ),
        peers.len() > 44 ==> range_distance(peers) == range_distance(peers.take(44)),
{
}

/// The newest range distance is put behind the others, and of all of them the last hundred are
/// kept, in order. Peers that show no distance change nothing.
pub proof fn law_newest_ranges_are_kept(ranges: Seq<nat>, peers: Seq<Seq<u8>>)
    requires
        ranges.len() <= 100,
    ensures
        range_distance(peers) == 0 ==> ranges_after(ranges, peers) == ranges,
        range_distance(peers) > 0 ==> ({
            let all = ranges.push(range_distance(peers));
            let kept = ranges_after(ranges, peers);
            &&& kept.len() == if all.len() <= 100 { all.len() } else { 100 }
            &&& kept == all.skip(all.len() - kept.len())
        }),
{
    let all = ranges.push(range_distance(peers));
    let kept = ranges_after(ranges, peers);
    if range_distance(peers) > 0 {
        assert(kept =~= all.skip(all.len() - kept.len()));
    }
}

/// There is only one range that gets go by. With one more distance it is that one if it is larger,
/// and stays as it was otherwise.
pub proof fn law_get_range_is_the_largest(
    ranges: Seq<nat>,
    a: Option<nat>,
    b: Option<nat>,
    more: nat,
)
    requires
        is_get_range(ranges, a),
        is_get_range(ranges, b),
    ensures
        a == b,
        a is None <==> ranges.len() == 0,
        is_get_range(
            ranges.push(more),
            Some(
                match a {
                    Some(largest) if largest >= more => largest,
                    _ => more,
                },
            ),
        ),
{
    let longer = ranges.push(more);
    if let (Some(x), Some(y)) = (a, b) {
        let i = choose|i: int| 0 <= i < ranges.len() && ranges[i] == x;
        let j = choose|j: int| 0 <= j < ranges.len() && ranges[j] == y;
        assert(ranges[i] <= y && ranges[j] <= x);
        assert(longer[i] == x);
    }
    assert(longer[ranges.len() as int] == more);
}

/// A distance lies in one bucket; the distance one in the first; and twice a distance lies one
/// bucket further.
pub proof fn law_buckets_double(a: Option<u32>, b: Option<u32>, distance: nat)
    requires
        is_bucket(a, distance),
        is_bucket(b, distance),
    ensures
        a == b,
        a is None <==> distance == 0,
        is_bucket(Some(0), 1),
        a matches Some(k) ==> k < u32::MAX ==> is_bucket(Some((k + 1) as u32), 2 * distance),
{
    vstd::arithmetic::power2::lemma2_to64();
    if let Some(k) = a {
        vstd::arithmetic::power2::lemma_pow2_pos(k as nat);
        vstd::arithmetic::power2::lemma_pow2_unfold((k + 1) as nat);
        vstd::arithmetic::power2::lemma_pow2_unfold((k + 2) as nat);
    }
    if let Some(l) = b {
        vstd::arithmetic::power2::lemma_pow2_pos(l as nat);
    }
    if let (Some(k), Some(l)) = (a, b) {
        if k < l {
            lemma_pow2_monotone((k + 1) as nat, l as nat);
        } else if l < k {
            lemma_pow2_monotone((l + 1) as nat, k as nat);
        }
    }
}

proof fn lemma_pow2_monotone(i: nat, j: nat)
    requires
        i <= j,
    ensures
        pow2(i) <= pow2(j),
    decreases j,
{
    if i < j {
        lemma_pow2_monotone(i, (j - 1) as nat);
        vstd::arithmetic::power2::lemma_pow2_unfold(j);
    }
}

/// The peers within a range are told by their positions, from the front, and are exactly those
/// that are closer to us than the range.
pub proof fn law_positions_are_those_within(peers: Seq<Seq<u8>>, own: Seq<u8>, range: nat)
    ensures
        forall|i: int|
            positions_closer(peers, own, range).contains(i) <==> 0 <= i < peers.len()
                && preimage_distance(peers[i], own) < range,
        forall|a: int, b: int|
            0 <= a < b < positions_closer(peers, own, range).len() ==> positions_closer(
                peers,
                own,
                range,
            )[a] < positions_closer(peers, own, range)[b],
    decreases peers.len(),
{
    if peers.len() > 0 {
        let earlier = peers.drop_last();
        let before = positions_closer(earlier, own, range);
        let after = positions_closer(peers, own, range);
        law_positions_are_those_within(earlier, own, range);
        assert forall|i: int| after.contains(i) <==> 0 <= i < peers.len() && preimage_distance(
            peers[i],
            own,
        ) < range by {
            if before.contains(i) {
                let k = choose|k: int| 0 <= k < before.len() && before[k] == i;
                assert(after[k] == i);
            }
            if after.contains(i) {
                let k = choose|k: int| 0 <= k < after.len() && after[k] == i;
                if k < before.len() {
                    assert(before[k] == i);
                    assert(before.contains(i));
                }
            }
            if i == peers.len() - 1 && preimage_distance(peers[i], own) < range {
                assert(after[before.len() as int] == i);
            }
        }
        assert forall|a: int, b: int| 0 <= a < b < after.len() implies after[a] < after[b] by {
            assert(before.contains(before[a]));
        }
    }
}

/// The peers of all buckets are those of the buckets one after the other, none left out and none
/// added.
pub proof fn law_buckets_are_read_in_order(buckets: Seq<Vec<PeerId>>)
    ensures
        bucket_peers(buckets) == buckets.map_values(
            |b: Vec<PeerId>| b@.map_values(|p: PeerId| p@),
        ).flatten(),
    decreases buckets.len(),
{
    let views = buckets.map_values(|b: Vec<PeerId>| b@.map_values(|p: PeerId| p@));
    if buckets.len() == 0 {
        assert(views =~= Seq::<Seq<Seq<u8>>>::empty());
    } else {
        law_buckets_are_read_in_order(buckets.drop_last());
        assert(views.drop_last() =~= buckets.drop_last().map_values(
            |b: Vec<PeerId>| b@.map_values(|p: PeerId| p@),
        ));
        views.lemma_flatten_and_flatten_alt_are_equivalent();
        views.drop_last().lemma_flatten_and_flatten_alt_are_equivalent();
        assert(views.last() =~= peer_views(buckets.last()@));
    }
}

/// Where an address ends in a peer id, that peer is dialed at the rest of the address, unless it
/// is already being dialed; any other address is dialed as it is.
pub proof fn law_named_peers_are_dialed(opts: DialOpts, addr: Seq<AddrProtocol>)
    requires
        dials(opts, addr),
    ensures
        opts matches DialOpts::PeerUnlessDialing { peer_id, addresses } ==> addresses@.len() == 1
            && addr == addresses@[0]@.push(AddrProtocol::P2p(peer_id)),
        opts matches DialOpts::UnknownPeer { address } ==> address@ == addr && (addr.len() == 0 || !(
        addr[addr.len() - 1] is P2p)),
{
    assert(addr.len() > 0 ==> addr =~= addr.drop_last().push(addr.last()));
}

/// The intervals of the event loop.
pub proof fn law_driver_intervals()
    ensures
        CLOSET_RECORD_CHECK_INTERVAL == 15,
        RELAY_MANAGER_RESERVATION_INTERVAL == 30,
        bucket_size() == 20,
{
}

/// The farthest bucket is that of the last peer alone, whoever comes before it: its distance is at
/// least the bucket's power of two and less than the next. Without peers, or where the last one
/// has our own key, there is none.
pub proof fn law_farthest_bucket_is_the_last_peers(
    own: Seq<u8>,
    peers: Seq<Seq<u8>>,
    last: Seq<u8>,
    bucket: Option<u32>,
    none: Option<u32>,
)
    requires
        is_farthest_bucket(own, peers.push(last), bucket),
        is_farthest_bucket(own, Seq::empty(), none),
    ensures
        none is None,
        bucket is None <==> preimage_distance(own, last) == 0,
        bucket matches Some(k) ==> pow2(k as nat) <= preimage_distance(own, last) < pow2(
            (k + 1) as nat,
        ),
{
    if let Some(k) = bucket {
        vstd::arithmetic::power2::lemma_pow2_pos(k as nat);
    }
}

/// Drivers that differ only in their range distances agree in everything else, and the range
/// distances are told as numbers in order.
pub proof fn law_only_ranges_differ(a: SwarmDriver, b: SwarmDriver)
    requires
        a.same_but_ranges(&b),
    ensures
        a.self_peer_id == b.self_peer_id,
        a.local == b.local,
        a.is_client == b.is_client,
        a.is_behind_home_network == b.is_behind_home_network,
        a.listen_port == b.listen_port,
        a.peers_in_rt == b.peers_in_rt,
        a.hard_disk_write_error == b.hard_disk_write_error,
        a.handling_statistics == b.handling_statistics,
        a.ranges().len() == a.range_distances@.len(),
        forall|i: int|
            0 <= i < a.ranges().len() ==> #[trigger] a.ranges()[i] == a.range_distances@[i]@,
{
}

} // verus!
