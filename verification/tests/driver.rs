use safe_network::address::{AddrProtocol, Multiaddr};
use safe_network::distance::Distance;
use safe_network::driver::{DialOpts, SwarmDriver, X_RANGE_STORAGE_LIMIT};
use safe_network::peer::PeerId;
use safe_network::statistics::LONGEST_SPAN;

fn peer(n: u8) -> PeerId {
    PeerId::from_bytes(&[0, 1, n]).unwrap()
}

fn peers(n: u8) -> Vec<PeerId> {
    (1..=n).map(peer).collect()
}

fn driver() -> SwarmDriver {
    SwarmDriver::new(peer(0), false, false, false, None)
}

fn between(a: u8, b: u8) -> Distance {
    Distance::between(peer(a).as_bytes(), peer(b).as_bytes())
}

#[test]
fn no_range_without_two_peers() {
    let mut d = driver();
    d.add_distance_range_for_gets(&vec![]);
    d.add_distance_range_for_gets(&peers(1));
    assert_eq!(d.range_distances.len(), 0);
    assert!(d.get_peers_within_get_range().is_none());
}

#[test]
fn range_is_the_last_gap_up_to_the_target_peer() {
    let mut d = driver();
    d.add_distance_range_for_gets(&peers(3));
    assert_eq!(d.range_distances[0], between(2, 3));
    d.add_distance_range_for_gets(&peers(44));
    assert_eq!(d.range_distances[1], between(43, 44));
    d.add_distance_range_for_gets(&peers(90));
    assert_eq!(d.range_distances[2], between(43, 44));
    // The same peer twice is no distance.
    d.add_distance_range_for_gets(&vec![peer(1), peer(2), peer(2)]);
    assert_eq!(d.range_distances.len(), 3);
}

#[test]
fn only_the_newest_ranges_are_kept() {
    let mut d = driver();
    for n in 2..=40u8 {
        d.add_distance_range_for_gets(&peers(n));
    }
    for _ in 0..X_RANGE_STORAGE_LIMIT {
        d.add_distance_range_for_gets(&peers(5));
        assert!(d.range_distances.len() <= X_RANGE_STORAGE_LIMIT);
    }
    assert_eq!(d.range_distances.len(), X_RANGE_STORAGE_LIMIT);
    assert_eq!(d.range_distances.iter().filter(|r| **r == between(4, 5)).count(), 100);
}

#[test]
fn range_for_gets_is_the_largest() {
    let mut d = driver();
    let mut largest = Distance::zero();
    for n in 2..=30u8 {
        d.add_distance_range_for_gets(&peers(n));
        if largest.less_than(&between(n - 1, n)) {
            largest = between(n - 1, n);
        }
        assert_eq!(d.get_peers_within_get_range(), Some(largest));
    }
    let within = d.positions_within(&peers(30), &largest);
    let expected: Vec<usize> =
        (0..30usize).filter(|i| between(*i as u8 + 1, 0).less_than(&largest)).collect();
    assert_eq!(within, expected);
}

#[test]
fn farthest_bucket_is_that_of_the_last_peer() {
    let d = driver();
    assert_eq!(d.get_farthest_data_address_estimate(&vec![]), None);
    assert_eq!(d.get_farthest_data_address_estimate(&vec![peer(0)]), None);
    let theirs = libp2p::kad::KBucketKey::from(libp2p::PeerId::from_bytes(&[0, 1, 0]).unwrap())
        .distance(&libp2p::kad::KBucketKey::from(libp2p::PeerId::from_bytes(&[0, 1, 7]).unwrap()));
    assert_eq!(
        d.get_farthest_data_address_estimate(&vec![peer(3), peer(7)]),
        theirs.ilog2()
    );
}

#[test]
fn closest_peers_start_with_ourselves_and_fill_a_bucket() {
    let d = driver();
    let all = d.get_closest_k_value_local_peers(&peers(40));
    assert_eq!(all.len(), 20);
    assert!(all[0] == peer(0));
    assert!(all[19] == peer(19));
    let few = d.get_closest_k_value_local_peers(&peers(2));
    assert_eq!(few.len(), 3);
    assert_eq!(d.get_closest_k_value_local_peers(&vec![]).len(), 1);
}

#[test]
fn closest_peers_stay_sorted() {
    let d = driver();
    let mut sorted = peers(30);
    sorted.sort_by_key(|p| Distance::between(peer(0).as_bytes(), p.as_bytes()).bytes);
    let closest = d.get_closest_k_value_local_peers(&sorted);
    for pair in closest.windows(2) {
        let a = Distance::between(peer(0).as_bytes(), pair[0].as_bytes());
        let b = Distance::between(peer(0).as_bytes(), pair[1].as_bytes());
        assert!(!b.less_than(&a));
    }
}

#[test]
fn all_peers_are_those_of_the_buckets_and_ourselves() {
    let d = driver();
    let all = d.get_all_local_peers(&vec![vec![peer(4)], vec![], vec![peer(2), peer(3)]]);
    assert!(all == vec![peer(4), peer(2), peer(3), peer(0)]);
}

#[test]
fn a_named_peer_is_not_dialed_twice_at_once() {
    let addr = || vec![AddrProtocol::Ip4([1, 2, 3, 4]), AddrProtocol::Udp(5), AddrProtocol::QuicV1];
    let mut named = addr();
    named.push(AddrProtocol::P2p(peer(6)));
    match SwarmDriver::dial(Multiaddr { protocols: named }) {
        DialOpts::PeerUnlessDialing { peer_id, addresses } => {
            assert!(peer_id == peer(6));
            assert_eq!(addresses.len(), 1);
            assert_eq!(addresses[0].protocols.len(), 3);
        }
        other => panic!("{other:?}"),
    }
    match SwarmDriver::dial(Multiaddr { protocols: addr() }) {
        DialOpts::UnknownPeer { address } => assert_eq!(address.protocols.len(), 3),
        other => panic!("{other:?}"),
    }
}

#[test]
fn every_hundredth_time_gives_a_report() {
    let mut d = driver();
    assert!(d.log_handling(String::new(), 5).is_none());
    for i in 0..99u128 {
        let kind = if i < 49 { "b" } else if i < 98 { "a" } else { "c" };
        assert!(d.log_handling(kind.to_string(), i).is_none());
    }
    let report = d.log_handling("c".to_string(), 1001).unwrap();
    let shown: Vec<(&str, usize, u128)> =
        report.iter().map(|s| (s.kind.as_str(), s.count, s.average)).collect();
    // 0..49 averages 24, 49..98 averages 73, and (98 + 1001) / 2 is rounded down.
    assert_eq!(shown, vec![("a", 49, 73), ("b", 49, 24), ("c", 2, 549)]);
    for _ in 0..99 {
        assert!(d.log_handling("x".to_string(), 7).is_none());
    }
    let next = d.log_handling("x".to_string(), 7).unwrap();
    assert_eq!(next.len(), 1);
    assert_eq!((next[0].count, next[0].average), (100, 7));
}

#[test]
fn overlong_times_cannot_be_reported() {
    let mut d = driver();
    for _ in 0..99 {
        assert!(d.handling_statistics.can_log(&"k".to_string(), LONGEST_SPAN));
        d.log_handling("k".to_string(), 1);
    }
    let k = "k".to_string();
    assert!(!d.handling_statistics.can_log(&k, LONGEST_SPAN - 98));
    assert!(d.handling_statistics.can_log(&k, LONGEST_SPAN - 99));
    assert!(d.handling_statistics.can_log(&"other".to_string(), LONGEST_SPAN));
    assert!(d.handling_statistics.can_log(&String::new(), LONGEST_SPAN));
    let report = d.log_handling(k, LONGEST_SPAN - 99).unwrap();
    assert_eq!(report[0].average, LONGEST_SPAN / 100);
}

#[test]
fn times_without_a_kind_are_not_counted() {
    let mut d = driver();
    for _ in 0..99 {
        assert!(d.log_handling("k".to_string(), 1).is_none());
        assert!(d.log_handling(String::new(), 1).is_none());
    }
    let report = d.log_handling("k".to_string(), 1).unwrap();
    assert_eq!((report.len(), report[0].count), (1, 100));
}
