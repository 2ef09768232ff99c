use std::path::PathBuf;

use safe_network::address::{AddrProtocol, Multiaddr};
use safe_network::builder::{
    BucketInserts, IdentifyVersion, IpAddr, KadConfig, NetworkBuilder, NetworkError, NodeDir,
    NodeRecordStoreConfig, Period,
    ProtocolSupport, RecordStorePlan, SocketAddr, KAD_QUERY_TIMEOUT_S, MAX_PACKET_SIZE,
    REQUEST_TIMEOUT_DEFAULT,
};
use safe_network::peer::Keypair;

fn encoding() -> Vec<u8> {
    let mut seed = [9u8; 32];
    libp2p::identity::Keypair::ed25519_from_bytes(&mut seed)
        .unwrap()
        .to_protobuf_encoding()
        .unwrap()
}

fn builder(local: bool) -> NetworkBuilder {
    let keypair = Keypair::from_protobuf_encoding(&encoding()).unwrap();
    NetworkBuilder::new(keypair, local, PathBuf::from("/data"))
}

fn no_access() -> std::io::Error {
    std::io::ErrorKind::PermissionDenied.into()
}

fn socket() -> SocketAddr {
    SocketAddr { ip: IpAddr::V4([10, 0, 0, 7]), port: 4000 }
}

#[test]
fn nothing_is_set_at_first() {
    let b = builder(true);
    assert!(b.local && !b.is_behind_home_network && !b.upnp);
    assert!(b.listen_addr.is_none() && b.request_timeout.is_none());
    assert!(b.concurrency_limit.is_none() && b.initial_peers.is_empty());
    assert!(b.metrics_registry.is_none() && b.metrics_server_port.is_none());
    assert_eq!(b.root_dir, PathBuf::from("/data"));
}

#[test]
fn settings_are_kept() {
    let mut b = builder(false);
    b.is_behind_home_network(true);
    b.listen_addr(socket());
    b.request_timeout(5);
    b.concurrency_limit(3);
    b.initial_peers(vec![Multiaddr { protocols: vec![AddrProtocol::Udp(1)] }]);
    b.metrics_registry(None);
    b.metrics_server_port(Some(99));
    b.upnp(true);
    assert!(b.is_behind_home_network && b.upnp && !b.local);
    assert_eq!(b.listen_addr, Some(socket()));
    assert_eq!((b.request_timeout, b.concurrency_limit), (Some(5), Some(3)));
    assert_eq!((b.initial_peers.len(), b.metrics_server_port), (1, Some(99)));
}

#[test]
fn node_is_planned() {
    let kad = NetworkBuilder::node_kad_cfg(5).unwrap();
    assert_eq!(
        kad,
        KadConfig {
            kbucket_inserts: BucketInserts::Manual,
            replication_interval: Period::Unset,
            publication_interval: Period::Unset,
            max_packet_size: MAX_PACKET_SIZE,
            replication_factor: 5,
            query_timeout: Some(KAD_QUERY_TIMEOUT_S),
            disjoint_query_paths: true,
            record_ttl: Period::Unset,
            provider_publication_interval: Period::Unset,
        }
    );
    let mut b = builder(false);
    b.is_behind_home_network(true);
    b.listen_addr(socket());
    b.metrics_server_port(Some(99));
    b.upnp(true);
    let (plan, driver, listen) = b.build_node(5, Ok(()), true).unwrap();
    let expected =
        libp2p::identity::Keypair::from_protobuf_encoding(&encoding()).unwrap().public();
    assert_eq!(plan.peer_id.as_bytes(), &expected.to_peer_id().to_bytes()[..]);
    assert_eq!(plan.keypair.as_bytes(), &encoding()[..]);
    assert_eq!(plan.root_dir, PathBuf::from("/data"));
    assert_eq!(plan.metrics.unwrap().port, 99);
    assert_eq!(plan.request_timeout, REQUEST_TIMEOUT_DEFAULT);
    assert_eq!(plan.req_res_protocol, ProtocolSupport::Full);
    assert_eq!(plan.kad_cfg, kad);
    assert_eq!(
        plan.record_store,
        RecordStorePlan::Node(NodeRecordStoreConfig {
            max_value_bytes: 1024 * 1024 * 5,
            storage_dir: NodeDir::RecordStore,
            historic_quote_dir: NodeDir::Root,
        })
    );
    assert_eq!(NodeDir::RecordStore.name_below_root(), Some("record_store"));
    assert_eq!(NodeDir::Root.name_below_root(), None);
    assert_eq!(plan.identify_version, IdentifyVersion::Node);
    assert!(plan.global_only && plan.upnp);
    assert_eq!(plan.hole_punching, Some(true));
    assert!(driver.self_peer_id == plan.peer_id);
    assert!(!driver.local && !driver.is_client && driver.is_behind_home_network);
    assert_eq!(driver.listen_port, Some(4000));
    assert_eq!((driver.peers_in_rt, driver.hard_disk_write_error), (0, 0));
    assert!(driver.range_distances.is_empty());

    let listen = listen.unwrap();
    assert_eq!(listen.len(), 2);
    assert!(matches!(listen[0].protocols[0], AddrProtocol::Ip4([10, 0, 0, 7])));
    assert!(matches!(listen[0].protocols[1], AddrProtocol::Udp(4000)));
    assert!(matches!(listen[0].protocols[2], AddrProtocol::QuicV1));
    assert!(matches!(listen[1].protocols[1], AddrProtocol::Tcp(4000)));
    assert!(matches!(&listen[1].protocols[2], AddrProtocol::Ws(path) if path == "/"));
}

#[test]
fn node_needs_a_directory_and_an_address() {
    let refused = NetworkBuilder::node_kad_cfg(0);
    assert!(matches!(refused, Err(NetworkError::InvalidCloseGroupSize)));
    for created in [Ok(()), Err(no_access())] {
        let refused = builder(true).build_node(0, created, false);
        assert!(matches!(refused.err(), Some(NetworkError::InvalidCloseGroupSize)));
    }
    match builder(true).build_node(5, Err(no_access()), false).err() {
        Some(NetworkError::FailedToCreateRecordStoreDir { path, source }) => {
            assert_eq!(path.root_dir, PathBuf::from("/data"));
            assert_eq!(path.dir, NodeDir::RecordStore);
            assert_eq!(source.kind(), no_access().kind());
        }
        other => panic!("{other:?}"),
    }
    let (plan, _, listen) = builder(true).build_node(5, Ok(()), false).unwrap();
    assert!(matches!(listen, Err(NetworkError::ListenAddressNotProvided)));
    assert!(!plan.global_only && plan.metrics.is_none());
    let mut b = builder(true);
    b.listen_addr(SocketAddr { ip: IpAddr::V6([1; 16]), port: 2 });
    let (_, _, listen) = b.build_node(5, Ok(()), false).unwrap();
    let listen = listen.unwrap();
    assert_eq!(listen.len(), 1);
    assert!(matches!(listen[0].protocols[0], AddrProtocol::Ip6(ip) if ip == [1; 16]));
}

#[test]
fn client_is_planned() {
    let mut b = builder(false);
    b.upnp(true);
    b.is_behind_home_network(true);
    b.request_timeout(77);
    let (plan, driver) = b.build_client(5).unwrap();
    assert_eq!(
        plan.kad_cfg,
        KadConfig {
            kbucket_inserts: BucketInserts::Manual,
            replication_interval: Period::Default,
            publication_interval: Period::Default,
            max_packet_size: MAX_PACKET_SIZE,
            replication_factor: 5,
            query_timeout: None,
            disjoint_query_paths: true,
            record_ttl: Period::Default,
            provider_publication_interval: Period::Default,
        }
    );
    assert_eq!(plan.req_res_protocol, ProtocolSupport::Outbound);
    assert!(matches!(plan.record_store, RecordStorePlan::Client));
    assert_eq!(plan.identify_version, IdentifyVersion::Client);
    assert_eq!(plan.request_timeout, 77);
    assert!(!plan.upnp && plan.global_only && plan.hole_punching.is_none());
    assert!(driver.is_client && driver.listen_port.is_none());
    let refused = builder(false).build_client(0).err();
    assert!(matches!(refused, Some(NetworkError::InvalidCloseGroupSize)));
}

#[test]
fn ports_are_opened_by_global_nodes_only() {
    for local in [false, true] {
        for is_client in [false, true] {
            for upnp in [false, true] {
                let (plan, _) = builder(local).build(
                    NetworkBuilder::node_kad_cfg(5).unwrap(),
                    None,
                    is_client,
                    ProtocolSupport::Full,
                    IdentifyVersion::Node,
                    upnp,
                );
                assert_eq!(plan.upnp, upnp && !local && !is_client);
            }
        }
    }
}
