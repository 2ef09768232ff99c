//! The settings of a network, and what is set up from them.

use std::path::PathBuf;

use prometheus_client::registry::Registry;
use vstd::prelude::*;

use crate::address::{AddrProtocol, Multiaddr};
use crate::driver::SwarmDriver;
use crate::peer::{keypair_peer_id, Keypair, PeerId};

verus! {

/// `std::path::PathBuf`, which is only carried through.
#[verifier::external_type_specification]
#[verifier::external_body]
pub struct ExPathBuf(PathBuf);

/// `std::io::Error`, which is only carried through.
#[verifier::external_type_specification]
#[verifier::external_body]
pub struct ExIoError(std::io::Error);

/// `prometheus_client::registry::Registry`, which is only carried through.
#[verifier::external_type_specification]
#[verifier::external_body]
pub struct ExRegistry(Registry);

/// The largest packet that is sent over the network, in bytes. Larger records are rejected.
pub const MAX_PACKET_SIZE: usize = 5_242_880;

/// How long a request may take where nothing else is set, in nanoseconds.
pub const REQUEST_TIMEOUT_DEFAULT: u128 = 30_000_000_000;

/// How long an idle connection is kept, in seconds.
pub const CONNECTION_KEEP_ALIVE_TIMEOUT: u64 = 30;

/// How often connected peers are identified anew, in seconds.
pub const RESEND_IDENTIFY_INVERVAL: u64 = 3600;

/// How often peers nearby are looked for, in seconds.
pub const MDNS_QUERY_INTERVAL: u64 = 5;

/// How much the channels of the network hold.
pub const NETWORKING_CHANNEL_SIZE: usize = 10_000;

/// How long a query may take without a response, in seconds.
pub const KAD_QUERY_TIMEOUT_S: u64 = 10;

/// How many of the dialed peers are remembered. A network of more than 64k nodes is covered
/// without rotation.
pub const DIALED_PEERS_KEPT: usize = 255;

/// The directory of a node's records, below its root directory.
pub const RECORD_STORE_DIR: &'static str = "record_store";

/// A directory of a node, told from the node's root directory.
#[derive(Clone, Copy, Debug, PartialEq, Eq, Structural)]
pub enum NodeDir {
    /// The root directory itself.
    Root,
    /// The directory `RECORD_STORE_DIR` right below it.
    RecordStore,
}

impl NodeDir {
    /// The name of the directory below the root directory, if it is another one.
    pub fn name_below_root(&self) -> (name: Option<&'static str>)
        ensures
            match *self {
                NodeDir::Root => name is None,
                NodeDir::RecordStore => name is Some && name->0@ == RECORD_STORE_DIR@,
            },
    {
        match self {
            NodeDir::Root => None,
            NodeDir::RecordStore => Some(RECORD_STORE_DIR),
        }
    }
}

/// Where a directory of a node lies.
#[derive(Debug)]
pub struct NodePath {
    pub root_dir: PathBuf,
    pub dir: NodeDir,
}

/// Why a network could not be set up.
#[derive(Debug)]
pub enum NetworkError {
    /// The close group is empty.
    InvalidCloseGroupSize,
    /// The directory of the records could not be created.
    FailedToCreateRecordStoreDir { path: NodePath, source: std::io::Error },
    /// A node needs an address to listen on.
    ListenAddressNotProvided,
}

/// An IP address.
#[derive(Clone, Copy, Debug, PartialEq, Eq)]
pub enum IpAddr {
    V4([u8; 4]),
    V6([u8; 16]),
}

/// An IP address with a port.
#[derive(Clone, Copy, Debug, PartialEq, Eq)]
pub struct SocketAddr {
    pub ip: IpAddr,
    pub port: u16,
}

/// Which side of the request and response protocol is spoken.
#[derive(Clone, Copy, Debug, PartialEq, Eq, Structural)]
pub enum ProtocolSupport {
    Full,
    Outbound,
}

/// As what the peer identifies itself.
#[derive(Clone, Copy, Debug, PartialEq, Eq, Structural)]
pub enum IdentifyVersion {
    Node,
    Client,
}

/// How peers enter the buckets of the routing table.
#[derive(Clone, Copy, Debug, PartialEq, Eq, Structural)]
pub enum BucketInserts {
    /// By themselves, when a connection to them is there.
    OnConnected,
    /// By hand.
    Manual,
}

/// How often something is done, or how long it lasts.
#[derive(Clone, Copy, Debug, PartialEq, Eq, Structural)]
pub enum Period {
    /// As the key lookup has it by default.
    Default,
    /// Never, or without an end.
    Unset,
}

/// The settings of the key lookup.
#[derive(Clone, Copy, Debug, PartialEq, Eq, Structural)]
pub struct KadConfig {
    pub kbucket_inserts: BucketInserts,
    /// How often records are copied to other nodes.
    pub replication_interval: Period,
    /// How often the keys of records are published.
    pub publication_interval: Period,
    pub max_packet_size: usize,
    /// How many nodes should store a record.
    pub replication_factor: usize,
    /// How long a query may take, in seconds. If missing, the default holds.
    pub query_timeout: Option<u64>,
    /// Whether queries use disjoint paths, to get along with adversarial nodes.
    pub disjoint_query_paths: bool,
    /// How long records last.
    pub record_ttl: Period,
    /// How often provider records are published.
    pub provider_publication_interval: Period,
}

/// The settings of a node's record store. The directories are told from the root directory of the
/// plan that the settings are part of.
#[derive(Clone, Copy, Debug, PartialEq, Eq, Structural)]
pub struct NodeRecordStoreConfig {
    pub max_value_bytes: usize,
    /// The directory of the records.
    pub storage_dir: NodeDir,
    /// The directory of past quotes.
    pub historic_quote_dir: NodeDir,
}

/// Where records are kept.
#[derive(Clone, Copy, Debug, PartialEq, Eq, Structural)]
pub enum RecordStorePlan {
    /// On disk.
    Node(NodeRecordStoreConfig),
    /// Nowhere.
    Client,
}

/// The metrics server that is to run.
#[derive(Debug)]
pub struct MetricsPlan {
    pub port: u16,
    /// The registry to serve. If missing, a new one.
    pub registry: Option<Registry>,
}

/// What a network is made of.
pub struct NetworkPlan {
    pub peer_id: PeerId,
    pub keypair: Keypair,
    pub root_dir: PathBuf,
    pub metrics: Option<MetricsPlan>,
    /// How long a request may take, in nanoseconds.
    pub request_timeout: u128,
    pub req_res_protocol: ProtocolSupport,
    pub kad_cfg: KadConfig,
    pub record_store: RecordStorePlan,
    pub identify_version: IdentifyVersion,
    /// Whether dials to addresses that are not global are prevented.
    pub global_only: bool,
    /// Whether ports are opened by UPnP.
    pub upnp: bool,
    /// What the relay manager is told about hole punching, if anything.
    pub hole_punching: Option<bool>,
}

/// Collects the settings of a network.
pub struct NetworkBuilder {
    pub is_behind_home_network: bool,
    pub keypair: Keypair,
    pub local: bool,
    pub root_dir: PathBuf,
    pub listen_addr: Option<SocketAddr>,
    /// How long a request may take, in nanoseconds.
    pub request_timeout: Option<u128>,
    pub concurrency_limit: Option<usize>,
    pub initial_peers: Vec<Multiaddr>,
    pub metrics_registry: Option<Registry>,
    /// The metrics server runs where this is set.
    pub metrics_server_port: Option<u16>,
    pub upnp: bool,
}

/// The settings of the key lookup of a node.
pub open spec fn node_kad_config(close_group_size: usize) -> KadConfig {
    KadConfig {
        kbucket_inserts: BucketInserts::Manual,
        replication_interval: Period::Unset,
        publication_interval: Period::Unset,
        max_packet_size: MAX_PACKET_SIZE,
        replication_factor: close_group_size,
        query_timeout: Some(KAD_QUERY_TIMEOUT_S),
        disjoint_query_paths: true,
        record_ttl: Period::Unset,
        provider_publication_interval: Period::Unset,
    }
}

/// The settings of the record store of a node.
pub open spec fn node_store_config() -> NodeRecordStoreConfig {
    NodeRecordStoreConfig {
        max_value_bytes: MAX_PACKET_SIZE,
        storage_dir: NodeDir::RecordStore,
        historic_quote_dir: NodeDir::Root,
    }
}

/// The settings of the key lookup of a client.
pub open spec fn client_kad_config(close_group_size: usize) -> KadConfig {
    KadConfig {
        kbucket_inserts: BucketInserts::Manual,
        replication_interval: Period::Default,
        publication_interval: Period::Default,
        max_packet_size: MAX_PACKET_SIZE,
        replication_factor: close_group_size,
        query_timeout: None,
        disjoint_query_paths: true,
        record_ttl: Period::Default,
        provider_publication_interval: Period::Default,
    }
}

/// The component of a transport address for an IP address.
pub open spec fn ip_protocol(ip: IpAddr) -> AddrProtocol {
    match ip {
        IpAddr::V4(octets) => AddrProtocol::Ip4(octets),
        IpAddr::V6(octets) => AddrProtocol::Ip6(octets),
    }
}

/// The address to listen on by QUIC.
pub open spec fn quic_address(socket: SocketAddr) -> Seq<AddrProtocol> {
    seq![ip_protocol(socket.ip), AddrProtocol::Udp(socket.port), AddrProtocol::QuicV1]
}

/// Whether `addr` is the address to listen on by WebSocket.
pub open spec fn is_websocket_address(addr: Seq<AddrProtocol>, socket: SocketAddr) -> bool {
    &&& addr.len() == 3
    &&& addr[0] == ip_protocol(socket.ip)
    &&& addr[1] == AddrProtocol::Tcp(socket.port)
    &&& addr[2] matches AddrProtocol::Ws(path) && path@ == "/"@
}

/// Whether `addrs` are the addresses that a node listens on.
pub open spec fn listens_on(
    addrs: Seq<Multiaddr>,
    socket: SocketAddr,
    websockets: bool,
) -> bool {
    &&& addrs.len() == if websockets { 2int } else { 1int }
    &&& addrs[0]@ == quic_address(socket)
    &&& websockets ==> is_websocket_address(addrs[1]@, socket)
}

fn ip_component(ip: IpAddr) -> (protocol: AddrProtocol)
    ensures
        protocol == ip_protocol(ip),
{
    match ip {
        IpAddr::V4(octets) => AddrProtocol::Ip4(octets),
        IpAddr::V6(octets) => AddrProtocol::Ip6(octets),
    }
}

/// The addresses that a node listens on.
fn listen_addresses(socket: SocketAddr, websockets: bool) -> (addrs: Vec<Multiaddr>)
    ensures
        listens_on(addrs@, socket, websockets),
{
    let mut quic: Vec<AddrProtocol> = Vec::new();
    quic.push(ip_component(socket.ip));
    quic.push(AddrProtocol::Udp(socket.port));
    quic.push(AddrProtocol::QuicV1);
    assert(quic@ =~= quic_address(socket));
    let mut addrs: Vec<Multiaddr> = Vec::new();
    addrs.push(Multiaddr { protocols: quic });
    if websockets {
        let mut ws: Vec<AddrProtocol> = Vec::new();
        ws.push(ip_component(socket.ip));
        ws.push(AddrProtocol::Tcp(socket.port));
        ws.push(AddrProtocol::Ws("/".to_owned()));
        addrs.push(Multiaddr { protocols: ws });
    }
    addrs
}

impl NetworkBuilder {
    /// The plan and the driver that these settings give, in the given mode.
    pub open spec fn builds(
        self,
        kad_cfg: KadConfig,
        record_store_cfg: Option<NodeRecordStoreConfig>,
        is_client: bool,
        req_res_protocol: ProtocolSupport,
        identify_version: IdentifyVersion,
        upnp: bool,
        plan: NetworkPlan,
        driver: SwarmDriver,
    ) -> bool {
        &&& plan.keypair == self.keypair
        &&& keypair_peer_id(self.keypair@) == Some(plan.peer_id@)
        &&& plan.root_dir == self.root_dir
        &&& plan.metrics == match self.metrics_server_port {
            Some(port) => Some(MetricsPlan { port, registry: self.metrics_registry }),
            None => None,
        }
        &&& plan.request_timeout == match self.request_timeout {
            Some(timeout) => timeout,
            None => REQUEST_TIMEOUT_DEFAULT,
        }
        &&& plan.req_res_protocol == req_res_protocol
        &&& plan.kad_cfg == kad_cfg
        &&& plan.record_store == match record_store_cfg {
            Some(cfg) => RecordStorePlan::Node(cfg),
            None => RecordStorePlan::Client,
        }
        &&& plan.identify_version == identify_version
        &&& plan.global_only == !self.local
        &&& plan.upnp == (!self.local && !is_client && upnp)
        &&& plan.hole_punching == if is_client {
            None
        } else {
            Some(self.is_behind_home_network)
        }
        &&& driver.wf()
        &&& driver.self_peer_id@ == plan.peer_id@
        &&& driver.local == self.local
        &&& driver.is_client == is_client
        &&& driver.is_behind_home_network == self.is_behind_home_network
        &&& driver.listen_port == match self.listen_addr {
            Some(addr) => Some(addr.port),
            None => None,
        }
        &&& driver.peers_in_rt == 0
        &&& driver.hard_disk_write_error == 0
        &&& driver.handling_statistics@ == Map::<Seq<char>, Seq<u128>>::empty()
        &&& driver.handling_statistics.handled() == 0
        &&& driver.ranges() == Seq::<nat>::empty()
    }

    /// Whether these settings give a node this plan and this driver.
    pub open spec fn plans_node(
        self,
        close_group_size: usize,
        plan: NetworkPlan,
        driver: SwarmDriver,
    ) -> bool {
        self.builds(
            node_kad_config(close_group_size),
            Some(node_store_config()),
            false,
            ProtocolSupport::Full,
            IdentifyVersion::Node,
            self.upnp,
            plan,
            driver,
        )
    }

    /// Whether these settings give a client this plan and this driver.
    pub open spec fn plans_client(
        self,
        close_group_size: usize,
        plan: NetworkPlan,
        driver: SwarmDriver,
    ) -> bool {
        self.builds(
            client_kad_config(close_group_size),
            None,
            true,
            ProtocolSupport::Outbound,
            IdentifyVersion::Client,
            false,
            plan,
            driver,
        )
    }

    /// Why a node cannot be planned, if so.
    pub open spec fn node_error(
        self,
        close_group_size: usize,
        created: Result<(), std::io::Error>,
    ) -> Option<NetworkError> {
        if close_group_size == 0 {
            Some(NetworkError::InvalidCloseGroupSize)
        } else {
            match created {
                Ok(_) => None,
                Err(source) => Some(
                    NetworkError::FailedToCreateRecordStoreDir {
                        path: NodePath { root_dir: self.root_dir, dir: NodeDir::RecordStore },
                        source,
                    },
                ),
            }
        }
    }

    /// Whether a node with these settings listens on these addresses, or fails to so.
    pub open spec fn node_listens(
        self,
        websockets: bool,
        listen: Result<Vec<Multiaddr>, NetworkError>,
    ) -> bool {
        match (self.listen_addr, listen) {
            (Some(socket), Ok(addrs)) => listens_on(addrs@, socket, websockets),
            (None, Err(error)) => error == NetworkError::ListenAddressNotProvided,
            _ => false,
        }
    }

    /// The settings with whether the node is behind a home network.
    pub open spec fn with_home_network(self, enable: bool) -> NetworkBuilder {
        NetworkBuilder { is_behind_home_network: enable, ..self }
    }

    /// The settings with an address to listen on.
    pub open spec fn with_listen_addr(self, listen_addr: SocketAddr) -> NetworkBuilder {
        NetworkBuilder { listen_addr: Some(listen_addr), ..self }
    }

    /// The settings with a time for requests.
    pub open spec fn with_request_timeout(self, request_timeout: u128) -> NetworkBuilder {
        NetworkBuilder { request_timeout: Some(request_timeout), ..self }
    }

    /// The settings with a limit of concurrency.
    pub open spec fn with_concurrency_limit(self, concurrency_limit: usize) -> NetworkBuilder {
        NetworkBuilder { concurrency_limit: Some(concurrency_limit), ..self }
    }

    /// The settings with peers to start from.
    pub open spec fn with_initial_peers(self, initial_peers: Vec<Multiaddr>) -> NetworkBuilder {
        NetworkBuilder { initial_peers, ..self }
    }

    /// The settings with a registry of metrics.
    pub open spec fn with_metrics_registry(self, metrics_registry: Option<Registry>) -> NetworkBuilder {
        NetworkBuilder { metrics_registry, ..self }
    }

    /// The settings with a port of the metrics server.
    pub open spec fn with_metrics_server_port(self, port: Option<u16>) -> NetworkBuilder {
        NetworkBuilder { metrics_server_port: port, ..self }
    }

    /// The settings with whether ports are opened by UPnP.
    pub open spec fn with_upnp(self, upnp: bool) -> NetworkBuilder {
        NetworkBuilder { upnp, ..self }
    }

    /// Settings where nothing but the given is set.
    pub fn new(keypair: Keypair, local: bool, root_dir: PathBuf) -> (builder: NetworkBuilder)
        ensures
            builder.keypair == keypair,
            builder.local == local,
            builder.root_dir == root_dir,
            !builder.is_behind_home_network,
            builder.listen_addr is None,
            builder.request_timeout is None,
            builder.concurrency_limit is None,
            builder.initial_peers@.len() == 0,
            builder.metrics_registry is None,
            builder.metrics_server_port is None,
            !builder.upnp,
    {
        NetworkBuilder {
            is_behind_home_network: false,
            keypair,
            local,
            root_dir,
            listen_addr: None,
            request_timeout: None,
            concurrency_limit: None,
            initial_peers: Vec::new(),
            metrics_registry: None,
            metrics_server_port: None,
            upnp: false,
        }
    }

    pub fn is_behind_home_network(&mut self, enable: bool)
        ensures
            *final(self) == (NetworkBuilder { is_behind_home_network: enable, ..*old(self) }),
            *final(self) == old(self).with_home_network(enable),
    {
        self.is_behind_home_network = enable;
    }

    pub fn listen_addr(&mut self, listen_addr: SocketAddr)
        ensures
            *final(self) == (NetworkBuilder { listen_addr: Some(listen_addr), ..*old(self) }),
            *final(self) == old(self).with_listen_addr(listen_addr),
    {
        self.listen_addr = Some(listen_addr);
    }

    pub fn request_timeout(&mut self, request_timeout: u128)
        ensures
            *final(self) == (NetworkBuilder {
                request_timeout: Some(request_timeout),
                ..*old(self)
            }),
            *final(self) == old(self).with_request_timeout(request_timeout),
    {
        self.request_timeout = Some(request_timeout);
    }

    pub fn concurrency_limit(&mut self, concurrency_limit: usize)
        ensures
            *final(self) == (NetworkBuilder {
                concurrency_limit: Some(concurrency_limit),
                ..*old(self)
            }),
            *final(self) == old(self).with_concurrency_limit(concurrency_limit),
    {
        self.concurrency_limit = Some(concurrency_limit);
    }

    pub fn initial_peers(&mut self, initial_peers: Vec<Multiaddr>)
        ensures
            *final(self) == (NetworkBuilder { initial_peers, ..*old(self) }),
            *final(self) == old(self).with_initial_peers(initial_peers),
    {
        self.initial_peers = initial_peers;
    }

    pub fn metrics_registry(&mut self, metrics_registry: Option<Registry>)
        ensures
            *final(self) == (NetworkBuilder { metrics_registry, ..*old(self) }),
            *final(self) == old(self).with_metrics_registry(metrics_registry),
    {
        self.metrics_registry = metrics_registry;
    }

    pub fn metrics_server_port(&mut self, port: Option<u16>)
        ensures
            *final(self) == (NetworkBuilder { metrics_server_port: port, ..*old(self) }),
            *final(self) == old(self).with_metrics_server_port(port),
    {
        self.metrics_server_port = port;
    }

    pub fn upnp(&mut self, upnp: bool)
        ensures
            *final(self) == (NetworkBuilder { upnp, ..*old(self) }),
            *final(self) == old(self).with_upnp(upnp),
    {
        self.upnp = upnp;
    }

    /// The settings of a node's key lookup, which come before the directory of the records is
    /// created.
    pub fn node_kad_cfg(close_group_size: usize) -> (kad_cfg: Result<KadConfig, NetworkError>)
        ensures
            kad_cfg == if close_group_size == 0 {
                Err::<KadConfig, NetworkError>(NetworkError::InvalidCloseGroupSize)
            } else {
                Ok::<KadConfig, NetworkError>(node_kad_config(close_group_size))
            },
    {
        if close_group_size == 0 {
            return Err(NetworkError::InvalidCloseGroupSize);
        }
        Ok(
            KadConfig {
                kbucket_inserts: BucketInserts::Manual,
                replication_interval: Period::Unset,
                publication_interval: Period::Unset,
                max_packet_size: MAX_PACKET_SIZE,
                replication_factor: close_group_size,
                query_timeout: Some(KAD_QUERY_TIMEOUT_S),
                disjoint_query_paths: true,
                record_ttl: Period::Unset,
                provider_publication_interval: Period::Unset,
            },
        )
    }

    /// Plans a node, where `created` says how creating the directory of its records went. What
    /// the node listens on comes apart: everything else is set up before a missing address is
    /// noticed.
    pub fn build_node(
        self,
        close_group_size: usize,
        created: Result<(), std::io::Error>,
        websockets: bool,
    ) -> (built: Result<
        (NetworkPlan, SwarmDriver, Result<Vec<Multiaddr>, NetworkError>),
        NetworkError,
    >)
        ensures
            match built {
                Ok((plan, driver, listen)) => {
                    &&& close_group_size != 0
                    &&& created is Ok
                    &&& self.builds(
                        node_kad_config(close_group_size),
                        Some(node_store_config()),
                        false,
                        ProtocolSupport::Full,
                        IdentifyVersion::Node,
                        self.upnp,
                        plan,
                        driver,
                    )
                    &&& match listen {
                        Ok(addrs) => self.listen_addr is Some && listens_on(
                            addrs@,
                            self.listen_addr->0,
                            websockets,
                        ),
                        Err(error) => self.listen_addr is None && error
                            == NetworkError::ListenAddressNotProvided,
                    }
                },
                Err(error) => if close_group_size == 0 {
                    error == NetworkError::InvalidCloseGroupSize
                } else {
                    &&& created matches Err(source)
                    &&& error == (NetworkError::FailedToCreateRecordStoreDir {
                        path: NodePath { root_dir: self.root_dir, dir: NodeDir::RecordStore },
                        source,
                    })
                },
            },
            match built {
                Ok((plan, driver, listen)) => {
                    &&& self.node_error(close_group_size, created) is None
                    &&& self.plans_node(close_group_size, plan, driver)
                    &&& self.node_listens(websockets, listen)
                },
                Err(error) => self.node_error(close_group_size, created) == Some(error),
            },
    {
        let kad_cfg = match Self::node_kad_cfg(close_group_size) {
            Ok(kad_cfg) => kad_cfg,
            Err(error) => {
                return Err(error);
            },
        };
        if let Err(source) = created {
            let path = NodePath { root_dir: self.root_dir, dir: NodeDir::RecordStore };
            return Err(NetworkError::FailedToCreateRecordStoreDir { path, source });
        }
        let store_cfg = NodeRecordStoreConfig {
            max_value_bytes: MAX_PACKET_SIZE,
            storage_dir: NodeDir::RecordStore,
            historic_quote_dir: NodeDir::Root,
        };
        let listen = match self.listen_addr {
            Some(socket) => Ok(listen_addresses(socket, websockets)),
            None => Err(NetworkError::ListenAddressNotProvided),
        };
        let upnp = self.upnp;
        let (plan, driver) = self.build(
            kad_cfg,
            Some(store_cfg),
            false,
            ProtocolSupport::Full,
            IdentifyVersion::Node,
            upnp,
        );
        Ok((plan, driver, listen))
    }

    /// Plans a client, which listens nowhere and only sends requests.
    pub fn build_client(self, close_group_size: usize) -> (built: Result<
        (NetworkPlan, SwarmDriver),
        NetworkError,
    >)
        ensures
            match built {
                Ok((plan, driver)) => {
                    &&& close_group_size != 0
                    &&& self.builds(
                        client_kad_config(close_group_size),
                        None,
                        true,
                        ProtocolSupport::Outbound,
                        IdentifyVersion::Client,
                        false,
                        plan,
                        driver,
                    )
                },
                Err(error) => close_group_size == 0 && error
                    == NetworkError::InvalidCloseGroupSize,
            },
            match built {
                Ok((plan, driver)) => self.plans_client(close_group_size, plan, driver),
                Err(error) => close_group_size == 0,
            },
    {
        if close_group_size == 0 {
            return Err(NetworkError::InvalidCloseGroupSize);
        }
        let kad_cfg = KadConfig {
            kbucket_inserts: BucketInserts::Manual,
            replication_interval: Period::Default,
            publication_interval: Period::Default,
            max_packet_size: MAX_PACKET_SIZE,
            replication_factor: close_group_size,
            query_timeout: None,
            disjoint_query_paths: true,
            record_ttl: Period::Default,
            provider_publication_interval: Period::Default,
        };
        Ok(
            self.build(
                kad_cfg,
                None,
                true,
                ProtocolSupport::Outbound,
                IdentifyVersion::Client,
                false,
            ),
        )
    }

    /// Plans a network in the given mode.
    pub fn build(
        self,
        kad_cfg: KadConfig,
        record_store_cfg: Option<NodeRecordStoreConfig>,
        is_client: bool,
        req_res_protocol: ProtocolSupport,
        identify_version: IdentifyVersion,
        upnp: bool,
    ) -> (built: (NetworkPlan, SwarmDriver))
        ensures
            self.builds(
                kad_cfg,
                record_store_cfg,
                is_client,
                req_res_protocol,
                identify_version,
                upnp,
                built.0,
                built.1,
            ),
    {
        let peer_id = self.keypair.peer_id();
        let metrics = match self.metrics_server_port {
            Some(port) => Some(MetricsPlan { port, registry: self.metrics_registry }),
            None => None,
        };
        let request_timeout: u128 = match self.request_timeout {
            Some(timeout) => timeout,
            None => REQUEST_TIMEOUT_DEFAULT,
        };
        let record_store = match record_store_cfg {
            Some(cfg) => RecordStorePlan::Node(cfg),
            None => RecordStorePlan::Client,
        };
        let hole_punching = if is_client {
            None
        } else {
            Some(self.is_behind_home_network)
        };
        let listen_port: Option<u16> = match self.listen_addr {
            Some(addr) => Some(addr.port),
            None => None,
        };
        let driver = SwarmDriver::new(
            peer_id.clone(),
            self.local,
            is_client,
            self.is_behind_home_network,
            listen_port,
        );
        let plan = NetworkPlan {
            peer_id,
            keypair: self.keypair,
            root_dir: self.root_dir,
            metrics,
            request_timeout,
            req_res_protocol,
            kad_cfg,
            record_store,
            identify_version,
            global_only: !self.local,
            upnp: !self.local && !is_client && upnp,
            hole_punching,
        };
        (plan, driver)
    }
}

/// Only a node that is not local opens ports by UPnP, and only if it was told to; a client tells
/// the relay manager nothing; and dials are kept to global addresses exactly where the network is
/// not local.
pub proof fn law_clients_keep_to_themselves(
    builder: NetworkBuilder,
    kad_cfg: KadConfig,
    record_store_cfg: Option<NodeRecordStoreConfig>,
    is_client: bool,
    req_res_protocol: ProtocolSupport,
    identify_version: IdentifyVersion,
    upnp: bool,
    plan: NetworkPlan,
    driver: SwarmDriver,
)
    requires
        builder.builds(
            kad_cfg,
            record_store_cfg,
            is_client,
            req_res_protocol,
            identify_version,
            upnp,
            plan,
            driver,
        ),
    ensures
        plan.upnp ==> upnp && !driver.local && !driver.is_client,
        driver.is_client ==> !plan.upnp && plan.hole_punching is None,
        plan.global_only == !driver.local,
{
}

/// A plan follows the settings: the keys and what they give, the directory, the metrics server
/// where it has a port, the time for requests or else thirty seconds. The driver knows who we are
/// and at which port we listen, and starts with nothing counted.
pub proof fn law_plan_follows_the_settings(
    builder: NetworkBuilder,
    kad_cfg: KadConfig,
    record_store_cfg: Option<NodeRecordStoreConfig>,
    is_client: bool,
    req_res_protocol: ProtocolSupport,
    identify_version: IdentifyVersion,
    upnp: bool,
    plan: NetworkPlan,
    driver: SwarmDriver,
)
    requires
        builder.builds(
            kad_cfg,
            record_store_cfg,
            is_client,
            req_res_protocol,
            identify_version,
            upnp,
            plan,
            driver,
        ),
    ensures
        plan.keypair@ == builder.keypair@,
        Some(plan.peer_id@) == keypair_peer_id(builder.keypair@),
        driver.self_peer_id@ == plan.peer_id@,
        plan.root_dir == builder.root_dir,
        plan.metrics is Some <==> builder.metrics_server_port is Some,
        plan.metrics is Some ==> plan.metrics->0.port == builder.metrics_server_port->0
            && plan.metrics->0.registry == builder.metrics_registry,
        builder.request_timeout is Some ==> plan.request_timeout == builder.request_timeout->0,
        builder.request_timeout is None ==> plan.request_timeout == 30 * 1_000_000_000,
        plan.req_res_protocol == req_res_protocol,
        plan.kad_cfg == kad_cfg,
        plan.identify_version == identify_version,
        record_store_cfg is None <==> plan.record_store is Client,
        forall|cfg: NodeRecordStoreConfig|
            record_store_cfg == Some(cfg) <==> plan.record_store == RecordStorePlan::Node(cfg),
        plan.global_only <==> !builder.local,
        plan.upnp <==> upnp && !builder.local && !is_client,
        plan.hole_punching is None <==> is_client,
        !is_client ==> plan.hole_punching->0 == builder.is_behind_home_network,
        driver.local == builder.local,
        driver.is_client == is_client,
        driver.is_behind_home_network == builder.is_behind_home_network,
        driver.listen_port is Some <==> builder.listen_addr is Some,
        driver.listen_port is Some ==> driver.listen_port->0 == builder.listen_addr->0.port,
        driver.peers_in_rt == 0,
        driver.hard_disk_write_error == 0,
        driver.handling_statistics.handled() == 0,
        forall|kind: Seq<char>| !driver.handling_statistics@.contains_key(kind),
        driver.ranges().len() == 0,
{
    if let Some(cfg) = record_store_cfg {
        assert(plan.record_store == RecordStorePlan::Node(cfg));
    }
}

/// A node answers requests, keeps records up to five mebibytes below its directory, leaves copying
/// and expiry of records to itself, and gives a query ten seconds. It opens ports only if it was
/// told to, and tells the relay manager whether it is behind a home network.
pub proof fn law_node_plan(
    builder: NetworkBuilder,
    close_group_size: usize,
    plan: NetworkPlan,
    driver: SwarmDriver,
)
    requires
        builder.plans_node(close_group_size, plan, driver),
    ensures
        !driver.is_client,
        plan.req_res_protocol is Full,
        plan.identify_version is Node,
        plan.upnp <==> builder.upnp && !builder.local,
        plan.hole_punching == Some(builder.is_behind_home_network),
        plan.record_store matches RecordStorePlan::Node(cfg) && cfg.max_value_bytes == 5 * 1024
            * 1024 && cfg.storage_dir is RecordStore && cfg.historic_quote_dir is Root,
        plan.kad_cfg.kbucket_inserts is Manual,
        plan.kad_cfg.replication_interval is Unset,
        plan.kad_cfg.publication_interval is Unset,
        plan.kad_cfg.provider_publication_interval is Unset,
        plan.kad_cfg.record_ttl is Unset,
        plan.kad_cfg.max_packet_size == 5 * 1024 * 1024,
        plan.kad_cfg.replication_factor == close_group_size,
        plan.kad_cfg.query_timeout == Some(10u64),
        plan.kad_cfg.disjoint_query_paths,
{
}

/// A client only sends requests, keeps no records, opens no ports, and has the lookup's own times.
/// In all else it looks up keys as a node does.
pub proof fn law_client_plan(
    builder: NetworkBuilder,
    close_group_size: usize,
    plan: NetworkPlan,
    driver: SwarmDriver,
)
    requires
        builder.plans_client(close_group_size, plan, driver),
    ensures
        driver.is_client,
        plan.req_res_protocol is Outbound,
        plan.identify_version is Client,
        !plan.upnp,
        plan.hole_punching is None,
        plan.record_store is Client,
        plan.kad_cfg.kbucket_inserts is Manual,
        plan.kad_cfg.replication_interval is Default,
        plan.kad_cfg.publication_interval is Default,
        plan.kad_cfg.provider_publication_interval is Default,
        plan.kad_cfg.record_ttl is Default,
        plan.kad_cfg.max_packet_size == 5 * 1024 * 1024,
        plan.kad_cfg.replication_factor == close_group_size,
        plan.kad_cfg.query_timeout is None,
        plan.kad_cfg.disjoint_query_paths,
{
}

/// A node is planned unless its close group is empty, or else its directory could not be created;
/// that error then says why and where.
pub proof fn law_node_needs_its_directory(
    builder: NetworkBuilder,
    close_group_size: usize,
    created: Result<(), std::io::Error>,
)
    ensures
        builder.node_error(close_group_size, created) is None <==> close_group_size > 0
            && created is Ok,
        close_group_size == 0 ==> builder.node_error(close_group_size, created) == Some(
            NetworkError::InvalidCloseGroupSize,
        ),
        close_group_size > 0 && created is Err ==> (builder.node_error(
            close_group_size,
            created,
        ) matches Some(NetworkError::FailedToCreateRecordStoreDir { path, source }) && source
            == created->Err_0 && path.root_dir == builder.root_dir && path.dir is RecordStore),
{
}

/// A node listens by QUIC at its address and port, and by WebSocket too if that is wanted, at the
/// same address and port. Without an address it fails for want of one.
pub proof fn law_node_listens_at_its_address(
    builder: NetworkBuilder,
    websockets: bool,
    listen: Result<Vec<Multiaddr>, NetworkError>,
)
    requires
        builder.node_listens(websockets, listen),
    ensures
        listen is Ok <==> builder.listen_addr is Some,
        listen matches Err(error) ==> error == NetworkError::ListenAddressNotProvided,
        listen matches Ok(addrs) ==> {
            let socket = builder.listen_addr->0;
            &&& addrs@.len() == if websockets { 2int } else { 1 }
            &&& forall|i: int|
                0 <= i < addrs@.len() ==> {
                    &&& (#[trigger] addrs@[i])@.len() == 3
                    &&& socket.ip matches IpAddr::V4(octets) ==> addrs@[i]@[0]
                        == AddrProtocol::Ip4(octets)
                    &&& socket.ip matches IpAddr::V6(octets) ==> addrs@[i]@[0]
                        == AddrProtocol::Ip6(octets)
                }
            &&& addrs@[0]@[1] == AddrProtocol::Udp(socket.port)
            &&& addrs@[0]@[2] is QuicV1
            &&& websockets ==> addrs@[1]@[1] == AddrProtocol::Tcp(socket.port)
            &&& websockets ==> (addrs@[1]@[2] matches AddrProtocol::Ws(path) && path@ == seq!['/'])
        },
{
    reveal_strlit("/");
    assert("/"@ =~= seq!['/']);
}

/// What is set last is what is planned, and setting one thing takes back no other: whatever the
/// settings were before, and in whichever order the rest is set.
pub proof fn law_settings_reach_the_plan(
    builder: NetworkBuilder,
    enable: bool,
    listen_addr: SocketAddr,
    timeout: u128,
    limit: usize,
    peers: Vec<Multiaddr>,
    registry: Option<Registry>,
    port: u16,
    upnp: bool,
    close_group_size: usize,
    plan: NetworkPlan,
    driver: SwarmDriver,
)
    requires
        builder.with_home_network(enable).with_listen_addr(listen_addr).with_request_timeout(
            timeout,
        ).with_concurrency_limit(limit).with_initial_peers(peers).with_metrics_registry(
            registry,
        ).with_metrics_server_port(Some(port)).with_upnp(upnp).plans_node(
            close_group_size,
            plan,
            driver,
        ),
    ensures
        plan.hole_punching == Some(enable),
        driver.is_behind_home_network == enable,
        driver.listen_port == Some(listen_addr.port),
        plan.request_timeout == timeout,
        plan.metrics matches Some(metrics) && metrics.port == port && metrics.registry == registry,
        plan.upnp <==> upnp && !builder.local,
        plan.keypair == builder.keypair,
        plan.root_dir == builder.root_dir,
        driver.local == builder.local,
        builder.with_upnp(upnp).with_metrics_server_port(Some(port)).with_metrics_registry(
            registry,
        ).with_initial_peers(peers).with_concurrency_limit(limit).with_request_timeout(
            timeout,
        ).with_listen_addr(listen_addr).with_home_network(enable).plans_node(
            close_group_size,
            plan,
            driver,
        ),
{
}

/// Each setting changes what it is named for and nothing else.
pub proof fn law_settings_keep_each_other(
    builder: NetworkBuilder,
    enable: bool,
    listen_addr: SocketAddr,
    timeout: u128,
    limit: usize,
    peers: Vec<Multiaddr>,
    registry: Option<Registry>,
    port: Option<u16>,
    upnp: bool,
)
    ensures
        ({
            let all = builder.with_home_network(enable).with_listen_addr(
                listen_addr,
            ).with_request_timeout(timeout).with_concurrency_limit(limit).with_initial_peers(
                peers,
            ).with_metrics_registry(registry).with_metrics_server_port(port).with_upnp(upnp);
            &&& all.is_behind_home_network == enable
            &&& all.listen_addr == Some(listen_addr)
            &&& all.request_timeout == Some(timeout)
            &&& all.concurrency_limit == Some(limit)
            &&& all.initial_peers == peers
            &&& all.metrics_registry == registry
            &&& all.metrics_server_port == port
            &&& all.upnp == upnp
            &&& all.keypair == builder.keypair
            &&& all.local == builder.local
            &&& all.root_dir == builder.root_dir
            &&& all == all.with_upnp(upnp).with_metrics_server_port(port).with_metrics_registry(
                registry,
            ).with_initial_peers(peers).with_concurrency_limit(limit).with_request_timeout(
                timeout,
            ).with_listen_addr(listen_addr).with_home_network(enable)
        }),
{
}

} // verus!
