//! The configuration of the exporter.

use crate::address::SocketAddress;
use libp2p::Multiaddr;
use vstd::prelude::*;

verus! {

/// What the configuration file says.
#[derive(Debug)]
pub struct Config {
    /// Where the MaxMind database is.
    pub max_mind_db_path: Option<String>,
    /// Where the database of the cloud providers' networks is.
    pub cloud_provider_cidr_db_path: Option<String>,
    /// The nodes through which to enter the Dht.
    pub bootnodes: Vec<Multiaddr>,
    pub disjoint_query_paths: bool,
    /// The protocol of the Dht, where it is not the default one.
    pub protocol_name: Option<String>,
    pub noise_legacy: bool,
    pub listen_address: Option<SocketAddress>,
    pub tcp_listen_address: Option<SocketAddress>,
    pub quic_listen_address: Option<SocketAddress>,
    pub quic_v1_listen_address: Option<SocketAddress>,
    /// How many addresses of a peer to dial at a time.
    pub dial_concurrency_factor: Option<u8>,
}

} // verus!
