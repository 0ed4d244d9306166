//! An exporter of metrics on the nodes of a Kademlia distributed hash table.
//!
//! The exporter joins a Dht, takes note of the nodes that it hears of, and shows how many of them
//! there are, by country and cloud provider, and for how long they have been seen or up. This crate
//! is what it decides and computes: all of it is verified against the contracts that stand with the
//! functions. The program around it opens sockets and files, reads the clock and does what the
//! library asks for.
//!
//! - [`exporter`] turns the events of the network client into observations of nodes, and says what
//!   is to be done on each tick of the clock. [`exporter_metrics`] holds what it counts of itself.
//! - [`node`] and [`node_store`] hold what is known of nodes, and count them for a scrape, which
//!   [`metric`] describes.
//! - [`client`] decides how the network client is set up and what it reports. [`config`] is what it
//!   is set up from.
//! - [`behaviour`] counts what each network behaviour reports.
//! - [`address`], [`ip_db`] and [`peer`] are addresses, the countries that they are in, and peers.
//! - [`assoc_map`], [`labels`] and [`time`] are what the others are made of.
//! - [`laws`] states what holds of all of it together. [`laws_of_nodes`], [`laws_of_exporter`],
//!   [`laws_of_metrics`], [`laws_of_client`] and [`laws_of_counters`] state what each function gives
//!   back, in terms of what goes into it and what comes out.

pub mod address;
pub mod assoc_map;
pub mod behaviour;
pub mod client;
pub mod config;
pub mod exporter;
pub mod exporter_metrics;
pub mod ip_db;
pub mod labels;
pub mod laws;
pub mod laws_of_client;
pub mod laws_of_counters;
pub mod laws_of_exporter;
pub mod laws_of_metrics;
pub mod laws_of_nodes;
pub mod metric;
pub mod node;
pub mod node_store;
pub mod peer;
pub mod time;
