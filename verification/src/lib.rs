//! Core of a StatsD relay: framing and parsing of metric lines, hash-based
//! sharding over rings of downstream clients, hot-swappable backends and the
//! discovery-driven reconfiguration rules, with machine-checked contracts.

pub mod admin;
pub mod backends;
pub mod buffer;
pub mod config;
pub mod counter;
pub mod discovery;
pub mod reload;
pub mod scan;
pub mod shard;
pub mod stats;
pub mod statsd;
pub mod statsd_client;
pub mod statsd_server;
pub mod table;
