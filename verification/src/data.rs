//! The five resource snapshots that one refresh cycle fetches, as plain
//! values. Numbers that the upstream reports with a fractional part (a usage
//! coefficient, a CPU percentage) are held as exact decimals.

use vstd::prelude::*;
use crate::value::GaugeValue;

verus! {

/// The body of a successful credential exchange: the bearer token to present
/// on every authenticated request.
pub struct TokenResponse {
    pub access_token: String,
}

/// One managed node.
pub struct Node {
    pub name: String,
    pub address: String,
    pub port: u16,
    pub api_port: u16,
    pub usage_coefficient: GaugeValue,
    pub xray_version: String,
    pub status: String,
}

/// The list of per-node traffic counters.
pub struct NodeUsageResponse {
    pub usages: Vec<NodeUsage>,
}

/// Traffic through one node, in bytes.
pub struct NodeUsage {
    pub node_name: String,
    pub uplink: u64,
    pub downlink: u64,
}

/// System-wide resource statistics.
pub struct SystemData {
    pub version: String,
    pub mem_total: u64,
    pub mem_used: u64,
    pub cpu_cores: u8,
    pub cpu_usage: GaugeValue,
    pub total_user: u32,
    pub users_active: u32,
    pub incoming_bandwidth: u64,
    pub outgoing_bandwidth: u64,
    pub incoming_bandwidth_speed: u64,
    pub outgoing_bandwidth_speed: u64,
}

/// The core service's version and whether it is running.
pub struct CoreData {
    pub version: String,
    pub started: bool,
}

/// The list of users.
pub struct UserResponse {
    pub users: Vec<User>,
}

/// One user and the traffic charged to them, in bytes.
pub struct User {
    pub username: String,
    pub status: String,
    pub used_traffic: u64,
}

} // verus!
