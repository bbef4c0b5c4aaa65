//! The fixed limits of a run. Budgets and intervals are in milliseconds.

use vstd::prelude::*;

verus! {

pub const MAX_ACTIVE_TARGETS: usize = 4;

pub const MAX_ACTIVE_RESOLVERS: usize = 4;

pub const TCP_CONNECT_BUDGET: u64 = 5_000;

pub const TARGET_ICMP_BUDGET: u64 = 2_000;

pub const NEXT_HOP_ICMP_BUDGET: u64 = 1_000;

pub const NEIGHBOR_CONVERGENCE_BUDGET: u64 = 2_000;

pub const NEIGHBOR_POLL_INTERVAL: u64 = 200;

pub const PATH_ATTEMPT_BUDGET: u64 = 1_000;

pub const MAX_PATH_HOP_LIMIT: u8 = 30;

pub const DNS_UDP_BUDGET: u64 = 2_000;

pub const DNS_TCP_BUDGET: u64 = 5_000;

} // verus!
