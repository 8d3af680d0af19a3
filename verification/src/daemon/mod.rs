//! The daemon: a pool of sandboxes that are made before they are asked for.
pub mod warmpool;

use vstd::prelude::*;

use crate::daemon::warmpool::WarmPool;

verus! {

/// The template of the pooled sandboxes.
pub const WARM_POOL_TEMPLATE: &'static str = "base";

/// How many sandboxes the pool holds.
pub const WARM_POOL_TARGET_DEPTH: usize = 4;

/// How often the pool is topped up, in seconds.
pub const WARM_POOL_REFILL_INTERVAL_SECS: u64 = 5;

/// What the daemon keeps.
#[derive(Debug)]
pub struct Daemon {
    pub warm_pool: WarmPool,
}

impl Daemon {
    /// A daemon with an empty pool.
    pub fn new() -> (r: Self)
        ensures
            r.warm_pool.template@ == WARM_POOL_TEMPLATE@,
            r.warm_pool.target_depth == WARM_POOL_TARGET_DEPTH,
            r.warm_pool.entries@.len() == 0,
            r.warm_pool.cold_fallback_count == 0,
            r.warm_pool.max_age_ns == warmpool::MAX_AGE_NS,
    {
        Daemon { warm_pool: WarmPool::new(WARM_POOL_TEMPLATE, WARM_POOL_TARGET_DEPTH) }
    }
}

} // verus!
