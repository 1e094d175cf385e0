//! How fast requests may follow each other.

use std::num::NonZeroU32;

use governor::Quota;
use vstd::prelude::*;

verus! {

/// A limit on the rate of requests.
#[derive(Debug, Clone, Copy, PartialEq, Eq, Structural)]
pub struct RateLimit {
    /// How many requests may be made at once.
    pub burst: u32,
    /// After how many nanoseconds one more may be made.
    pub interval_nanos: u64,
}

/// The limit that allows `requests` requests per second.
pub open spec fn per_second(requests: u32) -> RateLimit {
    RateLimit { burst: requests, interval_nanos: 1_000_000_000u64 / (requests as u64) }
}

/// `governor::Quota::per_second`: as many cells may be taken at once as there are
/// to a second, and one comes back after that part of a second, in whole
/// nanoseconds rounded down. There is no quota of zero cells.
#[verifier::external_body]
pub(crate) fn quota_per_second(cells: u32) -> (limit: RateLimit)
    requires
        cells > 0,
    ensures
        limit == per_second(cells),
{
    let quota = Quota::per_second(NonZeroU32::new(cells).unwrap());
    RateLimit {
        burst: quota.burst_size().get(),
        interval_nanos: quota.replenish_interval().as_nanos() as u64,
    }
}

/// A limit on requests per second allows that many at once, and gives back one after
/// another so that in a second that many come back, as nearly as whole nanoseconds allow.
pub proof fn law_requests_fill_a_second(requests: u32)
    requires
        requests > 0,
    ensures
        per_second(requests).burst == requests,
        requests * per_second(requests).interval_nanos <= 1_000_000_000,
        1_000_000_000 < requests * (per_second(requests).interval_nanos + 1),
{
    let second: int = 1_000_000_000;
    let count = requests as int;
    assert(count * (second / count) <= second < count * (second / count + 1)) by (nonlinear_arith)
        requires
            count > 0,
    ;
}

} // verus!
