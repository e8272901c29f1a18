//! The report of the memory that each request leaves behind.
use vstd::prelude::*;

verus! {

/// After a request, with the process's memory `prev` before it and `cur` now (in KB): the
/// reading that the next request is compared with, and the growth to report, when the memory
/// grew.
pub fn request_overhead(prev: u64, cur: u64) -> (r: (u64, Option<u64>))
    ensures
        r.0 == cur,
        r.1 == (if cur > prev {
            Some((cur - prev) as u64)
        } else {
            None
        }),
{
    if cur > prev {
        (cur, Some(cur - prev))
    } else {
        (cur, None)
    }
}

} // verus!
