//! Event counters that saturate instead of wrapping.

use vstd::prelude::*;

verus! {

/// A counter after `by` more events; it stops at the largest value it can
/// hold.
pub open spec fn bumped(count: u64, by: nat) -> u64 {
    if count + by > u64::MAX {
        u64::MAX
    } else {
        (count + by) as u64
    }
}

} // verus!
