//! Per-device aggregate counters and their saturating combination.

use vstd::prelude::*;

verus! {

/// Aggregate counters for one device: how many point records and how many
/// last-will-testament (LWT) markers its record files hold.
pub struct StorageDeviceStats {
    pub points_count_total: u64,
    pub lwts_count_total: u64,
}

/// Addition on `u64` that stops at the top of the range instead of wrapping
/// or panicking: a scan never aborts because a count grew too large.
pub open spec fn sat_add_u64(a: int, b: int) -> int {
    if a + b > u64::MAX { u64::MAX as int } else { a + b }
}

impl StorageDeviceStats {
    /// The zero pair: identity for pairwise addition.
    pub fn zero() -> (r: StorageDeviceStats)
        ensures
            r.points_count_total == 0,
            r.lwts_count_total == 0,
    {
        StorageDeviceStats { points_count_total: 0, lwts_count_total: 0 }
    }

    /// Pairwise, saturating addition of both counters.
    pub fn add_assign(&mut self, rhs: StorageDeviceStats)
        ensures
            final(self).points_count_total == sat_add_u64(
                old(self).points_count_total as int,
                rhs.points_count_total as int,
            ),
            final(self).lwts_count_total == sat_add_u64(
                old(self).lwts_count_total as int,
                rhs.lwts_count_total as int,
            ),
    {
        if self.points_count_total <= u64::MAX - rhs.points_count_total {
            self.points_count_total = self.points_count_total + rhs.points_count_total;
        } else {
            self.points_count_total = u64::MAX;
        }
        if self.lwts_count_total <= u64::MAX - rhs.lwts_count_total {
            self.lwts_count_total = self.lwts_count_total + rhs.lwts_count_total;
        } else {
            self.lwts_count_total = u64::MAX;
        }
    }
}

} // verus!
