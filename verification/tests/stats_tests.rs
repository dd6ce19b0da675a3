use owntracks_exporter::stats::StorageDeviceStats;

#[test]
fn add_assign_sums_pairwise() {
    let mut a = StorageDeviceStats { points_count_total: 3, lwts_count_total: 1 };
    a.add_assign(StorageDeviceStats { points_count_total: 4, lwts_count_total: 2 });
    assert_eq!(a.points_count_total, 7);
    assert_eq!(a.lwts_count_total, 3);
}

#[test]
fn zero_is_the_identity() {
    let mut a = StorageDeviceStats { points_count_total: 5, lwts_count_total: 9 };
    a.add_assign(StorageDeviceStats::zero());
    assert_eq!(a.points_count_total, 5);
    assert_eq!(a.lwts_count_total, 9);
}

#[test]
fn addition_saturates_at_the_top() {
    let mut a = StorageDeviceStats { points_count_total: u64::MAX - 1, lwts_count_total: 0 };
    a.add_assign(StorageDeviceStats { points_count_total: 7, lwts_count_total: 1 });
    assert_eq!(a.points_count_total, u64::MAX);
    assert_eq!(a.lwts_count_total, 1);
}
