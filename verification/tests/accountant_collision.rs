use owntracks_exporter::accountant::{DeviceSnapshot, StorageAccountant};
use owntracks_exporter::devices::StorageDevice;

fn entry(user: &str, device: &str, points: usize) -> DeviceSnapshot {
    DeviceSnapshot {
        device: StorageDevice { user_name: user.to_string(), device_name: device.to_string() },
        rec_files: vec![Some(vec!["t *".to_string(); points])],
    }
}

// The metrics library files a child series under the label values' bytes
// concatenated without a separator, so ("ab", "c") and ("a", "bc") share
// one series: the later snapshot entry wins, and both lookups see it.
#[test]
fn label_pairs_with_equal_concatenation_share_one_series() {
    let mut accountant = StorageAccountant::new().expect("metric registration failed");
    accountant.update(&vec![entry("ab", "c", 2), entry("a", "bc", 5)]);
    assert_eq!(accountant.points_total("a", "bc"), 5);
    assert_eq!(accountant.points_total("ab", "c"), 5);

    accountant.update(&vec![entry("alice", "phone", 3), entry("bob", "watch", 4)]);
    assert_eq!(accountant.points_total("alice", "phone"), 3);
    assert_eq!(accountant.points_total("bob", "watch"), 4);
}
