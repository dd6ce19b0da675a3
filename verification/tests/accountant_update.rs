use owntracks_exporter::accountant::{DeviceSnapshot, StorageAccountant};
use owntracks_exporter::devices::StorageDevice;

fn device(user: &str, name: &str) -> StorageDevice {
    StorageDevice { user_name: user.to_string(), device_name: name.to_string() }
}

#[test]
fn update_publishes_fresh_totals_per_device() {
    let mut accountant = StorageAccountant::new().expect("metric registration failed");
    assert_eq!(accountant.points_total("alice", "phone"), 0);
    assert_eq!(accountant.lwts_total("alice", "phone"), 0);

    let snapshot = vec![
        DeviceSnapshot {
            device: device("alice", "phone"),
            rec_files: vec![
                Some(vec!["t * a".to_string(), "t * b".to_string()]),
                None,
                Some(vec!["t lwt".to_string(), "header".to_string()]),
            ],
        },
        DeviceSnapshot {
            device: device("bob", "watch"),
            rec_files: vec![Some(vec!["t *".to_string()])],
        },
        DeviceSnapshot { device: device("carol", "tag"), rec_files: Vec::new() },
    ];
    accountant.update(&snapshot);

    assert_eq!(accountant.points_total("alice", "phone"), 2);
    assert_eq!(accountant.lwts_total("alice", "phone"), 1);
    assert_eq!(accountant.points_total("bob", "watch"), 1);
    assert_eq!(accountant.lwts_total("bob", "watch"), 0);
    assert_eq!(accountant.points_total("carol", "tag"), 0);
    assert_eq!(accountant.lwts_total("carol", "tag"), 0);
    assert_eq!(accountant.points_total("nobody", "nothing"), 0);
}
