use owntracks_exporter::accountant::{DeviceSnapshot, StorageAccountant};
use owntracks_exporter::devices::StorageDevice;

fn snapshot_of(lines: Vec<String>) -> Vec<DeviceSnapshot> {
    vec![
        DeviceSnapshot {
            device: StorageDevice {
                user_name: "alice".to_string(),
                device_name: "phone".to_string(),
            },
            rec_files: vec![Some(lines)],
        },
    ]
}

#[test]
fn appending_n_point_lines_raises_points_by_n() {
    let mut accountant = StorageAccountant::new().expect("metric registration failed");
    let mut lines = vec!["t * a".to_string(), "t lwt".to_string()];
    accountant.update(&snapshot_of(lines.clone()));
    let points_before = accountant.points_total("alice", "phone");
    let lwts_before = accountant.lwts_total("alice", "phone");

    for i in 0..3 {
        lines.push(format!("t * appended{i}"));
    }
    accountant.update(&snapshot_of(lines));
    assert_eq!(accountant.points_total("alice", "phone"), points_before + 3);
    assert_eq!(accountant.lwts_total("alice", "phone"), lwts_before);
}
