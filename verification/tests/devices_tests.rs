use owntracks_exporter::aggregate::aggregate_files;
use owntracks_exporter::devices::get_devices;
use owntracks_exporter::listing::{get_all_dir_entries, EntryInfo};

fn users(list: &[(&str, &[&str])]) -> Vec<(String, Vec<String>)> {
    list.iter()
        .map(|(u, ds)| (u.to_string(), ds.iter().map(|d| d.to_string()).collect()))
        .collect()
}

#[test]
fn cross_product_enumeration() {
    let devices = get_devices(&users(&[("alice", &["phone", "watch"]), ("bob", &["phone"])]));
    let pairs: Vec<(&str, &str)> = devices
        .iter()
        .map(|d| (d.user_name.as_str(), d.device_name.as_str()))
        .collect();
    assert_eq!(pairs, vec![("alice", "phone"), ("alice", "watch"), ("bob", "phone")]);
}

#[test]
fn user_without_devices_contributes_nothing() {
    let with_empty = get_devices(&users(&[
        ("alice", &["phone"]),
        ("carol", &[]),
        ("bob", &["phone"]),
    ]));
    let without = get_devices(&users(&[("alice", &["phone"]), ("bob", &["phone"])]));
    assert_eq!(with_empty, without);
    assert_eq!(with_empty.len(), 2);
}

#[test]
fn no_users_no_devices() {
    assert!(get_devices(&Vec::new()).is_empty());
}

fn entry(name: Option<&str>, is_dir: bool, is_file: bool) -> Option<EntryInfo> {
    Some(EntryInfo { name: name.map(|n| n.to_string()), is_dir, is_file })
}

#[test]
fn lister_keeps_wanted_kind_in_order() {
    let entries = vec![
        entry(Some("alice"), true, false),
        entry(Some("notes.txt"), false, true),
        entry(Some("bob"), true, false),
    ];
    assert_eq!(get_all_dir_entries(&entries, true), vec!["alice".to_string(), "bob".to_string()]);
    assert_eq!(get_all_dir_entries(&entries, false), vec!["notes.txt".to_string()]);
}

#[test]
fn lister_skips_unreadable_and_nameless_entries() {
    let entries = vec![
        entry(Some("a"), true, false),
        None,
        entry(None, true, false),
        entry(Some("b"), true, false),
    ];
    assert_eq!(get_all_dir_entries(&entries, true), vec!["a".to_string(), "b".to_string()]);
}

#[test]
fn lister_of_nothing_is_empty() {
    assert!(get_all_dir_entries(&Vec::new(), true).is_empty());
}

#[test]
fn unreadable_file_is_isolated() {
    let readable1 = vec!["t * a".to_string(), "t lwt".to_string()];
    let readable2 = vec!["t * b".to_string()];
    let with_failure = vec![Some(readable1.clone()), None, Some(readable2.clone())];
    let only_readable = vec![Some(readable1), Some(readable2)];
    let a = aggregate_files(&with_failure);
    let b = aggregate_files(&only_readable);
    assert_eq!(a.points_count_total, b.points_count_total);
    assert_eq!(a.lwts_count_total, b.lwts_count_total);
    assert_eq!(a.points_count_total, 2);
    assert_eq!(a.lwts_count_total, 1);
}

#[test]
fn all_files_unreadable_counts_zero() {
    let stats = aggregate_files(&vec![None, None]);
    assert_eq!(stats.points_count_total, 0);
    assert_eq!(stats.lwts_count_total, 0);
}

#[test]
fn totals_sum_over_files() {
    let stats = aggregate_files(&vec![
        Some(vec!["t *".to_string(), "t *".to_string()]),
        Some(vec!["t lwt".to_string(), "junk".to_string(), "t *".to_string()]),
    ]);
    assert_eq!(stats.points_count_total, 3);
    assert_eq!(stats.lwts_count_total, 1);
}
