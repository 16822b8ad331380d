use aegis::snapshots::snapshots_to_remove;

fn files(list: &[(&str, u64)]) -> Vec<(String, u64)> {
    list.iter().map(|(n, t)| (n.to_string(), *t)).collect()
}

#[test]
fn test_keeps_the_newest_snapshots() {
    let f = files(&[
        ("snapshot_1.json", 10),
        ("snapshot_3.json", 30),
        ("wal.log", 40),
        ("snapshot_2.json", 20),
        ("snapshot_4.json", 5),
    ]);
    assert_eq!(snapshots_to_remove(&f, 2), vec!["snapshot_1.json".to_string(), "snapshot_4.json".to_string()]);
}

#[test]
fn test_nothing_removed_when_few_snapshots() {
    let f = files(&[("snapshot_1.json", 10), ("snapshot_2.json", 20), ("other.json", 1)]);
    assert!(snapshots_to_remove(&f, 2).is_empty());
    assert!(snapshots_to_remove(&f, 5).is_empty());
}

#[test]
fn test_equal_times_keep_listed_order() {
    let f = files(&[("snapshot_a.json", 7), ("snapshot_b.json", 7), ("snapshot_c.json", 7)]);
    assert_eq!(snapshots_to_remove(&f, 1), vec!["snapshot_b.json".to_string(), "snapshot_c.json".to_string()]);
    assert_eq!(snapshots_to_remove(&f, 0).len(), 3);
}

#[test]
fn test_names_must_match_pattern() {
    let f = files(&[("snapshot_1.txt", 1), ("snap_1.json", 2), ("snapshot_.json", 3)]);
    assert_eq!(snapshots_to_remove(&f, 0), vec!["snapshot_.json".to_string()]);
}
