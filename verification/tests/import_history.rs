use knowledge_os::hashing::{content_hash, detect_conflicts};
use knowledge_os::history::{
    get_content_hashes, get_import_history, get_previous_hashes, record_import, record_import_at,
    undo_last_import, ImportHistory,
};

#[test]
fn test_record_and_undo() {
    let mut history = ImportHistory::new();
    let hash = content_hash(b"test content for record");
    let entity_id: u128 = 42;
    let record = record_import(&mut history, "/tmp/file.md", vec![entity_id], "test", Some(hash)).unwrap();
    assert_eq!(record.entity_ids.len(), 1);
    assert_eq!(record.format, "test");
    let undone = undo_last_import(&mut history).unwrap();
    assert!(undone.is_some());
    assert_eq!(undone.unwrap().entity_ids[0], entity_id);
}

#[test]
fn test_conflict_detection() {
    let mut history = ImportHistory::new();
    let content = "conflict_test_content";
    let f1_hash = content_hash(content.as_bytes());
    record_import(&mut history, "/tmp/f1.md", vec![7], "test", Some(f1_hash)).unwrap();
    let all_hashes = get_previous_hashes(&history);
    let f2_hash = content_hash(content.as_bytes());
    let is_conflict = all_hashes.iter().any(|(_, h)| h == &f2_hash);
    assert!(is_conflict);
    let report = detect_conflicts(&vec![("/tmp/f2.md".to_string(), Some(content.as_bytes().to_vec()))], &all_hashes);
    assert_eq!(report, vec![("/tmp/f2.md".to_string(), true)]);
}

#[test]
fn history_keeps_order_and_latest_hash_per_file() {
    let mut h = ImportHistory::new();
    record_import_at(&mut h, "a.md", vec![1], "markdown", Some("h1".to_string()), 10, "T1").unwrap();
    record_import_at(&mut h, "b.md", vec![2, 3], "markdown", None, 11, "T2").unwrap();
    record_import_at(&mut h, "a.md", vec![4], "markdown", Some("h2".to_string()), 12, "T3").unwrap();
    let all = get_import_history(&h);
    assert_eq!(all.iter().map(|r| r.id).collect::<Vec<_>>(), vec![10, 11, 12]);
    assert_eq!(all[1].imported_at, "T2");
    assert_eq!(get_content_hashes(&h), vec![("a.md".to_string(), "h2".to_string())]);
    let last = undo_last_import(&mut h).unwrap().unwrap();
    assert_eq!(last.id, 12);
    assert_eq!(get_import_history(&h).len(), 2);
    assert_eq!(get_content_hashes(&h), vec![("a.md".to_string(), "h2".to_string())]);
    undo_last_import(&mut h).unwrap();
    undo_last_import(&mut h).unwrap();
    assert_eq!(undo_last_import(&mut h).unwrap(), None);
}
