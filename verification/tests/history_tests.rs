use rubytext::history::HistoryLog;

#[test]
fn recording_past_capacity_evicts_the_oldest() {
    let mut log = HistoryLog::new();
    for i in 0..1001 {
        let changed = log
            .record_translation_history(format!("original {i}"), format!("translation {i}"));
        assert!(changed);
    }
    let entries = log.get_translation_history();
    assert_eq!(entries.len(), 1000);
    // Entry 0 was evicted; entry 1 is now the oldest and 1000 the newest.
    assert_eq!(entries[0].original, "original 1");
    assert_eq!(entries[999].original, "original 1000");
    assert_eq!(entries[999].translation, "translation 1000");
}

#[test]
fn blank_original_or_translation_is_not_recorded() {
    let mut log = HistoryLog::new();
    assert!(!log.record_translation_history("".to_string(), "t".to_string()));
    assert!(!log.record_translation_history("  ".to_string(), "t".to_string()));
    assert!(!log.record_translation_history("o".to_string(), "".to_string()));
    assert!(!log.record_translation_history("o".to_string(), " \t ".to_string()));
    assert_eq!(log.get_translation_history().len(), 0);
}

#[test]
fn entries_keep_arrival_order() {
    let mut log = HistoryLog::new();
    log.record_translation_history("a".to_string(), "1".to_string());
    log.record_translation_history("b".to_string(), "2".to_string());
    log.record_translation_history("c".to_string(), "3".to_string());
    let entries = log.get_translation_history();
    let originals: Vec<&str> = entries.iter().map(|e| e.original.as_str()).collect();
    assert_eq!(originals, vec!["a", "b", "c"]);
}

#[test]
fn listing_returns_a_copy() {
    let mut log = HistoryLog::new();
    log.record_translation_history("a".to_string(), "1".to_string());
    let mut snapshot = log.get_translation_history();
    snapshot.clear();
    assert_eq!(log.get_translation_history().len(), 1);
}
