use parquet_shell::MyHistory;

#[test]
fn three_writes_read_back_most_recent_first() {
    let mut h = MyHistory::new();
    h.write("a");
    h.write("b");
    h.write("c");
    assert_eq!(h.read(0), Some("c".to_string()));
    assert_eq!(h.read(1), Some("b".to_string()));
    assert_eq!(h.read(2), Some("a".to_string()));
    assert_eq!(h.read(3), None);
}

#[test]
fn empty_history_reads_nothing() {
    let h = MyHistory::default();
    assert_eq!(h.read(0), None);
}

#[test]
fn duplicates_are_kept() {
    let mut h = MyHistory::new();
    h.write("select 1");
    h.write("select 1");
    assert_eq!(h.read(0), Some("select 1".to_string()));
    assert_eq!(h.read(1), Some("select 1".to_string()));
    assert_eq!(h.read(2), None);
}

#[test]
fn far_position_reads_nothing() {
    let mut h = MyHistory::new();
    h.write("x");
    assert_eq!(h.read(usize::MAX), None);
}
