use theseus::stream_table::StreamTable;

#[test]
fn streams_are_found_under_their_task_id() {
    let mut t: StreamTable<&str> = StreamTable::new();
    assert_eq!(t.get(1), None);
    assert_eq!(t.insert(1, "one"), None);
    assert_eq!(t.insert(7, "seven"), None);
    assert_eq!(t.get(1), Some(&"one"));
    assert_eq!(t.insert(1, "uno"), Some("one"));
    assert_eq!(t.get(1), Some(&"uno"));
    assert_eq!(t.remove(7), Some("seven"));
    assert_eq!(t.remove(7), None);
    assert_eq!(t.get(7), None);
    assert_eq!(t.get(1), Some(&"uno"));
}

#[test]
fn removing_an_early_entry_keeps_the_later_ones_reachable() {
    let mut t: StreamTable<u32> = StreamTable::new();
    assert_eq!(t.insert(10, 100), None);
    assert_eq!(t.insert(20, 200), None);
    assert_eq!(t.insert(30, 300), None);
    assert_eq!(t.remove(10), Some(100));
    assert_eq!(t.get(10), None);
    assert_eq!(t.get(20), Some(&200));
    assert_eq!(t.get(30), Some(&300));
    assert_eq!(t.insert(30, 301), Some(300));
    assert_eq!(t.remove(20), Some(200));
    assert_eq!(t.get(30), Some(&301));
    assert_eq!(t.remove(30), Some(301));
    assert_eq!(t.get(30), None);
    assert_eq!(t.insert(10, 101), None);
    assert_eq!(t.get(10), Some(&101));
}
