use kontrocode::stream::EventBuffer;

#[test]
fn buffer_evicts_oldest() {
    let mut b = EventBuffer::new(2);
    b.push("1".to_string());
    b.push("2".to_string());
    b.push("3".to_string());
    let snap = b.snapshot();
    assert_eq!(snap.len(), 2);
    assert_eq!(snap, vec!["2".to_string(), "3".to_string()]);
}

#[test]
fn buffer_clear_empties() {
    let mut b = EventBuffer::new(8);
    b.push("x".to_string());
    b.clear();
    assert!(b.snapshot().is_empty());
}

#[test]
fn buffer_keeps_last_events_in_order() {
    let mut b = EventBuffer::new(3);
    for i in 0..10 {
        b.push(i);
    }
    assert_eq!(b.snapshot(), vec![7, 8, 9]);
    assert_eq!(b.len(), 3);
}
