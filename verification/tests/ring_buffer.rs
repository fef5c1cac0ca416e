//! The bounded FIFO on its own.

use ezboard::history::RingBuffer;

#[test]
fn wrap() {
    let mut buffer = RingBuffer::new(3);
    buffer.add(1);
    buffer.add(2);
    buffer.add(3);
    buffer.add(4);

    assert_eq!(buffer.peek(), Some(&2));
}

#[test]
fn iterator() {
    let mut buffer = RingBuffer::new(3);
    buffer.add(1);
    buffer.add(2);
    buffer.add(3);
    buffer.add(4);

    let v: Vec<_> = buffer.iter().collect();
    assert_eq!(v, vec![&2, &3, &4]);
}

#[test]
fn zero_capacity_retains_nothing() {
    let mut buffer = RingBuffer::new(0);
    buffer.add(7);
    assert_eq!(buffer.peek(), None::<&i32>);
    assert_eq!(buffer.iter().count(), 0);
}

#[test]
fn partial_fill_keeps_all() {
    let mut buffer = RingBuffer::new(3);
    buffer.add("a".to_string());
    buffer.add("b".to_string());
    let v: Vec<_> = buffer.iter().collect();
    assert_eq!(v, vec!["a", "b"]);
    assert_eq!(buffer.peek(), Some(&"a".to_string()));
}
