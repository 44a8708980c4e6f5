use chat_transport::buffer::BoundedBuffer;
use chat_transport::message::ChatMessage;

fn numbered(n: i64) -> ChatMessage {
    ChatMessage {
        username: "bob".to_string(),
        content: format!("message {}", n),
        message_type: "text".to_string(),
        sender_id: 2,
        receiver_id: 1,
        timestamp: n,
        target_type: "person".to_string(),
        direction: "receive".to_string(),
    }
}

#[test]
fn new_buffer_is_empty() {
    let buffer = BoundedBuffer::new(100);
    assert_eq!(buffer.capacity(), 100);
    assert_eq!(buffer.len(), 0);
    assert!(buffer.is_empty());
}

#[test]
fn push_keeps_everything_while_there_is_room() {
    let mut buffer = BoundedBuffer::new(3);
    assert_eq!(buffer.push(numbered(1)), None);
    assert_eq!(buffer.push(numbered(2)), None);
    assert_eq!(buffer.push(numbered(3)), None);
    assert_eq!(buffer.len(), 3);
    assert!(!buffer.is_empty());
    assert_eq!(buffer.take_all(), vec![numbered(1), numbered(2), numbered(3)]);
}

#[test]
fn push_on_a_full_buffer_drops_the_oldest() {
    let mut buffer = BoundedBuffer::new(3);
    for n in 1..=3 {
        let _ = buffer.push(numbered(n));
    }
    assert_eq!(buffer.push(numbered(4)), Some(numbered(1)));
    assert_eq!(buffer.push(numbered(5)), Some(numbered(2)));
    assert_eq!(buffer.len(), 3);
    assert_eq!(buffer.take_all(), vec![numbered(3), numbered(4), numbered(5)]);
}

#[test]
fn buffer_without_capacity_drops_what_it_is_given() {
    let mut buffer = BoundedBuffer::new(0);
    assert_eq!(buffer.push(numbered(1)), Some(numbered(1)));
    assert_eq!(buffer.len(), 0);
    assert_eq!(buffer.pop(), None);
}

#[test]
fn pop_takes_the_oldest_first() {
    let mut buffer = BoundedBuffer::new(2);
    assert_eq!(buffer.pop(), None);
    let _ = buffer.push(numbered(1));
    let _ = buffer.push(numbered(2));
    assert_eq!(buffer.pop(), Some(numbered(1)));
    let _ = buffer.push(numbered(3));
    assert_eq!(buffer.pop(), Some(numbered(2)));
    assert_eq!(buffer.pop(), Some(numbered(3)));
    assert_eq!(buffer.pop(), None);
    assert!(buffer.is_empty());
}

#[test]
fn take_all_empties_the_buffer() {
    let mut buffer = BoundedBuffer::new(4);
    assert!(buffer.take_all().is_empty());
    let _ = buffer.push(numbered(1));
    let _ = buffer.push(numbered(2));
    assert_eq!(buffer.take_all().len(), 2);
    assert_eq!(buffer.len(), 0);
    assert_eq!(buffer.capacity(), 4);
}

#[test]
fn buffer_of_a_hundred_keeps_the_last_hundred_of_150() {
    let mut buffer = BoundedBuffer::new(100);
    let mut dropped: Vec<i64> = Vec::new();
    for n in 0..150 {
        if let Some(oldest) = buffer.push(numbered(n)) {
            dropped.push(oldest.timestamp);
        }
    }
    let expected_dropped: Vec<i64> = (0..50).collect();
    assert_eq!(dropped, expected_dropped);
    let held: Vec<i64> = buffer.take_all().iter().map(|m| m.timestamp).collect();
    let expected_held: Vec<i64> = (50..150).collect();
    assert_eq!(held, expected_held);
}
