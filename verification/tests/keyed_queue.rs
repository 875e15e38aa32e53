use aizumi::keyed_queue::MsgQueuePool;
use aizumi::message::{MsgType, Request};

fn msg(id: i32) -> Request {
    Request::new(MsgType::MSG_SEND_REQ, 1, 100, id, format!("m{id}"))
}

#[test]
fn dequeue_with_id_takes_the_first_message_with_that_id() {
    let mut pool = MsgQueuePool::new();
    pool.enqueue(msg(1), 100);
    pool.enqueue(msg(2), 100);
    let mut dup = msg(1);
    dup.payload = "again".to_string();
    pool.enqueue(dup, 100);
    assert_eq!(pool.dequeue_with_id(100, 1).map(|m| m.payload), Some("m1".to_string()));
    assert_eq!(pool.dequeue_with_id(100, 1).map(|m| m.payload), Some("again".to_string()));
    assert!(pool.dequeue_with_id(100, 1).is_none());
    assert_eq!(pool.dequeue_with_id(100, 2).map(|m| m.id), Some(2));
}

#[test]
fn dequeue_with_id_from_absent_queue_or_unknown_id_is_none() {
    let mut pool = MsgQueuePool::default();
    assert!(pool.dequeue_with_id(3, 1).is_none());
    pool.add_queue(3);
    assert!(pool.dequeue_with_id(3, 1).is_none());
    pool.enqueue(msg(5), 3);
    assert!(pool.dequeue_with_id(3, 6).is_none());
    assert!(pool.dequeue_with_id(4, 5).is_none());
    assert_eq!(pool.dequeue_with_id(3, 5).map(|m| m.id), Some(5));
}

#[test]
fn add_queue_replaces_and_remove_queue_drops() {
    let mut pool = MsgQueuePool::new();
    pool.enqueue(msg(5), 3);
    pool.add_queue(3);
    assert!(pool.dequeue_with_id(3, 5).is_none());
    pool.enqueue(msg(6), 3);
    pool.remove_queue(3);
    assert!(pool.dequeue_with_id(3, 6).is_none());
}
