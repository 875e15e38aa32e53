use aizumi::message::{MsgType, Request, Response};
use aizumi::messaging::{is_handled, treat_msg};
use aizumi::queue::{MsgQueue, MsgQueuePool};

const BROKER: i32 = 5000;

fn req(t: MsgType, saddr: i32, daddr: i32, id: i32, payload: &str) -> Request {
    Request::new(t, saddr, daddr, id, payload.to_string())
}

fn assert_ok(r: &Response, t: MsgType, saddr: i32, daddr: i32, id: i32, payload: &str) {
    assert_eq!(r.code, 200);
    assert_eq!(r.status, "OK");
    assert_eq!(r.msg_type, t);
    assert_eq!(r.saddr, saddr);
    assert_eq!(r.daddr, daddr);
    assert_eq!(r.id, id);
    assert_eq!(r.payload, payload);
}

fn assert_not_found(r: &Response) {
    assert_eq!(r.code, 404);
    assert_eq!(r.status, "Not Found");
    assert_eq!(r.msg_type, MsgType::MSG_SEND_REQ);
    assert_eq!((r.saddr, r.daddr, r.id), (0, 0, 0));
    assert_eq!(r.payload, "");
}

#[test]
fn send_request_is_acknowledged_and_queued() {
    let mut pool = MsgQueuePool::new();
    let r = treat_msg(req(MsgType::MSG_SEND_REQ, 1, 100, 12000, "hello"), &mut pool, BROKER);
    assert_ok(&r, MsgType::MSG_SEND_ACK, BROKER, 1, 12000, "");
    assert!(pool.is_exist(&100));
    assert!(!pool.is_empty(100));
}

#[test]
fn receive_returns_the_sent_message() {
    let mut pool = MsgQueuePool::new();
    treat_msg(req(MsgType::MSG_SEND_REQ, 1, 100, 12000, "hello"), &mut pool, BROKER);
    let r = treat_msg(req(MsgType::MSG_RECV_REQ, 100, 5000, 0, ""), &mut pool, BROKER);
    assert_ok(&r, MsgType::MSG_RECV_ACK, 1, 100, 12000, "hello");
    // the queue stays, now empty
    assert!(pool.is_exist(&100));
    assert!(pool.is_empty(100));
}

#[test]
fn receive_from_an_empty_queue_is_not_found() {
    let mut pool = MsgQueuePool::new();
    let r = treat_msg(req(MsgType::MSG_RECV_REQ, 100, 5000, 0, ""), &mut pool, BROKER);
    assert_not_found(&r);
    assert!(!pool.is_exist(&100));
}

#[test]
fn receive_takes_the_earliest_message_first() {
    let mut pool = MsgQueuePool::new();
    treat_msg(req(MsgType::MSG_SEND_REQ, 1, 100, 1, "first"), &mut pool, BROKER);
    treat_msg(req(MsgType::MSG_SEND_REQ, 2, 100, 2, "second"), &mut pool, BROKER);
    let r = treat_msg(req(MsgType::MSG_RECV_REQ, 100, 5000, 0, ""), &mut pool, BROKER);
    assert_ok(&r, MsgType::MSG_RECV_ACK, 1, 100, 1, "first");
    let r = treat_msg(req(MsgType::MSG_RECV_REQ, 100, 5000, 0, ""), &mut pool, BROKER);
    assert_ok(&r, MsgType::MSG_RECV_ACK, 2, 100, 2, "second");
    let r = treat_msg(req(MsgType::MSG_RECV_REQ, 100, 5000, 0, ""), &mut pool, BROKER);
    assert_not_found(&r);
}

#[test]
fn free_request_is_acknowledged_without_change() {
    let mut pool = MsgQueuePool::new();
    treat_msg(req(MsgType::MSG_SEND_REQ, 1, 100, 7, "x"), &mut pool, BROKER);
    let r = treat_msg(req(MsgType::MSG_FREE_REQ, 100, 5000, 12000, ""), &mut pool, BROKER);
    assert_ok(&r, MsgType::MSG_FREE_ACK, BROKER, 100, 12000, "");
    assert!(!pool.is_empty(100));
}

#[test]
fn push_request_is_not_supported() {
    let mut pool = MsgQueuePool::new();
    treat_msg(req(MsgType::MSG_SEND_REQ, 1, 100, 9, "payload"), &mut pool, BROKER);
    let r = treat_msg(req(MsgType::MSG_PUSH_REQ, 5000, 100, 0, ""), &mut pool, BROKER);
    assert_eq!(r.code, 400);
    assert_eq!(r.status, "Bad Request");
    assert_eq!(r.msg_type, MsgType::MSG_SEND_REQ);
    assert_eq!((r.saddr, r.daddr, r.id), (0, 0, 0));
    assert!(!pool.is_empty(100));
}

#[test]
fn hello_empties_an_existing_queue_and_creates_none() {
    let mut pool = MsgQueuePool::new();
    let r = treat_msg(req(MsgType::MSG_HELO_REQ, 1, 5000, 0, ""), &mut pool, BROKER);
    assert_ok(&r, MsgType::MSG_HELO_ACK, BROKER, 1, 0, "");
    assert!(!pool.is_exist(&1));
    treat_msg(req(MsgType::MSG_SEND_REQ, 2, 1, 3, "m"), &mut pool, BROKER);
    treat_msg(req(MsgType::MSG_HELO_REQ, 1, 5000, 0, ""), &mut pool, BROKER);
    assert!(pool.is_exist(&1));
    assert!(pool.is_empty(1));
}

#[test]
fn stat_request_answers_with_an_empty_json_object() {
    let mut pool = MsgQueuePool::new();
    let r = treat_msg(req(MsgType::MSG_STAT_REQ, 1, 5000, 4, ""), &mut pool, BROKER);
    assert_ok(&r, MsgType::MSG_STAT_RES, BROKER, 1, 4, "{}");
}

#[test]
fn goodbye_removes_the_queue() {
    let mut pool = MsgQueuePool::new();
    treat_msg(req(MsgType::MSG_SEND_REQ, 2, 1, 3, "m"), &mut pool, BROKER);
    let r = treat_msg(req(MsgType::MSG_GBYE_REQ, 1, 5000, 0, ""), &mut pool, BROKER);
    assert_ok(&r, MsgType::MSG_GBYE_ACK, BROKER, 1, 0, "");
    assert!(!pool.is_exist(&1));
    let r = treat_msg(req(MsgType::MSG_RECV_REQ, 1, 5000, 0, ""), &mut pool, BROKER);
    assert_not_found(&r);
}

#[test]
fn only_request_kinds_are_handled() {
    assert!(is_handled(MsgType::MSG_SEND_REQ));
    assert!(is_handled(MsgType::MSG_GBYE_REQ));
    assert!(is_handled(MsgType::MSG_PUSH_REQ));
    assert!(!is_handled(MsgType::MSG_SEND_ACK));
    assert!(!is_handled(MsgType::MSG_PUSH_ACK));
    assert!(!is_handled(MsgType::MSG_STAT_RES));
}

#[test]
fn error_and_default_responses() {
    let e = Response::create_error_response();
    assert_eq!(e.code, 500);
    assert_eq!(e.status, "Internal Server Error");
    assert_eq!(e.msg_type, MsgType::MSG_SEND_REQ);
    assert_eq!((e.saddr, e.daddr, e.id), (0, 0, 0));
    assert_eq!(e.payload, "");
    let d = Response::default();
    assert_eq!(d.code, 200);
    assert_eq!(d.status, "OK");
    let n = Response::new(MsgType::MSG_HELO_ACK, 1, 2, 3, "p".to_string());
    assert_ok(&n, MsgType::MSG_HELO_ACK, 1, 2, 3, "p");
}

#[test]
fn message_kinds_have_protocol_codes_and_acks() {
    assert_eq!(MsgType::MSG_SEND_REQ.code(), 1);
    assert_eq!(MsgType::MSG_GBYE_ACK.code(), 14);
    assert_eq!(MsgType::MSG_STAT_RES.code(), 12);
    for c in 1..=14 {
        assert_eq!(MsgType::from_code(c).unwrap().code(), c);
    }
    assert_eq!(MsgType::from_code(0), None);
    assert_eq!(MsgType::from_code(15), None);
    assert_eq!(MsgType::MSG_STAT_REQ.ack(), Some(MsgType::MSG_STAT_RES));
    assert_eq!(MsgType::MSG_PUSH_REQ.ack(), Some(MsgType::MSG_PUSH_ACK));
    assert_eq!(MsgType::MSG_SEND_ACK.ack(), None);
    assert_eq!(MsgType::default(), MsgType::MSG_SEND_REQ);
}

#[test]
fn queue_is_first_in_first_out() {
    let mut q = MsgQueue::new();
    assert!(q.is_empty());
    assert!(q.dequeue().is_none());
    q.enqueue(req(MsgType::MSG_SEND_REQ, 1, 2, 10, "a"));
    q.enqueue(req(MsgType::MSG_SEND_REQ, 1, 2, 11, "b"));
    assert_eq!(q.dequeue().unwrap().id, 10);
    q.enqueue(req(MsgType::MSG_SEND_REQ, 1, 2, 12, "c"));
    assert_eq!(q.dequeue().unwrap().id, 11);
    assert_eq!(q.dequeue().unwrap().id, 12);
    assert!(q.dequeue().is_none());
}

#[test]
fn pool_add_remove_and_queries() {
    let mut pool = MsgQueuePool::default();
    assert!(!pool.is_exist(&7));
    assert!(pool.is_empty(7));
    let mut q = MsgQueue::default();
    q.enqueue(req(MsgType::MSG_SEND_REQ, 1, 7, 1, "x"));
    pool.add_queue(7, q);
    assert!(pool.is_exist(&7));
    assert!(!pool.is_empty(7));
    assert_eq!(pool.dequeue(8).map(|m| m.id), None);
    assert_eq!(pool.dequeue(7).map(|m| m.id), Some(1));
    pool.remove_queue(7);
    assert!(!pool.is_exist(&7));
    pool.enqueue(req(MsgType::MSG_SEND_REQ, 1, 7, 2, "y"), 7);
    assert_eq!(pool.dequeue(7).map(|m| m.payload), Some("y".to_string()));
}

#[test]
fn queues_of_different_clients_are_independent() {
    let mut pool = MsgQueuePool::new();
    pool.enqueue(req(MsgType::MSG_SEND_REQ, 1, 10, 1, "to ten"), 10);
    pool.enqueue(req(MsgType::MSG_SEND_REQ, 1, 20, 2, "to twenty"), 20);
    assert_eq!(pool.dequeue(10).map(|m| m.payload), Some("to ten".to_string()));
    assert!(!pool.is_empty(20));
    let r = treat_msg(req(MsgType::MSG_STAT_REQ, 20, 5000, 0, ""), &mut pool, BROKER);
    assert_eq!(r.code, 200);
    assert_eq!(pool.dequeue(20).map(|m| m.payload), Some("to twenty".to_string()));
}

#[test]
fn pool_dequeues_in_sending_order() {
    let mut p = MsgQueuePool::new();
    p.enqueue(req(MsgType::MSG_SEND_REQ, 1, 100, 1, "a"), 100);
    p.enqueue(req(MsgType::MSG_SEND_REQ, 1, 100, 2, "b"), 100);
    let first = p.dequeue(100).unwrap();
    assert_eq!((first.id, first.payload.as_str()), (1, "a"));
    assert!(!p.is_empty(100));
    assert_eq!(p.dequeue(100).unwrap().id, 2);
    assert!(p.is_empty(100));
    assert!(p.dequeue(100).is_none());
}
