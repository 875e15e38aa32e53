use aizumi::broker::{
    ack_header, get_msg_id, renumber, is_ready_to_send, timeout_push_header, BrokerState, ClientAction,
    ClientConnection, ClientEvent, ClientQueue, Message, MessageHeader, ACK_MSG_ID, FIRST_MSG_ID,
};
use aizumi::message::MsgType;

fn message(t: MsgType, saddr: u32, daddr: u32, id: u32, payload: &[u8]) -> Message {
    let mut m = Message::new(MessageHeader::new(t, saddr, daddr, id));
    m.payload = payload.to_vec();
    m
}

#[test]
fn messages_are_pushed_in_order_one_at_a_time() {
    let mut st = BrokerState::new();
    st.apply(message(MsgType::MSG_HELO_REQ, 100, 5000, 0, b""));
    assert!(st.has_queue(100));
    st.apply(message(MsgType::MSG_SEND_REQ, 1, 100, 1, b"one"));
    st.apply(message(MsgType::MSG_SEND_REQ, 1, 100, 2, b"two"));
    assert!(st.ready_to_send(100));
    let push = MessageHeader::new(MsgType::MSG_PUSH_REQ, 100, 0, 0);
    let p = st.apply(Message::new(push)).unwrap();
    assert_eq!(p.header, MessageHeader::new(MsgType::MSG_PUSH_REQ, 1, 100, 1));
    assert_eq!(p.payload, b"one");
    // one message out: nothing more is pushed until it is released
    assert!(!st.ready_to_send(100));
    assert!(st.apply(Message::new(push)).is_none());
    let free = MessageHeader::new(MsgType::MSG_FREE_REQ, 100, 5000, 1);
    assert!(st.can_apply(&free));
    assert!(st.apply(Message::new(free)).is_none());
    assert!(!st.can_apply(&free));
    let p = st.apply(Message::new(push)).unwrap();
    assert_eq!(p.header.id, 2);
    assert_eq!(p.payload, b"two");
}

#[test]
fn apply_preconditions() {
    let st = BrokerState::new();
    assert!(!st.can_apply(&MessageHeader::new(MsgType::MSG_PUSH_REQ, 1, 0, 0)));
    assert!(!st.can_apply(&MessageHeader::new(MsgType::MSG_FREE_REQ, 1, 0, 3)));
    assert!(st.can_apply(&MessageHeader::new(MsgType::MSG_SEND_REQ, 1, 2, 3)));
    assert!(!st.ready_to_send(1));
}

#[test]
fn hello_keeps_an_existing_queue() {
    let mut st = BrokerState::new();
    st.apply(message(MsgType::MSG_SEND_REQ, 1, 7, 1, b"x"));
    st.apply(message(MsgType::MSG_HELO_REQ, 7, 5000, 0, b""));
    assert!(st.ready_to_send(7));
    assert!(st.apply(message(MsgType::MSG_STAT_REQ, 7, 5000, 0, b"")).is_none());
}

#[test]
fn client_queue_readiness() {
    let mut q = ClientQueue::new();
    assert!(!is_ready_to_send(&q));
    q.waiting_queue.push(message(MsgType::MSG_SEND_REQ, 1, 2, 3, b""));
    assert!(is_ready_to_send(&q));
    q.delivered_queue.push(message(MsgType::MSG_PUSH_REQ, 1, 2, 4, b""));
    assert!(!is_ready_to_send(&q));
}

#[test]
fn acknowledgement_headers_and_ids() {
    let h = MessageHeader::new(MsgType::MSG_SEND_REQ, 1, 5000, 77);
    assert_eq!(ack_header(h, 5000), Some(MessageHeader::new(MsgType::MSG_SEND_ACK, 5000, 1, ACK_MSG_ID)));
    assert_eq!(ack_header(MessageHeader::new(MsgType::MSG_STAT_REQ, 3, 5000, 1), 9).unwrap().msg_type, MsgType::MSG_STAT_RES);
    assert_eq!(ack_header(MessageHeader::new(MsgType::MSG_SEND_ACK, 1, 2, 3), 9), None);
    let mut counter = FIRST_MSG_ID;
    assert_eq!(get_msg_id(&mut counter), 1);
    assert_eq!(get_msg_id(&mut counter), 2);
    assert_eq!(counter, 3);
    let mut h2 = h;
    h2.change_msg_type(MsgType::MSG_PUSH_REQ);
    assert_eq!(h2, MessageHeader::new(MsgType::MSG_PUSH_REQ, 1, 5000, 77));
    let m = message(MsgType::MSG_SEND_REQ, 1, 2, 3, b"abc");
    let d = m.duplicate();
    assert_eq!(d.header, m.header);
    assert_eq!(d.payload, m.payload);
}

#[test]
fn connection_steps() {
    let mut c = ClientConnection::new();
    let h = |t, saddr, id| MessageHeader::new(t, saddr, 5000, id);
    let ack = |t, to| MessageHeader::new(t, 5000, to, ACK_MSG_ID);
    assert_eq!(c.step(5000, ClientEvent::TimedOut), ClientAction::PushIfReady { client: 0 });
    assert_eq!(
        c.step(5000, ClientEvent::Received(h(MsgType::MSG_HELO_REQ, 100, 0))),
        ClientAction::ProposeRegisterAck { ack: ack(MsgType::MSG_HELO_ACK, 100), payload_id: 0 }
    );
    assert_eq!(c.client_id, 100);
    assert_eq!(
        c.step(5000, ClientEvent::Received(h(MsgType::MSG_SEND_REQ, 1, 9))),
        ClientAction::RenumberProposeAck { ack: ack(MsgType::MSG_SEND_ACK, 1), payload_id: 9 }
    );
    assert_eq!(
        c.step(5000, ClientEvent::Received(h(MsgType::MSG_FREE_REQ, 100, 9))),
        ClientAction::ProposeAckThenPush { ack: ack(MsgType::MSG_FREE_ACK, 100), payload_id: 9, client: 100 }
    );
    assert_eq!(
        c.step(5000, ClientEvent::Received(h(MsgType::MSG_STAT_REQ, 100, 0))),
        ClientAction::AckWithStatus { ack: ack(MsgType::MSG_STAT_RES, 100) }
    );
    assert_eq!(c.step(5000, ClientEvent::Received(h(MsgType::MSG_RECV_REQ, 100, 0))), ClientAction::Ignore);
    assert_eq!(c.step(5000, ClientEvent::Received(h(MsgType::MSG_PUSH_ACK, 100, 0))), ClientAction::Ignore);
    assert_eq!(c.step(5000, ClientEvent::TimedOut), ClientAction::PushIfReady { client: 100 });
    assert_eq!(c.step(5000, ClientEvent::ReadFailed), ClientAction::Stop);
    assert_eq!(c.client_id, 100);
    assert_eq!(timeout_push_header(42), MessageHeader::new(MsgType::MSG_PUSH_REQ, 42, 0, 0));
}

#[test]
fn sent_messages_are_renumbered_before_logging() {
    let mut counter = 41;
    let m = renumber(message(MsgType::MSG_SEND_REQ, 1, 100, 12000, b"hi"), &mut counter);
    assert_eq!(m.header, MessageHeader::new(MsgType::MSG_SEND_REQ, 1, 100, 41));
    assert_eq!(m.payload, b"hi");
    assert_eq!(counter, 42);
}
