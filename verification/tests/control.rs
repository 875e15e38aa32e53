use aizumi::consensus::{commit_reply, CommitReply, FollowerAdder, ProposalQueue};
use aizumi::message::Response;
use aizumi::session::consensus_answer;
use aizumi::config::{log_target, LogTarget};
use aizumi::consensus::route_messages;
use aizumi::cli::{broker_args, node_opt::Opt, push_receiver_args, receiver_args, sender_args};
use aizumi::config::{int_to_loglevel, LogLevel};
use aizumi::consensus::{
    follower_ids, tick_due, is_initial_msg, is_leader_port, node_id_for_port, proposal_index,
    RaftMessageKind, LEADER_NODE,
};
use aizumi::message::{MsgType, Request};
use aizumi::session::{push_request, ClientSession, SessionAction, SessionEvent};

fn req(t: MsgType, saddr: i32) -> Request {
    Request::new(t, saddr, 5000, 0, String::new())
}

#[test]
fn session_names_its_client_once() {
    let mut s = ClientSession::new();
    assert_eq!(s.client_id, 0);
    assert!(matches!(s.step(SessionEvent::TimedOut), SessionAction::PushIfPending(0)));
    assert!(matches!(s.step(SessionEvent::Received(req(MsgType::MSG_HELO_REQ, 100))), SessionAction::Forward(r) if r.saddr == 100));
    assert_eq!(s.client_id, 100);
    assert!(matches!(s.step(SessionEvent::Received(req(MsgType::MSG_SEND_REQ, 7))), SessionAction::Forward(_)));
    assert_eq!(s.client_id, 100);
    assert!(matches!(s.step(SessionEvent::Received(req(MsgType::MSG_PUSH_ACK, 7))), SessionAction::PushIfPending(100)));
    assert!(matches!(s.step(SessionEvent::Received(req(MsgType::MSG_FREE_REQ, 7))), SessionAction::Ignore));
    assert!(matches!(s.step(SessionEvent::Received(req(MsgType::MSG_GBYE_REQ, 7))), SessionAction::Ignore));
    assert!(matches!(s.step(SessionEvent::ReadFailed), SessionAction::Stop));
    assert!(matches!(s.step(SessionEvent::Closed), SessionAction::Stop));
    let p = push_request(5000, 100);
    assert_eq!((p.msg_type, p.saddr, p.daddr, p.id), (MsgType::MSG_PUSH_REQ, 5000, 100, 0));
    assert_eq!(p.payload, "");
}

#[test]
fn log_levels() {
    assert_eq!(int_to_loglevel(0), LogLevel::Trace);
    assert_eq!(int_to_loglevel(1), LogLevel::Debug);
    assert_eq!(int_to_loglevel(2), LogLevel::Info);
    assert_eq!(int_to_loglevel(3), LogLevel::Warn);
    assert_eq!(int_to_loglevel(4), LogLevel::Error);
    assert_eq!(int_to_loglevel(5), LogLevel::Off);
    assert_eq!(int_to_loglevel(u64::MAX), LogLevel::Off);
}

#[test]
fn consensus_decisions() {
    assert!(is_initial_msg(RaftMessageKind::RequestVote, 5));
    assert!(is_initial_msg(RaftMessageKind::RequestPreVote, 5));
    assert!(is_initial_msg(RaftMessageKind::Heartbeat, 0));
    assert!(!is_initial_msg(RaftMessageKind::Heartbeat, 1));
    assert!(!is_initial_msg(RaftMessageKind::Other, 0));
    assert!(is_leader_port(LEADER_NODE));
    assert!(!is_leader_port(6556));
    assert_eq!(node_id_for_port(6555), Some(1));
    assert_eq!(node_id_for_port(6557), Some(3));
    assert_eq!(node_id_for_port(6554), None);
    assert_eq!(follower_ids(5), vec![2, 3, 4, 5]);
    assert_eq!(follower_ids(1), Vec::<u64>::new());
    assert_eq!(follower_ids(0), Vec::<u64>::new());
    assert!(!tick_due(99));
    assert!(tick_due(100));
    assert_eq!(proposal_index(10, 10), None);
    assert_eq!(proposal_index(10, 11), Some(10));
}

#[test]
fn command_line_defaults_and_summaries() {
    let o = Opt::default();
    assert_eq!((o.id, o.addr.as_str()), (5000, "127.0.0.1:8080"));
    let b = broker_args::Args::default();
    assert_eq!(
        b.summary(),
        "debug_level: 2\naddress: 127.0.0.1:5555\ntimeout: 1\nthreads: 10\nmsgs: 1000\nlog-file: \npid-file: \nmyid: 0\n"
    );
    let p = push_receiver_args::Args::default();
    assert_eq!(p.summary(), "saddr: 100\ndaddr: 5000\nid: 0\nbaddr: 127.0.0.1:21101\nloop_times: 1\n");
    let r = receiver_args::Args::default();
    assert_eq!(r.summary(), "msg_type: MSG_PUSH_ACK\nsaddr: 100\ndaddr: 5000\nid: 0\nbaddr: 127.0.0.1:21101\nloop_times: 1\n");
    let mut s = sender_args::Args::default();
    assert_eq!(s.summary(), "msg_type: MSG_SEND_REQ\nsaddr: 1\ndaddr: 100\nid: 0\nbaddr: 127.0.0.1:21010\nloop_times: 1\n");
    s.loop_times = 1000;
    s.saddr = 42;
    assert_eq!(s.summary(), "msg_type: MSG_SEND_REQ\nsaddr: 42\ndaddr: 100\nid: 0\nbaddr: 127.0.0.1:21010\nloop_times: 1000\n");
}

#[test]
fn messages_are_routed_by_peer_in_order() {
    let msgs = vec![(3, "a"), (2, "b"), (3, "c"), (9, "lost"), (2, "d")];
    let out = route_messages(msgs, &[1, 2, 3]);
    assert_eq!(out, vec![(2, vec!["b", "d"]), (3, vec!["a", "c"])]);
    let none: Vec<(u64, Vec<&str>)> = route_messages(Vec::new(), &[1]);
    assert!(none.is_empty());
}

#[test]
fn log_targets() {
    assert!(matches!(log_target(""), LogTarget::Stdout));
    assert!(matches!(log_target("stdout"), LogTarget::Stdout));
    assert!(matches!(log_target("stderr"), LogTarget::Stderr));
    assert!(matches!(log_target("m-broker.log"), LogTarget::File(f) if f == "m-broker.log"));
    assert!(matches!(log_target("stdou"), LogTarget::File(_)));
}

#[test]
fn proposals_are_answered_oldest_first() {
    let mut q: ProposalQueue<&str> = ProposalQueue::new();
    q.push_back("a");
    q.push_back("b");
    q.push_back("c");
    assert_eq!(q.first_unproposed(), 0);
    q.set_proposed(0, 11);
    q.set_proposed(1, 12);
    assert_eq!(q.first_unproposed(), 2);
    assert_eq!(*q.get(2), "c");
    assert_eq!(q.pop_front(), Some("a"));
    assert_eq!(q.first_unproposed(), 1);
    q.push_back("d");
    q.set_proposed(2, 14);
    // the leading proposed one is skipped; from the first unproposed one on,
    // every proposal is handed in again, also "d", which already was
    assert_eq!(q.first_unproposed(), 1);
    assert_eq!(q.len(), 3);
    assert_eq!(q.pop_front(), Some("b"));
    assert_eq!(q.pop_front(), Some("c"));
    assert_eq!(q.pop_front(), Some("d"));
    assert_eq!(q.pop_front(), None);
}

#[test]
fn committed_entries_replies() {
    assert_eq!(commit_reply(true, true, &[1, 0, 0, 0]), CommitReply::Skip);
    assert_eq!(commit_reply(false, false, &[1, 0, 0, 0]), CommitReply::NoReply);
    assert_eq!(commit_reply(true, false, &[7, 1, 0, 0]), CommitReply::Reply { timings_of: Some(263) });
    assert_eq!(commit_reply(true, false, &[]), CommitReply::Reply { timings_of: None });
}

#[test]
fn followers_are_added_one_by_one_until_accepted() {
    let mut a = FollowerAdder::new(3);
    assert_eq!(a.current(), Some(2));
    a.on_reply(false);
    assert_eq!(a.current(), Some(2));
    a.on_reply(true);
    assert_eq!(a.current(), Some(3));
    a.on_reply(true);
    assert_eq!(a.current(), None);
    assert_eq!(FollowerAdder::new(1).current(), None);
}

#[test]
fn forwarded_requests_are_answered_or_fail_with_500() {
    let ok = Response::new(MsgType::MSG_SEND_ACK, 5000, 1, 3, String::new());
    let r = consensus_answer(Some(ok));
    assert_eq!((r.code, r.msg_type, r.id), (200, MsgType::MSG_SEND_ACK, 3));
    let e = consensus_answer(None);
    assert_eq!((e.code, e.status.as_str()), (500, "Internal Server Error"));
}
