use aizumi::message::MsgType;
use aizumi::raft_timer::RaftTimerStorage;
use aizumi::timer::{RaftTimestampType, RecordableType, TimerRecord, TimerStorage};

#[test]
fn recorded_codes() {
    assert_eq!(MsgType::MSG_HELO_REQ.as_u32(), 9);
    assert_eq!(RaftTimestampType::BeforeMessageSend.as_u32(), 103);
    assert_eq!(RaftTimestampType::AfterStateMachineApply.as_u32(), 108);
}

#[test]
fn timer_storage_appends_merges_and_dumps() {
    let mut t = TimerStorage::new();
    assert_eq!(t.len(), 0);
    assert_eq!(t.dump(), "");
    t.append(5, 1, 2, MsgType::MSG_SEND_REQ, 100);
    let mut other = TimerStorage::default();
    other.append(6, 0, 0, RaftTimestampType::AfterRPCSent, 200);
    t.merge_from(other);
    assert_eq!(t.len(), 2);
    assert_eq!(t.records()[1], TimerRecord { msg_id: 6, node_id_from: 0, node_id_to: 0, msg_type: 104, tsc: 200 });
    assert_eq!(t.dump(), "0,2,5,1,2,1,100\n1,2,6,0,0,104,200\n");
    assert_eq!(t.records()[0].to_text(), "5,1,2,1,100");
}

#[test]
fn raft_timer_take_and_take_all() {
    let mut r = RaftTimerStorage::new();
    assert!(r.take_all().is_none());
    r.append(30, 1, 2, RaftTimestampType::AfterRPCReceived, 3);
    r.append(10, 1, 2, RaftTimestampType::BeforeMessageSend, 1);
    r.append(30, 2, 1, RaftTimestampType::BeforeStateMachineApply, 4);
    r.append(20, 1, 3, RaftTimestampType::AfterRPCSent, 2);
    let t = r.take(20).unwrap();
    assert_eq!(t.len(), 1);
    assert!(r.take(20).is_none());
    let all = r.take_all().unwrap();
    let ids: Vec<(u32, u64)> = all.records().iter().map(|x| (x.msg_id, x.tsc)).collect();
    assert_eq!(ids, vec![(10, 1), (30, 3), (30, 4)]);
    assert!(r.take_all().is_none());
    assert!(r.take(10).is_none());
}

#[test]
fn log_headers() {
    assert_eq!(aizumi::timer::TIMESTAMP_LOG_HEADER, "id,msg_type,timing,tsc\n");
    assert_eq!(aizumi::timer::BROKER_LOG_HEADER, "proc_count,total_msg_count,id,msg_type,tsc\n");
}
