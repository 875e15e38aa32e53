//! Timestamps of message-processing events, recorded while the broker runs
//! and written out as comma-separated lines at the end.

use crate::decimal::{decimal, push_decimal};
use crate::message::{msg_code, MsgType};
use vstd::prelude::*;

verus! {

/// The first line of the consensus node's timestamp log.
pub const TIMESTAMP_LOG_HEADER: &'static str = "id,msg_type,timing,tsc\n";

/// The first line of the broker's timing log, above the lines of
/// [`TimerStorage::dump`].
pub const BROKER_LOG_HEADER: &'static str = "proc_count,total_msg_count,id,msg_type,tsc\n";

/// A kind of event that can be recorded, by its number.
pub trait RecordableType {
    /// The number recorded for this kind.
    spec fn recorded_code(&self) -> u32;

    /// The number recorded for this kind.
    fn as_u32(&self) -> (c: u32)
        ensures
            c == self.recorded_code(),
    ;
}

impl RecordableType for MsgType {
    /// A message kind is recorded by its protocol code.
    open spec fn recorded_code(&self) -> u32 {
        msg_code(*self)
    }

    fn as_u32(&self) -> (c: u32) {
        self.code()
    }
}

/// The points in the consensus path at which a message's time is taken.
#[derive(Clone, Copy, Debug, PartialEq, Eq, Structural)]
pub enum RaftTimestampType {
    /// Before the message is handed to the sending thread.
    BeforeMessageSend,
    /// After the RPC carrying it was sent.
    AfterRPCSent,
    /// After the RPC carrying it was received.
    AfterRPCReceived,
    /// Before the received log append is stepped into the consensus node.
    BeforeReceivedLogAppend,
    /// Before the committed entry is applied to the queues.
    BeforeStateMachineApply,
    /// After the committed entry was applied to the queues.
    AfterStateMachineApply,
}

impl RecordableType for RaftTimestampType {
    /// The event numbers 103 to 108, in the order of the consensus path.
    open spec fn recorded_code(&self) -> u32 {
        match self {
            RaftTimestampType::BeforeMessageSend => 103,
            RaftTimestampType::AfterRPCSent => 104,
            RaftTimestampType::AfterRPCReceived => 105,
            RaftTimestampType::BeforeReceivedLogAppend => 106,
            RaftTimestampType::BeforeStateMachineApply => 107,
            RaftTimestampType::AfterStateMachineApply => 108,
        }
    }

    fn as_u32(&self) -> (c: u32) {
        match self {
            RaftTimestampType::BeforeMessageSend => 103,
            RaftTimestampType::AfterRPCSent => 104,
            RaftTimestampType::AfterRPCReceived => 105,
            RaftTimestampType::BeforeReceivedLogAppend => 106,
            RaftTimestampType::BeforeStateMachineApply => 107,
            RaftTimestampType::AfterStateMachineApply => 108,
        }
    }
}

/// One recorded event.
#[derive(Clone, Copy, Debug, PartialEq, Eq, Structural)]
pub struct TimerRecord {
    pub msg_id: u32,
    /// For consensus messages: the sending node.
    pub node_id_from: u32,
    /// For consensus messages: the receiving node.
    pub node_id_to: u32,
    pub msg_type: u32,
    pub tsc: u64,
}

/// The comma-separated text of a record:
/// `msg_id,node_id_from,node_id_to,msg_type,tsc`.
pub open spec fn record_text(r: TimerRecord) -> Seq<char> {
    decimal(r.msg_id as nat) + seq![','] + decimal(r.node_id_from as nat) + seq![','] + decimal(
        r.node_id_to as nat,
    ) + seq![','] + decimal(r.msg_type as nat) + seq![','] + decimal(r.tsc as nat)
}

/// The lines written for the first `n` records of `recs`: each is the
/// record's position, the number of records and the record, separated by
/// commas and ended by a newline.
pub open spec fn dump_text(recs: Seq<TimerRecord>, n: int) -> Seq<char>
    decreases n,
{
    if n <= 0 {
        Seq::empty()
    } else {
        dump_text(recs, n - 1) + decimal((n - 1) as nat) + seq![','] + decimal(recs.len()) + seq![
            ',',
        ] + record_text(recs[n - 1]) + seq!['\n']
    }
}

impl TimerRecord {
    /// A record of an event of kind `msg_type`.
    pub fn new<T: RecordableType>(
        msg_id: u32,
        node_id_from: u32,
        node_id_to: u32,
        msg_type: T,
        tsc: u64,
    ) -> (r: Self)
        ensures
            r == (TimerRecord {
                msg_id,
                node_id_from,
                node_id_to,
                msg_type: msg_type.recorded_code(),
                tsc,
            }),
    {
        Self { msg_id, node_id_from, node_id_to, msg_type: msg_type.as_u32(), tsc }
    }

    /// Append the comma-separated text of this record to `out`.
    pub fn write_text(&self, out: &mut String)
        ensures
            final(out)@ == old(out)@ + record_text(*self),
    {
        proof {
            reveal_strlit(",");
        }
        push_decimal(out, self.msg_id as u64);
        out.append(",");
        push_decimal(out, self.node_id_from as u64);
        out.append(",");
        push_decimal(out, self.node_id_to as u64);
        out.append(",");
        push_decimal(out, self.msg_type as u64);
        out.append(",");
        push_decimal(out, self.tsc);
        assert(final(out)@ =~= old(out)@ + record_text(*self));
    }

    /// The comma-separated text of this record.
    pub fn to_text(&self) -> (s: String)
        ensures
            s@ == record_text(*self),
    {
        let mut s = String::new();
        self.write_text(&mut s);
        assert(s@ =~= record_text(*self));
        s
    }
}

/// The records of one processing run, in the order in which they were taken.
#[derive(Clone, Debug)]
pub struct TimerStorage {
    record: Vec<TimerRecord>,
}

impl View for TimerStorage {
    type V = Seq<TimerRecord>;

    closed spec fn view(&self) -> Seq<TimerRecord> {
        self.record@
    }
}

impl TimerStorage {
    /// No records.
    pub fn new() -> (t: Self)
        ensures
            t@ == Seq::<TimerRecord>::empty(),
    {
        Self { record: Vec::new() }
    }

    /// A storage holding the given records.
    pub(crate) fn from_records(record: Vec<TimerRecord>) -> (t: Self)
        ensures
            t@ == record@,
    {
        Self { record }
    }

    /// Record an event after the ones recorded so far.
    pub fn append<T: RecordableType>(
        &mut self,
        msg_id: u32,
        node_id_from: u32,
        node_id_to: u32,
        msg_type: T,
        tsc: u64,
    )
        ensures
            final(self)@ == old(self)@.push(
                TimerRecord {
                    msg_id,
                    node_id_from,
                    node_id_to,
                    msg_type: msg_type.recorded_code(),
                    tsc,
                },
            ),
    {
        let new_record = TimerRecord::new(msg_id, node_id_from, node_id_to, msg_type, tsc);
        self.record.push(new_record);
    }

    /// Move the records of `other` after the ones of this storage.
    pub fn merge_from(&mut self, other: TimerStorage)
        ensures
            final(self)@ == old(self)@ + other@,
    {
        let mut other = other;
        self.record.append(&mut other.record);
    }

    /// The number of records.
    pub fn len(&self) -> (n: usize)
        ensures
            n == self@.len(),
    {
        self.record.len()
    }

    /// The records, in order.
    pub fn records(&self) -> (r: &Vec<TimerRecord>)
        ensures
            r@ == self@,
    {
        &self.record
    }

    /// The lines to write out for all records (see [`dump_text`]).
    pub fn dump(&self) -> (s: String)
        ensures
            s@ == dump_text(self@, self@.len() as int),
    {
        let len = self.record.len();
        let mut out = String::new();
        let mut count: usize = 0;
        while count < len
            invariant
                len == self@.len(),
                count <= len,
                out@ == dump_text(self@, count as int),
            decreases len - count,
        {
            proof {
                reveal_strlit(",");
                reveal_strlit("\n");
            }
            push_decimal(&mut out, count as u64);
            out.append(",");
            push_decimal(&mut out, len as u64);
            out.append(",");
            self.record[count].write_text(&mut out);
            out.append("\n");
            assert(out@ =~= dump_text(self@, count + 1));
            count = count + 1;
        }
        out
    }
}

impl Default for TimerStorage {
    /// No records.
    fn default() -> (t: Self)
        ensures
            t@ == Seq::<TimerRecord>::empty(),
    {
        Self::new()
    }
}

} // verus!
