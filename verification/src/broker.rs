//! The replicated state of the consensus-backed broker: each client's
//! waiting and delivered messages, and the effect of a committed log entry
//! on them.

use crate::message::{ack_of, MsgType};
use std::collections::HashMap;
use vstd::prelude::*;

verus! {

broadcast use vstd::std_specs::hash::group_hash_axioms;

/// The id put into acknowledgements.
pub const ACK_MSG_ID: u32 = 0;

/// The first id the broker hands out to a message.
pub const FIRST_MSG_ID: u32 = 1;

/// The fixed part of a broker message.
#[derive(Clone, Copy, Debug, PartialEq, Eq, Structural)]
pub struct MessageHeader {
    pub msg_type: MsgType,
    pub saddr: u32,
    pub daddr: u32,
    pub id: u32,
}

/// A broker message: its header and its payload bytes.
#[derive(Debug)]
pub struct Message {
    pub header: MessageHeader,
    pub payload: Vec<u8>,
}

/// A message taken by its values.
pub struct MessageView {
    pub header: MessageHeader,
    pub payload: Seq<u8>,
}

impl View for Message {
    type V = MessageView;

    open spec fn view(&self) -> MessageView {
        MessageView { header: self.header, payload: self.payload@ }
    }
}

impl MessageHeader {
    /// A header with the given fields.
    pub fn new(msg_type: MsgType, saddr: u32, daddr: u32, id: u32) -> (h: Self)
        ensures
            h == (MessageHeader { msg_type, saddr, daddr, id }),
    {
        Self { msg_type, saddr, daddr, id }
    }

    /// Change the kind of the message.
    pub fn change_msg_type(&mut self, msg_type: MsgType)
        ensures
            *final(self) == (MessageHeader { msg_type, ..*old(self) }),
    {
        self.msg_type = msg_type;
    }
}

impl Message {
    /// A message without payload.
    pub fn new(header: MessageHeader) -> (m: Self)
        ensures
            m@ == (MessageView { header, payload: Seq::empty() }),
    {
        Self { header, payload: Vec::new() }
    }

    /// A message with the same header and payload.
    pub fn duplicate(&self) -> (m: Self)
        ensures
            m@ == self@,
    {
        let mut payload: Vec<u8> = Vec::new();
        let mut i: usize = 0;
        while i < self.payload.len()
            invariant
                i <= self.payload@.len(),
                payload@ == self.payload@.take(i as int),
            decreases self.payload@.len() - i,
        {
            payload.push(self.payload[i]);
            assert(self.payload@.take(i + 1) =~= self.payload@.take(i as int).push(
                self.payload@[i as int],
            ));
            i = i + 1;
        }
        assert(self.payload@.take(i as int) =~= self.payload@);
        Self { header: self.header, payload }
    }
}

/// The header of the acknowledgement of a message with header `h`, sent by
/// the broker `myid` back to the message's sender; None when the message's
/// kind is not a request.
pub open spec fn ack_header_spec(h: MessageHeader, myid: u32) -> Option<MessageHeader> {
    match ack_of(h.msg_type) {
        Some(t) => Some(MessageHeader { msg_type: t, saddr: myid, daddr: h.saddr, id: ACK_MSG_ID }),
        None => None,
    }
}

/// The header of the acknowledgement of a message with header `h`.
pub fn ack_header(h: MessageHeader, myid: u32) -> (r: Option<MessageHeader>)
    ensures
        r == ack_header_spec(h, myid),
{
    match h.msg_type.ack() {
        Some(t) => Some(MessageHeader::new(t, myid, h.saddr, ACK_MSG_ID)),
        None => None,
    }
}

/// Hand out the next message id: the current value of `counter`, which
/// moves on by one.
pub fn get_msg_id(counter: &mut u32) -> (id: u32)
    requires
        *old(counter) < u32::MAX,
    ensures
        id == *old(counter),
        *final(counter) == *old(counter) + 1,
{
    let current = *counter;
    *counter = current + 1;
    current
}

/// The message as it is written to the log: the received message with the
/// broker's next message id, taken from `counter`, which moves on by one.
pub fn renumber(msg: Message, counter: &mut u32) -> (m: Message)
    requires
        *old(counter) < u32::MAX,
    ensures
        m@ == (MessageView {
            header: MessageHeader { id: *old(counter), ..msg.header },
            payload: msg.payload@,
        }),
        *final(counter) == *old(counter) + 1,
{
    let mut m = msg;
    m.header.id = get_msg_id(counter);
    m
}

/// One client's messages: those waiting to be delivered, oldest first, and
/// those delivered but not yet released by the client.
pub struct ClientQueue {
    pub waiting_queue: Vec<Message>,
    pub delivered_queue: Vec<Message>,
}

/// A client queue taken by its messages.
pub struct ClientQueueView {
    pub waiting: Seq<MessageView>,
    pub delivered: Seq<MessageView>,
}

impl View for ClientQueue {
    type V = ClientQueueView;

    open spec fn view(&self) -> ClientQueueView {
        ClientQueueView {
            waiting: self.waiting_queue@.map_values(|m: Message| m@),
            delivered: self.delivered_queue@.map_values(|m: Message| m@),
        }
    }
}

/// Whether the next waiting message may be pushed to the client: one is
/// waiting and none is out awaiting release.
pub open spec fn ready_to_send(q: ClientQueueView) -> bool {
    q.waiting.len() > 0 && q.delivered.len() == 0
}

impl ClientQueue {
    /// A client queue without messages.
    pub fn new() -> (q: Self)
        ensures
            q@ == (ClientQueueView { waiting: Seq::empty(), delivered: Seq::empty() }),
    {
        let q = Self { waiting_queue: Vec::new(), delivered_queue: Vec::new() };
        assert(q@.waiting =~= Seq::empty());
        assert(q@.delivered =~= Seq::empty());
        q
    }
}

/// Whether the next waiting message may be pushed to the client.
pub fn is_ready_to_send(mqueue: &ClientQueue) -> (b: bool)
    ensures
        b == ready_to_send(mqueue@),
{
    (mqueue.waiting_queue.len() != 0) && (mqueue.delivered_queue.len() == 0)
}

/// The replicated state: the queues of all clients by their address.
pub struct BrokerState {
    queues: HashMap<u32, ClientQueue>,
}

impl View for BrokerState {
    type V = Map<u32, ClientQueueView>;

    closed spec fn view(&self) -> Map<u32, ClientQueueView> {
        Map::new(|k: u32| self.queues@.contains_key(k), |k: u32| self.queues@[k]@)
    }
}

/// The position of the first message with id `id` in `s`, if any.
pub open spec fn first_with_id(s: Seq<MessageView>, id: u32, i: int) -> bool {
    &&& 0 <= i < s.len()
    &&& s[i].header.id == id
    &&& forall|j: int| 0 <= j < i ==> s[j].header.id != id
}

/// Whether a committed message can be applied to `st`: a release (FREE)
/// needs its sender's queue, with the released message among the delivered
/// ones; a PUSH needs its addressee's queue.
pub open spec fn applicable(st: Map<u32, ClientQueueView>, h: MessageHeader) -> bool {
    match h.msg_type {
        MsgType::MSG_FREE_REQ => st.contains_key(h.saddr) && exists|i: int|
            0 <= i < st[h.saddr].delivered.len() && st[h.saddr].delivered[i].header.id == h.id,
        MsgType::MSG_PUSH_REQ => st.contains_key(h.saddr),
        _ => true,
    }
}

/// The queue of a client, an absent one being empty.
pub open spec fn client_queue(st: Map<u32, ClientQueueView>, c: u32) -> ClientQueueView {
    if st.contains_key(c) {
        st[c]
    } else {
        ClientQueueView { waiting: Seq::empty(), delivered: Seq::empty() }
    }
}

/// The effect of the committed message `m` on the state `st`, and the
/// message to push, if any:
/// - SEND: the message waits at the end of its addressee's queue (created
///   if needed);
/// - FREE: the first delivered message of the sender with the given id is
///   released;
/// - PUSH: if the addressee is ready to send, its oldest waiting message
///   moves to the delivered ones and is pushed, as a PUSH_REQ;
/// - HELO: the sender gets an empty queue unless it has one;
/// - anything else changes nothing.
pub open spec fn apply_spec(st: Map<u32, ClientQueueView>, m: MessageView) -> (
    Map<u32, ClientQueueView>,
    Option<MessageView>,
) {
    let h = m.header;
    match h.msg_type {
        MsgType::MSG_SEND_REQ => {
            let q = client_queue(st, h.daddr);
            (st.insert(h.daddr, ClientQueueView { waiting: q.waiting.push(m), ..q }), None)
        },
        MsgType::MSG_FREE_REQ => {
            let q = st[h.saddr];
            let i = choose|i: int| first_with_id(q.delivered, h.id, i);
            (st.insert(h.saddr, ClientQueueView { delivered: q.delivered.remove(i), ..q }), None)
        },
        MsgType::MSG_PUSH_REQ => {
            let q = st[h.saddr];
            if ready_to_send(q) {
                let w = q.waiting[0];
                let pushed = MessageView {
                    header: MessageHeader { msg_type: MsgType::MSG_PUSH_REQ, ..w.header },
                    payload: w.payload,
                };
                (
                    st.insert(
                        h.saddr,
                        ClientQueueView {
                            waiting: q.waiting.drop_first(),
                            delivered: q.delivered.push(pushed),
                        },
                    ),
                    Some(pushed),
                )
            } else {
                (st, None)
            }
        },
        MsgType::MSG_HELO_REQ => if st.contains_key(h.saddr) {
            (st, None)
        } else {
            (
                st.insert(
                    h.saddr,
                    ClientQueueView { waiting: Seq::empty(), delivered: Seq::empty() },
                ),
                None,
            )
        },
        _ => (st, None),
    }
}

proof fn lemma_first_with_id_unique(s: Seq<MessageView>, id: u32, i: int, k: int)
    requires
        first_with_id(s, id, i),
        first_with_id(s, id, k),
    ensures
        i == k,
{
}

impl BrokerState {
    /// No client queues.
    pub fn new() -> (st: Self)
        ensures
            st@ == Map::<u32, ClientQueueView>::empty(),
    {
        let st = Self { queues: HashMap::new() };
        assert(st@ =~= Map::<u32, ClientQueueView>::empty());
        st
    }

    /// Whether client `c` has a queue.
    pub fn has_queue(&self, c: u32) -> (b: bool)
        ensures
            b == self@.contains_key(c),
    {
        self.queues.contains_key(&c)
    }

    /// Whether client `c` has a queue from which a message may be pushed.
    pub fn ready_to_send(&self, c: u32) -> (b: bool)
        ensures
            b == (self@.contains_key(c) && ready_to_send(self@[c])),
    {
        match self.queues.get(&c) {
            Some(q) => is_ready_to_send(q),
            None => false,
        }
    }

    /// Whether the committed message with header `h` can be applied.
    pub fn can_apply(&self, h: &MessageHeader) -> (b: bool)
        ensures
            b == applicable(self@, *h),
    {
        match h.msg_type {
            MsgType::MSG_FREE_REQ => match self.queues.get(&h.saddr) {
                Some(q) => {
                    assert(self@.contains_key(h.saddr) && self@[h.saddr] == q@);
                    let mut i: usize = 0;
                    while i < q.delivered_queue.len()
                        invariant
                            self@.contains_key(h.saddr),
                            self@[h.saddr] == q@,
                            i <= q.delivered_queue@.len(),
                            forall|j: int|
                                0 <= j < i ==> q.delivered_queue@[j].header.id != h.id,
                        decreases q.delivered_queue@.len() - i,
                    {
                        if q.delivered_queue[i].header.id == h.id {
                            assert(q@.delivered[i as int] == q.delivered_queue@[i as int]@);
                            assert(self@[h.saddr].delivered[i as int].header.id == h.id);
                            return true;
                        }
                        i = i + 1;
                    }
                    assert forall|j: int| 0 <= j < q@.delivered.len() implies q@.delivered[j].header.id
                        != h.id by {
                        assert(q@.delivered[j] == q.delivered_queue@[j]@);
                    }
                    false
                },
                None => false,
            },
            MsgType::MSG_PUSH_REQ => self.queues.contains_key(&h.saddr),
            _ => true,
        }
    }

    /// Apply a committed message, returning the message to push to its
    /// addressee, if any (see [`apply_spec`]).
    pub fn apply(&mut self, msg: Message) -> (r: Option<Message>)
        requires
            applicable(old(self)@, msg.header),
        ensures
            (final(self)@, match r {
                Some(p) => Some(p@),
                None => None,
            }) == apply_spec(old(self)@, msg@),
    {
        let ghost st = self@;
        let ghost mv = msg@;
        let h = msg.header;
        match h.msg_type {
            MsgType::MSG_SEND_REQ => {
                let mut q = match self.queues.remove(&h.daddr) {
                    Some(q) => q,
                    None => ClientQueue::new(),
                };
                let ghost qv = q@;
                q.waiting_queue.push(msg);
                assert(q@.waiting =~= qv.waiting.push(mv));
                self.queues.insert(h.daddr, q);
                assert(self@ =~= apply_spec(st, mv).0);
                None
            },
            MsgType::MSG_FREE_REQ => {
                let mut q = self.queues.remove(&h.saddr).unwrap();
                let ghost qv = q@;
                let dlen = q.delivered_queue.len();
                let mut i: usize = 0;
                while q.delivered_queue[i].header.id != h.id
                    invariant
                        q@ == qv,
                        dlen == qv.delivered.len(),
                        qv.delivered.len() == q.delivered_queue@.len(),
                        i < qv.delivered.len(),
                        forall|j: int| 0 <= j < i ==> qv.delivered[j].header.id != h.id,
                        exists|k: int| i <= k < qv.delivered.len() && qv.delivered[k].header.id == h.id,
                    decreases qv.delivered.len() - i,
                {
                    assert(q.delivered_queue@[i as int]@ == qv.delivered[i as int]);
                    i = i + 1;
                }
                assert(q.delivered_queue@[i as int]@ == qv.delivered[i as int]);
                proof {
                    assert(first_with_id(qv.delivered, h.id, i as int));
                    let c = choose|c: int| first_with_id(qv.delivered, h.id, c);
                    lemma_first_with_id_unique(qv.delivered, h.id, c, i as int);
                }
                let _released = q.delivered_queue.remove(i);
                assert(q@.delivered =~= qv.delivered.remove(i as int));
                assert(q@.waiting =~= qv.waiting);
                self.queues.insert(h.saddr, q);
                assert(self@ =~= apply_spec(st, mv).0);
                None
            },
            MsgType::MSG_PUSH_REQ => {
                let mut q = self.queues.remove(&h.saddr).unwrap();
                let ghost qv = q@;
                if is_ready_to_send(&q) {
                    let mut m = q.waiting_queue.remove(0);
                    assert(q@.waiting =~= qv.waiting.drop_first());
                    m.header.change_msg_type(MsgType::MSG_PUSH_REQ);
                    let copy = m.duplicate();
                    q.delivered_queue.push(copy);
                    assert(q@.delivered =~= qv.delivered.push(m@));
                    self.queues.insert(h.saddr, q);
                    assert(self@ =~= apply_spec(st, mv).0);
                    Some(m)
                } else {
                    self.queues.insert(h.saddr, q);
                    assert(self@ =~= st);
                    None
                }
            },
            MsgType::MSG_HELO_REQ => {
                if !self.queues.contains_key(&h.saddr) {
                    self.queues.insert(h.saddr, ClientQueue::new());
                }
                assert(self@ =~= apply_spec(st, mv).0);
                None
            },
            _ => None,
        }
    }
}


/// Something that happened on a client connection of the broker.
#[derive(Clone, Copy, Debug, PartialEq, Eq, Structural)]
pub enum ClientEvent {
    /// A message with this header arrived.
    Received(MessageHeader),
    /// Nothing arrived within the wait.
    TimedOut,
    /// The connection failed.
    ReadFailed,
}

/// What a broker connection does next.
#[derive(Clone, Copy, Debug, PartialEq, Eq, Structural)]
pub enum ClientAction {
    /// Nothing.
    Ignore,
    /// Give the message the broker's next message id (see [`renumber`]),
    /// write it to the log and, once committed, send the acknowledgement
    /// with header `ack` and, as payload, `payload_id`: the message's id as
    /// it was received.
    RenumberProposeAck { ack: MessageHeader, payload_id: u32 },
    /// Write the release to the log, send the acknowledgement (header `ack`,
    /// payload `payload_id`, the release's id) once it is committed, and
    /// then, if `client` is ready to send, write the release as a PUSH to the
    /// log and send what that pushes.
    ProposeAckThenPush { ack: MessageHeader, payload_id: u32, client: u32 },
    /// Write the greeting to the log and, once committed, send the
    /// acknowledgement (header `ack`, payload `payload_id`, the greeting's
    /// id); the greeting's sender is now this connection's client.
    ProposeRegisterAck { ack: MessageHeader, payload_id: u32 },
    /// Send `ack` with the queue statistics.
    AckWithStatus { ack: MessageHeader },
    /// If `client` is ready to send, write a PUSH for it (see
    /// [`timeout_push_header`]) to the log and send what that pushes.
    PushIfReady { client: u32 },
    /// Stop serving the connection and write out its timings.
    Stop,
}

/// The state of a broker connection: the client it serves, 0 until its
/// greeting.
pub struct ClientConnection {
    pub client_id: u32,
}

/// The next client and action of a connection of broker `myid` serving
/// `client_id`, on `event`: a SEND is renumbered, logged and acknowledged; a
/// FREE is logged, acknowledged and followed by a push to its sender; a HELO
/// is logged and acknowledged, and names the client; a STAT is answered with
/// statistics; a quiet wait pushes to the client; a failure stops the
/// connection; anything else is ignored.
pub open spec fn client_step_spec(client_id: u32, myid: u32, event: ClientEvent) -> (
    u32,
    ClientAction,
) {
    match event {
        ClientEvent::Received(h) => match ack_header_spec(h, myid) {
            Some(ack) => match h.msg_type {
                MsgType::MSG_SEND_REQ => (
                    client_id,
                    ClientAction::RenumberProposeAck { ack, payload_id: h.id },
                ),
                MsgType::MSG_FREE_REQ => (
                    client_id,
                    ClientAction::ProposeAckThenPush { ack, payload_id: h.id, client: h.saddr },
                ),
                MsgType::MSG_HELO_REQ => (
                    h.saddr,
                    ClientAction::ProposeRegisterAck { ack, payload_id: h.id },
                ),
                MsgType::MSG_STAT_REQ => (client_id, ClientAction::AckWithStatus { ack }),
                _ => (client_id, ClientAction::Ignore),
            },
            None => (client_id, ClientAction::Ignore),
        },
        ClientEvent::TimedOut => (client_id, ClientAction::PushIfReady { client: client_id }),
        ClientEvent::ReadFailed => (client_id, ClientAction::Stop),
    }
}

impl ClientConnection {
    /// A connection whose client is not known yet.
    pub fn new() -> (c: Self)
        ensures
            c.client_id == 0,
    {
        Self { client_id: 0 }
    }

    /// Take one event of a connection of broker `myid` and say what to do
    /// (see [`client_step_spec`]).
    pub fn step(&mut self, myid: u32, event: ClientEvent) -> (a: ClientAction)
        ensures
            (final(self).client_id, a) == client_step_spec(old(self).client_id, myid, event),
    {
        match event {
            ClientEvent::Received(h) => match ack_header(h, myid) {
                Some(ack) => match h.msg_type {
                    MsgType::MSG_SEND_REQ => ClientAction::RenumberProposeAck { ack, payload_id: h.id },
                    MsgType::MSG_FREE_REQ => ClientAction::ProposeAckThenPush {
                        ack,
                        payload_id: h.id,
                        client: h.saddr,
                    },
                    MsgType::MSG_HELO_REQ => {
                        self.client_id = h.saddr;
                        ClientAction::ProposeRegisterAck { ack, payload_id: h.id }
                    },
                    MsgType::MSG_STAT_REQ => ClientAction::AckWithStatus { ack },
                    _ => ClientAction::Ignore,
                },
                None => ClientAction::Ignore,
            },
            ClientEvent::TimedOut => ClientAction::PushIfReady { client: self.client_id },
            ClientEvent::ReadFailed => ClientAction::Stop,
        }
    }
}

/// The header of the PUSH that a quiet connection writes to the log for its
/// client.
pub fn timeout_push_header(client_id: u32) -> (h: MessageHeader)
    ensures
        h == (MessageHeader { msg_type: MsgType::MSG_PUSH_REQ, saddr: client_id, daddr: 0, id: 0 }),
{
    MessageHeader::new(MsgType::MSG_PUSH_REQ, client_id, 0, 0)
}

/// Whether no client has more than one message out awaiting release.
pub open spec fn one_in_flight(st: Map<u32, ClientQueueView>) -> bool {
    forall|c: u32| st.contains_key(c) ==> #[trigger] st[c].delivered.len() <= 1
}

/// Applying committed messages never puts a second message out to a
/// client before the first is released.
pub proof fn lemma_apply_keeps_one_in_flight(st: Map<u32, ClientQueueView>, m: MessageView)
    requires
        one_in_flight(st),
        applicable(st, m.header),
    ensures
        one_in_flight(apply_spec(st, m).0),
{
    let next = apply_spec(st, m).0;
    assert forall|c: u32| next.contains_key(c) implies #[trigger] next[c].delivered.len() <= 1 by {
        if m.header.msg_type == MsgType::MSG_FREE_REQ && c == m.header.saddr {
            let q = st[c];
            let i = choose|i: int| 0 <= i < q.delivered.len() && q.delivered[i].header.id
                == m.header.id;
            assert(q.delivered.len() > 0);
            lemma_first_with_id_exists(q.delivered, m.header.id, i);
        }
    }
}

/// A delivered message with a given id has a first position.
proof fn lemma_first_with_id_exists(s: Seq<MessageView>, id: u32, k: int)
    requires
        0 <= k < s.len(),
        s[k].header.id == id,
    ensures
        exists|i: int| first_with_id(s, id, i),
    decreases k,
{
    if exists|j: int| 0 <= j < k && s[j].header.id == id {
        let j = choose|j: int| 0 <= j < k && s[j].header.id == id;
        lemma_first_with_id_exists(s, id, j);
    } else {
        assert(first_with_id(s, id, k));
    }
}

/// Messages reach a client in the order they were sent, one at a time: a
/// message sent to a client with nothing waiting or out is the one that the
/// next PUSH delivers, and releasing it by its id leaves the client with
/// nothing out again.
pub proof fn lemma_send_push_free(
    st: Map<u32, ClientQueueView>,
    send: MessageView,
    push: MessageHeader,
    free: MessageHeader,
)
    requires
        send.header.msg_type == MsgType::MSG_SEND_REQ,
        push.msg_type == MsgType::MSG_PUSH_REQ,
        push.saddr == send.header.daddr,
        free.msg_type == MsgType::MSG_FREE_REQ,
        free.saddr == send.header.daddr,
        free.id == send.header.id,
        client_queue(st, send.header.daddr).waiting.len() == 0,
        client_queue(st, send.header.daddr).delivered.len() == 0,
    ensures
        ({
            let s1 = apply_spec(st, send).0;
            let (s2, pushed) = apply_spec(s1, MessageView { header: push, payload: Seq::empty() });
            let s3 = apply_spec(s2, MessageView { header: free, payload: Seq::empty() }).0;
            &&& pushed == Some(
                MessageView {
                    header: MessageHeader { msg_type: MsgType::MSG_PUSH_REQ, ..send.header },
                    payload: send.payload,
                },
            )
            &&& applicable(s2, free)
            &&& s3[send.header.daddr].waiting.len() == 0
            &&& s3[send.header.daddr].delivered.len() == 0
        }),
{
    let c = send.header.daddr;
    let s1 = apply_spec(st, send).0;
    assert(s1[c].waiting =~= seq![send]);
    let (s2, pushed) = apply_spec(s1, MessageView { header: push, payload: Seq::empty() });
    assert(s2[c].delivered.len() == 1);
    assert(s2[c].delivered[0].header.id == free.id);
    assert(first_with_id(s2[c].delivered, free.id, 0));
    let i = choose|i: int| first_with_id(s2[c].delivered, free.id, i);
    lemma_first_with_id_unique(s2[c].delivered, free.id, i, 0);
}

/// Whether `b` holds the same queues as `a` for every client but `c`.
pub open spec fn same_except(a: Map<u32, ClientQueueView>, b: Map<u32, ClientQueueView>, c: u32) -> bool {
    forall|k: u32|
        k != c ==> (#[trigger] a.contains_key(k) == b.contains_key(k)) && (a.contains_key(k)
            ==> a[k] == b[k])
}

/// A committed SEND only queues the message: it goes to the back of its
/// addressee's waiting messages (whose queue exists afterwards), the
/// addressee's delivered messages stay as they were, nothing is pushed,
/// and no other client's queue changes.
pub proof fn lemma_send_only_queues(st: Map<u32, ClientQueueView>, m: MessageView)
    requires
        m.header.msg_type == MsgType::MSG_SEND_REQ,
    ensures
        ({
            let (next, pushed) = apply_spec(st, m);
            let d = m.header.daddr;
            &&& pushed is None
            &&& next.contains_key(d)
            &&& next[d].waiting.len() == client_queue(st, d).waiting.len() + 1
            &&& next[d].waiting.last() == m
            &&& next[d].waiting.drop_last() == client_queue(st, d).waiting
            &&& next[d].delivered == client_queue(st, d).delivered
            &&& same_except(st, next, d)
        }),
{
    let d = m.header.daddr;
    let q = client_queue(st, d);
    assert(q.waiting.push(m).drop_last() =~= q.waiting);
}

/// A committed PUSH delivers at most one message, and only to a client that
/// is ready to send: that client's oldest waiting message, marked as a push,
/// leaves the waiting ones and becomes the only one out; for a client not
/// ready nothing changes. No other client's queue changes.
pub proof fn lemma_push_delivers_oldest(st: Map<u32, ClientQueueView>, m: MessageView)
    requires
        m.header.msg_type == MsgType::MSG_PUSH_REQ,
        applicable(st, m.header),
    ensures
        ({
            let (next, pushed) = apply_spec(st, m);
            let c = m.header.saddr;
            let q = st[c];
            &&& same_except(st, next, c)
            &&& next.contains_key(c)
            &&& !ready_to_send(q) ==> pushed is None && next == st
            &&& ready_to_send(q) ==> {
                &&& pushed matches Some(p) && p.header.msg_type == MsgType::MSG_PUSH_REQ
                    && p.header.saddr == q.waiting[0].header.saddr && p.header.daddr
                    == q.waiting[0].header.daddr && p.header.id == q.waiting[0].header.id
                    && p.payload == q.waiting[0].payload
                &&& next[c].waiting.len() + 1 == q.waiting.len()
                &&& forall|i: int|
                    0 <= i < next[c].waiting.len() ==> next[c].waiting[i] == q.waiting[i + 1]
                &&& next[c].delivered == seq![pushed->0]
            }
        }),
{
    let c = m.header.saddr;
    let q = st[c];
    if ready_to_send(q) {
        let (next, pushed) = apply_spec(st, m);
        assert(next[c].delivered =~= seq![pushed->0]);
    }
}

/// A committed FREE releases exactly one delivered message of its sender,
/// one with the released id, and changes nothing else.
pub proof fn lemma_free_releases_one(st: Map<u32, ClientQueueView>, m: MessageView)
    requires
        m.header.msg_type == MsgType::MSG_FREE_REQ,
        applicable(st, m.header),
    ensures
        ({
            let (next, pushed) = apply_spec(st, m);
            let c = m.header.saddr;
            &&& pushed is None
            &&& same_except(st, next, c)
            &&& next.contains_key(c)
            &&& next[c].waiting == st[c].waiting
            &&& next[c].delivered.len() + 1 == st[c].delivered.len()
            &&& exists|i: int|
                0 <= i < st[c].delivered.len() && st[c].delivered[i].header.id == m.header.id
                    && next[c].delivered == st[c].delivered.remove(i)
        }),
{
    let c = m.header.saddr;
    let q = st[c];
    let k = choose|k: int| 0 <= k < q.delivered.len() && q.delivered[k].header.id == m.header.id;
    lemma_first_with_id_exists(q.delivered, m.header.id, k);
    let i = choose|i: int| first_with_id(q.delivered, m.header.id, i);
    assert(apply_spec(st, m).0[c].delivered == q.delivered.remove(i));
}

/// A committed HELO registers its sender: afterwards the sender has a queue,
/// the one it had if it had one, an empty one otherwise; nothing is pushed
/// and no other client's queue changes.
pub proof fn lemma_helo_registers(st: Map<u32, ClientQueueView>, m: MessageView)
    requires
        m.header.msg_type == MsgType::MSG_HELO_REQ,
    ensures
        ({
            let (next, pushed) = apply_spec(st, m);
            let c = m.header.saddr;
            &&& pushed is None
            &&& same_except(st, next, c)
            &&& next.contains_key(c)
            &&& st.contains_key(c) ==> next[c] == st[c]
            &&& !st.contains_key(c) ==> next[c].waiting.len() == 0 && next[c].delivered.len() == 0
        }),
{
}

/// Committed messages of any other kind change nothing and push nothing.
pub proof fn lemma_other_kinds_change_nothing(st: Map<u32, ClientQueueView>, m: MessageView)
    requires
        m.header.msg_type != MsgType::MSG_SEND_REQ,
        m.header.msg_type != MsgType::MSG_PUSH_REQ,
        m.header.msg_type != MsgType::MSG_FREE_REQ,
        m.header.msg_type != MsgType::MSG_HELO_REQ,
    ensures
        apply_spec(st, m) == (st, None::<MessageView>),
{
}

/// A connection of the broker: every request that has an acknowledgement
/// and is acted on (SEND, FREE, HELO, STAT) carries the acknowledgement of
/// that very request, and SEND, FREE and HELO carry the request's own id as
/// its payload; only a HELO changes the connection's client, to its
/// sender; a quiet wait pushes to the current client; a failure stops.
pub proof fn lemma_connection_step(client_id: u32, myid: u32, event: ClientEvent)
    ensures
        ({
            let (next, a) = client_step_spec(client_id, myid, event);
            let greeting = (event matches ClientEvent::Received(h) && h.msg_type
                == MsgType::MSG_HELO_REQ);
            &&& greeting ==> next == event->Received_0.saddr
            &&& !greeting ==> next == client_id
            &&& event is TimedOut ==> a == ClientAction::PushIfReady { client: client_id }
            &&& event is ReadFailed ==> a == ClientAction::Stop
            &&& (event matches ClientEvent::Received(h) ==> match a {
                ClientAction::RenumberProposeAck { ack, payload_id } => h.msg_type
                    == MsgType::MSG_SEND_REQ && Some(ack) == ack_header_spec(h, myid)
                    && payload_id == h.id,
                ClientAction::ProposeAckThenPush { ack, payload_id, client } => h.msg_type
                    == MsgType::MSG_FREE_REQ && Some(ack) == ack_header_spec(h, myid)
                    && payload_id == h.id && client == h.saddr,
                ClientAction::ProposeRegisterAck { ack, payload_id } => h.msg_type
                    == MsgType::MSG_HELO_REQ && Some(ack) == ack_header_spec(h, myid)
                    && payload_id == h.id,
                ClientAction::AckWithStatus { ack } => h.msg_type == MsgType::MSG_STAT_REQ
                    && Some(ack) == ack_header_spec(h, myid),
                ClientAction::Ignore => h.msg_type != MsgType::MSG_SEND_REQ && h.msg_type
                    != MsgType::MSG_FREE_REQ && h.msg_type != MsgType::MSG_HELO_REQ && h.msg_type
                    != MsgType::MSG_STAT_REQ,
                _ => false,
            })
        }),
{
}

} // verus!
