//! Decisions around the consensus node: which peer leads, which raft
//! messages may start a follower, which pending proposals to hand in, and
//! whether a proposal was taken.

use crate::bytes::{le_bytes_to_u32, le_value_at};
use std::collections::VecDeque;
use vstd::prelude::*;

verus! {

/// The consensus port of the node that starts as the leader.
pub const LEADER_NODE: u64 = 6555;

/// Ticks without a leader before a follower starts an election.
pub const ELECTION_TICK: usize = 30;

/// Ticks between the leader's heartbeats.
pub const HEARTBEAT_TICK: usize = 3;

/// Milliseconds between two ticks of the consensus node.
pub const TICK_INTERVAL_MS: u64 = 100;

/// Milliseconds between heartbeats of the HTTP-configured node.
pub const HEARTBEAT_INTERVAL_MS: u64 = 500;

/// Shortest election timeout of the HTTP-configured node, in milliseconds.
pub const ELECTION_TIMEOUT_MIN_MS: u64 = 1500;

/// Longest election timeout of the HTTP-configured node, in milliseconds.
pub const ELECTION_TIMEOUT_MAX_MS: u64 = 3000;

/// Milliseconds between two tries of adding a follower.
pub const FOLLOWER_RETRY_MS: u64 = 100;

/// Whether the consensus node is due for a tick, `elapsed_ms` after the
/// last one.
pub fn tick_due(elapsed_ms: u64) -> (b: bool)
    ensures
        b == (elapsed_ms >= TICK_INTERVAL_MS),
{
    elapsed_ms >= TICK_INTERVAL_MS
}

/// The kinds of raft message that matter when a follower starts.
#[derive(Clone, Copy, Debug, PartialEq, Eq, Structural)]
pub enum RaftMessageKind {
    RequestVote,
    RequestPreVote,
    Heartbeat,
    Other,
}

/// Whether a raft message can start an uninitialised follower: a (pre-)vote
/// request, or a heartbeat that commits nothing yet.
pub open spec fn is_initial_spec(kind: RaftMessageKind, commit: u64) -> bool {
    kind == RaftMessageKind::RequestVote || kind == RaftMessageKind::RequestPreVote || (kind
        == RaftMessageKind::Heartbeat && commit == 0)
}

/// The message can be used to initialize a raft node or not.
pub fn is_initial_msg(kind: RaftMessageKind, commit: u64) -> (b: bool)
    ensures
        b == is_initial_spec(kind, commit),
{
    match kind {
        RaftMessageKind::RequestVote | RaftMessageKind::RequestPreVote => true,
        RaftMessageKind::Heartbeat => commit == 0,
        RaftMessageKind::Other => false,
    }
}

/// Whether the node listening on consensus port `port` starts as the leader.
pub fn is_leader_port(port: u64) -> (b: bool)
    ensures
        b == (port == LEADER_NODE),
{
    port == LEADER_NODE
}

/// The node id of the peer on consensus port `port`: the leader's port is
/// node 1, the next port node 2, and so on; None below the leader's port.
pub fn node_id_for_port(port: u64) -> (id: Option<u64>)
    ensures
        port >= LEADER_NODE ==> id == Some((port - LEADER_NODE + 1) as u64),
        port < LEADER_NODE ==> id is None,
{
    if port >= LEADER_NODE {
        Some(port - LEADER_NODE + 1)
    } else {
        None
    }
}

/// The ids of the followers that the leader adds: 2 to `num_nodes`.
pub fn follower_ids(num_nodes: u64) -> (ids: Vec<u64>)
    requires
        num_nodes < u64::MAX,
    ensures
        ids@ == Seq::new(if num_nodes >= 2 { (num_nodes - 1) as nat } else { 0 }, |i: int| (i + 2) as u64),
{
    let mut ids: Vec<u64> = Vec::new();
    let mut i: u64 = 2;
    while i <= num_nodes
        invariant
            2 <= i,
            i <= num_nodes + 1 || num_nodes < 2,
            num_nodes < 2 ==> i == 2,
            num_nodes < u64::MAX,
            ids@ == Seq::new((i - 2) as nat, |k: int| (k + 2) as u64),
        decreases num_nodes + 1 - i,
    {
        ids.push(i);
        i = i + 1;
        assert(ids@ =~= Seq::new((i - 2) as nat, |k: int| (k + 2) as u64));
    }
    assert(ids@ =~= Seq::new(if num_nodes >= 2 { (num_nodes - 1) as nat } else { 0 }, |k: int|
        (k + 2) as u64));
    ids
}

/// Where the proposals to hand in start: after the leading ones that were
/// handed in already (those with a non-zero log index).
pub open spec fn first_unproposed_spec(proposed: Seq<u64>, i: int) -> bool {
    &&& 0 <= i <= proposed.len()
    &&& forall|j: int| 0 <= j < i ==> proposed[j] > 0
    &&& i < proposed.len() ==> proposed[i] == 0
}

/// Whether a proposal was taken, from the position after the last log entry
/// before and after handing it in: taken (and then recorded at the earlier
/// position) when the log grew, refused when it did not.
pub fn proposal_index(next_index_before: u64, next_index_after: u64) -> (r: Option<u64>)
    ensures
        next_index_after == next_index_before ==> r is None,
        next_index_after != next_index_before ==> r == Some(next_index_before),
{
    if next_index_after == next_index_before {
        None
    } else {
        Some(next_index_before)
    }
}

/// The messages of `msgs` addressed to `p`, in order.
pub open spec fn addressed_to<T>(msgs: Seq<(u64, T)>, p: u64) -> Seq<T>
    decreases msgs.len(),
{
    if msgs.len() == 0 {
        Seq::empty()
    } else {
        let r = addressed_to(msgs.drop_last(), p);
        if msgs.last().0 == p {
            r.push(msgs.last().1)
        } else {
            r
        }
    }
}

/// Each peer of `peers`, in order, with the messages addressed to it; peers
/// without messages are left out.
pub open spec fn routed<T>(msgs: Seq<(u64, T)>, peers: Seq<u64>) -> Seq<(u64, Seq<T>)>
    decreases peers.len(),
{
    if peers.len() == 0 {
        Seq::empty()
    } else {
        let rest = routed(msgs, peers.drop_last());
        let a = addressed_to(msgs, peers.last());
        if a.len() > 0 {
            rest.push((peers.last(), a))
        } else {
            rest
        }
    }
}

/// The messages addressed to `p` are exactly those of `msgs` whose
/// destination is `p`, in their order.
pub proof fn lemma_addressed_to_selects<T>(msgs: Seq<(u64, T)>, p: u64)
    ensures
        addressed_to(msgs, p) == msgs.filter(|m: (u64, T)| m.0 == p).map_values(
            |m: (u64, T)| m.1,
        ),
    decreases msgs.len(),
{
    reveal(Seq::filter);
    let pred = |m: (u64, T)| m.0 == p;
    let second = |m: (u64, T)| m.1;
    if msgs.len() > 0 {
        lemma_addressed_to_selects(msgs.drop_last(), p);
        let f = msgs.drop_last().filter(pred);
        assert(msgs.filter(pred) == if pred(msgs.last()) {
            f.push(msgs.last())
        } else {
            f
        });
        assert(f.push(msgs.last()).map_values(second) =~= f.map_values(second).push(
            msgs.last().1,
        ));
    } else {
        assert(msgs.filter(pred).map_values(second) =~= Seq::<T>::empty());
    }
}

/// Routing loses no message to a listed peer and makes up none: each peer
/// with messages gets one batch holding exactly its messages, and every
/// batch is a listed peer's, non-empty and holding exactly that peer's
/// messages.
pub proof fn lemma_route_complete<T>(msgs: Seq<(u64, T)>, peers: Seq<u64>)
    ensures
        forall|p: u64|
            peers.contains(p) && addressed_to(msgs, p).len() > 0 ==> #[trigger] routed(
                msgs,
                peers,
            ).contains((p, addressed_to(msgs, p))),
        forall|i: int|
            0 <= i < routed(msgs, peers).len() ==> peers.contains(
                (#[trigger] routed(msgs, peers)[i]).0,
            ) && routed(msgs, peers)[i].1 == addressed_to(msgs, routed(msgs, peers)[i].0)
                && routed(msgs, peers)[i].1.len() > 0,
    decreases peers.len(),
{
    if peers.len() > 0 {
        let init = peers.drop_last();
        lemma_route_complete(msgs, init);
        let rest = routed(msgs, init);
        let r = routed(msgs, peers);
        assert forall|p: u64|
            peers.contains(p) && addressed_to(msgs, p).len() > 0 implies #[trigger] routed(
            msgs,
            peers,
        ).contains((p, addressed_to(msgs, p))) by {
            let j = choose|j: int| 0 <= j < peers.len() && peers[j] == p;
            if j < peers.len() - 1 {
                assert(init[j] == p);
                assert(rest.contains((p, addressed_to(msgs, p))));
                let k = choose|k: int| 0 <= k < rest.len() && rest[k] == (p, addressed_to(msgs, p));
                assert(r[k] == rest[k]);
            } else {
                assert(r.last() == (p, addressed_to(msgs, p)));
            }
        }
        assert forall|i: int| 0 <= i < r.len() implies peers.contains((#[trigger] r[i]).0)
            && r[i].1 == addressed_to(msgs, r[i].0) && r[i].1.len() > 0 by {
            if i < rest.len() {
                assert(r[i] == rest[i]);
                let q = rest[i].0;
                let j = choose|j: int| 0 <= j < init.len() && init[j] == q;
                assert(peers[j] == q);
            } else {
                assert(peers[peers.len() - 1] == peers.last());
            }
        }
    }
}

/// A routed batch taken by its values.
pub open spec fn batches_view<T>(out: Seq<(u64, Vec<T>)>) -> Seq<(u64, Seq<T>)> {
    out.map_values(|e: (u64, Vec<T>)| (e.0, e.1@))
}

/// The position of peer `to` in `peers`, if it is there.
fn find_peer(peers: &[u64], to: u64) -> (r: Option<usize>)
    ensures
        match r {
            Some(i) => i < peers@.len() && peers@[i as int] == to,
            None => !peers@.contains(to),
        },
{
    let mut j: usize = 0;
    while j < peers.len()
        invariant
            j <= peers@.len(),
            forall|i: int| 0 <= i < j ==> peers@[i] != to,
        decreases peers@.len() - j,
    {
        if peers[j] == to {
            return Some(j);
        }
        j = j + 1;
    }
    None
}

/// Group outgoing messages, each given with the node it goes to, by peer:
/// each peer of `peers` in order with its messages in their order; peers
/// without messages are left out, and so are messages to unlisted nodes.
pub fn route_messages<T>(msgs: Vec<(u64, T)>, peers: &[u64]) -> (out: Vec<(u64, Vec<T>)>)
    requires
        peers@.no_duplicates(),
    ensures
        batches_view(out@) == routed(msgs@, peers@),
{
    let ghost orig = msgs@;
    let n_msgs = msgs.len();
    let n_peers = peers.len();
    let mut msgs = msgs;
    let mut buckets: Vec<Vec<T>> = Vec::new();
    let mut j: usize = 0;
    while j < peers.len()
        invariant
            j <= peers@.len(),
            buckets@.len() == j,
            forall|i: int| 0 <= i < j ==> (#[trigger] buckets@[i])@ == Seq::<T>::empty(),
        decreases peers@.len() - j,
    {
        buckets.push(Vec::new());
        j = j + 1;
    }
    let mut k: usize = 0;
    while msgs.len() > 0
        invariant
            peers@.no_duplicates(),
            n_msgs == orig.len(),
            k <= orig.len(),
            msgs@ == orig.skip(k as int),
            buckets@.len() == peers@.len(),
            forall|i: int|
                0 <= i < peers@.len() ==> (#[trigger] buckets@[i])@ == addressed_to(
                    orig.take(k as int),
                    peers@[i],
                ),
        decreases msgs@.len(),
    {
        let (to, m) = msgs.remove(0);
        let ghost item = orig[k as int];
        assert(orig.take(k + 1).drop_last() =~= orig.take(k as int));
        assert(orig.take(k + 1).last() == item);
        match find_peer(peers, to) {
            Some(idx) => {
                let mut b = buckets.remove(idx);
                b.push(m);
                buckets.insert(idx, b);
                assert forall|i: int| 0 <= i < peers@.len() implies (#[trigger] buckets@[i])@
                    == addressed_to(orig.take(k + 1), peers@[i]) by {
                    if i != idx {
                        assert(peers@[i] != to);
                    }
                }
            },
            None => {
                assert forall|i: int| 0 <= i < peers@.len() implies (#[trigger] buckets@[i])@
                    == addressed_to(orig.take(k + 1), peers@[i]) by {
                    assert(peers@[i] != to);
                }
            },
        }
        assert(msgs@ =~= orig.skip(k + 1));
        k = k + 1;
    }
    assert(orig.take(k as int) =~= orig);
    let mut out: Vec<(u64, Vec<T>)> = Vec::new();
    let mut j: usize = 0;
    while buckets.len() > 0
        invariant
            n_peers == peers@.len(),
            j <= peers@.len(),
            buckets@.len() == peers@.len() - j,
            forall|i: int|
                0 <= i < buckets@.len() ==> (#[trigger] buckets@[i])@ == addressed_to(
                    orig,
                    peers@[j + i],
                ),
            batches_view(out@) == routed(orig, peers@.take(j as int)),
        decreases buckets@.len(),
    {
        let b = buckets.remove(0);
        assert(peers@.take(j + 1).drop_last() =~= peers@.take(j as int));
        if b.len() > 0 {
            out.push((peers[j], b));
            assert(batches_view(out@) =~= batches_view(out@).drop_last().push(
                (peers@[j as int], b@),
            ));
            assert(batches_view(out@).drop_last() =~= routed(orig, peers@.take(j as int)));
        }
        j = j + 1;
    }
    assert(peers@.take(j as int) =~= peers@);
    out
}

/// Proposals waiting for the consensus log, oldest first, each with the
/// log position it was handed in at (0 while it is not handed in).
pub struct ProposalQueue<T> {
    items: VecDeque<(T, u64)>,
}

impl<T> View for ProposalQueue<T> {
    type V = Seq<(T, u64)>;

    closed spec fn view(&self) -> Seq<(T, u64)> {
        self.items@
    }
}

/// The log positions of the proposals, oldest first.
pub open spec fn marks<T>(q: Seq<(T, u64)>) -> Seq<u64> {
    q.map_values(|e: (T, u64)| e.1)
}

impl<T> ProposalQueue<T> {
    /// No proposals.
    pub fn new() -> (q: Self)
        ensures
            q@ == Seq::<(T, u64)>::empty(),
    {
        Self { items: VecDeque::new() }
    }

    /// Queue a new proposal, not yet handed in.
    pub fn push_back(&mut self, p: T)
        ensures
            final(self)@ == old(self)@.push((p, 0u64)),
    {
        self.items.push_back((p, 0));
    }

    /// The number of proposals.
    pub fn len(&self) -> (n: usize)
        ensures
            n == self@.len(),
    {
        self.items.len()
    }

    /// The position from which the leader hands proposals in: it skips the
    /// leading ones that were handed in already and hands in every proposal
    /// from there on, whether or not a later one was handed in before.
    pub fn first_unproposed(&self) -> (i: usize)
        ensures
            first_unproposed_spec(marks(self@), i as int),
    {
        let mut i: usize = 0;
        while i < self.items.len()
            invariant
                i <= self@.len(),
                forall|j: int| 0 <= j < i ==> marks(self@)[j] > 0,
            decreases self@.len() - i,
        {
            if self.items[i].1 == 0 {
                return i;
            }
            i = i + 1;
        }
        i
    }

    /// The proposal at position `i`.
    pub fn get(&self, i: usize) -> (p: &T)
        requires
            i < self@.len(),
        ensures
            *p == self@[i as int].0,
    {
        &self.items[i].0
    }

    /// Record that the proposal at position `i` was handed in at log
    /// position `index`.
    pub fn set_proposed(&mut self, i: usize, index: u64)
        requires
            i < old(self)@.len(),
        ensures
            final(self)@ == old(self)@.update(i as int, (old(self)@[i as int].0, index)),
    {
        match self.items.remove(i) {
            Some((p, _)) => {
                self.items.insert(i, (p, index));
                assert(self@ =~= old(self)@.update(i as int, (old(self)@[i as int].0, index)));
            },
            None => {},
        }
    }

    /// Take out the oldest proposal: the one a committed entry answers.
    pub fn pop_front(&mut self) -> (r: Option<T>)
        ensures
            old(self)@.len() == 0 ==> r is None && final(self)@ == old(self)@,
            old(self)@.len() > 0 ==> r == Some(old(self)@[0].0) && final(self)@ == old(
                self,
            )@.drop_first(),
    {
        match self.items.pop_front() {
            Some((p, _)) => Some(p),
            None => None,
        }
    }
}

/// Committed entries answer the proposals in the order they were queued:
/// the proposals queued after `q` are answered after those of `q`.
pub proof fn lemma_proposals_answered_in_order<T>(q: Seq<(T, u64)>, p: T)
    requires
        q.len() > 0,
    ensures
        q.push((p, 0u64))[0] == q[0],
        q.push((p, 0u64)).drop_first() == q.drop_first().push((p, 0u64)),
{
    assert(q.push((p, 0u64)).drop_first() =~= q.drop_first().push((p, 0u64)));
}

/// What the node does for a committed log entry once it is applied.
#[derive(Clone, Copy, Debug, PartialEq, Eq, Structural)]
pub enum CommitReply {
    /// The entry carries nothing (a new leader's empty entry): it is skipped
    /// and answers no proposal.
    Skip,
    /// A follower answers nobody.
    NoReply,
    /// The leader answers its oldest proposal with the entry's result and
    /// the timings of message `timings_of`, if the entry names one.
    Reply { timings_of: Option<u32> },
}

/// The reply for a committed entry with the given data and context.
pub open spec fn commit_reply_spec(is_leader: bool, data_empty: bool, context: Seq<u8>) -> CommitReply {
    if data_empty {
        CommitReply::Skip
    } else if !is_leader {
        CommitReply::NoReply
    } else {
        CommitReply::Reply {
            timings_of: if context.len() >= 4 {
                Some(le_value_at(context, 0) as u32)
            } else {
                None
            },
        }
    }
}

/// The reply for a committed entry (see [`commit_reply_spec`]); the context
/// holds the message id in its first four little-endian bytes.
pub fn commit_reply(is_leader: bool, data_empty: bool, context: &[u8]) -> (r: CommitReply)
    ensures
        r == commit_reply_spec(is_leader, data_empty, context@),
{
    if data_empty {
        CommitReply::Skip
    } else if !is_leader {
        CommitReply::NoReply
    } else {
        CommitReply::Reply { timings_of: le_bytes_to_u32(context) }
    }
}

/// The leader's adding of followers 2 to `num_nodes`, one at a time: a
/// node is proposed until the answer to its proposal comes back empty.
pub struct FollowerAdder {
    pub next: u64,
    pub num_nodes: u64,
}

impl FollowerAdder {
    /// Start with node 2.
    pub fn new(num_nodes: u64) -> (a: Self)
        requires
            num_nodes < u64::MAX,
        ensures
            a.next == 2,
            a.num_nodes == num_nodes,
    {
        Self { next: 2, num_nodes }
    }

    /// The node to propose now; None when all are added.
    pub fn current(&self) -> (n: Option<u64>)
        ensures
            self.next <= self.num_nodes ==> n == Some(self.next),
            self.next > self.num_nodes ==> n is None,
    {
        if self.next <= self.num_nodes {
            Some(self.next)
        } else {
            None
        }
    }

    /// Take the answer to the current proposal: an empty answer means the
    /// node was added, so the next one is due; any other answer means the
    /// proposal is retried.
    pub fn on_reply(&mut self, answer_empty: bool)
        requires
            old(self).next <= old(self).num_nodes < u64::MAX,
        ensures
            final(self).num_nodes == old(self).num_nodes,
            answer_empty ==> final(self).next == old(self).next + 1,
            !answer_empty ==> final(self).next == old(self).next,
    {
        if answer_empty {
            self.next = self.next + 1;
        }
    }
}

} // verus!
