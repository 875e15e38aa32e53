//! Per-client message queues, kept in a pool keyed by the client's address.

use crate::message::Request;
use std::collections::HashMap;
use vstd::prelude::*;

verus! {

broadcast use vstd::std_specs::hash::group_hash_axioms;

/// One client's messages, dequeued in the order in which they were
/// enqueued.
#[derive(Clone, Debug)]
pub struct MsgQueue {
    queue: Vec<Request>,
}

impl View for MsgQueue {
    type V = Seq<Request>;

    /// The messages in the order in which they were enqueued.
    closed spec fn view(&self) -> Seq<Request> {
        self.queue@
    }
}

/// The queue after `data` was enqueued.
pub open spec fn spec_enqueue(q: Seq<Request>, data: Request) -> Seq<Request> {
    q.push(data)
}

/// What a dequeue returns from `q`, and what it leaves: the earliest message
/// enqueued, or nothing from an empty queue.
pub open spec fn spec_dequeue(q: Seq<Request>) -> (Option<Request>, Seq<Request>) {
    if q.len() == 0 {
        (None, q)
    } else {
        (Some(q[0]), q.drop_first())
    }
}

impl MsgQueue {
    /// An empty queue.
    pub fn new() -> (q: Self)
        ensures
            q@ == Seq::<Request>::empty(),
    {
        Self { queue: Vec::new() }
    }

    /// Enqueue data (Request).
    pub fn enqueue(&mut self, data: Request)
        ensures
            final(self)@ == spec_enqueue(old(self)@, data),
    {
        self.queue.push(data);
    }

    /// Dequeue data (Request): the one enqueued first.
    /// If queue is empty, return None.
    pub fn dequeue(&mut self) -> (r: Option<Request>)
        ensures
            (r, final(self)@) == spec_dequeue(old(self)@),
    {
        if self.queue.len() == 0 {
            None
        } else {
            let r = self.queue.remove(0);
            assert(self.queue@ =~= old(self)@.drop_first());
            Some(r)
        }
    }

    /// Whether the queue holds no message.
    pub fn is_empty(&self) -> (b: bool)
        ensures
            b == (self@.len() == 0),
    {
        self.queue.len() == 0
    }
}

impl Default for MsgQueue {
    /// An empty queue.
    fn default() -> (q: Self)
        ensures
            q@ == Seq::<Request>::empty(),
    {
        Self::new()
    }
}

/// The queues of all clients, each under its client's address.
#[derive(Clone, Debug)]
pub struct MsgQueuePool {
    hash: HashMap<i32, MsgQueue>,
}

/// The queue of `queue_id` in `pool`; an absent queue reads as empty.
pub open spec fn queue_of(pool: Map<i32, Seq<Request>>, queue_id: i32) -> Seq<Request> {
    if pool.contains_key(queue_id) {
        pool[queue_id]
    } else {
        Seq::empty()
    }
}

/// The pool after `data` was enqueued for `queue_id`; the queue is created
/// when it does not exist yet.
pub open spec fn spec_pool_enqueue(
    pool: Map<i32, Seq<Request>>,
    data: Request,
    queue_id: i32,
) -> Map<i32, Seq<Request>> {
    pool.insert(queue_id, spec_enqueue(queue_of(pool, queue_id), data))
}

/// What a dequeue from `queue_id` returns, and the pool that it leaves.
/// An absent queue gives nothing and is not created.
pub open spec fn spec_pool_dequeue(pool: Map<i32, Seq<Request>>, queue_id: i32) -> (
    Option<Request>,
    Map<i32, Seq<Request>>,
) {
    if pool.contains_key(queue_id) {
        let (r, rest) = spec_dequeue(pool[queue_id]);
        (r, pool.insert(queue_id, rest))
    } else {
        (None, pool)
    }
}

impl View for MsgQueuePool {
    type V = Map<i32, Seq<Request>>;

    /// Each client's address mapped to the messages of its queue.
    closed spec fn view(&self) -> Map<i32, Seq<Request>> {
        Map::new(|k: i32| self.hash@.contains_key(k), |k: i32| self.hash@[k]@)
    }
}

impl MsgQueuePool {
    /// A pool without queues.
    pub fn new() -> (p: Self)
        ensures
            p@ == Map::<i32, Seq<Request>>::empty(),
    {
        let p = Self { hash: HashMap::new() };
        assert(p@ =~= Map::<i32, Seq<Request>>::empty());
        p
    }

    /// Add new vec to hash with specified queue_id; a queue that was
    /// there is replaced.
    pub fn add_queue(&mut self, queue_id: i32, queue: MsgQueue)
        ensures
            final(self)@ == old(self)@.insert(queue_id, queue@),
    {
        self.hash.insert(queue_id, queue);
        assert(self@ =~= old(self)@.insert(queue_id, queue@));
    }

    /// Remove queue with specified queue_id.
    pub fn remove_queue(&mut self, queue_id: i32)
        ensures
            final(self)@ == old(self)@.remove(queue_id),
    {
        self.hash.remove(&queue_id);
        assert(self@ =~= old(self)@.remove(queue_id));
    }

    /// If specified queue_id's queue already exists, enqueue data (Request).
    /// Else, create queue with specified queue_id, and enqueue data.
    pub fn enqueue(&mut self, data: Request, queue_id: i32)
        ensures
            final(self)@ == spec_pool_enqueue(old(self)@, data, queue_id),
    {
        let ghost old_view = self@;
        match self.hash.remove(&queue_id) {
            Some(mut queue) => {
                queue.enqueue(data);
                self.hash.insert(queue_id, queue);
            },
            None => {
                let mut queue = MsgQueue::new();
                queue.enqueue(data);
                self.hash.insert(queue_id, queue);
            },
        }
        assert(self@ =~= spec_pool_enqueue(old_view, data, queue_id));
    }

    /// Dequeue data (Request) from specified queue_id's queue: the one
    /// enqueued there first. If that data does not exist, return None.
    pub fn dequeue(&mut self, queue_id: i32) -> (r: Option<Request>)
        ensures
            (r, final(self)@) == spec_pool_dequeue(old(self)@, queue_id),
    {
        let ghost old_view = self@;
        match self.hash.remove(&queue_id) {
            Some(mut queue) => {
                let r = queue.dequeue();
                self.hash.insert(queue_id, queue);
                assert(self@ =~= spec_pool_dequeue(old_view, queue_id).1);
                r
            },
            None => {
                assert(self@ =~= old_view);
                None
            },
        }
    }

    /// Return if specified queue_id's queue is empty; an absent queue is empty.
    pub fn is_empty(&self, queue_id: i32) -> (b: bool)
        ensures
            b == (queue_of(self@, queue_id).len() == 0),
    {
        match self.hash.get(&queue_id) {
            Some(queue) => queue.is_empty(),
            None => true,
        }
    }

    /// Return if specified queue_id's queue exists.
    pub fn is_exist(&self, queue_id: &i32) -> (b: bool)
        ensures
            b == self@.contains_key(*queue_id),
    {
        self.hash.contains_key(queue_id)
    }
}

/// Queues are first in, first out: a dequeue after an enqueue gives what
/// a dequeue before it would have given, and the enqueued message stays at
/// the back; from an empty or absent queue it gives back the enqueued
/// message and leaves the queue empty.
pub proof fn lemma_dequeue_after_enqueue(pool: Map<i32, Seq<Request>>, data: Request, queue_id: i32)
    ensures
        queue_of(pool, queue_id).len() == 0 ==> spec_pool_dequeue(
            spec_pool_enqueue(pool, data, queue_id),
            queue_id,
        ) == (Some(data), pool.insert(queue_id, Seq::<Request>::empty())),
        queue_of(pool, queue_id).len() > 0 ==> spec_pool_dequeue(
            spec_pool_enqueue(pool, data, queue_id),
            queue_id,
        ) == (
            Some(queue_of(pool, queue_id)[0]),
            pool.insert(queue_id, queue_of(pool, queue_id).drop_first().push(data)),
        ),
{
    let q = queue_of(pool, queue_id);
    if q.len() == 0 {
        assert(q.push(data).drop_first() =~= Seq::<Request>::empty());
    } else {
        assert(q.push(data).drop_first() =~= q.drop_first().push(data));
    }
}

/// Enqueueing on one queue and dequeueing from another commute: neither
/// sees the other.
pub proof fn lemma_queues_are_independent(
    pool: Map<i32, Seq<Request>>,
    data: Request,
    a: i32,
    b: i32,
)
    requires
        a != b,
    ensures
        spec_pool_dequeue(spec_pool_enqueue(pool, data, a), b).0 == spec_pool_dequeue(pool, b).0,
        spec_pool_dequeue(spec_pool_enqueue(pool, data, a), b).1 == spec_pool_enqueue(
            spec_pool_dequeue(pool, b).1,
            data,
            a,
        ),
{
    let (r, rest) = spec_pool_dequeue(pool, b);
    assert(queue_of(rest, a) == queue_of(pool, a));
    assert(spec_pool_dequeue(spec_pool_enqueue(pool, data, a), b).1 =~= spec_pool_enqueue(
        rest,
        data,
        a,
    ));
}

impl Default for MsgQueuePool {
    /// A pool without queues.
    fn default() -> (p: Self)
        ensures
            p@ == Map::<i32, Seq<Request>>::empty(),
    {
        Self::new()
    }
}

} // verus!
