//! A pool of per-client queues from which a message is taken out by its id.

use crate::message::Request;
use std::collections::HashMap;
use vstd::prelude::*;

verus! {

broadcast use vstd::std_specs::hash::group_hash_axioms;

/// The queues of all clients, each under its client's address, in the order
/// in which the messages arrived.
pub struct MsgQueuePool {
    hash: HashMap<i32, Vec<Request>>,
}

/// Whether `i` is the first position of `q` that holds a message with id `msg_id`.
pub open spec fn first_with_id(q: Seq<Request>, msg_id: i32, i: int) -> bool {
    &&& 0 <= i < q.len()
    &&& q[i].id == msg_id
    &&& forall|j: int| 0 <= j < i ==> q[j].id != msg_id
}

/// Whether some message of `q` has id `msg_id`.
pub open spec fn holds_id(q: Seq<Request>, msg_id: i32) -> bool {
    exists|i: int| 0 <= i < q.len() && q[i].id == msg_id
}

/// What taking out message `msg_id` from queue `queue_id` returns, and the
/// pool that it leaves: the first message with that id, removed from its
/// queue; nothing when the queue is absent or holds no such message.
pub open spec fn spec_dequeue_with_id(pool: Map<i32, Seq<Request>>, queue_id: i32, msg_id: i32) -> (
    Option<Request>,
    Map<i32, Seq<Request>>,
) {
    if pool.contains_key(queue_id) && holds_id(pool[queue_id], msg_id) {
        let q = pool[queue_id];
        let i = choose|i: int| first_with_id(q, msg_id, i);
        (Some(q[i]), pool.insert(queue_id, q.remove(i)))
    } else {
        (None, pool)
    }
}

/// The pool after `data` was added at the end of queue `queue_id`; the queue
/// is created when it does not exist yet.
pub open spec fn spec_keyed_enqueue(
    pool: Map<i32, Seq<Request>>,
    data: Request,
    queue_id: i32,
) -> Map<i32, Seq<Request>> {
    if pool.contains_key(queue_id) {
        pool.insert(queue_id, pool[queue_id].push(data))
    } else {
        pool.insert(queue_id, seq![data])
    }
}

/// A queue holding a message with id `msg_id` has a first such position.
pub proof fn lemma_first_with_id_exists(q: Seq<Request>, msg_id: i32)
    requires
        holds_id(q, msg_id),
    ensures
        exists|i: int| first_with_id(q, msg_id, i),
    decreases q.len(),
{
    if q[0].id == msg_id {
        assert(first_with_id(q, msg_id, 0));
    } else {
        let k = choose|i: int| 0 <= i < q.len() && q[i].id == msg_id;
        let rest = q.subrange(1, q.len() as int);
        assert(rest[k - 1] == q[k]);
        lemma_first_with_id_exists(rest, msg_id);
        let i = choose|i: int| first_with_id(rest, msg_id, i);
        assert forall|j: int| 0 <= j < i + 1 implies q[j].id != msg_id by {
            if j > 0 {
                assert(q[j] == rest[j - 1]);
            }
        }
        assert(first_with_id(q, msg_id, i + 1));
    }
}

/// The first position holding a message with a given id is unique.
pub proof fn lemma_first_with_id_unique(q: Seq<Request>, msg_id: i32, i: int, k: int)
    requires
        first_with_id(q, msg_id, i),
        first_with_id(q, msg_id, k),
    ensures
        i == k,
{
}

impl View for MsgQueuePool {
    type V = Map<i32, Seq<Request>>;

    /// Each client's address mapped to the messages of its queue.
    closed spec fn view(&self) -> Map<i32, Seq<Request>> {
        Map::new(|k: i32| self.hash@.contains_key(k), |k: i32| self.hash@[k]@)
    }
}

impl MsgQueuePool {
    /// A pool without queues.
    pub fn new() -> (p: Self)
        ensures
            p@ == Map::<i32, Seq<Request>>::empty(),
    {
        let p = Self { hash: HashMap::new() };
        assert(p@ =~= Map::<i32, Seq<Request>>::empty());
        p
    }

    /// Add new vec to hash with specified queue_id; a queue that was there
    /// is replaced by the empty one.
    pub fn add_queue(&mut self, queue_id: i32)
        ensures
            final(self)@ == old(self)@.insert(queue_id, Seq::empty()),
    {
        self.hash.insert(queue_id, Vec::new());
        assert(self@ =~= old(self)@.insert(queue_id, Seq::empty()));
    }

    /// Remove queue with specified queue_id.
    pub fn remove_queue(&mut self, queue_id: i32)
        ensures
            final(self)@ == old(self)@.remove(queue_id),
    {
        self.hash.remove(&queue_id);
        assert(self@ =~= old(self)@.remove(queue_id));
    }

    /// If specified queue_id's queue already exists, enqueue data (Request).
    /// Else, create queue with specified queue_id, and enqueue data.
    pub fn enqueue(&mut self, data: Request, queue_id: i32)
        ensures
            final(self)@ == spec_keyed_enqueue(old(self)@, data, queue_id),
    {
        let ghost old_view = self@;
        match self.hash.remove(&queue_id) {
            Some(mut queue) => {
                queue.push(data);
                self.hash.insert(queue_id, queue);
            },
            None => {
                let mut queue = Vec::new();
                queue.push(data);
                self.hash.insert(queue_id, queue);
            },
        }
        assert(self@ =~= spec_keyed_enqueue(old_view, data, queue_id));
    }

    /// Dequeue specified id's data (Request) from specified queue_id's queue.
    /// If that data does not exist, return None.
    pub fn dequeue_with_id(&mut self, queue_id: i32, msg_id: i32) -> (r: Option<Request>)
        ensures
            (r, final(self)@) == spec_dequeue_with_id(old(self)@, queue_id, msg_id),
    {
        let ghost old_view = self@;
        match self.hash.remove(&queue_id) {
            Some(mut queue) => {
                let ghost q = queue@;
                let mut idx: usize = 0;
                while idx < queue.len()
                    invariant
                        queue@ == q,
                        0 <= idx <= q.len(),
                        forall|j: int| 0 <= j < idx ==> q[j].id != msg_id,
                    ensures
                        queue@ == q,
                        0 <= idx <= q.len(),
                        forall|j: int| 0 <= j < idx ==> q[j].id != msg_id,
                        idx < q.len() ==> q[idx as int].id == msg_id,
                    decreases q.len() - idx,
                {
                    if queue[idx].id == msg_id {
                        break;
                    }
                    idx = idx + 1;
                }
                if idx < queue.len() {
                    assert(first_with_id(q, msg_id, idx as int));
                    assert(holds_id(q, msg_id));
                    proof {
                        let c = choose|i: int| first_with_id(q, msg_id, i);
                        lemma_first_with_id_unique(q, msg_id, c, idx as int);
                    }
                    let found = queue.remove(idx);
                    self.hash.insert(queue_id, queue);
                    assert(self@ =~= spec_dequeue_with_id(old_view, queue_id, msg_id).1);
                    Some(found)
                } else {
                    assert(!holds_id(q, msg_id));
                    self.hash.insert(queue_id, queue);
                    assert(self@ =~= old_view);
                    None
                }
            },
            None => {
                assert(self@ =~= old_view);
                None
            },
        }
    }
}

impl Default for MsgQueuePool {
    /// A pool without queues.
    fn default() -> (p: Self)
        ensures
            p@ == Map::<i32, Seq<Request>>::empty(),
    {
        Self::new()
    }
}

/// A message whose id is not yet in its queue is taken out again by that
/// id: the queue ends as it was before it was enqueued.
pub proof fn lemma_dequeue_with_id_after_enqueue(
    pool: Map<i32, Seq<Request>>,
    data: Request,
    queue_id: i32,
)
    requires
        !holds_id(if pool.contains_key(queue_id) { pool[queue_id] } else { Seq::empty() }, data.id),
    ensures
        spec_dequeue_with_id(spec_keyed_enqueue(pool, data, queue_id), queue_id, data.id) == (
            Some(data),
            pool.insert(
                queue_id,
                if pool.contains_key(queue_id) { pool[queue_id] } else { Seq::empty() },
            ),
        ),
{
    let q: Seq<Request> = if pool.contains_key(queue_id) { pool[queue_id] } else { Seq::empty() };
    let q2 = q.push(data);
    let next = spec_keyed_enqueue(pool, data, queue_id);
    assert(next[queue_id] =~= q2);
    let n = q.len() as int;
    assert(first_with_id(q2, data.id, n));
    assert(holds_id(q2, data.id));
    let c = choose|i: int| first_with_id(q2, data.id, i);
    lemma_first_with_id_unique(q2, data.id, c, n);
    assert(q2.remove(n) =~= q);
}

/// Taking out by id gives a message with that id, from the named queue,
/// the earliest such one, and removes exactly it; when the queue has none
/// (or is absent) nothing changes. No other queue changes.
pub proof fn lemma_dequeue_with_id_takes_that_message(
    pool: Map<i32, Seq<Request>>,
    queue_id: i32,
    msg_id: i32,
)
    ensures
        ({
            let (r, next) = spec_dequeue_with_id(pool, queue_id, msg_id);
            &&& forall|k: i32|
                k != queue_id ==> (#[trigger] next.contains_key(k) == pool.contains_key(k)) && (
                next.contains_key(k) ==> next[k] == pool[k])
            &&& r is None ==> next == pool && (pool.contains_key(queue_id) ==> !holds_id(
                pool[queue_id],
                msg_id,
            ))
            &&& r matches Some(m) ==> m.id == msg_id && pool.contains_key(queue_id)
                && next.contains_key(queue_id) && next[queue_id].len() + 1 == pool[queue_id].len()
                && exists|i: int|
                0 <= i < pool[queue_id].len() && pool[queue_id][i] == m && (forall|j: int|
                    0 <= j < i ==> pool[queue_id][j].id != msg_id) && next[queue_id]
                    == pool[queue_id].remove(i)
        }),
{
    if pool.contains_key(queue_id) && holds_id(pool[queue_id], msg_id) {
        lemma_first_with_id_exists(pool[queue_id], msg_id);
    }
}

} // verus!
