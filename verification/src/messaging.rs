//! The broker's handling of one request: what it answers and how it changes
//! the queue pool.

use crate::json::{empty_json_object, json_empty_object};
use crate::message::{ack_of, failed_response, ok_response, MsgType, Request, Response, ResponseView};
use crate::queue::{lemma_dequeue_after_enqueue, queue_of, spec_pool_dequeue, spec_pool_enqueue, MsgQueue, MsgQueuePool};
use vstd::prelude::*;

verus! {

/// The request kinds that the broker handles.
pub open spec fn handled(t: MsgType) -> bool {
    match t {
        MsgType::MSG_SEND_REQ | MsgType::MSG_RECV_REQ | MsgType::MSG_FREE_REQ
        | MsgType::MSG_PUSH_REQ | MsgType::MSG_HELO_REQ | MsgType::MSG_STAT_REQ
        | MsgType::MSG_GBYE_REQ => true,
        _ => false,
    }
}

/// The answer when there is no message to hand out: code 404, `Not Found`.
pub open spec fn not_found() -> ResponseView {
    failed_response(404, "Not Found"@)
}

/// The answer to a request kind that the broker does not support:
/// code 400, `Bad Request`.
pub open spec fn bad_request() -> ResponseView {
    failed_response(400, "Bad Request"@)
}

/// The answer to `msg` by the broker `id`, and the pool after it, for a pool
/// `pool` (each client's address mapped to its queue).
pub open spec fn treat_spec(msg: Request, pool: Map<i32, Seq<Request>>, id: i32) -> (
    ResponseView,
    Map<i32, Seq<Request>>,
) {
    match msg.msg_type {
        MsgType::MSG_SEND_REQ => (
            ok_response(MsgType::MSG_SEND_ACK, id, msg.saddr, msg.id, Seq::empty()),
            spec_pool_enqueue(pool, msg, msg.daddr),
        ),
        MsgType::MSG_RECV_REQ => {
            let (r, rest) = spec_pool_dequeue(pool, msg.saddr);
            match r {
                Some(m) => (
                    ok_response(MsgType::MSG_RECV_ACK, m.saddr, m.daddr, m.id, m.payload@),
                    rest,
                ),
                None => (not_found(), pool),
            }
        },
        MsgType::MSG_FREE_REQ => (
            ok_response(MsgType::MSG_FREE_ACK, id, msg.saddr, msg.id, Seq::empty()),
            pool,
        ),
        MsgType::MSG_PUSH_REQ => (bad_request(), pool),
        MsgType::MSG_HELO_REQ => (
            ok_response(MsgType::MSG_HELO_ACK, id, msg.saddr, msg.id, Seq::empty()),
            if pool.contains_key(msg.saddr) {
                pool.insert(msg.saddr, Seq::empty())
            } else {
                pool
            },
        ),
        MsgType::MSG_STAT_REQ => (
            ok_response(MsgType::MSG_STAT_RES, id, msg.saddr, msg.id, empty_json_object()),
            pool,
        ),
        _ => (
            ok_response(MsgType::MSG_GBYE_ACK, id, msg.saddr, msg.id, Seq::empty()),
            pool.remove(msg.saddr),
        ),
    }
}

/// A message sent to a client with nothing queued is what that client
/// receives next: a SEND to `d` followed by a RECV from `d` answers RECV_ACK
/// with the sender, addressee, id and payload of the message sent, and
/// leaves `d` with an empty queue.
pub proof fn lemma_recv_returns_sent(
    pool: Map<i32, Seq<Request>>,
    send: Request,
    recv: Request,
    id: i32,
    id2: i32,
)
    requires
        send.msg_type == MsgType::MSG_SEND_REQ,
        recv.msg_type == MsgType::MSG_RECV_REQ,
        recv.saddr == send.daddr,
        queue_of(pool, send.daddr).len() == 0,
    ensures
        treat_spec(recv, treat_spec(send, pool, id).1, id2) == (
            ok_response(MsgType::MSG_RECV_ACK, send.saddr, send.daddr, send.id, send.payload@),
            pool.insert(send.daddr, Seq::<Request>::empty()),
        ),
{
    lemma_dequeue_after_enqueue(pool, send, send.daddr);
}

/// After a client says goodbye it has no queue, so a RECV from it is
/// answered `Not Found` and changes nothing.
pub proof fn lemma_recv_after_goodbye(
    pool: Map<i32, Seq<Request>>,
    gbye: Request,
    recv: Request,
    id: i32,
    id2: i32,
)
    requires
        gbye.msg_type == MsgType::MSG_GBYE_REQ,
        recv.msg_type == MsgType::MSG_RECV_REQ,
        recv.saddr == gbye.saddr,
    ensures
        !treat_spec(gbye, pool, id).1.contains_key(gbye.saddr),
        treat_spec(recv, treat_spec(gbye, pool, id).1, id2) == (
            not_found(),
            treat_spec(gbye, pool, id).1,
        ),
{
}

/// Every handled request is answered with code 200 and the kind that
/// acknowledges it, except a RECV from an empty or absent queue, which is
/// answered `Not Found` (code 404), and a PUSH, which is answered
/// `Bad Request` (code 400); those two leave the pool unchanged.
pub proof fn lemma_answer_code(msg: Request, pool: Map<i32, Seq<Request>>, id: i32)
    requires
        handled(msg.msg_type),
    ensures
        ({
            let (r, next) = treat_spec(msg, pool, id);
            let empty = msg.msg_type == MsgType::MSG_RECV_REQ && queue_of(pool, msg.saddr).len()
                == 0;
            let push = msg.msg_type == MsgType::MSG_PUSH_REQ;
            &&& empty ==> r == not_found() && next == pool
            &&& push ==> r == bad_request() && next == pool
            &&& !empty && !push ==> r.code == 200 && r.status == "OK"@ && Some(r.msg_type)
                == ack_of(msg.msg_type)
        }),
{
}

/// FREE, PUSH and STAT requests leave every queue as it was.
pub proof fn lemma_free_push_stat_keep_pool(msg: Request, pool: Map<i32, Seq<Request>>, id: i32)
    requires
        msg.msg_type == MsgType::MSG_FREE_REQ || msg.msg_type == MsgType::MSG_PUSH_REQ
            || msg.msg_type == MsgType::MSG_STAT_REQ,
    ensures
        treat_spec(msg, pool, id).1 == pool,
{
}

/// Whether `b` holds the same queues as `a` for every client but `c`.
pub open spec fn same_queues_except(a: Map<i32, Seq<Request>>, b: Map<i32, Seq<Request>>, c: i32) -> bool {
    forall|k: i32|
        k != c ==> (#[trigger] a.contains_key(k) == b.contains_key(k)) && (a.contains_key(k)
            ==> a[k] == b[k])
}

/// What each request does to the queues: a SEND puts the message at the back
/// of its addressee's queue (creating it); a RECV from a non-empty queue
/// answers with the front message, by its sender, addressee, id and payload,
/// and removes exactly it; a HELO empties the sender's queue if it has one;
/// a GBYE removes the sender's queue; and no request touches any other
/// client's queue.
pub proof fn lemma_request_effects(msg: Request, pool: Map<i32, Seq<Request>>, id: i32)
    requires
        handled(msg.msg_type),
    ensures
        ({
            let (r, next) = treat_spec(msg, pool, id);
            let addr = if msg.msg_type == MsgType::MSG_SEND_REQ {
                msg.daddr
            } else {
                msg.saddr
            };
            let q = queue_of(pool, msg.saddr);
            &&& same_queues_except(pool, next, addr)
            &&& msg.msg_type == MsgType::MSG_SEND_REQ ==> next.contains_key(msg.daddr) && next[msg.daddr]
                == queue_of(pool, msg.daddr).push(msg)
            &&& msg.msg_type == MsgType::MSG_RECV_REQ && q.len() > 0 ==> r.saddr == q[0].saddr
                && r.daddr == q[0].daddr && r.id == q[0].id && r.payload == q[0].payload@
                && next.contains_key(msg.saddr) && next[msg.saddr].len() + 1 == q.len() && forall|
                i: int,
            |
                0 <= i < next[msg.saddr].len() ==> next[msg.saddr][i] == q[i + 1]
            &&& msg.msg_type == MsgType::MSG_HELO_REQ ==> (pool.contains_key(msg.saddr)
                <==> next.contains_key(msg.saddr)) && (pool.contains_key(msg.saddr)
                ==> next[msg.saddr].len() == 0)
            &&& msg.msg_type == MsgType::MSG_GBYE_REQ ==> !next.contains_key(msg.saddr)
        }),
{
}

/// The broker handles exactly the request kinds, those that have an
/// acknowledgement: SEND, RECV, FREE, PUSH, HELO, STAT and GBYE.
pub proof fn lemma_handled_requests(t: MsgType)
    ensures
        handled(t) == (ack_of(t) is Some),
        handled(MsgType::MSG_SEND_REQ) && handled(MsgType::MSG_RECV_REQ) && handled(
            MsgType::MSG_FREE_REQ,
        ) && handled(MsgType::MSG_PUSH_REQ) && handled(MsgType::MSG_HELO_REQ) && handled(
            MsgType::MSG_STAT_REQ,
        ) && handled(MsgType::MSG_GBYE_REQ),
{
}

/// Whether the broker handles requests of kind `t`.
pub fn is_handled(t: MsgType) -> (b: bool)
    ensures
        b == handled(t),
{
    match t {
        MsgType::MSG_SEND_REQ | MsgType::MSG_RECV_REQ | MsgType::MSG_FREE_REQ
        | MsgType::MSG_PUSH_REQ | MsgType::MSG_HELO_REQ | MsgType::MSG_STAT_REQ
        | MsgType::MSG_GBYE_REQ => true,
        _ => false,
    }
}

/// Handle `msg` at the broker `id` against `queue`, and return the answer.
/// Only request kinds are handled (see [`is_handled`]).
pub fn treat_msg(msg: Request, queue: &mut MsgQueuePool, id: i32) -> (r: Response)
    requires
        handled(msg.msg_type),
    ensures
        (r@, final(queue)@) == treat_spec(msg, old(queue)@, id),
{
    match msg.msg_type {
        MsgType::MSG_SEND_REQ => treat_send_req(msg, queue, id),
        MsgType::MSG_RECV_REQ => treat_recv_req(msg, queue, id),
        MsgType::MSG_FREE_REQ => treat_free_req(msg, queue, id),
        MsgType::MSG_PUSH_REQ => treat_push_req(msg, queue, id),
        MsgType::MSG_HELO_REQ => treat_helo_req(msg, queue, id),
        MsgType::MSG_STAT_REQ => treat_stat_req(msg, queue, id),
        _ => treat_gbye_req(msg, queue, id),
    }
}

/// Add msg to queue and return SEND_ACK
fn treat_send_req(msg: Request, queue: &mut MsgQueuePool, id: i32) -> (r: Response)
    requires
        msg.msg_type == MsgType::MSG_SEND_REQ,
    ensures
        (r@, final(queue)@) == treat_spec(msg, old(queue)@, id),
{
    let ack = Response::new(MsgType::MSG_SEND_ACK, id, msg.saddr, msg.id, String::new());
    let queue_id = msg.daddr;
    queue.enqueue(msg, queue_id);
    ack
}

/// The answer when there is no message to hand out.
fn not_found_response() -> (r: Response)
    ensures
        r@ == not_found(),
{
    Response::failed(404, "Not Found")
}

/// Pop msg from queue and return RECV_ACK
fn treat_recv_req(msg: Request, queue: &mut MsgQueuePool, _id: i32) -> (r: Response)
    requires
        msg.msg_type == MsgType::MSG_RECV_REQ,
    ensures
        (r@, final(queue)@) == treat_spec(msg, old(queue)@, _id),
{
    let popped = queue.dequeue(msg.saddr);
    if let Some(m) = popped {
        Response::new(MsgType::MSG_RECV_ACK, m.saddr, m.daddr, m.id, m.payload)
    } else {
        not_found_response()
    }
}

/// Return FREE_ACK
fn treat_free_req(msg: Request, _queue: &mut MsgQueuePool, id: i32) -> (r: Response)
    requires
        msg.msg_type == MsgType::MSG_FREE_REQ,
    ensures
        (r@, final(_queue)@) == treat_spec(msg, old(_queue)@, id),
{
    Response::new(MsgType::MSG_FREE_ACK, id, msg.saddr, msg.id, String::new())
}

/// Not support: pushes are not part of this protocol, so a PUSH_REQ is
/// answered `Bad Request` and changes nothing.
fn treat_push_req(msg: Request, _queue: &mut MsgQueuePool, _id: i32) -> (r: Response)
    requires
        msg.msg_type == MsgType::MSG_PUSH_REQ,
    ensures
        (r@, final(_queue)@) == treat_spec(msg, old(_queue)@, _id),
{
    Response::failed(400, "Bad Request")
}

/// Return HELO_ACK; a client that has a queue gets it emptied.
fn treat_helo_req(msg: Request, queue: &mut MsgQueuePool, id: i32) -> (r: Response)
    requires
        msg.msg_type == MsgType::MSG_HELO_REQ,
    ensures
        (r@, final(queue)@) == treat_spec(msg, old(queue)@, id),
{
    if queue.is_exist(&msg.saddr) {
        queue.add_queue(msg.saddr, MsgQueue::new());
    }
    Response::new(MsgType::MSG_HELO_ACK, id, msg.saddr, msg.id, String::new())
}

/// Return STAT_RES, whose payload is the statistics as a JSON object (no
/// statistics are kept, so the object is empty)
fn treat_stat_req(msg: Request, _queue: &mut MsgQueuePool, id: i32) -> (r: Response)
    requires
        msg.msg_type == MsgType::MSG_STAT_REQ,
    ensures
        (r@, final(_queue)@) == treat_spec(msg, old(_queue)@, id),
{
    let payload = json_empty_object().unwrap();
    Response::new(MsgType::MSG_STAT_RES, id, msg.saddr, msg.id, payload)
}

/// Return GBYE_ACK
fn treat_gbye_req(msg: Request, queue: &mut MsgQueuePool, id: i32) -> (r: Response)
    requires
        msg.msg_type == MsgType::MSG_GBYE_REQ,
    ensures
        (r@, final(queue)@) == treat_spec(msg, old(queue)@, id),
{
    let ack = Response::new(MsgType::MSG_GBYE_ACK, id, msg.saddr, msg.id, String::new());
    let queue_id = msg.saddr;
    queue.remove_queue(queue_id);
    ack
}

} // verus!
