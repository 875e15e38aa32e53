//! The decisions of a broker connection that forwards client requests to
//! the replicated log: what to do on each event of the connection.

use crate::message::{failed_response, MsgType, Request, Response};
use vstd::prelude::*;

verus! {

/// Something that happened on a client connection.
pub enum SessionEvent {
    /// A request arrived.
    Received(Request),
    /// The client closed the connection.
    Closed,
    /// Reading from the connection failed.
    ReadFailed,
    /// Nothing arrived within the wait.
    TimedOut,
}

/// What the connection does next.
pub enum SessionAction {
    /// Stop serving the connection.
    Stop,
    /// Write the request to the replicated log and answer with the result.
    Forward(Request),
    /// If the queue of this client holds messages, push it one
    /// (see [`push_request`]).
    PushIfPending(i32),
    /// Nothing.
    Ignore,
}

/// The state of a connection: the client it serves, 0 until known.
pub struct ClientSession {
    pub client_id: i32,
}

/// The next state and action of a connection in state `client_id` on
/// `event`. Sends, receives and greetings are forwarded and name the client
/// if it is not known yet; a push acknowledgement or a quiet wait asks for
/// the next push; the end of the connection stops it; anything else is
/// ignored.
pub open spec fn session_step_spec(client_id: i32, event: SessionEvent) -> (i32, SessionAction) {
    match event {
        SessionEvent::Received(req) => match req.msg_type {
            MsgType::MSG_SEND_REQ | MsgType::MSG_RECV_REQ | MsgType::MSG_HELO_REQ => (
                if client_id == 0 {
                    req.saddr
                } else {
                    client_id
                },
                SessionAction::Forward(req),
            ),
            MsgType::MSG_PUSH_ACK => (client_id, SessionAction::PushIfPending(client_id)),
            _ => (client_id, SessionAction::Ignore),
        },
        SessionEvent::Closed => (client_id, SessionAction::Stop),
        SessionEvent::ReadFailed => (client_id, SessionAction::Stop),
        SessionEvent::TimedOut => (client_id, SessionAction::PushIfPending(client_id)),
    }
}

impl ClientSession {
    /// A connection whose client is not known yet.
    pub fn new() -> (s: Self)
        ensures
            s.client_id == 0,
    {
        Self { client_id: 0 }
    }

    /// Take one event and say what to do (see [`session_step_spec`]).
    pub fn step(&mut self, event: SessionEvent) -> (a: SessionAction)
        ensures
            (final(self).client_id, a) == session_step_spec(old(self).client_id, event),
    {
        match event {
            SessionEvent::Received(req) => match req.msg_type {
                MsgType::MSG_SEND_REQ | MsgType::MSG_RECV_REQ | MsgType::MSG_HELO_REQ => {
                    if self.client_id == 0 {
                        self.client_id = req.saddr;
                    }
                    SessionAction::Forward(req)
                },
                MsgType::MSG_PUSH_ACK => SessionAction::PushIfPending(self.client_id),
                _ => SessionAction::Ignore,
            },
            SessionEvent::Closed => SessionAction::Stop,
            SessionEvent::ReadFailed => SessionAction::Stop,
            SessionEvent::TimedOut => SessionAction::PushIfPending(self.client_id),
        }
    }
}

/// The request that the broker `my_id` writes to the log to push the next
/// message to `client_id`.
pub fn push_request(my_id: i32, client_id: i32) -> (r: Request)
    ensures
        r.msg_type == MsgType::MSG_PUSH_REQ,
        r.saddr == my_id,
        r.daddr == client_id,
        r.id == 0,
        r.payload@ == Seq::<char>::empty(),
{
    Request::new(MsgType::MSG_PUSH_REQ, my_id, client_id, 0, String::new())
}

/// Once a connection knows its client, no event changes it.
pub proof fn lemma_client_fixed_once_known(client_id: i32, event: SessionEvent)
    requires
        client_id != 0,
    ensures
        session_step_spec(client_id, event).0 == client_id,
{
}

/// The answer sent for a forwarded request: the result of writing it to
/// the replicated log, or the error answer (code 500) when the write failed.
pub fn consensus_answer(result: Option<Response>) -> (r: Response)
    ensures
        result matches Some(res) ==> r == res,
        result is None ==> r@ == failed_response(500, "Internal Server Error"@),
{
    match result {
        Some(res) => res,
        None => Response::create_error_response(),
    }
}

/// What a connection does with each event: every SEND, RECV and HELO is
/// written to the log unchanged, and the first of them names the client
/// (later ones keep it); a PUSH_ACK or a quiet wait asks for a push to the
/// current client; the end of the connection stops it; any other request is
/// ignored and changes nothing.
pub proof fn lemma_session_step(client_id: i32, event: SessionEvent)
    ensures
        ({
            let (next, a) = session_step_spec(client_id, event);
            let named = if client_id == 0 {
                event->Received_0.saddr
            } else {
                client_id
            };
            &&& (event matches SessionEvent::Received(req) && (req.msg_type == MsgType::MSG_SEND_REQ
                || req.msg_type == MsgType::MSG_RECV_REQ || req.msg_type
                == MsgType::MSG_HELO_REQ)) ==> next == named && a == SessionAction::Forward(
                event->Received_0,
            )
            &&& (event matches SessionEvent::Received(req) && req.msg_type
                == MsgType::MSG_PUSH_ACK) ==> next == client_id && a
                == SessionAction::PushIfPending(client_id)
            &&& (event matches SessionEvent::Received(req) && req.msg_type
                != MsgType::MSG_SEND_REQ && req.msg_type != MsgType::MSG_RECV_REQ && req.msg_type
                != MsgType::MSG_HELO_REQ && req.msg_type != MsgType::MSG_PUSH_ACK) ==> next
                == client_id && a == SessionAction::Ignore
            &&& event is TimedOut ==> next == client_id && a == SessionAction::PushIfPending(
                client_id,
            )
            &&& (event is Closed || event is ReadFailed) ==> next == client_id && a
                == SessionAction::Stop
        }),
{
}

} // verus!
