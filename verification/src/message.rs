//! The messages exchanged between clients and the broker.

use vstd::prelude::*;

verus! {

/// The kind of a message. The wire codes are those of the broker protocol
/// (`MSG_SEND_REQ` is 1, ..., `MSG_GBYE_ACK` is 14), see [`MsgType::code`].
#[allow(non_camel_case_types)]
#[derive(Clone, Copy, Debug, PartialEq, Eq, Structural)]
pub enum MsgType {
    MSG_SEND_REQ,
    MSG_SEND_ACK,
    MSG_RECV_REQ,
    MSG_RECV_ACK,
    MSG_FREE_REQ,
    MSG_FREE_ACK,
    MSG_PUSH_REQ,
    MSG_PUSH_ACK,
    MSG_HELO_REQ,
    MSG_HELO_ACK,
    MSG_STAT_REQ,
    MSG_STAT_RES,
    MSG_GBYE_REQ,
    MSG_GBYE_ACK,
}

/// The protocol code of each message kind.
pub open spec fn msg_code(t: MsgType) -> u32 {
    match t {
        MsgType::MSG_SEND_REQ => 1,
        MsgType::MSG_SEND_ACK => 2,
        MsgType::MSG_RECV_REQ => 3,
        MsgType::MSG_RECV_ACK => 4,
        MsgType::MSG_FREE_REQ => 5,
        MsgType::MSG_FREE_ACK => 6,
        MsgType::MSG_PUSH_REQ => 7,
        MsgType::MSG_PUSH_ACK => 8,
        MsgType::MSG_HELO_REQ => 9,
        MsgType::MSG_HELO_ACK => 10,
        MsgType::MSG_STAT_REQ => 11,
        MsgType::MSG_STAT_RES => 12,
        MsgType::MSG_GBYE_REQ => 13,
        MsgType::MSG_GBYE_ACK => 14,
    }
}

/// The answer that belongs to a request kind; a kind that is itself an
/// answer has none.
pub open spec fn ack_of(t: MsgType) -> Option<MsgType> {
    match t {
        MsgType::MSG_SEND_REQ => Some(MsgType::MSG_SEND_ACK),
        MsgType::MSG_RECV_REQ => Some(MsgType::MSG_RECV_ACK),
        MsgType::MSG_FREE_REQ => Some(MsgType::MSG_FREE_ACK),
        MsgType::MSG_PUSH_REQ => Some(MsgType::MSG_PUSH_ACK),
        MsgType::MSG_HELO_REQ => Some(MsgType::MSG_HELO_ACK),
        MsgType::MSG_STAT_REQ => Some(MsgType::MSG_STAT_RES),
        MsgType::MSG_GBYE_REQ => Some(MsgType::MSG_GBYE_ACK),
        _ => None,
    }
}

impl MsgType {
    /// The protocol code of this kind.
    pub fn code(&self) -> (c: u32)
        ensures
            c == msg_code(*self),
            1 <= c <= 14,
    {
        match self {
            MsgType::MSG_SEND_REQ => 1,
            MsgType::MSG_SEND_ACK => 2,
            MsgType::MSG_RECV_REQ => 3,
            MsgType::MSG_RECV_ACK => 4,
            MsgType::MSG_FREE_REQ => 5,
            MsgType::MSG_FREE_ACK => 6,
            MsgType::MSG_PUSH_REQ => 7,
            MsgType::MSG_PUSH_ACK => 8,
            MsgType::MSG_HELO_REQ => 9,
            MsgType::MSG_HELO_ACK => 10,
            MsgType::MSG_STAT_REQ => 11,
            MsgType::MSG_STAT_RES => 12,
            MsgType::MSG_GBYE_REQ => 13,
            MsgType::MSG_GBYE_ACK => 14,
        }
    }

    /// The kind whose protocol code is `c`, if there is one.
    pub fn from_code(c: u32) -> (t: Option<MsgType>)
        ensures
            match t {
                Some(t) => msg_code(t) == c,
                None => !(1 <= c <= 14),
            },
    {
        match c {
            1 => Some(MsgType::MSG_SEND_REQ),
            2 => Some(MsgType::MSG_SEND_ACK),
            3 => Some(MsgType::MSG_RECV_REQ),
            4 => Some(MsgType::MSG_RECV_ACK),
            5 => Some(MsgType::MSG_FREE_REQ),
            6 => Some(MsgType::MSG_FREE_ACK),
            7 => Some(MsgType::MSG_PUSH_REQ),
            8 => Some(MsgType::MSG_PUSH_ACK),
            9 => Some(MsgType::MSG_HELO_REQ),
            10 => Some(MsgType::MSG_HELO_ACK),
            11 => Some(MsgType::MSG_STAT_REQ),
            12 => Some(MsgType::MSG_STAT_RES),
            13 => Some(MsgType::MSG_GBYE_REQ),
            14 => Some(MsgType::MSG_GBYE_ACK),
            _ => None,
        }
    }

    /// The answer kind that acknowledges this request kind.
    pub fn ack(&self) -> (a: Option<MsgType>)
        ensures
            a == ack_of(*self),
    {
        match self {
            MsgType::MSG_SEND_REQ => Some(MsgType::MSG_SEND_ACK),
            MsgType::MSG_RECV_REQ => Some(MsgType::MSG_RECV_ACK),
            MsgType::MSG_FREE_REQ => Some(MsgType::MSG_FREE_ACK),
            MsgType::MSG_PUSH_REQ => Some(MsgType::MSG_PUSH_ACK),
            MsgType::MSG_HELO_REQ => Some(MsgType::MSG_HELO_ACK),
            MsgType::MSG_STAT_REQ => Some(MsgType::MSG_STAT_RES),
            MsgType::MSG_GBYE_REQ => Some(MsgType::MSG_GBYE_ACK),
            _ => None,
        }
    }
}

impl Default for MsgType {
    /// The default kind is `MSG_SEND_REQ`.
    fn default() -> (t: MsgType)
        ensures
            t == MsgType::MSG_SEND_REQ,
    {
        MsgType::MSG_SEND_REQ
    }
}

/// A message sent to the broker.
#[derive(Clone, Debug)]
pub struct Request {
    pub msg_type: MsgType,
    pub saddr: i32,
    pub daddr: i32,
    pub id: i32,
    pub payload: String,
}

/// An answer of the broker.
#[derive(Clone, Debug)]
pub struct Response {
    pub code: i32,
    pub status: String,
    pub msg_type: MsgType,
    pub saddr: i32,
    pub daddr: i32,
    pub id: i32,
    pub payload: String,
}

/// A [`Response`] with its strings taken by their characters.
pub struct ResponseView {
    pub code: int,
    pub status: Seq<char>,
    pub msg_type: MsgType,
    pub saddr: i32,
    pub daddr: i32,
    pub id: i32,
    pub payload: Seq<char>,
}

impl View for Response {
    type V = ResponseView;

    open spec fn view(&self) -> ResponseView {
        ResponseView {
            code: self.code as int,
            status: self.status@,
            msg_type: self.msg_type,
            saddr: self.saddr,
            daddr: self.daddr,
            id: self.id,
            payload: self.payload@,
        }
    }
}

/// A successful answer (code 200, status `OK`) with the given fields.
pub open spec fn ok_response(
    msg_type: MsgType,
    saddr: i32,
    daddr: i32,
    id: i32,
    payload: Seq<char>,
) -> ResponseView {
    ResponseView { code: 200, status: "OK"@, msg_type, saddr, daddr, id, payload }
}

/// A failed answer: the given code and status, every other field at its default.
pub open spec fn failed_response(code: int, status: Seq<char>) -> ResponseView {
    ResponseView {
        code,
        status,
        msg_type: MsgType::MSG_SEND_REQ,
        saddr: 0,
        daddr: 0,
        id: 0,
        payload: Seq::empty(),
    }
}

impl Request {
    /// A request with the given fields.
    pub fn new(msg_type: MsgType, saddr: i32, daddr: i32, id: i32, payload: String) -> (r: Self)
        ensures
            r == (Request { msg_type, saddr, daddr, id, payload }),
    {
        Self { msg_type, saddr, daddr, id, payload }
    }
}

impl Response {
    /// A successful answer (code 200, status `OK`) with the given fields.
    pub fn new(msg_type: MsgType, saddr: i32, daddr: i32, id: i32, payload: String) -> (r: Self)
        ensures
            r@ == ok_response(msg_type, saddr, daddr, id, payload@),
    {
        Self { code: 200, status: String::from_str("OK"), msg_type, saddr, daddr, id, payload }
    }

    /// The answer given when a request could not be carried out:
    /// code 500, status `Internal Server Error`.
    pub fn create_error_response() -> (r: Self)
        ensures
            r@ == failed_response(500, "Internal Server Error"@),
    {
        Self::failed(500, "Internal Server Error")
    }

    /// A failed answer with the given code and status.
    pub(crate) fn failed(code: i32, status: &str) -> (r: Self)
        ensures
            r@ == failed_response(code as int, status@),
    {
        Self {
            code,
            status: String::from_str(status),
            msg_type: MsgType::MSG_SEND_REQ,
            saddr: 0,
            daddr: 0,
            id: 0,
            payload: String::new(),
        }
    }
}

impl Default for Response {
    /// The default answer: code 200, status `OK`, every other field at its default.
    fn default() -> (r: Response)
        ensures
            r@ == ok_response(MsgType::MSG_SEND_REQ, 0, 0, 0, Seq::empty()),
    {
        Self::new(MsgType::MSG_SEND_REQ, 0, 0, 0, String::new())
    }
}

} // verus!
