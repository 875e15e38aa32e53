//! Settings of the sender that sends messages over the JSON protocol.

use crate::decimal::{decimal, push_decimal};
use vstd::prelude::*;

verus! {

/// The command-line settings
#[derive(Clone, Debug)]
pub struct Args {
    /// The kind of the messages sent, by its protocol name
    pub msg_type: String,
    /// This client's address
    pub saddr: u32,
    /// The address messages go to
    pub daddr: u32,
    /// The first message id
    pub id: u32,
    /// The broker's address
    pub baddr: String,
    /// How many messages to handle
    pub loop_times: u32,
}

/// The printed summary of the settings, one `name: value` line each.
pub open spec fn args_summary(a: Args) -> Seq<char> {
    "msg_type: "@ + a.msg_type@ + "\n"@ + "saddr: "@ + decimal(a.saddr as nat) + "\n"@ + "daddr: "@ + decimal(a.daddr as nat) + "\n"@
        + "id: "@ + decimal(a.id as nat) + "\n"@ + "baddr: "@ + a.baddr@ + "\n"@ + "loop_times: "@
        + decimal(a.loop_times as nat) + "\n"@
}

impl Default for Args {
    /// SEND requests from client 1 to client 100 through `127.0.0.1:21010`, from id 0, once.
    fn default() -> (a: Self)
        ensures
            a.msg_type@ == "MSG_SEND_REQ"@,
            a.saddr == 1,
            a.daddr == 100,
            a.id == 0,
            a.baddr@ == "127.0.0.1:21010"@,
            a.loop_times == 1,
    {
        Args {
            msg_type: String::from_str("MSG_SEND_REQ"),
            saddr: 1,
            daddr: 100,
            id: 0,
            baddr: String::from_str("127.0.0.1:21010"),
            loop_times: 1,
        }
    }
}

impl Args {
    /// The printed summary of the settings (see [`args_summary`]).
    pub fn summary(&self) -> (s: String)
        ensures
            s@ == args_summary(*self),
    {
        let mut s = String::new();
        s.append("msg_type: ");
        s.append(self.msg_type.as_str());
        s.append("\n");
        s.append("saddr: ");
        push_decimal(&mut s, self.saddr as u64);
        s.append("\n");
        s.append("daddr: ");
        push_decimal(&mut s, self.daddr as u64);
        s.append("\n");
        s.append("id: ");
        push_decimal(&mut s, self.id as u64);
        s.append("\n");
        s.append("baddr: ");
        s.append(self.baddr.as_str());
        s.append("\n");
        s.append("loop_times: ");
        push_decimal(&mut s, self.loop_times as u64);
        s.append("\n");
        assert(s@ =~= args_summary(*self));
        s
    }
}

} // verus!
