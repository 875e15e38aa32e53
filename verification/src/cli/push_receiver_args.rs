//! Settings of the receiver that takes pushed messages over the binary protocol.

use crate::decimal::{decimal, push_decimal};
use vstd::prelude::*;

verus! {

/// The command-line settings
#[derive(Clone, Debug)]
pub struct Args {
    /// This client's address
    pub saddr: u32,
    /// The address messages go to
    pub daddr: u32,
    /// The first message id
    pub id: u32,
    /// The broker's address
    pub baddr: String,
    /// How many messages to handle
    pub loop_times: u32,
}

/// The printed summary of the settings, one `name: value` line each.
pub open spec fn args_summary(a: Args) -> Seq<char> {
    "saddr: "@ + decimal(a.saddr as nat) + "\n"@ + "daddr: "@ + decimal(a.daddr as nat) + "\n"@
        + "id: "@ + decimal(a.id as nat) + "\n"@ + "baddr: "@ + a.baddr@ + "\n"@ + "loop_times: "@
        + decimal(a.loop_times as nat) + "\n"@
}

impl Default for Args {
    /// Client 100 of broker 5000 at `127.0.0.1:21101`, from id 0, once.
    fn default() -> (a: Self)
        ensures
            a.saddr == 100,
            a.daddr == 5000,
            a.id == 0,
            a.baddr@ == "127.0.0.1:21101"@,
            a.loop_times == 1,
    {
        Args {
            saddr: 100,
            daddr: 5000,
            id: 0,
            baddr: String::from_str("127.0.0.1:21101"),
            loop_times: 1,
        }
    }
}

impl Args {
    /// The printed summary of the settings (see [`args_summary`]).
    pub fn summary(&self) -> (s: String)
        ensures
            s@ == args_summary(*self),
    {
        let mut s = String::new();
        s.append("saddr: ");
        push_decimal(&mut s, self.saddr as u64);
        s.append("\n");
        s.append("daddr: ");
        push_decimal(&mut s, self.daddr as u64);
        s.append("\n");
        s.append("id: ");
        push_decimal(&mut s, self.id as u64);
        s.append("\n");
        s.append("baddr: ");
        s.append(self.baddr.as_str());
        s.append("\n");
        s.append("loop_times: ");
        push_decimal(&mut s, self.loop_times as u64);
        s.append("\n");
        assert(s@ =~= args_summary(*self));
        s
    }
}

} // verus!
