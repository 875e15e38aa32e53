//! Settings of the consensus-backed broker.

use crate::decimal::{decimal, push_decimal, push_signed_decimal, signed_decimal};
use vstd::prelude::*;

verus! {

/// The command-line settings
#[derive(Clone, Debug)]
pub struct Args {
    /// Debug level (0 ~ 5)
    pub log_level: u32,
    /// The set of IP address and port that the broker binds
    pub address: String,
    /// Timeout (ms) when the broker waits for 'epoll_wait'
    pub timeout: u32,
    /// The number of threads the broker creates
    pub threads: u32,
    /// Ignored
    pub msgs: i32,
    /// The file the broker logs to
    pub log_file: String,
    /// The file the broker writes its process id to
    pub pid_file: String,
    /// An integer representing the broker id
    pub myid: u32,
}

/// The printed summary of the settings, one `name: value` line each.
pub open spec fn args_summary(a: Args) -> Seq<char> {
    "debug_level: "@ + decimal(a.log_level as nat) + "\n"@ + "address: "@ + a.address@ + "\n"@
        + "timeout: "@ + decimal(a.timeout as nat) + "\n"@ + "threads: "@ + decimal(a.threads as nat)
        + "\n"@ + "msgs: "@ + signed_decimal(a.msgs as int) + "\n"@ + "log-file: "@ + a.log_file@
        + "\n"@ + "pid-file: "@ + a.pid_file@ + "\n"@ + "myid: "@ + decimal(a.myid as nat) + "\n"@
}

impl Default for Args {
    /// Level 2, `127.0.0.1:5555`, a 1 ms wait, 10 threads, 1000 messages,
    /// no log or pid file, id 0.
    fn default() -> (a: Self)
        ensures
            a.log_level == 2,
            a.address@ == "127.0.0.1:5555"@,
            a.timeout == 1,
            a.threads == 10,
            a.msgs == 1000,
            a.log_file@ == Seq::<char>::empty(),
            a.pid_file@ == Seq::<char>::empty(),
            a.myid == 0,
    {
        Args {
            log_level: 2,
            address: String::from_str("127.0.0.1:5555"),
            timeout: 1,
            threads: 10,
            msgs: 1000,
            log_file: String::new(),
            pid_file: String::new(),
            myid: 0,
        }
    }
}

impl Args {
    /// The printed summary of the settings (see [`args_summary`]).
    pub fn summary(&self) -> (s: String)
        ensures
            s@ == args_summary(*self),
    {
        let mut s = String::new();
        s.append("debug_level: ");
        push_decimal(&mut s, self.log_level as u64);
        s.append("\n");
        s.append("address: ");
        s.append(self.address.as_str());
        s.append("\n");
        s.append("timeout: ");
        push_decimal(&mut s, self.timeout as u64);
        s.append("\n");
        s.append("threads: ");
        push_decimal(&mut s, self.threads as u64);
        s.append("\n");
        s.append("msgs: ");
        push_signed_decimal(&mut s, self.msgs);
        s.append("\n");
        s.append("log-file: ");
        s.append(self.log_file.as_str());
        s.append("\n");
        s.append("pid-file: ");
        s.append(self.pid_file.as_str());
        s.append("\n");
        s.append("myid: ");
        push_decimal(&mut s, self.myid as u64);
        s.append("\n");
        assert(s@ =~= args_summary(*self));
        s
    }
}

} // verus!
