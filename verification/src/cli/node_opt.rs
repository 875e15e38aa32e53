//! Settings of a consensus node.

use vstd::prelude::*;

verus! {

/// The id and the HTTP address of a consensus node.
#[derive(Clone, Debug)]
pub struct Opt {
    pub id: u64,
    pub addr: String,
}

impl Default for Opt {
    /// Node 5000 on `127.0.0.1:8080`.
    fn default() -> (o: Self)
        ensures
            o.id == 5000,
            o.addr@ == "127.0.0.1:8080"@,
    {
        Opt { id: 5000, addr: String::from_str("127.0.0.1:8080") }
    }
}

} // verus!
