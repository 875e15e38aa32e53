//! The addresses of the broker's services, derived from the address it is
//! configured with by moving the port.

use crate::decimal::{
    decimal, is_digit, lemma_decimal_digits, lemma_parse_decimal, parse_unsigned,
    parse_unsigned_spec, push_decimal,
};
use vstd::prelude::*;

verus! {

/// Port distance of the consensus RPC listener from the configured address.
pub const RPC_PORT_OFFSET: u16 = 10;

/// Port distance of the client (broker) listener from the configured address.
pub const BROKER_PORT_OFFSET: u16 = 100;

/// Port distance of the consensus peer listener from a configured address.
pub const PEER_PORT_OFFSET: u64 = 1000;

/// The first position at or after `from` that holds `c`, or the length of
/// `s` when there is none.
pub open spec fn index_of_from(s: Seq<char>, c: char, from: int) -> int
    decreases s.len() - from,
{
    if from < 0 || from >= s.len() {
        s.len() as int
    } else if s[from] == c {
        from
    } else {
        index_of_from(s, c, from + 1)
    }
}

/// The last position before `end` that holds `c`, or -1 when there is none.
pub open spec fn last_index_before(s: Seq<char>, c: char, end: int) -> int
    decreases end,
{
    if end <= 0 {
        -1
    } else if s[end - 1] == c {
        end - 1
    } else {
        last_index_before(s, c, end - 1)
    }
}

/// `addr` with its port moved by `offset`. The host is the text before the
/// first `:`, the port the text between that `:` and the next one (or the
/// end); None when there is no `:`, when the port is not a number below
/// 2^16, or when the moved port would not be one.
pub open spec fn shifted_address_spec(addr: Seq<char>, offset: u16) -> Option<Seq<char>> {
    let p1 = index_of_from(addr, ':', 0);
    if p1 >= addr.len() {
        None
    } else {
        let p2 = index_of_from(addr, ':', p1 + 1);
        match parse_unsigned_spec(addr.subrange(p1 + 1, p2), 65535) {
            Some(port) => if port + offset <= 65535 {
                Some(addr.subrange(0, p1) + seq![':'] + decimal((port + offset) as nat))
            } else {
                None
            },
            None => None,
        }
    }
}

/// The consensus peer address of a configured `addr`: the host (the text
/// before the last `:`) and the port (the number after it) moved by
/// [`PEER_PORT_OFFSET`]; None when there is no `:`, when the port is not a
/// number below 2^64, or when the moved port would not be one.
pub open spec fn peer_address_spec(addr: Seq<char>) -> Option<(Seq<char>, nat)> {
    let p = last_index_before(addr, ':', addr.len() as int);
    if p < 0 {
        None
    } else {
        match parse_unsigned_spec(addr.subrange(p + 1, addr.len() as int), u64::MAX as nat) {
            Some(port) => if port + PEER_PORT_OFFSET <= u64::MAX {
                Some((addr.subrange(0, p), (port + PEER_PORT_OFFSET) as nat))
            } else {
                None
            },
            None => None,
        }
    }
}

/// The first position at or after `from` that holds `c`, or the length.
fn find_from(s: &str, len: usize, c: char, from: usize) -> (i: usize)
    requires
        len == s@.len(),
        from <= len,
    ensures
        i == index_of_from(s@, c, from as int),
        from <= i <= len,
{
    let mut i = from;
    while i < len
        invariant
            from <= i <= len,
            len == s@.len(),
            index_of_from(s@, c, from as int) == index_of_from(s@, c, i as int),
        decreases len - i,
    {
        if s.get_char(i) == c {
            return i;
        }
        i = i + 1;
    }
    i
}

/// The last position before `end` that holds `c`.
fn find_last_before(s: &str, c: char, end: usize) -> (r: Option<usize>)
    requires
        end <= s@.len(),
    ensures
        match r {
            Some(i) => i == last_index_before(s@, c, end as int) && i < end,
            None => last_index_before(s@, c, end as int) == -1,
        },
{
    let mut e = end;
    while e > 0
        invariant
            e <= end <= s@.len(),
            last_index_before(s@, c, end as int) == last_index_before(s@, c, e as int),
        decreases e,
    {
        if s.get_char(e - 1) == c {
            return Some(e - 1);
        }
        e = e - 1;
    }
    None
}

/// `addr` with its port moved by `offset` (see [`shifted_address_spec`]).
pub fn shifted_address(addr: &str, offset: u16) -> (r: Option<String>)
    ensures
        match shifted_address_spec(addr@, offset) {
            Some(a) => r matches Some(s) && s@ == a,
            None => r is None,
        },
{
    let len = addr.unicode_len();
    let p1 = find_from(addr, len, ':', 0);
    if p1 >= len {
        return None;
    }
    let p2 = find_from(addr, len, ':', p1 + 1);
    let port_text = addr.substring_char(p1 + 1, p2);
    match parse_unsigned(port_text, 65535) {
        Some(port) => {
            if port + (offset as u64) > 65535 {
                return None;
            }
            let mut out = String::from_str(addr.substring_char(0, p1));
            out.append(":");
            push_decimal(&mut out, port + (offset as u64));
            proof {
                reveal_strlit(":");
            }
            assert(out@ =~= addr@.subrange(0, p1 as int) + seq![':'] + decimal(
                (port + offset) as nat,
            ));
            Some(out)
        },
        None => None,
    }
}

/// The consensus peer address of a configured `addr` (see [`peer_address_spec`]).
pub fn peer_address(addr: &str) -> (r: Option<(String, u64)>)
    ensures
        match peer_address_spec(addr@) {
            Some((host, port)) => r matches Some((h, p)) && h@ == host && p == port,
            None => r is None,
        },
{
    let len = addr.unicode_len();
    match find_last_before(addr, ':', len) {
        None => None,
        Some(p) => {
            match parse_unsigned(addr.substring_char(p + 1, len), u64::MAX) {
                Some(port) => {
                    if port > u64::MAX - PEER_PORT_OFFSET {
                        return None;
                    }
                    Some((String::from_str(addr.substring_char(0, p)), port + PEER_PORT_OFFSET))
                },
                None => None,
            }
        },
    }
}

/// The address on which a node with configured address `addr` listens for
/// consensus RPCs.
pub fn rpc_listen_address(addr: &str) -> (r: Option<String>)
    ensures
        match shifted_address_spec(addr@, RPC_PORT_OFFSET) {
            Some(a) => r matches Some(s) && s@ == a,
            None => r is None,
        },
{
    shifted_address(addr, RPC_PORT_OFFSET)
}

/// The address to which a node sends consensus RPCs for a peer whose
/// configured address is `node_addr`.
pub fn rpc_peer_address(node_addr: &str) -> (r: Option<String>)
    ensures
        match shifted_address_spec(node_addr@, RPC_PORT_OFFSET) {
            Some(a) => r matches Some(s) && s@ == a,
            None => r is None,
        },
{
    shifted_address(node_addr, RPC_PORT_OFFSET)
}

/// The address on which a node with configured address `addr` listens for
/// its clients.
pub fn broker_listen_address(addr: &str) -> (r: Option<String>)
    ensures
        match shifted_address_spec(addr@, BROKER_PORT_OFFSET) {
            Some(a) => r matches Some(s) && s@ == a,
            None => r is None,
        },
{
    shifted_address(addr, BROKER_PORT_OFFSET)
}

/// A node's RPCs reach its peer's RPC listener: for the same configured
/// address, the address a peer connects to is the one the node listens on,
/// the host kept and the port moved by [`RPC_PORT_OFFSET`]; both exist
/// exactly when the address has a `:` followed by a port to which the offset
/// can be added below 2^16.
pub proof fn lemma_rpc_addresses_agree(addr: Seq<char>)
    ensures
        ({
            let p1 = index_of_from(addr, ':', 0);
            let p2 = index_of_from(addr, ':', p1 + 1);
            match shifted_address_spec(addr, RPC_PORT_OFFSET) {
                Some(a) => p1 < addr.len() && (parse_unsigned_spec(addr.subrange(p1 + 1, p2), 65535)
                    matches Some(port) && port + 10 <= 65535 && a == addr.subrange(0, p1) + seq![':']
                    + decimal((port + 10) as nat)),
                None => p1 >= addr.len() || parse_unsigned_spec(addr.subrange(p1 + 1, p2), 65535)
                    is None || parse_unsigned_spec(addr.subrange(p1 + 1, p2), 65535)->0 + 10 > 65535,
            }
        }),
{
}

/// The first position at or after `from` holding `c` is `k` when `k` holds
/// it and nothing between does; it is the length when nothing from `from`
/// on holds it.
proof fn lemma_index_of_from(s: Seq<char>, c: char, from: int, k: int)
    requires
        0 <= from <= k <= s.len(),
        forall|j: int| from <= j < k ==> s[j] != c,
        k == s.len() || s[k] == c,
    ensures
        index_of_from(s, c, from) == k,
    decreases k - from,
{
    if from < k {
        lemma_index_of_from(s, c, from + 1, k);
    }
}

/// Moving a port twice is moving it once by both offsets: shifting a
/// shifted address by `y` gives what shifting the first address by `x + y`
/// gives, the same host and the port moved by `x + y`, or nothing when that
/// port would not fit.
pub proof fn lemma_shift_twice(addr: Seq<char>, x: u16, y: u16)
    requires
        shifted_address_spec(addr, x) is Some,
        x + y <= 65535,
    ensures
        shifted_address_spec(shifted_address_spec(addr, x)->0, y) == shifted_address_spec(
            addr,
            (x + y) as u16,
        ),
{
    let p1 = index_of_from(addr, ':', 0);
    let p2 = index_of_from(addr, ':', p1 + 1);
    let port = parse_unsigned_spec(addr.subrange(p1 + 1, p2), 65535)->0;
    let n = (port + x) as nat;
    let host = addr.subrange(0, p1);
    let b = host + seq![':'] + decimal(n);
    lemma_first_colon(addr);
    assert forall|j: int| 0 <= j < p1 implies b[j] != ':' by {
        assert(b[j] == addr[j]);
    }
    assert(b[p1] == ':');
    lemma_index_of_from(b, ':', 0, p1);
    lemma_decimal_digits(n);
    assert forall|j: int| p1 + 1 <= j < b.len() implies b[j] != ':' by {
        assert(b[j] == decimal(n)[j - p1 - 1]);
        assert(is_digit(decimal(n)[j - p1 - 1]));
    }
    lemma_index_of_from(b, ':', p1 + 1, b.len() as int);
    assert(b.subrange(p1 + 1, b.len() as int) =~= decimal(n));
    lemma_parse_decimal(n, 65535);
    assert(b.subrange(0, p1) =~= host);
}

/// The first `:` of an address is preceded by no other.
proof fn lemma_first_colon(addr: Seq<char>)
    ensures
        0 <= index_of_from(addr, ':', 0) <= addr.len(),
        forall|j: int| 0 <= j < index_of_from(addr, ':', 0) ==> addr[j] != ':',
{
    lemma_first_colon_from(addr, 0);
}

proof fn lemma_first_colon_from(addr: Seq<char>, from: int)
    requires
        0 <= from <= addr.len(),
    ensures
        from <= index_of_from(addr, ':', from) <= addr.len(),
        forall|j: int| from <= j < index_of_from(addr, ':', from) ==> addr[j] != ':',
    decreases addr.len() - from,
{
    if from < addr.len() && addr[from] != ':' {
        lemma_first_colon_from(addr, from + 1);
    }
}

} // verus!
