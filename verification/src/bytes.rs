//! Byte encodings: the little-endian message ids that ride along with
//! consensus log entries, the big-endian lengths and ports that frame the
//! streams between consensus peers, and the fixed-size client frames.

use vstd::arithmetic::div_mod::lemma_mod_breakdown;
use vstd::prelude::*;

verus! {

/// The number that four bytes stand for, least significant byte first.
pub open spec fn le_value(b0: u8, b1: u8, b2: u8, b3: u8) -> int {
    b0 + 256 * b1 + 65536 * b2 + 16777216 * b3
}

/// The four bytes of `v`, least significant first.
pub open spec fn le_bytes_of(v: u32) -> Seq<u8> {
    seq![
        (v % 256) as u8,
        ((v / 256) % 256) as u8,
        ((v / 65536) % 256) as u8,
        (v / 16777216) as u8,
    ]
}

/// The number that the four bytes of `b` from position `at` stand for.
pub open spec fn le_value_at(b: Seq<u8>, at: int) -> int {
    le_value(b[at], b[at + 1], b[at + 2], b[at + 3])
}

/// The numbers that the complete four-byte groups of `b` stand for, in
/// order; bytes after the last complete group are left out.
pub open spec fn le_words(b: Seq<u8>) -> Seq<u32> {
    Seq::new(b.len() / 4, |i: int| le_value_at(b, 4 * i) as u32)
}

/// Four bytes stand for a number below 2^32.
pub proof fn lemma_le_value_bounds(b0: u8, b1: u8, b2: u8, b3: u8)
    ensures
        0 <= le_value(b0, b1, b2, b3) <= u32::MAX,
{
}

/// Decoding the bytes of `v` gives back `v`.
pub proof fn lemma_le_round_trip(v: u32)
    ensures
        le_bytes_of(v).len() == 4,
        le_value_at(le_bytes_of(v), 0) == v,
{
    let b = le_bytes_of(v);
    assert(b[0] == v % 256);
    assert(b[1] == (v / 256) % 256);
    assert(b[2] == (v / 65536) % 256);
    assert(b[3] == v / 16777216);
    assert(v == v % 256 + 256 * ((v / 256) % 256) + 65536 * ((v / 65536) % 256) + 16777216 * (v
        / 16777216)) by (nonlinear_arith);
}

/// u32 to little-endian bytes.
pub fn u32_to_le_bytes(value: u32) -> (b: [u8; 4])
    ensures
        b@ == le_bytes_of(value),
{
    let b = [
        (value % 256) as u8,
        ((value / 256) % 256) as u8,
        ((value / 65536) % 256) as u8,
        (value / 16777216) as u8,
    ];
    assert(b@ =~= le_bytes_of(value));
    b
}

/// The number that the four bytes of `bytes` from position `at` stand for.
fn le_u32_at(bytes: &[u8], at: usize) -> (v: u32)
    requires
        at + 4 <= bytes@.len(),
    ensures
        v == le_value_at(bytes@, at as int),
{
    proof {
        lemma_le_value_bounds(bytes@[at as int], bytes@[at + 1], bytes@[at + 2], bytes@[at + 3]);
    }
    (bytes[at] as u32) + 256 * (bytes[at + 1] as u32) + 65536 * (bytes[at + 2] as u32) + 16777216
        * (bytes[at + 3] as u32)
}

/// u32 from the first four bytes, least significant first; None when
/// there are fewer than four bytes.
pub fn le_bytes_to_u32(bytes: &[u8]) -> (r: Option<u32>)
    ensures
        bytes@.len() >= 4 ==> r == Some(le_value_at(bytes@, 0) as u32),
        bytes@.len() < 4 ==> r is None,
{
    if bytes.len() >= 4 {
        Some(le_u32_at(bytes, 0))
    } else {
        None
    }
}

/// The u32 of every complete group of four bytes, in order (an incomplete
/// group at the end is ignored); None for no bytes at all.
pub fn le_bytes_to_u32_vec(bytes: &[u8]) -> (r: Option<Vec<u32>>)
    ensures
        bytes@.len() == 0 ==> r is None,
        bytes@.len() > 0 ==> (r matches Some(v) && v@ == le_words(bytes@)),
{
    if bytes.len() == 0 {
        return None;
    }
    let mut words: Vec<u32> = Vec::new();
    let mut at: usize = 0;
    while bytes.len() - at >= 4
        invariant
            at % 4 == 0,
            at <= bytes@.len(),
            words@.len() == at / 4,
            forall|i: int| 0 <= i < words@.len() ==> words@[i] == le_words(bytes@)[i],
        decreases bytes@.len() - at,
    {
        let w = le_u32_at(bytes, at);
        words.push(w);
        at = at + 4;
    }
    assert(words@ =~= le_words(bytes@));
    Some(words)
}

/// Decoding the encoding of `v` gives `v` back.
pub proof fn lemma_decode_encoded(v: u32)
    ensures
        le_words(le_bytes_of(v)) == seq![v],
{
    lemma_le_round_trip(v);
    assert(le_words(le_bytes_of(v)) =~= seq![v]);
}

/// Decoding a run of encoded ids gives the ids back, in order: the encoding
/// of `vs` followed by that of `v` decodes to `vs` followed by `v`.
pub proof fn lemma_decode_concatenation(b: Seq<u8>, v: u32)
    requires
        b.len() % 4 == 0,
    ensures
        le_words(b + le_bytes_of(v)) == le_words(b).push(v),
{
    lemma_le_round_trip(v);
    let c = b + le_bytes_of(v);
    assert forall|i: int| 0 <= i < b.len() / 4 implies le_words(c)[i] == le_words(b)[i] by {
        assert(c[4 * i] == b[4 * i]);
        assert(c[4 * i + 1] == b[4 * i + 1]);
        assert(c[4 * i + 2] == b[4 * i + 2]);
        assert(c[4 * i + 3] == b[4 * i + 3]);
    }
    let n = b.len() as int;
    assert(c[n] == le_bytes_of(v)[0]);
    assert(c[n + 1] == le_bytes_of(v)[1]);
    assert(c[n + 2] == le_bytes_of(v)[2]);
    assert(c[n + 3] == le_bytes_of(v)[3]);
    assert(le_words(c)[n / 4] == v);
    assert(le_words(c) =~= le_words(b).push(v));
}

/// 256 to the power `n`.
pub open spec fn pow256(n: nat) -> nat
    decreases n,
{
    if n == 0 {
        1
    } else {
        256 * pow256((n - 1) as nat)
    }
}

/// The `n` lowest bytes of `v`, most significant first.
pub open spec fn be_bytes(v: nat, n: nat) -> Seq<u8>
    decreases n,
{
    if n == 0 {
        Seq::empty()
    } else {
        be_bytes(v / 256, (n - 1) as nat).push((v % 256) as u8)
    }
}

/// The number that bytes stand for, most significant first.
pub open spec fn be_value(b: Seq<u8>) -> nat
    decreases b.len(),
{
    if b.len() == 0 {
        0
    } else {
        be_value(b.drop_last()) * 256 + (b.last() as nat)
    }
}

/// `n` zero bytes.
pub open spec fn zeros(n: nat) -> Seq<u8> {
    Seq::new(n, |i: int| 0u8)
}

/// The size of a client frame.
pub const FRAME_LEN: usize = 1024;

/// Reading back `n` big-endian bytes of `v` gives `v` modulo 256^n.
pub proof fn lemma_be_round_trip(v: nat, n: nat)
    ensures
        be_bytes(v, n).len() == n,
        be_value(be_bytes(v, n)) == v % pow256(n),
    decreases n,
{
    if n > 0 {
        lemma_be_round_trip(v / 256, (n - 1) as nat);
        let b = be_bytes(v, n);
        assert(b.drop_last() =~= be_bytes(v / 256, (n - 1) as nat));
        lemma_pow256_positive((n - 1) as nat);
        lemma_mod_breakdown(v as int, 256, pow256((n - 1) as nat) as int);
    }
}

/// Powers of 256 are positive.
pub proof fn lemma_pow256_positive(n: nat)
    ensures
        pow256(n) > 0,
    decreases n,
{
    if n > 0 {
        lemma_pow256_positive((n - 1) as nat);
    }
}

/// `n` bytes stand for a number below 256^n.
pub proof fn lemma_be_value_bound(b: Seq<u8>)
    ensures
        be_value(b) < pow256(b.len()),
    decreases b.len(),
{
    if b.len() > 0 {
        lemma_be_value_bound(b.drop_last());
        assert(be_value(b.drop_last()) * 256 + b.last() < pow256(b.len())) by (nonlinear_arith)
            requires
                be_value(b.drop_last()) < pow256((b.len() - 1) as nat),
                b.last() < 256,
                pow256(b.len()) == 256 * pow256((b.len() - 1) as nat),
        ;
    }
}

/// Append the `n` lowest bytes of `v`, most significant first.
fn push_be(out: &mut Vec<u8>, v: u64, n: usize)
    ensures
        final(out)@ == old(out)@ + be_bytes(v as nat, n as nat),
    decreases n,
{
    if n > 0 {
        push_be(out, v / 256, n - 1);
        out.push((v % 256) as u8);
        assert(be_bytes(v as nat, n as nat) == be_bytes((v / 256) as nat, (n - 1) as nat).push(
            (v % 256) as u8,
        ));
    }
}

/// The number that at most eight bytes stand for, most significant first.
pub fn be_decode(bytes: &[u8]) -> (v: u64)
    requires
        bytes@.len() <= 8,
    ensures
        v == be_value(bytes@),
{
    assert(bytes@.take(bytes@.len() as int) =~= bytes@);
    be_decode_prefix(bytes, bytes.len())
}

/// The number that the first `count` (at most eight) bytes stand for, most
/// significant first.
fn be_decode_prefix(bytes: &[u8], count: usize) -> (v: u64)
    requires
        count <= 8,
        count <= bytes@.len(),
    ensures
        v == be_value(bytes@.take(count as int)),
{
    let mut acc: u64 = 0;
    let mut i: usize = 0;
    while i < count
        invariant
            i <= count <= 8,
            count <= bytes@.len(),
            acc == be_value(bytes@.take(i as int)),
        decreases count - i,
    {
        proof {
            let t = bytes@.take(i + 1);
            assert(t.drop_last() =~= bytes@.take(i as int));
            lemma_be_value_bound(bytes@.take(i as int));
            lemma_pow256_monotonic(i as nat, 7);
            lemma_pow256_values();
            assert(pow256(7) == 0x100_0000_0000_0000);
            assert(acc * 256 + bytes@[i as int] < 0x1_0000_0000_0000_0000) by (nonlinear_arith)
                requires
                    acc < 0x100_0000_0000_0000,
                    bytes@[i as int] < 256,
            ;
        }
        acc = acc * 256 + bytes[i] as u64;
        i = i + 1;
    }
    acc
}

/// Powers of 256 grow.
pub proof fn lemma_pow256_monotonic(a: nat, b: nat)
    requires
        a <= b,
    ensures
        pow256(a) <= pow256(b),
    decreases b,
{
    if a < b {
        lemma_pow256_monotonic(a, (b - 1) as nat);
        lemma_pow256_positive((b - 1) as nat);
    }
}

/// The length of a consensus message as the four big-endian bytes that
/// precede it on the stream.
pub fn be_u32_from(bytes: &[u8]) -> (v: u32)
    requires
        bytes@.len() == 4,
    ensures
        v == be_value(bytes@),
{
    proof {
        lemma_be_value_bound(bytes@);
        reveal_with_fuel(pow256, 5);
    }
    be_decode(bytes) as u32
}

/// A consensus message as it is written to a peer stream: its length as
/// four big-endian bytes, then the message.
pub fn length_prefixed(payload: &[u8]) -> (out: Vec<u8>)
    requires
        payload@.len() <= u32::MAX,
    ensures
        out@ == be_bytes(payload@.len(), 4) + payload@,
{
    let mut out: Vec<u8> = Vec::new();
    push_be(&mut out, payload.len() as u64, 4);
    let ghost head = out@;
    let mut i: usize = 0;
    while i < payload.len()
        invariant
            i <= payload@.len(),
            out@ == head + payload@.take(i as int),
        decreases payload@.len() - i,
    {
        out.push(payload[i]);
        assert(payload@.take(i + 1) =~= payload@.take(i as int).push(payload@[i as int]));
        i = i + 1;
    }
    assert(payload@.take(i as int) =~= payload@);
    out
}

/// The first message of a peer stream's bytes `b`, and how many bytes it
/// takes: a length in four big-endian bytes, then that many bytes; None
/// while `b` does not hold a whole message.
pub open spec fn read_frame_spec(b: Seq<u8>) -> Option<(Seq<u8>, nat)> {
    if b.len() < 4 {
        None
    } else {
        let n = be_value(b.take(4));
        if 4 + n <= b.len() {
            Some((b.subrange(4, 4 + n as int), (4 + n) as nat))
        } else {
            None
        }
    }
}

/// Read the first message of a peer stream's bytes (see [`read_frame_spec`]).
pub fn read_frame(buf: &[u8]) -> (r: Option<(Vec<u8>, usize)>)
    ensures
        match read_frame_spec(buf@) {
            Some((m, used)) => r matches Some((v, u)) && v@ == m && u == used,
            None => r is None,
        },
{
    if buf.len() < 4 {
        return None;
    }
    let v = be_decode_prefix(buf, 4);
    proof {
        lemma_be_value_bound(buf@.take(4));
        lemma_pow256_values();
    }
    let n = v as usize;
    let len = buf.len();
    if n > len - 4 {
        return None;
    }
    let mut msg: Vec<u8> = Vec::new();
    let mut i: usize = 0;
    while i < n
        invariant
            i <= n,
            len == buf@.len(),
            4 + n <= buf@.len(),
            msg@ == buf@.subrange(4, 4 + i),
        decreases n - i,
    {
        msg.push(buf[4 + i]);
        assert(buf@.subrange(4, 4 + i + 1) =~= buf@.subrange(4, 4 + i).push(buf@[4 + i]));
        i = i + 1;
    }
    Some((msg, 4 + n))
}

/// A message written to a peer stream is read back whole, and only it: the
/// length read is the message's, and the bytes after the length are the
/// message, whatever follows it on the stream.
pub proof fn lemma_frame_round_trip(payload: Seq<u8>, rest: Seq<u8>)
    requires
        payload.len() <= u32::MAX,
    ensures
        read_frame_spec(be_bytes(payload.len(), 4) + payload + rest) == Some(
            (payload, (4 + payload.len()) as nat),
        ),
{
    let b = be_bytes(payload.len(), 4) + payload + rest;
    lemma_be_round_trip(payload.len(), 4);
    lemma_pow256_values();
    assert(b.take(4) =~= be_bytes(payload.len(), 4));
    assert(b.subrange(4, 4 + payload.len() as int) =~= payload);
}

/// The bytes of a run of messages written one after the other to a peer
/// stream, each with its length prefix.
pub open spec fn encode_frames(ms: Seq<Seq<u8>>) -> Seq<u8>
    decreases ms.len(),
{
    if ms.len() == 0 {
        Seq::empty()
    } else {
        be_bytes(ms[0].len(), 4) + ms[0] + encode_frames(ms.drop_first())
    }
}

/// Read `k` messages one after the other from the front of `b`, with the
/// bytes left after them; None when `b` does not hold `k` whole messages.
pub open spec fn decode_frames(b: Seq<u8>, k: nat) -> Option<(Seq<Seq<u8>>, Seq<u8>)>
    decreases k,
{
    if k == 0 {
        Some((Seq::empty(), b))
    } else {
        match read_frame_spec(b) {
            None => None,
            Some((m, used)) => match decode_frames(b.skip(used as int), (k - 1) as nat) {
                None => None,
                Some((ms, left)) => Some((seq![m] + ms, left)),
            },
        }
    }
}

/// Every message fits a four-byte length.
pub open spec fn frameable(ms: Seq<Seq<u8>>) -> bool {
    forall|i: int| 0 <= i < ms.len() ==> (#[trigger] ms[i]).len() <= u32::MAX
}

/// A run of messages written to a peer stream is read back as exactly those
/// messages, in order, and nothing else: after them the reader stands at
/// whatever followed the run.
pub proof fn lemma_frames_round_trip(ms: Seq<Seq<u8>>, rest: Seq<u8>)
    requires
        frameable(ms),
    ensures
        decode_frames(encode_frames(ms) + rest, ms.len()) == Some((ms, rest)),
    decreases ms.len(),
{
    if ms.len() > 0 {
        let tail = ms.drop_first();
        assert(frameable(tail)) by {
            assert forall|i: int| 0 <= i < tail.len() implies (#[trigger] tail[i]).len()
                <= u32::MAX by {
                assert(tail[i] == ms[i + 1]);
            }
        }
        assert(ms[0].len() <= u32::MAX);
        let b = encode_frames(ms) + rest;
        let after = encode_frames(tail) + rest;
        assert(b =~= be_bytes(ms[0].len(), 4) + ms[0] + after);
        lemma_frame_round_trip(ms[0], after);
        let used = (4 + ms[0].len()) as nat;
        lemma_be_round_trip(ms[0].len(), 4);
        assert(b.skip(used as int) =~= after);
        lemma_frames_round_trip(tail, rest);
        assert(seq![ms[0]] + tail =~= ms);
    }
}

/// All whole messages at the front of a peer stream's bytes, in order, and
/// how many bytes they take.
pub open spec fn decode_all(b: Seq<u8>) -> (Seq<Seq<u8>>, nat)
    decreases b.len(),
{
    match read_frame_spec(b) {
        None => (Seq::empty(), 0),
        Some((m, used)) => if 4 <= used <= b.len() {
            let (ms, n) = decode_all(b.skip(used as int));
            (seq![m] + ms, used + n)
        } else {
            (Seq::empty(), 0)
        },
    }
}

/// Reading a stream that holds a run of written messages gives exactly
/// those messages, in order, and uses all of its bytes.
pub proof fn lemma_read_all_written(ms: Seq<Seq<u8>>)
    requires
        frameable(ms),
    ensures
        decode_all(encode_frames(ms)) == (ms, encode_frames(ms).len()),
    decreases ms.len(),
{
    if ms.len() == 0 {
        assert(read_frame_spec(Seq::<u8>::empty()) is None);
        assert(ms =~= Seq::<Seq<u8>>::empty());
    } else {
        let tail = ms.drop_first();
        assert(frameable(tail)) by {
            assert forall|i: int| 0 <= i < tail.len() implies (#[trigger] tail[i]).len()
                <= u32::MAX by {
                assert(tail[i] == ms[i + 1]);
            }
        }
        assert(ms[0].len() <= u32::MAX);
        let b = encode_frames(ms);
        let after = encode_frames(tail);
        lemma_be_round_trip(ms[0].len(), 4);
        assert(b =~= be_bytes(ms[0].len(), 4) + ms[0] + after);
        lemma_frame_round_trip(ms[0], after);
        let used = (4 + ms[0].len()) as nat;
        assert(b.skip(used as int) =~= after);
        lemma_read_all_written(tail);
        assert(seq![ms[0]] + tail =~= ms);
    }
}

/// Read all whole messages at the front of a peer stream's bytes (see
/// [`decode_all`]).
pub fn read_frames(buf: &[u8]) -> (r: (Vec<Vec<u8>>, usize))
    ensures
        r.0@.map_values(|v: Vec<u8>| v@) == decode_all(buf@).0,
        r.1 == decode_all(buf@).1,
{
    let mut out: Vec<Vec<u8>> = Vec::new();
    let mut at: usize = 0;
    let len = buf.len();
    let ghost mut pre: Seq<Seq<u8>> = Seq::empty();
    assert(buf@.skip(0) =~= buf@);
    assert(pre + decode_all(buf@).0 =~= decode_all(buf@).0);
    assert(out@.map_values(|v: Vec<u8>| v@) =~= pre);
    loop
        invariant
            len == buf@.len(),
            at <= len,
            out@.map_values(|v: Vec<u8>| v@) == pre,
            decode_all(buf@).0 == pre + decode_all(buf@.skip(at as int)).0,
            decode_all(buf@).1 == at + decode_all(buf@.skip(at as int)).1,
        decreases len - at,
    {
        let rest = slice_from(buf, at);
        match read_frame(rest.as_slice()) {
            None => {
                assert(pre + Seq::<Seq<u8>>::empty() =~= pre);
                return (out, at);
            },
            Some((m, used)) => {
                let ghost r = buf@.skip(at as int);
                assert(rest@ == r);
                let ghost (ms2, n2) = decode_all(r.skip(used as int));
                assert(r.skip(used as int) =~= buf@.skip(at + used));
                proof {
                    pre = pre.push(m@);
                }
                out.push(m);
                assert(out@.map_values(|v: Vec<u8>| v@) =~= pre);
                assert(pre.drop_last() + (seq![m@] + ms2) =~= pre + ms2);
                at = at + used;
            },
        }
    }
}

/// The bytes of `buf` from position `at` on.
fn slice_from(buf: &[u8], at: usize) -> (r: Vec<u8>)
    requires
        at <= buf@.len(),
    ensures
        r@ == buf@.skip(at as int),
{
    let mut r: Vec<u8> = Vec::new();
    let mut i = at;
    while i < buf.len()
        invariant
            at <= i <= buf@.len(),
            r@ == buf@.subrange(at as int, i as int),
        decreases buf@.len() - i,
    {
        r.push(buf[i]);
        assert(buf@.subrange(at as int, i + 1) =~= buf@.subrange(at as int, i as int).push(
            buf@[i as int],
        ));
        i = i + 1;
    }
    assert(buf@.subrange(at as int, i as int) =~= buf@.skip(at as int));
    r
}

/// The greeting a node sends to a peer it connects to: the length 8 as four
/// big-endian bytes, then its consensus port as eight big-endian bytes.
pub fn handshake_bytes(port: u64) -> (out: Vec<u8>)
    ensures
        out@ == be_bytes(8, 4) + be_bytes(port as nat, 8),
{
    let mut out: Vec<u8> = Vec::new();
    push_be(&mut out, 8, 4);
    push_be(&mut out, port, 8);
    out
}

/// The port in a peer's greeting, once its length prefix is read: the eight
/// big-endian bytes; None when the greeting is not eight bytes long.
pub fn handshake_port(buf: &[u8]) -> (port: Option<u64>)
    ensures
        buf@.len() == 8 ==> port == Some(be_value(buf@) as u64),
        buf@.len() != 8 ==> port is None,
{
    if buf.len() == 8 {
        Some(be_decode(buf))
    } else {
        None
    }
}

/// A client frame: the encoded answer followed by zero bytes up to
/// [`FRAME_LEN`] bytes.
pub fn pad_frame(raw: &[u8]) -> (frame: Vec<u8>)
    requires
        raw@.len() <= FRAME_LEN,
    ensures
        frame@ == raw@ + zeros((FRAME_LEN - raw@.len()) as nat),
        frame@.len() == FRAME_LEN,
{
    let mut frame: Vec<u8> = Vec::new();
    let mut i: usize = 0;
    while i < raw.len()
        invariant
            i <= raw@.len(),
            frame@ == raw@.take(i as int),
        decreases raw@.len() - i,
    {
        frame.push(raw[i]);
        assert(raw@.take(i + 1) =~= raw@.take(i as int).push(raw@[i as int]));
        i = i + 1;
    }
    assert(raw@.take(i as int) =~= raw@);
    while frame.len() < FRAME_LEN
        invariant
            raw@.len() <= frame@.len() <= FRAME_LEN,
            frame@ == raw@ + zeros((frame@.len() - raw@.len()) as nat),
        decreases FRAME_LEN - frame@.len(),
    {
        frame.push(0);
        assert(frame@ =~= raw@ + zeros((frame@.len() - raw@.len()) as nat));
    }
    frame
}

/// A peer reads back the port that a connecting node greeted it with.
pub proof fn lemma_handshake_round_trip(port: u64)
    ensures
        be_value(be_bytes(8, 4)) == 8,
        be_value(be_bytes(port as nat, 8)) == port,
{
    lemma_be_round_trip(8, 4);
    lemma_be_round_trip(port as nat, 8);
    lemma_pow256_values();
}

/// The powers of 256 up to 256^8 = 2^64.
proof fn lemma_pow256_values()
    ensures
        pow256(4) == 0x1_0000_0000,
        pow256(8) == 0x1_0000_0000_0000_0000,
{
    assert(pow256(0) == 1);
    assert(pow256(1) == 0x100);
    assert(pow256(2) == 0x1_0000);
    assert(pow256(3) == 0x100_0000);
    assert(pow256(4) == 0x1_0000_0000);
    assert(pow256(5) == 0x100_0000_0000);
    assert(pow256(6) == 0x1_0000_0000_0000);
    assert(pow256(7) == 0x100_0000_0000_0000);
    assert(pow256(8) == 0x1_0000_0000_0000_0000);
}

} // verus!
