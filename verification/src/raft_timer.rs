//! Timestamps of the consensus path, kept per message id until the message's
//! round is over.

use crate::timer::{RaftTimestampType, RecordableType, TimerRecord, TimerStorage};
use std::collections::BTreeMap;
use vstd::std_specs::btree::{increasing_seq, spec_btree_map_iter};
use vstd::std_specs::cmp::OrdSpec;
use vstd::std_specs::iter::IteratorSpec;
use vstd::prelude::*;

verus! {

broadcast use {vstd::std_specs::btree::group_btree_axioms, vstd::laws_cmp::group_laws_cmp};

/// The records of each message id still in flight.
pub struct RaftTimerStorage {
    timestamps: BTreeMap<u32, TimerStorage>,
}

impl View for RaftTimerStorage {
    type V = Map<u32, Seq<TimerRecord>>;

    /// Each message id mapped to its records, in the order they were taken.
    closed spec fn view(&self) -> Map<u32, Seq<TimerRecord>> {
        Map::new(|k: u32| self.timestamps@.contains_key(k), |k: u32| self.timestamps@[k]@)
    }
}

/// Whether every element of `s` is smaller than the ones after it.
pub open spec fn strictly_increasing(s: Seq<u32>) -> bool {
    forall|i: int, j: int| 0 <= i < j < s.len() ==> s[i] < s[j]
}

/// The message ids of `m` in increasing order.
pub open spec fn ordered_keys(m: Map<u32, Seq<TimerRecord>>) -> Seq<u32> {
    choose|s: Seq<u32>| strictly_increasing(s) && s.to_set() == m.dom()
}

/// The records of the ids `ks`, one id after the other.
pub open spec fn records_in_order(m: Map<u32, Seq<TimerRecord>>, ks: Seq<u32>) -> Seq<TimerRecord>
    decreases ks.len(),
{
    if ks.len() == 0 {
        Seq::empty()
    } else {
        records_in_order(m, ks.drop_last()) + m[ks.last()]
    }
}

/// The records of an id, an absent one having none.
pub open spec fn records_of(m: Map<u32, Seq<TimerRecord>>, msg_id: u32) -> Seq<TimerRecord> {
    if m.contains_key(msg_id) {
        m[msg_id]
    } else {
        Seq::empty()
    }
}

/// Two strictly increasing sequences with the same elements are equal.
pub proof fn lemma_increasing_unique(a: Seq<u32>, b: Seq<u32>)
    requires
        strictly_increasing(a),
        strictly_increasing(b),
        a.to_set() == b.to_set(),
    ensures
        a == b,
    decreases a.len() + b.len(),
{
    if a.len() == 0 || b.len() == 0 {
        if a.len() > 0 {
            assert(a.to_set().contains(a[0]));
        }
        if b.len() > 0 {
            assert(b.to_set().contains(b[0]));
        }
        assert(a =~= b);
    } else {
        let x = a.last();
        let y = b.last();
        assert(a.to_set().contains(x));
        assert(b.to_set().contains(y));
        // the largest element of each is the same
        let ia = choose|i: int| 0 <= i < a.len() && a[i] == y;
        let ib = choose|i: int| 0 <= i < b.len() && b[i] == x;
        assert(b.contains(x));
        assert(a.contains(y));
        assert(x == y);
        let a2 = a.drop_last();
        let b2 = b.drop_last();
        assert forall|e: u32| a2.to_set().contains(e) implies b2.to_set().contains(e) by {
            let i = choose|i: int| 0 <= i < a2.len() && a2[i] == e;
            assert(a.to_set().contains(e));
            assert(b.contains(e));
            let j = choose|j: int| 0 <= j < b.len() && b[j] == e;
            assert(e < x);
            assert(j < b.len() - 1);
            assert(b2[j] == e);
        }
        assert forall|e: u32| b2.to_set().contains(e) implies a2.to_set().contains(e) by {
            let i = choose|i: int| 0 <= i < b2.len() && b2[i] == e;
            assert(b.to_set().contains(e));
            assert(a.contains(e));
            let j = choose|j: int| 0 <= j < a.len() && a[j] == e;
            assert(e < y);
            assert(j < a.len() - 1);
            assert(a2[j] == e);
        }
        assert(a2.to_set() =~= b2.to_set());
        lemma_increasing_unique(a2, b2);
        assert(a =~= a2.push(x));
        assert(b =~= b2.push(y));
    }
}

/// The ids of a run of map entries.
pub open spec fn entry_keys(s: Seq<(&u32, &TimerStorage)>) -> Seq<u32> {
    Seq::new(s.len(), |i: int| *s[i].0)
}

/// The keys that a map's iterator yields come in strictly increasing order.
proof fn lemma_btree_keys_increasing(ks: Seq<u32>)
    requires
        increasing_seq(ks),
    ensures
        strictly_increasing(ks),
{
    assert forall|i: int, j: int| 0 <= i < j < ks.len() implies ks[i] < ks[j] by {
        assert(ks[i].cmp_spec(&ks[j]) is Less);
    }
}

impl RaftTimerStorage {
    /// No message in flight.
    pub fn new() -> (t: Self)
        ensures
            t@ == Map::<u32, Seq<TimerRecord>>::empty(),
    {
        let t = Self { timestamps: BTreeMap::new() };
        assert(t@ =~= Map::<u32, Seq<TimerRecord>>::empty());
        t
    }

    /// Record an event of message `msg_id` after the ones recorded for it.
    pub fn append(
        &mut self,
        msg_id: u32,
        node_id_from: u32,
        node_id_to: u32,
        msg_type: RaftTimestampType,
        tsc: u64,
    )
        ensures
            final(self)@ == old(self)@.insert(
                msg_id,
                records_of(old(self)@, msg_id).push(
                    TimerRecord {
                        msg_id,
                        node_id_from,
                        node_id_to,
                        msg_type: msg_type.recorded_code(),
                        tsc,
                    },
                ),
            ),
    {
        let ghost old_view = self@;
        let mut storage = match self.timestamps.remove(&msg_id) {
            Some(s) => s,
            None => TimerStorage::new(),
        };
        storage.append(msg_id, node_id_from, node_id_to, msg_type, tsc);
        self.timestamps.insert(msg_id, storage);
        assert(self@ =~= old_view.insert(
            msg_id,
            records_of(old_view, msg_id).push(
                TimerRecord {
                    msg_id,
                    node_id_from,
                    node_id_to,
                    msg_type: msg_type.recorded_code(),
                    tsc,
                },
            ),
        ));
    }

    /// Take out the records of message `msg_id`, if there are any.
    pub fn take(&mut self, msg_id: u32) -> (r: Option<TimerStorage>)
        ensures
            final(self)@ == old(self)@.remove(msg_id),
            match r {
                Some(t) => old(self)@.contains_key(msg_id) && t@ == old(self)@[msg_id],
                None => !old(self)@.contains_key(msg_id),
            },
    {
        let r = self.timestamps.remove(&msg_id);
        assert(self@ =~= old(self)@.remove(msg_id));
        r
    }

    /// Take out the records of all messages, message by message in
    /// increasing id order; None when no message is in flight.
    pub fn take_all(&mut self) -> (r: Option<TimerStorage>)
        ensures
            old(self)@ == Map::<u32, Seq<TimerRecord>>::empty() ==> r is None && final(self)@ == old(
                self,
            )@,
            old(self)@ != Map::<u32, Seq<TimerRecord>>::empty() ==> (r matches Some(t) && t@ == records_in_order(
                old(self)@,
                ordered_keys(old(self)@),
            )) && final(self)@ == Map::<u32, Seq<TimerRecord>>::empty(),
    {
        if self.timestamps.is_empty() {
            assert(self@ =~= Map::<u32, Seq<TimerRecord>>::empty());
            return None;
        }
        let ghost m = self@;
        let ghost entries = spec_btree_map_iter(&self.timestamps).remaining();
        let ghost mut n: int = 0;
        let mut out: Vec<TimerRecord> = Vec::new();
        for kv in it: self.timestamps.iter()
            invariant
                m == self@,
                entries == spec_btree_map_iter(&self.timestamps).remaining(),
                it.seq() == entries,
                n == it.index(),
                out@ == records_in_order(m, entry_keys(entries.take(n))),
        {
            assert(kv == entries[n]);
            let (k, v) = kv;
            let ghost before = out@;
            let recs = v.records();
            let mut j: usize = 0;
            while j < recs.len()
                invariant
                    out@ == before + recs@.take(j as int),
                    j <= recs@.len(),
                decreases recs@.len() - j,
            {
                out.push(recs[j]);
                assert(recs@.take(j + 1) =~= recs@.take(j as int).push(recs@[j as int]));
                j = j + 1;
            }
            assert(recs@.take(j as int) =~= recs@);
            proof {
                let done = entry_keys(entries.take(n + 1));
                assert(done.drop_last() =~= entry_keys(entries.take(n)));
                assert(n < entries.len());
                assert(entries.take(n + 1)[n] == entries[n]);
                assert(done.last() == *k);
                assert(m[*k] == recs@);
                n = n + 1;
            }
        }
        proof {
            let ks = entry_keys(entries);
            assert(entries.take(n) =~= entries);
            assert(entries.map_values(|kv: (&u32, &TimerStorage)| *kv.0) =~= ks);
            lemma_btree_keys_increasing(ks);
            assert(ks.to_set() =~= m.dom()) by {
                assert forall|e: u32| ks.to_set().contains(e) implies m.dom().contains(e) by {
                    let i = choose|i: int| 0 <= i < ks.len() && ks[i] == e;
                    assert(self.timestamps@.contains_key(*entries[i].0));
                }
                assert forall|e: u32| m.dom().contains(e) implies ks.to_set().contains(e) by {
                    assert(entries.contains((&e, &self.timestamps@[e])));
                    let i = choose|i: int|
                        0 <= i < entries.len() && entries[i] == (&e, &self.timestamps@[e]);
                    assert(ks[i] == e);
                }
            }
            lemma_increasing_unique(ks, ordered_keys(m));
        }
        self.timestamps = BTreeMap::new();
        assert(self@ =~= Map::<u32, Seq<TimerRecord>>::empty());
        Some(TimerStorage::from_records(out))
    }
}

/// Whether every record is kept under its own message id.
pub open spec fn keyed_by_id(m: Map<u32, Seq<TimerRecord>>) -> bool {
    forall|k: u32, i: int|
        m.contains_key(k) && 0 <= i < m[k].len() ==> (#[trigger] m[k][i]).msg_id == k
}

/// Recording an event keeps every record under its own message id.
pub proof fn lemma_append_keeps_ids(
    m: Map<u32, Seq<TimerRecord>>,
    msg_id: u32,
    from: u32,
    to: u32,
    code: u32,
    tsc: u64,
)
    requires
        keyed_by_id(m),
    ensures
        keyed_by_id(
            m.insert(
                msg_id,
                records_of(m, msg_id).push(
                    TimerRecord { msg_id, node_id_from: from, node_id_to: to, msg_type: code, tsc },
                ),
            ),
        ),
{
}

/// Records taken out message by message in increasing id order come out
/// sorted by message id, all with ids among those taken.
pub proof fn lemma_records_in_order_sorted(m: Map<u32, Seq<TimerRecord>>, ks: Seq<u32>)
    requires
        keyed_by_id(m),
        strictly_increasing(ks),
        forall|t: int| 0 <= t < ks.len() ==> m.contains_key(#[trigger] ks[t]),
    ensures
        ({
            let r = records_in_order(m, ks);
            &&& forall|i: int, j: int| 0 <= i < j < r.len() ==> r[i].msg_id <= r[j].msg_id
            &&& forall|i: int|
                0 <= i < r.len() ==> exists|t: int| 0 <= t < ks.len() && ks[t] == #[trigger] r[i].msg_id
        }),
    decreases ks.len(),
{
    if ks.len() > 0 {
        let init = ks.drop_last();
        let k = ks.last();
        lemma_records_in_order_sorted(m, init);
        let prev = records_in_order(m, init);
        let r = records_in_order(m, ks);
        assert(r == prev + m[k]);
        assert forall|i: int| 0 <= i < r.len() implies exists|t: int|
            0 <= t < ks.len() && ks[t] == #[trigger] r[i].msg_id by {
            if i < prev.len() {
                assert(r[i] == prev[i]);
                let t = choose|t: int| 0 <= t < init.len() && init[t] == prev[i].msg_id;
                assert(ks[t] == init[t]);
            } else {
                assert(r[i] == m[k][i - prev.len()]);
                assert(ks[ks.len() - 1] == k);
            }
        }
        assert forall|i: int, j: int| 0 <= i < j < r.len() implies r[i].msg_id <= r[j].msg_id by {
            if j < prev.len() {
                assert(r[i] == prev[i] && r[j] == prev[j]);
            } else if i >= prev.len() {
                assert(r[i] == m[k][i - prev.len()] && r[j] == m[k][j - prev.len()]);
            } else {
                assert(r[i] == prev[i]);
                let t = choose|t: int| 0 <= t < init.len() && init[t] == prev[i].msg_id;
                assert(init[t] == ks[t]);
                assert(ks[t] < ks[ks.len() - 1]);
                assert(r[j] == m[k][j - prev.len()]);
            }
        }
    }
}

} // verus!
