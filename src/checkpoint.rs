use crate::issue::{fingerprint, fingerprint_of, SearchableIssue};
use crate::{folded, u64_from_i64};
use vstd::prelude::*;

verus! {

/// The time reported when nothing has been synchronized yet: the Unix epoch,
/// in microseconds.
pub const EPOCH: i64 = 0;

/// What is remembered of one synchronized issue.
#[derive(Clone, Copy, Debug, PartialEq, Eq, Structural)]
pub struct CheckpointRecord {
    pub id: u64,
    pub fingerprint: i64,
    pub last_update_at: i64,
}

/// Abstract contents of a checkpoint store: for each id, its fingerprint and
/// its last update time.
pub type CheckpointMap = Map<u64, (i64, i64)>;

/// `w` is the latest update time of `m`: the largest update time of any
/// record, or `EPOCH` when there is no record.
pub open spec fn is_latest_change(m: CheckpointMap, w: i64) -> bool {
    if m.dom() == Set::<u64>::empty() {
        w == EPOCH
    } else {
        &&& forall|k: u64| #[trigger] m.contains_key(k) ==> m[k].1 <= w
        &&& exists|k: u64| #[trigger] m.contains_key(k) && m[k].1 == w
    }
}

/// One record per id, holding the fingerprint and update time of the issue's
/// last synchronization.
pub struct CheckpointStore {
    records: Vec<CheckpointRecord>,
    entries: Ghost<CheckpointMap>,
}

impl View for CheckpointStore {
    type V = CheckpointMap;

    closed spec fn view(&self) -> CheckpointMap {
        self.entries@
    }
}

impl CheckpointStore {
    /// Each record appears once, and the records and the abstract contents agree.
    pub closed spec fn wf(&self) -> bool {
        let rs = self.records@;
        let m = self.entries@;
        &&& forall|i: int|
            0 <= i < rs.len() ==> #[trigger] m.contains_key(rs[i].id) && m[rs[i].id] == (
                rs[i].fingerprint,
                rs[i].last_update_at,
            )
        &&& forall|k: u64| #[trigger]
            m.contains_key(k) ==> exists|i: int| 0 <= i < rs.len() && #[trigger] rs[i].id == k
        &&& forall|i: int, j: int|
            0 <= i < j < rs.len() ==> #[trigger] rs[i].id != #[trigger] rs[j].id
    }

    /// An empty store.
    pub fn new() -> (r: Self)
        ensures
            r.wf(),
            r@ == CheckpointMap::empty(),
    {
        CheckpointStore { records: Vec::new(), entries: Ghost(CheckpointMap::empty()) }
    }

    /// Inserts or overwrites the record of `id`. Other records are unchanged.
    pub fn store(&mut self, id: u64, fingerprint: i64, last_update_at: i64)
        requires
            old(self).wf(),
        ensures
            final(self).wf(),
            final(self)@ == old(self)@.insert(id, (fingerprint, last_update_at)),
    {
        let rec = CheckpointRecord { id, fingerprint, last_update_at };
        let ghost m = self.entries@.insert(id, (fingerprint, last_update_at));
        let ghost rs0 = self.records@;
        let mut i: usize = 0;
        while i < self.records.len()
            invariant
                i <= self.records@.len(),
                *self == *old(self),
                self.records@ == rs0,
                m == self.entries@.insert(id, (fingerprint, last_update_at)),
                rec.id == id,
                rec.fingerprint == fingerprint,
                rec.last_update_at == last_update_at,
                self.wf(),
                forall|j: int| 0 <= j < i ==> #[trigger] rs0[j].id != id,
            decreases self.records@.len() - i,
        {
            if self.records[i].id == id {
                self.records.set(i, rec);
                self.entries = Ghost(m);
                proof {
                    let rs = self.records@;
                    assert(rs == rs0.update(i as int, rec));
                    assert(rs[i as int] == rec);
                    assert forall|a: int, b: int| 0 <= a < b < rs.len() implies #[trigger] rs[a].id
                        != #[trigger] rs[b].id by {
                        assert(rs0[a].id != rs0[b].id);
                    }
                    assert forall|k: u64| #[trigger] m.contains_key(k) implies exists|j: int|
                        0 <= j < rs.len() && #[trigger] rs[j].id == k by {
                        if k != id {
                            let j = choose|j: int| 0 <= j < rs0.len() && #[trigger] rs0[j].id == k;
                            assert(rs[j].id == k);
                        } else {
                            assert(rs[i as int].id == k);
                        }
                    }
                }
                return;
            }
            i = i + 1;
        }
        self.records.push(rec);
        self.entries = Ghost(m);
        proof {
            let rs = self.records@;
            assert(rs.last() == rec);
            assert forall|k: u64| #[trigger] m.contains_key(k) implies exists|j: int|
                0 <= j < rs.len() && #[trigger] rs[j].id == k by {
                if k != id {
                    let j = choose|j: int| 0 <= j < rs0.len() && #[trigger] rs0[j].id == k;
                    assert(rs[j].id == k);
                } else {
                    assert(rs[rs.len() - 1].id == k);
                }
            }
        }
    }

    /// The record of `id`, if there is one.
    pub fn get(&self, id: u64) -> (r: Option<CheckpointRecord>)
        requires
            self.wf(),
        ensures
            r is None <==> !self@.contains_key(id),
            r matches Some(rec) ==> rec.id == id && self@[id] == (rec.fingerprint, rec.last_update_at),
    {
        let mut i: usize = 0;
        while i < self.records.len()
            invariant
                i <= self.records@.len(),
                self.wf(),
                forall|j: int| 0 <= j < i ==> #[trigger] self.records@[j].id != id,
            decreases self.records@.len() - i,
        {
            if self.records[i].id == id {
                assert(self.entries@.contains_key(self.records@[i as int].id));
                return Some(self.records[i]);
            }
            i = i + 1;
        }
        proof {
            if self@.contains_key(id) {
                let j = choose|j: int|
                    0 <= j < self.records@.len() && #[trigger] self.records@[j].id == id;
            }
        }
        None
    }

    /// The latest update time over all records, or `EPOCH` for an empty store.
    pub fn last_change_at(&self) -> (w: i64)
        requires
            self.wf(),
        ensures
            is_latest_change(self@, w),
    {
        let rs = &self.records;
        if rs.len() == 0 {
            proof {
                assert forall|k: u64| !self@.contains_key(k) by {
                    if self@.contains_key(k) {
                        let j = choose|j: int| 0 <= j < rs@.len() && #[trigger] rs@[j].id == k;
                    }
                }
                assert(self@.dom() =~= Set::<u64>::empty());
            }
            return EPOCH;
        }
        let mut w: i64 = rs[0].last_update_at;
        let mut at: usize = 0;
        let mut i: usize = 1;
        while i < rs.len()
            invariant
                1 <= i <= rs@.len(),
                self.wf(),
                at < i,
                rs@[at as int].last_update_at == w,
                forall|j: int| 0 <= j < i ==> #[trigger] rs@[j].last_update_at <= w,
            decreases rs@.len() - i,
        {
            if rs[i].last_update_at > w {
                w = rs[i].last_update_at;
                at = i;
            }
            i = i + 1;
        }
        proof {
            let m = self@;
            assert(m.contains_key(rs@[0].id));
            assert(m.dom() != Set::<u64>::empty());
            assert(m.contains_key(rs@[at as int].id));
            assert forall|k: u64| #[trigger] m.contains_key(k) implies m[k].1 <= w by {
                let j = choose|j: int| 0 <= j < rs@.len() && #[trigger] rs@[j].id == k;
                assert(rs@[j].last_update_at <= w);
            }
        }
        w
    }
}

/// The record that a synchronized issue leaves in the checkpoint store: its
/// id, its content fingerprint folded into the signed range, and its upstream
/// update time.
pub fn checkpoint_record(issue: &SearchableIssue) -> (r: CheckpointRecord)
    ensures
        r == (CheckpointRecord {
            id: issue.id,
            fingerprint: folded(fingerprint_of(issue@)),
            last_update_at: issue.last_update_at,
        }),
{
    let hash = fingerprint(issue);
    CheckpointRecord {
        id: issue.id,
        fingerprint: u64_from_i64(hash),
        last_update_at: issue.last_update_at,
    }
}

/// Records a synchronized issue: the store afterwards holds its
/// `checkpoint_record` under its id, and nothing else changes.
pub fn record_synced(store: &mut CheckpointStore, issue: &SearchableIssue)
    requires
        old(store).wf(),
    ensures
        final(store).wf(),
        final(store)@ == old(store)@.insert(
            issue.id,
            (folded(fingerprint_of(issue@)), issue.last_update_at),
        ),
{
    let rec = checkpoint_record(issue);
    store.store(rec.id, rec.fingerprint, rec.last_update_at);
}

/// The contents after storing each record of `ops` in order, starting from `m`.
pub open spec fn replay(m: CheckpointMap, ops: Seq<CheckpointRecord>) -> CheckpointMap
    decreases ops.len(),
{
    if ops.len() == 0 {
        m
    } else {
        let last = ops.last();
        replay(m, ops.drop_last()).insert(last.id, (last.fingerprint, last.last_update_at))
    }
}

/// `ops[i]` is the last record stored for its id.
pub open spec fn is_final_write(ops: Seq<CheckpointRecord>, i: int) -> bool {
    &&& 0 <= i < ops.len()
    &&& forall|j: int| i < j < ops.len() ==> #[trigger] ops[j].id != ops[i].id
}

/// An empty store reports `EPOCH` as its latest change.
pub proof fn lemma_empty_store_reports_epoch(w: i64)
    requires
        is_latest_change(CheckpointMap::empty(), w),
    ensures
        w == EPOCH,
{
    assert(CheckpointMap::empty().dom() =~= Set::<u64>::empty());
}

/// Storing the same record twice leaves the same contents as storing it once:
/// one entry for the id, holding that fingerprint and time.
pub proof fn lemma_store_idempotent(m: CheckpointMap, id: u64, fingerprint: i64, last_update_at: i64)
    ensures
        m.insert(id, (fingerprint, last_update_at)).insert(id, (fingerprint, last_update_at))
            == m.insert(id, (fingerprint, last_update_at)),
        m.insert(id, (fingerprint, last_update_at))[id] == (fingerprint, last_update_at),
{
    assert(m.insert(id, (fingerprint, last_update_at)).insert(id, (fingerprint, last_update_at))
        =~= m.insert(id, (fingerprint, last_update_at)));
}

/// Storing a record for one id never lowers the latest change below the
/// update time of another id that is still present.
pub proof fn lemma_store_keeps_other_changes(
    m: CheckpointMap,
    id: u64,
    fingerprint: i64,
    last_update_at: i64,
    other: u64,
    w: i64,
)
    requires
        m.contains_key(other),
        other != id,
        is_latest_change(m.insert(id, (fingerprint, last_update_at)), w),
    ensures
        m[other].1 <= w,
{
    let m2 = m.insert(id, (fingerprint, last_update_at));
    assert(m2.contains_key(other));
    assert(m2.dom() != Set::<u64>::empty());
}

proof fn lemma_replay_final_write(ops: Seq<CheckpointRecord>, i: int)
    requires
        is_final_write(ops, i),
    ensures
        replay(CheckpointMap::empty(), ops).contains_key(ops[i].id),
        replay(CheckpointMap::empty(), ops)[ops[i].id] == (ops[i].fingerprint, ops[i].last_update_at),
    decreases ops.len(),
{
    if i < ops.len() - 1 {
        let prefix = ops.drop_last();
        assert(ops[ops.len() - 1].id != ops[i].id);
        assert forall|j: int| i < j < prefix.len() implies #[trigger] prefix[j].id != prefix[i].id by {
            assert(ops[j].id != ops[i].id);
        }
        lemma_replay_final_write(prefix, i);
    }
}

proof fn lemma_replay_key(ops: Seq<CheckpointRecord>, k: u64)
    requires
        replay(CheckpointMap::empty(), ops).contains_key(k),
    ensures
        exists|i: int| is_final_write(ops, i) && ops[i].id == k,
    decreases ops.len(),
{
    if ops.len() > 0 {
        let n = ops.len() - 1;
        if ops[n].id == k {
            assert(is_final_write(ops, n));
        } else {
            let prefix = ops.drop_last();
            lemma_replay_key(prefix, k);
            let i = choose|i: int| is_final_write(prefix, i) && prefix[i].id == k;
            assert forall|j: int| i < j < ops.len() implies #[trigger] ops[j].id != ops[i].id by {
                if j < n {
                    assert(prefix[j].id != prefix[i].id);
                }
            }
            assert(is_final_write(ops, i));
        }
    } else {
        assert(!CheckpointMap::empty().contains_key(k));
    }
}

/// After a non-empty sequence of stores into an empty store, the latest
/// change is the largest update time among the last record stored for each
/// id: no such time exceeds it, and one equals it.
pub proof fn lemma_latest_change_after_stores(ops: Seq<CheckpointRecord>, w: i64)
    requires
        ops.len() > 0,
        is_latest_change(replay(CheckpointMap::empty(), ops), w),
    ensures
        forall|i: int| #[trigger] is_final_write(ops, i) ==> ops[i].last_update_at <= w,
        exists|i: int| #[trigger] is_final_write(ops, i) && ops[i].last_update_at == w,
{
    let m = replay(CheckpointMap::empty(), ops);
    let n = ops.len() - 1;
    assert(is_final_write(ops, n));
    lemma_replay_final_write(ops, n);
    assert(m.dom() != Set::<u64>::empty());
    assert forall|i: int| #[trigger] is_final_write(ops, i) implies ops[i].last_update_at <= w by {
        lemma_replay_final_write(ops, i);
    }
    let k = choose|k: u64| #[trigger] m.contains_key(k) && m[k].1 == w;
    lemma_replay_key(ops, k);
    let i = choose|i: int| is_final_write(ops, i) && ops[i].id == k;
    lemma_replay_final_write(ops, i);
}

} // verus!
