//! The index dispatcher consulted by the session driver: a store of vector
//! indexes, each a sequence of records, together with the ranked
//! nearest-neighbour traversal used by search and vbase.
//!
//! Records are `(handle, vector)` pairs; the handle is assigned at insertion
//! and never reused within an index.  Ranking orders record handles by the
//! distance of their vector to the query (sum of absolute component
//! differences), nearest first, insertion order breaking ties.
//!
//! Every operation's contract states the exact new store and result over
//! the spec-level transforms defined here, which the session interpreter
//! reuses.

use vstd::prelude::*;

use crate::msg::{IndexOptions, IndexStat, OpError};

verus! {

/// Spec-level state of one index.
pub struct IndexV {
    /// Dimension every vector of the index has.
    pub dim: u32,
    /// Next record handle to assign.
    pub next: u64,
    /// Records in insertion order: `(handle, vector)`.
    pub records: Seq<(u64, Seq<u64>)>,
}

/// One vector index.
pub struct Index {
    dim: u32,
    next: u64,
    records: Vec<(u64, Vec<u64>)>,
}

/// The views of a sequence of records.
pub open spec fn recs_view(records: Seq<(u64, Vec<u64>)>) -> Seq<(u64, Seq<u64>)> {
    Seq::new(records.len(), |t: int| (records[t].0, records[t].1@))
}

impl View for Index {
    type V = IndexV;

    closed spec fn view(&self) -> IndexV {
        IndexV { dim: self.dim, next: self.next, records: recs_view(self.records@) }
    }
}

/// The views of a sequence of store entries.
pub open spec fn store_view(entries: Seq<(u64, Index)>) -> Seq<(u64, IndexV)> {
    Seq::new(entries.len(), |t: int| (entries[t].0, entries[t].1@))
}

/// The position of `id` in the store, or `-1` when absent (first match).
pub open spec fn idx_of(w: Seq<(u64, IndexV)>, id: u64) -> int
    decreases w.len(),
{
    if w.len() == 0 {
        -1
    } else if w[0].0 == id {
        0
    } else if idx_of(w.drop_first(), id) < 0 {
        -1
    } else {
        1 + idx_of(w.drop_first(), id)
    }
}

/// The index stored under `id`, if any.
pub open spec fn lookup(w: Seq<(u64, IndexV)>, id: u64) -> Option<IndexV> {
    if idx_of(w, id) >= 0 {
        Some(w[idx_of(w, id)].1)
    } else {
        None
    }
}

/// Basic facts about `idx_of`.
pub proof fn lemma_idx_of(w: Seq<(u64, IndexV)>, id: u64)
    ensures
        idx_of(w, id) == -1 || (0 <= idx_of(w, id) < w.len()),
        idx_of(w, id) >= 0 ==> w[idx_of(w, id)].0 == id,
        idx_of(w, id) == -1 ==> forall|k: int| 0 <= k < w.len() ==> (#[trigger] w[k]).0 != id,
    decreases w.len(),
{
    if w.len() > 0 && w[0].0 != id {
        lemma_idx_of(w.drop_first(), id);
        assert forall|k: int| idx_of(w, id) == -1 && 0 <= k < w.len() implies (#[trigger] w[k]).0
            != id by {
            if k > 0 {
                assert(w.drop_first()[k - 1] == w[k]);
            }
        }
    }
}

/// `idx_of` is the position of the first match.
pub proof fn lemma_idx_of_found(w: Seq<(u64, IndexV)>, id: u64, i: int)
    requires
        0 <= i < w.len(),
        w[i].0 == id,
        forall|k: int| 0 <= k < i ==> (#[trigger] w[k]).0 != id,
    ensures
        idx_of(w, id) == i,
    decreases w.len(),
{
    if i > 0 {
        assert(w[0].0 != id);
        assert(w.drop_first()[i - 1] == w[i]);
        assert forall|k: int| 0 <= k < i - 1 implies (#[trigger] w.drop_first()[k]).0 != id by {
            assert(w.drop_first()[k] == w[k + 1]);
        }
        lemma_idx_of_found(w.drop_first(), id, i - 1);
    }
}

/// When no entry matches, `idx_of` reports absence.
pub proof fn lemma_idx_of_absent(w: Seq<(u64, IndexV)>, id: u64)
    requires
        forall|k: int| 0 <= k < w.len() ==> (#[trigger] w[k]).0 != id,
    ensures
        idx_of(w, id) == -1,
    decreases w.len(),
{
    if w.len() > 0 {
        assert forall|k: int| 0 <= k < w.len() - 1 implies (#[trigger] w.drop_first()[k]).0
            != id by {
            assert(w.drop_first()[k] == w[k + 1]);
        }
        lemma_idx_of_absent(w.drop_first(), id);
    }
}

/// Well-formedness of one index: handles are below `next` and every vector
/// has the index dimension.
pub open spec fn index_wf(ix: IndexV) -> bool {
    forall|k: int|
        0 <= k < ix.records.len() ==> (#[trigger] ix.records[k]).0 < ix.next && ix.records[
            k
        ].1.len() == ix.dim
}

/// Well-formedness of the store: identifiers are distinct and every index is
/// well formed.
pub open spec fn store_wf(w: Seq<(u64, IndexV)>) -> bool {
    &&& forall|i: int, j: int| 0 <= i < j < w.len() ==> (#[trigger] w[i]).0 != (#[trigger] w[j]).0
    &&& forall|i: int| 0 <= i < w.len() ==> index_wf((#[trigger] w[i]).1)
}

/// A fresh, empty index.
pub open spec fn fresh_index(dim: u32) -> IndexV {
    IndexV { dim, next: 0, records: Seq::empty() }
}

/// What create does to the store: a fresh index under `id`, replacing any
/// existing one.
pub open spec fn create_spec(w: Seq<(u64, IndexV)>, id: u64, dim: u32) -> Seq<(u64, IndexV)> {
    if idx_of(w, id) >= 0 {
        w.update(idx_of(w, id), (id, fresh_index(dim)))
    } else {
        w.push((id, fresh_index(dim)))
    }
}

/// What insert does to the store, and its result.
pub open spec fn insert_spec(w: Seq<(u64, IndexV)>, id: u64, v: Seq<u64>) -> (Seq<(u64, IndexV)>,
    Result<(), OpError>) {
    let i = idx_of(w, id);
    if i < 0 {
        (w, Err(OpError::UnknownIndex))
    } else {
        let ix = w[i].1;
        if v.len() != ix.dim {
            (w, Err(OpError::WrongDimension))
        } else if ix.next == u64::MAX {
            (w, Err(OpError::IndexFull))
        } else {
            (
                w.update(
                    i,
                    (
                        id,
                        IndexV {
                            dim: ix.dim,
                            next: (ix.next + 1) as u64,
                            records: ix.records.push((ix.next, v)),
                        },
                    ),
                ),
                Ok(()),
            )
        }
    }
}

/// The candidate handles of an index, in record order.
pub open spec fn handles_of(records: Seq<(u64, Seq<u64>)>) -> Seq<u64> {
    Seq::new(records.len(), |t: int| records[t].0)
}

/// The records kept after a delete: those whose answer rejected deletion.
pub open spec fn keep_spec(records: Seq<(u64, Seq<u64>)>, answers: Seq<bool>) -> Seq<
    (u64, Seq<u64>),
>
    decreases records.len(),
{
    if records.len() == 0 {
        Seq::empty()
    } else {
        let rest = keep_spec(records.drop_first(), answers.drop_first());
        if answers[0] {
            rest
        } else {
            seq![records[0]] + rest
        }
    }
}

/// How many answers accepted.
pub open spec fn count_true(answers: Seq<bool>) -> nat
    decreases answers.len(),
{
    if answers.len() == 0 {
        0
    } else {
        count_true(answers.drop_last()) + (if answers.last() {
            1nat
        } else {
            0nat
        })
    }
}

/// What applying a delete decision does to the store.
pub open spec fn delete_spec(w: Seq<(u64, IndexV)>, id: u64, answers: Seq<bool>) -> Seq<
    (u64, IndexV),
> {
    let i = idx_of(w, id);
    let ix = w[i].1;
    w.update(i, (id, IndexV { dim: ix.dim, next: ix.next, records: keep_spec(ix.records, answers) }))
}

/// Absolute difference of two components.
pub open spec fn absdiff(a: u64, b: u64) -> nat {
    if a >= b {
        (a - b) as nat
    } else {
        (b - a) as nat
    }
}

/// Distance of the first `n` components of two vectors.
pub open spec fn dist_to(a: Seq<u64>, b: Seq<u64>, n: int) -> nat
    decreases n,
{
    if n <= 0 {
        0
    } else {
        dist_to(a, b, n - 1) + absdiff(a[n - 1], b[n - 1])
    }
}

/// Distance of two vectors of equal length: the sum of the absolute
/// differences of their components.
pub open spec fn dist(a: Seq<u64>, b: Seq<u64>) -> nat {
    dist_to(a, b, a.len() as int)
}

/// The accepted `(handle, distance)` pairs of an index under a query, in
/// record order.
pub open spec fn accepted_pairs(records: Seq<(u64, Seq<u64>)>, q: Seq<u64>, answers: Seq<bool>)
    -> Seq<(u64, u128)>
    decreases records.len(),
{
    if records.len() == 0 {
        Seq::empty()
    } else {
        let init = accepted_pairs(records.drop_last(), q, answers.drop_last());
        if answers[records.len() - 1] {
            init.push((records.last().0, dist(records.last().1, q) as u128))
        } else {
            init
        }
    }
}

/// A sequence of `n` accepting answers, for search without prefilter.
pub open spec fn trues(n: nat) -> Seq<bool> {
    Seq::new(n, |t: int| true)
}

/// Stable insertion of one pair into a sequence sorted by distance: the pair
/// goes after every pair whose distance is no larger.
pub open spec fn ins_pair(sorted: Seq<(u64, u128)>, x: (u64, u128)) -> Seq<(u64, u128)>
    decreases sorted.len(),
{
    if sorted.len() == 0 {
        seq![x]
    } else if sorted.last().1 <= x.1 {
        sorted.push(x)
    } else {
        ins_pair(sorted.drop_last(), x).push(sorted.last())
    }
}

/// Stable sort of `(handle, distance)` pairs by ascending distance.
pub open spec fn sort_pairs(s: Seq<(u64, u128)>) -> Seq<(u64, u128)>
    decreases s.len(),
{
    if s.len() == 0 {
        Seq::empty()
    } else {
        ins_pair(sort_pairs(s.drop_last()), s.last())
    }
}

/// The handles of a sequence of pairs, in order.
pub open spec fn strip_pairs(ps: Seq<(u64, u128)>) -> Seq<u64> {
    Seq::new(ps.len(), |t: int| ps[t].0)
}

/// The ranked result of an index under a query and a decision sequence:
/// accepted handles ordered by ascending distance to the query.
pub open spec fn ranked_spec(records: Seq<(u64, Seq<u64>)>, q: Seq<u64>, answers: Seq<bool>) -> Seq<
    u64,
> {
    strip_pairs(sort_pairs(accepted_pairs(records, q, answers)))
}

/// Ascending by distance.
pub open spec fn sorted_by_dist(s: Seq<(u64, u128)>) -> bool {
    forall|i: int, j: int| 0 <= i <= j < s.len() ==> (#[trigger] s[i]).1 <= (#[trigger] s[j]).1
}

/// Inserting into a distance-sorted sequence keeps it sorted; every element
/// of the result is the inserted pair, below its distance, or one of the old
/// elements.
proof fn lemma_ins_pair_sorted(s: Seq<(u64, u128)>, x: (u64, u128))
    requires
        sorted_by_dist(s),
    ensures
        sorted_by_dist(ins_pair(s, x)),
        forall|k: int|
            0 <= k < ins_pair(s, x).len() ==> ((#[trigger] ins_pair(s, x)[k]).1 <= x.1 || exists|
                j: int,
            | 0 <= j < s.len() && ins_pair(s, x)[k] == s[j]),
    decreases s.len(),
{
    let r = ins_pair(s, x);
    if s.len() == 0 {
    } else if s.last().1 <= x.1 {
        assert forall|i: int, j: int| 0 <= i <= j < r.len() implies (#[trigger] r[i]).1 <= (
        #[trigger] r[j]).1 by {
            if j < s.len() {
                assert(r[i] == s[i] && r[j] == s[j]);
            } else if i < s.len() {
                assert(r[i] == s[i] && r[j] == x);
                assert(s[i].1 <= s[s.len() - 1].1);
            }
        }
        assert forall|k: int| 0 <= k < r.len() implies ((#[trigger] r[k]).1 <= x.1 || exists|j: int|
            0 <= j < s.len() && r[k] == s[j]) by {
            if k < s.len() {
                assert(r[k] == s[k]);
            }
        }
    } else {
        assert forall|i: int, j: int| 0 <= i <= j < s.drop_last().len() implies (
        #[trigger] s.drop_last()[i]).1 <= (#[trigger] s.drop_last()[j]).1 by {
            assert(s.drop_last()[i] == s[i] && s.drop_last()[j] == s[j]);
        }
        lemma_ins_pair_sorted(s.drop_last(), x);
        let t = ins_pair(s.drop_last(), x);
        assert forall|i: int, j: int| 0 <= i <= j < r.len() implies (#[trigger] r[i]).1 <= (
        #[trigger] r[j]).1 by {
            if j < t.len() {
                assert(r[i] == t[i] && r[j] == t[j]);
            } else if i < t.len() {
                assert(r[i] == t[i] && r[j] == s.last());
                assert(t[i].1 <= x.1 || exists|u: int|
                    0 <= u < s.drop_last().len() && t[i] == s.drop_last()[u]);
                if !(t[i].1 <= x.1) {
                    let u = choose|u: int|
                        0 <= u < s.drop_last().len() && t[i] == s.drop_last()[u];
                    assert(t[i] == s[u]);
                    assert(s[u].1 <= s[s.len() - 1].1);
                }
            }
        }
        assert forall|k: int| 0 <= k < r.len() implies ((#[trigger] r[k]).1 <= x.1 || exists|j: int|
            0 <= j < s.len() && r[k] == s[j]) by {
            if k < t.len() {
                assert(r[k] == t[k]);
                if !(t[k].1 <= x.1) {
                    let u = choose|u: int|
                        0 <= u < s.drop_last().len() && t[k] == s.drop_last()[u];
                    assert(r[k] == s[u]);
                }
            } else {
                assert(r[k] == s[s.len() - 1]);
            }
        }
    }
}

/// Law: a ranked result lists its pairs by ascending distance to the query —
/// the first handle of a search or vbase traversal is always a nearest one.
pub proof fn lemma_sort_pairs_sorted(s: Seq<(u64, u128)>)
    ensures
        sorted_by_dist(sort_pairs(s)),
    decreases s.len(),
{
    if s.len() > 0 {
        lemma_sort_pairs_sorted(s.drop_last());
        lemma_ins_pair_sorted(sort_pairs(s.drop_last()), s.last());
    }
}

/// What removing one identifier does to the store.
pub open spec fn remove_id(w: Seq<(u64, IndexV)>, id: u64) -> Seq<(u64, IndexV)> {
    if idx_of(w, id) >= 0 {
        w.remove(idx_of(w, id))
    } else {
        w
    }
}

/// What destroy does to the store: removes each named identifier in turn.
pub open spec fn destroy_spec(w: Seq<(u64, IndexV)>, ids: Seq<u64>) -> Seq<(u64, IndexV)>
    decreases ids.len(),
{
    if ids.len() == 0 {
        w
    } else {
        destroy_spec(remove_id(w, ids[0]), ids.drop_first())
    }
}

/// What flush reports.
pub open spec fn flush_spec(w: Seq<(u64, IndexV)>, id: u64) -> Result<(), OpError> {
    if idx_of(w, id) >= 0 {
        Ok(())
    } else {
        Err(OpError::UnknownIndex)
    }
}

/// The statistics snapshot of an index.
pub open spec fn stat_spec(w: Seq<(u64, IndexV)>, id: u64) -> Result<IndexStat, OpError> {
    match lookup(w, id) {
        Some(ix) => Ok(IndexStat { count: ix.records.len() as u64, dim: ix.dim }),
        None => Err(OpError::UnknownIndex),
    }
}

/// What opening a vbase traversal yields: the full ranked sequence, or the
/// error reported to the client.
pub open spec fn vbase_open_spec(w: Seq<(u64, IndexV)>, id: u64, q: Seq<u64>) -> Result<
    Seq<u64>,
    OpError,
> {
    match lookup(w, id) {
        None => Err(OpError::UnknownIndex),
        Some(ix) => if q.len() != ix.dim {
            Err(OpError::WrongDimension)
        } else {
            Ok(ranked_spec(ix.records, q, trues(ix.records.len())))
        },
    }
}

/// Records kept by a delete keep the well-formedness bounds of the records
/// they come from.
proof fn lemma_keep_wf(records: Seq<(u64, Seq<u64>)>, answers: Seq<bool>, dim: u32, next: u64)
    requires
        forall|k: int|
            0 <= k < records.len() ==> (#[trigger] records[k]).0 < next && records[k].1.len()
                == dim,
    ensures
        forall|k: int|
            0 <= k < keep_spec(records, answers).len() ==> (#[trigger] keep_spec(records, answers)[
                k
            ]).0 < next && keep_spec(records, answers)[k].1.len() == dim,
    decreases records.len(),
{
    if records.len() > 0 {
        assert forall|k: int| 0 <= k < records.drop_first().len() implies (
        #[trigger] records.drop_first()[k]).0 < next && records.drop_first()[k].1.len() == dim by {
            assert(records.drop_first()[k] == records[k + 1]);
        }
        lemma_keep_wf(records.drop_first(), answers.drop_first(), dim, next);
        let rest = keep_spec(records.drop_first(), answers.drop_first());
        if !answers[0] {
            assert forall|k: int| 0 <= k < keep_spec(records, answers).len() implies (
            #[trigger] keep_spec(records, answers)[k]).0 < next && keep_spec(records, answers)[
                k
            ].1.len() == dim by {
                if k == 0 {
                    assert(keep_spec(records, answers)[k] == records[0]);
                } else {
                    assert(keep_spec(records, answers)[k] == rest[k - 1]);
                }
            }
        }
    }
}

/// Removing an entry keeps the store well formed.
proof fn lemma_store_wf_remove(w: Seq<(u64, IndexV)>, i: int)
    requires
        store_wf(w),
        0 <= i < w.len(),
    ensures
        store_wf(w.remove(i)),
{
    let w2 = w.remove(i);
    assert forall|a: int, b: int| 0 <= a < b < w2.len() implies (#[trigger] w2[a]).0 != (
    #[trigger] w2[b]).0 by {
        if a < i {
            assert(w2[a] == w[a]);
        } else {
            assert(w2[a] == w[a + 1]);
        }
        if b < i {
            assert(w2[b] == w[b]);
        } else {
            assert(w2[b] == w[b + 1]);
        }
    }
    assert forall|a: int| 0 <= a < w2.len() implies index_wf((#[trigger] w2[a]).1) by {
        if a < i {
            assert(w2[a] == w[a]);
        } else {
            assert(w2[a] == w[a + 1]);
        }
    }
}

/// The dispatcher over all indexes.
pub struct Worker {
    indexes: Vec<(u64, Index)>,
}

impl View for Worker {
    type V = Seq<(u64, IndexV)>;

    closed spec fn view(&self) -> Seq<(u64, IndexV)> {
        store_view(self.indexes@)
    }
}

impl Worker {
    /// Well-formedness of the whole store.
    pub open spec fn wf(self) -> bool {
        store_wf(self@)
    }

    /// An empty dispatcher.
    pub fn new() -> (w: Worker)
        ensures
            w@ == Seq::<(u64, IndexV)>::empty(),
            w.wf(),
    {
        let w = Worker { indexes: Vec::new() };
        proof {
            assert(w@ =~= Seq::<(u64, IndexV)>::empty());
        }
        w
    }

    /// The position of `id` in the store.
    fn find(&self, id: u64) -> (r: Option<usize>)
        ensures
            match r {
                Some(i) => i < self@.len() && idx_of(self@, id) == i,
                None => idx_of(self@, id) == -1,
            },
    {
        let mut i: usize = 0;
        while i < self.indexes.len()
            invariant
                i <= self@.len(),
                forall|k: int| 0 <= k < i ==> (#[trigger] self@[k]).0 != id,
            decreases self@.len() - i,
        {
            if self.indexes[i].0 == id {
                proof {
                    lemma_idx_of_found(self@, id, i as int);
                }
                return Some(i);
            }
            i += 1;
        }
        proof {
            lemma_idx_of_absent(self@, id);
        }
        None
    }

    /// Creates a fresh index under `id`, replacing any existing one.
    pub fn call_create(&mut self, id: u64, options: IndexOptions)
        requires
            old(self).wf(),
        ensures
            final(self).wf(),
            final(self)@ == create_spec(old(self)@, id, options.dim),
    {
        proof {
            lemma_idx_of(self@, id);
        }
        let fresh = Index { dim: options.dim, next: 0, records: Vec::new() };
        proof {
            assert(fresh@.records =~= Seq::<(u64, Seq<u64>)>::empty());
            assert(fresh@ == fresh_index(options.dim));
        }
        match self.find(id) {
            Some(i) => {
                let ghost w0 = self@;
                let _old_entry = self.indexes.remove(i);
                self.indexes.insert(i, (id, fresh));
                proof {
                    assert(self@ =~= w0.update(i as int, (id, fresh_index(options.dim))));
                }
            },
            None => {
                let ghost w0 = self@;
                self.indexes.push((id, fresh));
                proof {
                    assert(self@ =~= w0.push((id, fresh_index(options.dim))));
                }
            },
        }
    }

    /// Inserts a vector, assigning it a fresh record handle.
    pub fn call_insert(&mut self, id: u64, vector: Vec<u64>) -> (r: Result<(), OpError>)
        requires
            old(self).wf(),
        ensures
            final(self).wf(),
            (final(self)@, r) == insert_spec(old(self)@, id, vector@),
    {
        proof {
            lemma_idx_of(self@, id);
        }
        match self.find(id) {
            None => Err(OpError::UnknownIndex),
            Some(i) => {
                if vector.len() != self.indexes[i].1.dim as usize {
                    Err(OpError::WrongDimension)
                } else if self.indexes[i].1.next == u64::MAX {
                    Err(OpError::IndexFull)
                } else {
                    let ghost w0 = self@;
                    let ghost ix0 = w0[i as int].1;
                    let mut entry = self.indexes.remove(i);
                    let handle = entry.1.next;
                    entry.1.next = handle + 1;
                    entry.1.records.push((handle, vector));
                    proof {
                        assert(entry.1@.records =~= ix0.records.push((ix0.next, vector@)));
                    }
                    self.indexes.insert(i, entry);
                    proof {
                        assert(self@ =~= w0.update(
                            i as int,
                            (
                                id,
                                IndexV {
                                    dim: ix0.dim,
                                    next: (ix0.next + 1) as u64,
                                    records: ix0.records.push((ix0.next, vector@)),
                                },
                            ),
                        ));
                    }
                    Ok(())
                }
            },
        }
    }

    /// The candidate handles of `id`, in record order, for the delete and
    /// search callback loops.
    pub fn candidates(&self, id: u64) -> (r: Result<Vec<u64>, OpError>)
        ensures
            match r {
                Ok(cs) => lookup(self@, id) matches Some(ix) && cs@ == handles_of(ix.records),
                Err(e) => lookup(self@, id) is None && e == OpError::UnknownIndex,
            },
    {
        proof {
            lemma_idx_of(self@, id);
        }
        match self.find(id) {
            None => Err(OpError::UnknownIndex),
            Some(i) => {
                let ghost recs = self@[i as int].1.records;
                let mut cs: Vec<u64> = Vec::new();
                let mut j: usize = 0;
                proof {
                    assert(cs@ =~= handles_of(recs).take(0));
                }
                while j < self.indexes[i].1.records.len()
                    invariant
                        i < self@.len(),
                        i < self.indexes@.len(),
                        j <= recs.len(),
                        recs == self@[i as int].1.records,
                        recs.len() == self.indexes@[i as int].1.records@.len(),
                        cs@ == handles_of(recs).take(j as int),
                    decreases recs.len() - j,
                {
                    cs.push(self.indexes[i].1.records[j].0);
                    proof {
                        assert(recs[j as int].0 == self.indexes@[i as int].1.records@[j as int].0);
                        assert(cs@ =~= handles_of(recs).take(j + 1));
                    }
                    j += 1;
                }
                proof {
                    assert(handles_of(recs).take(recs.len() as int) =~= handles_of(recs));
                }
                Ok(cs)
            },
        }
    }

    /// Applies the client's accept/reject answers to an index: every record
    /// whose answer accepted deletion is removed, and the number of deleted
    /// records is returned.
    pub fn apply_delete(&mut self, id: u64, answers: &Vec<bool>) -> (r: u64)
        requires
            old(self).wf(),
            lookup(old(self)@, id) matches Some(ix) && answers@.len() == ix.records.len(),
        ensures
            final(self).wf(),
            final(self)@ == delete_spec(old(self)@, id, answers@),
            r == count_true(answers@),
    {
        proof {
            lemma_idx_of(self@, id);
        }
        let ghost w0 = self@;
        let ghost i0 = idx_of(w0, id);
        let ghost ix0 = w0[i0].1;
        let ghost recs0 = ix0.records;
        let i = self.find(id).unwrap();
        let entry = self.indexes.remove(i);
        let (eid, ix) = entry;
        let Index { dim, next, records } = ix;
        proof {
            assert(recs_view(records@) == recs0);
        }
        let mut src = records;
        let mut kept: Vec<(u64, Vec<u64>)> = Vec::new();
        let mut j: usize = 0;
        let src_len = src.len();
        proof {
            assert(src_len <= usize::MAX);
            assert(recs0.len() <= usize::MAX);
            assert(recs0.skip(0) =~= recs0);
            assert(answers@.skip(0) =~= answers@);
            assert(recs_view(src@) =~= recs0.skip(0));
            assert(recs_view(kept@) =~= Seq::<(u64, Seq<u64>)>::empty());
            assert(recs_view(kept@) + keep_spec(recs0.skip(0), answers@.skip(0)) =~= keep_spec(
                recs0,
                answers@,
            ));
        }
        while src.len() > 0
            invariant
                j + src@.len() == recs0.len(),
                recs0.len() <= usize::MAX,
                answers@.len() == recs0.len(),
                recs_view(src@) == recs0.skip(j as int),
                recs_view(kept@) + keep_spec(recs0.skip(j as int), answers@.skip(j as int))
                    == keep_spec(recs0, answers@),
            decreases src@.len(),
        {
            let ghost src0 = src@;
            let ghost kept0 = kept@;
            let rec = src.remove(0);
            proof {
                assert(recs_view(src0)[0] == recs0[j as int]);
                assert(src@ =~= src0.drop_first());
                assert forall|t: int| 0 <= t < src@.len() implies #[trigger] recs_view(src@)[t]
                    == recs0.skip(j + 1)[t] by {
                    assert(src@[t] == src0[t + 1]);
                    assert(recs_view(src0)[t + 1] == recs0.skip(j as int)[t + 1]);
                }
                assert(recs_view(src@) =~= recs0.skip(j + 1));
                assert(recs0.skip(j as int).drop_first() =~= recs0.skip(j + 1));
                assert(answers@.skip(j as int).drop_first() =~= answers@.skip(j + 1));
                assert(recs0.skip(j as int)[0] == recs0[j as int]);
                assert(answers@.skip(j as int)[0] == answers@[j as int]);
            }
            if !answers[j] {
                kept.push(rec);
                proof {
                    assert(recs_view(kept@) =~= recs_view(kept0).push(recs0[j as int]));
                    assert(recs_view(kept@) + keep_spec(recs0.skip(j + 1), answers@.skip(j + 1))
                        =~= recs_view(kept0) + keep_spec(
                        recs0.skip(j as int),
                        answers@.skip(j as int),
                    ));
                }
            } else {
                proof {
                    assert(keep_spec(recs0.skip(j as int), answers@.skip(j as int)) == keep_spec(
                        recs0.skip(j + 1),
                        answers@.skip(j + 1),
                    ));
                }
            }
            j += 1;
        }
        proof {
            assert(recs0.skip(recs0.len() as int).len() == 0);
            assert(keep_spec(recs0.skip(j as int), answers@.skip(j as int)) =~= Seq::<
                (u64, Seq<u64>),
            >::empty());
            assert(recs_view(kept@) + keep_spec(recs0.skip(j as int), answers@.skip(j as int)) =~= recs_view(
                kept@,
            ));
            assert(recs_view(kept@) == keep_spec(recs0, answers@));
        }
        self.indexes.insert(i, (eid, Index { dim, next, records: kept }));
        proof {
            let newix = IndexV {
                dim: ix0.dim,
                next: ix0.next,
                records: keep_spec(recs0, answers@),
            };
            assert(self@ =~= w0.update(i0, (id, newix)));
            lemma_keep_wf(recs0, answers@, ix0.dim, ix0.next);
            assert forall|a: int, b: int| 0 <= a < b < self@.len() implies (#[trigger] self@[a]).0
                != (#[trigger] self@[b]).0 by {
                assert(self@[a].0 == w0[a].0);
                assert(self@[b].0 == w0[b].0);
            }
            assert forall|a: int| 0 <= a < self@.len() implies index_wf((#[trigger] self@[a]).1) by {
                if a != i0 {
                    assert(self@[a] == w0[a]);
                }
            }
        }
        let mut count: u64 = 0;
        let mut t: usize = 0;
        proof {
            assert(answers@.take(0) =~= Seq::<bool>::empty());
        }
        while t < answers.len()
            invariant
                t <= answers@.len(),
                count <= t,
                count as nat == count_true(answers@.take(t as int)),
            decreases answers@.len() - t,
        {
            proof {
                assert(answers@.take(t + 1).drop_last() =~= answers@.take(t as int));
                assert(answers@.take(t + 1).last() == answers@[t as int]);
            }
            if answers[t] {
                count = count + 1;
            }
            t += 1;
        }
        proof {
            assert(answers@.take(answers@.len() as int) =~= answers@);
        }
        count
    }

    /// Flushes buffered state of an index; a success report in this model.
    pub fn call_flush(&self, id: u64) -> (r: Result<(), OpError>)
        ensures
            r == flush_spec(self@, id),
    {
        proof {
            lemma_idx_of(self@, id);
        }
        match self.find(id) {
            Some(_) => Ok(()),
            None => Err(OpError::UnknownIndex),
        }
    }

    /// The statistics snapshot of an index.
    pub fn call_stat(&self, id: u64) -> (r: Result<IndexStat, OpError>)
        ensures
            r == stat_spec(self@, id),
    {
        proof {
            lemma_idx_of(self@, id);
        }
        match self.find(id) {
            Some(i) => {
                let count = self.indexes[i].1.records.len() as u64;
                let dim = self.indexes[i].1.dim;
                Ok(IndexStat { count, dim })
            },
            None => Err(OpError::UnknownIndex),
        }
    }

    /// Destroys every index named in `ids`; absent identifiers are ignored.
    pub fn call_destroy(&mut self, ids: &Vec<u64>)
        requires
            old(self).wf(),
        ensures
            final(self).wf(),
            final(self)@ == destroy_spec(old(self)@, ids@),
    {
        let ghost w0 = self@;
        let mut j: usize = 0;
        proof {
            assert(ids@.skip(0) =~= ids@);
        }
        while j < ids.len()
            invariant
                j <= ids@.len(),
                store_wf(self@),
                destroy_spec(w0, ids@) == destroy_spec(self@, ids@.skip(j as int)),
            decreases ids@.len() - j,
        {
            let ghost wpre = self@;
            let idv = ids[j];
            proof {
                lemma_idx_of(self@, idv);
                assert(ids@.skip(j as int)[0] == ids@[j as int]);
                assert(ids@.skip(j as int).drop_first() =~= ids@.skip(j + 1));
            }
            match self.find(idv) {
                Some(i) => {
                    let _removed = self.indexes.remove(i);
                    proof {
                        assert(self@ =~= wpre.remove(i as int));
                        lemma_store_wf_remove(wpre, i as int);
                        assert(remove_id(wpre, idv) == self@);
                    }
                },
                None => {
                    proof {
                        assert(remove_id(wpre, idv) == self@);
                    }
                },
            }
            j += 1;
        }
        proof {
            assert(ids@.skip(ids@.len() as int).len() == 0);
            assert(destroy_spec(self@, ids@.skip(j as int)) == self@);
        }
    }

    /// Ranks the accepted records of `id` under `query`: the handles whose
    /// answer accepted, ordered by ascending distance to the query.
    pub fn finish_search(&self, id: u64, query: &Vec<u64>, answers: &Vec<bool>) -> (r: Vec<u64>)
        requires
            self.wf(),
            lookup(self@, id) matches Some(ix) && query@.len() == ix.dim && answers@.len()
                == ix.records.len(),
        ensures
            r@ == ranked_spec(lookup(self@, id).unwrap().records, query@, answers@),
    {
        proof {
            lemma_idx_of(self@, id);
        }
        let i = self.find(id).unwrap();
        proof {
            let ix = self@[i as int].1;
            assert(index_wf(ix));
            assert forall|k: int| 0 <= k < self.indexes@[i as int].1.records@.len() implies (
            #[trigger] self.indexes@[i as int].1.records@[k]).1@.len() == query@.len() by {
                assert(ix.records[k] == (
                    self.indexes@[i as int].1.records@[k].0,
                    self.indexes@[i as int].1.records@[k].1@,
                ));
            }
        }
        ranked_exec(&self.indexes[i].1.records, query, answers)
    }

    /// Opens the streaming vbase traversal of `id` under `query`: the same
    /// ranking as a search that accepts every record.
    pub fn vbase_open(&self, id: u64, query: &Vec<u64>) -> (r: Result<VbaseIterator, OpError>)
        requires
            self.wf(),
        ensures
            match r {
                Ok(it) => vbase_open_spec(self@, id, query@) == Ok::<Seq<u64>, OpError>(it@.items)
                    && it@.pos == 0,
                Err(e) => vbase_open_spec(self@, id, query@) == Err::<Seq<u64>, OpError>(e),
            },
    {
        proof {
            lemma_idx_of(self@, id);
        }
        match self.find(id) {
            None => Err(OpError::UnknownIndex),
            Some(i) => {
                if query.len() != self.indexes[i].1.dim as usize {
                    Err(OpError::WrongDimension)
                } else {
                    let n = self.indexes[i].1.records.len();
                    let accept_all = all_accept(n);
                    proof {
                        let ix = self@[i as int].1;
                        assert(index_wf(ix));
                        assert forall|k: int| 0 <= k < self.indexes@[i as int].1.records@.len() implies (
                        #[trigger] self.indexes@[i as int].1.records@[k]).1@.len()
                            == query@.len() by {
                            assert(ix.records[k] == (
                                self.indexes@[i as int].1.records@[k].0,
                                self.indexes@[i as int].1.records@[k].1@,
                            ));
                        }
                    }
                    let items = ranked_exec(&self.indexes[i].1.records, query, &accept_all);
                    Ok(VbaseIterator { items, pos: 0 })
                }
            },
        }
    }
}

/// A sequence of `n` accepting answers, for search without prefilter and for
/// the vbase traversal.
pub fn all_accept(n: usize) -> (r: Vec<bool>)
    ensures
        r@ == trues(n as nat),
{
    let mut r: Vec<bool> = Vec::new();
    let mut j: usize = 0;
    while j < n
        invariant
            j <= n,
            r@ == trues(j as nat),
        decreases n - j,
    {
        r.push(true);
        proof {
            assert(r@ =~= trues(j as nat + 1));
        }
        j += 1;
    }
    r
}

/// Absolute difference of two components.
fn absdiff_exec(a: u64, b: u64) -> (r: u64)
    ensures
        r as nat == absdiff(a, b),
{
    if a >= b {
        a - b
    } else {
        b - a
    }
}

/// Distance of two vectors of equal length.
fn dist_exec(a: &Vec<u64>, b: &Vec<u64>) -> (r: u128)
    requires
        a@.len() == b@.len(),
        a@.len() <= u32::MAX,
    ensures
        r as nat == dist(a@, b@),
{
    let mut acc: u128 = 0;
    let mut j: usize = 0;
    while j < a.len()
        invariant
            j <= a@.len(),
            a@.len() == b@.len(),
            a@.len() <= u32::MAX,
            acc as nat == dist_to(a@, b@, j as int),
            acc <= (j as u128) * 0xFFFF_FFFF_FFFF_FFFFu128,
        decreases a@.len() - j,
    {
        let d = absdiff_exec(a[j], b[j]);
        acc = acc + (d as u128);
        j += 1;
    }
    acc
}

/// Stable insertion sort of `(handle, distance)` pairs by ascending distance.
fn sort_pairs_exec(input: Vec<(u64, u128)>) -> (r: Vec<(u64, u128)>)
    ensures
        r@ == sort_pairs(input@),
{
    let mut r: Vec<(u64, u128)> = Vec::new();
    let mut i: usize = 0;
    proof {
        assert(input@.take(0) =~= Seq::<(u64, u128)>::empty());
        assert(r@ =~= sort_pairs(input@.take(0)));
    }
    while i < input.len()
        invariant
            i <= input@.len(),
            r@ == sort_pairs(input@.take(i as int)),
        decreases input@.len() - i,
    {
        let x = input[i];
        let ghost rv = r@;
        let mut j: usize = r.len();
        proof {
            assert(rv.take(rv.len() as int) =~= rv);
            assert(rv.skip(rv.len() as int) =~= Seq::<(u64, u128)>::empty());
            assert(ins_pair(rv, x) =~= ins_pair(rv.take(j as int), x) + rv.skip(j as int));
        }
        while j > 0 && r[j - 1].1 > x.1
            invariant
                j <= rv.len(),
                r@ == rv,
                x == input@[i as int],
                i < input@.len(),
                ins_pair(rv, x) == ins_pair(rv.take(j as int), x) + rv.skip(j as int),
            decreases j,
        {
            proof {
                assert(rv.take(j as int).last() == rv[j - 1]);
                assert(rv.take(j as int).drop_last() =~= rv.take(j - 1));
                assert(ins_pair(rv.take(j as int), x) == ins_pair(rv.take(j - 1), x).push(
                    rv[j - 1],
                ));
                assert(ins_pair(rv.take(j - 1), x).push(rv[j - 1]) + rv.skip(j as int) =~= ins_pair(
                    rv.take(j - 1),
                    x,
                ) + rv.skip(j - 1));
            }
            j -= 1;
        }
        proof {
            if j > 0 {
                assert(rv.take(j as int).last() == rv[j - 1]);
                assert(ins_pair(rv.take(j as int), x) == rv.take(j as int).push(x));
            } else {
                assert(rv.take(0) =~= Seq::<(u64, u128)>::empty());
                assert(ins_pair(rv.take(0), x) == seq![x]);
            }
        }
        r.insert(j, x);
        proof {
            assert(r@ =~= ins_pair(rv, x));
            assert(input@.take(i + 1).drop_last() =~= input@.take(i as int));
            assert(input@.take(i + 1).last() == input@[i as int]);
            assert(sort_pairs(input@.take(i + 1)) == ins_pair(
                sort_pairs(input@.take(i as int)),
                input@[i as int],
            ));
        }
        i += 1;
    }
    proof {
        assert(input@.take(input@.len() as int) =~= input@);
    }
    r
}

/// The ranked traversal of a record list under a query: accepted handles by
/// ascending distance.
fn ranked_exec(records: &Vec<(u64, Vec<u64>)>, query: &Vec<u64>, answers: &Vec<bool>) -> (r: Vec<
    u64,
>)
    requires
        answers@.len() == records@.len(),
        query@.len() <= u32::MAX,
        forall|k: int| 0 <= k < records@.len() ==> (#[trigger] records@[k]).1@.len() == query@.len(),
    ensures
        r@ == ranked_spec(recs_view(records@), query@, answers@),
{
    let ghost recsv = recs_view(records@);
    let mut pairs: Vec<(u64, u128)> = Vec::new();
    let mut j: usize = 0;
    proof {
        assert(recsv.take(0) =~= Seq::<(u64, Seq<u64>)>::empty());
        assert(answers@.take(0) =~= Seq::<bool>::empty());
        assert(pairs@ =~= accepted_pairs(recsv.take(0), query@, answers@.take(0)));
    }
    while j < records.len()
        invariant
            j <= records@.len(),
            answers@.len() == records@.len(),
            recsv == recs_view(records@),
            query@.len() <= u32::MAX,
            forall|k: int|
                0 <= k < records@.len() ==> (#[trigger] records@[k]).1@.len() == query@.len(),
            pairs@ == accepted_pairs(recsv.take(j as int), query@, answers@.take(j as int)),
        decreases records@.len() - j,
    {
        proof {
            assert(recsv.take(j + 1).drop_last() =~= recsv.take(j as int));
            assert(answers@.take(j + 1).drop_last() =~= answers@.take(j as int));
            assert(recsv.take(j + 1).last() == recsv[j as int]);
            assert(answers@.take(j + 1).last() == answers@[j as int]);
        }
        if answers[j] {
            let d = dist_exec(&records[j].1, query);
            pairs.push((records[j].0, d));
            proof {
                assert(recsv[j as int].1 == records@[j as int].1@);
                assert(d as nat == dist(recsv[j as int].1, query@));
                assert((records@[j as int].0, d) == (recsv[j as int].0, dist(
                    recsv[j as int].1,
                    query@,
                ) as u128));
                assert(pairs@ =~= accepted_pairs(recsv.take(j + 1), query@, answers@.take(j + 1)));
            }
        } else {
            proof {
                assert(pairs@ =~= accepted_pairs(recsv.take(j + 1), query@, answers@.take(j + 1)));
            }
        }
        j += 1;
    }
    proof {
        assert(recsv.take(records@.len() as int) =~= recsv);
        assert(answers@.take(records@.len() as int) =~= answers@);
    }
    let sorted = sort_pairs_exec(pairs);
    let mut out: Vec<u64> = Vec::new();
    let mut t: usize = 0;
    proof {
        assert(out@ =~= strip_pairs(sorted@).take(0));
    }
    while t < sorted.len()
        invariant
            t <= sorted@.len(),
            out@ == strip_pairs(sorted@).take(t as int),
        decreases sorted@.len() - t,
    {
        out.push(sorted[t].0);
        proof {
            assert(strip_pairs(sorted@)[t as int] == sorted@[t as int].0);
            assert(out@ =~= strip_pairs(sorted@).take(t + 1));
        }
        t += 1;
    }
    proof {
        assert(strip_pairs(sorted@).take(sorted@.len() as int) =~= strip_pairs(sorted@));
    }
    out
}

/// Spec-level state of a vbase traversal.
pub struct VbaseIterV {
    /// All items the traversal will yield, in order.
    pub items: Seq<u64>,
    /// How many items have been yielded.
    pub pos: nat,
}

/// The lazy, non-restartable streaming traversal behind a vbase call.
pub struct VbaseIterator {
    items: Vec<u64>,
    pos: usize,
}

impl View for VbaseIterator {
    type V = VbaseIterV;

    closed spec fn view(&self) -> VbaseIterV {
        VbaseIterV { items: self.items@, pos: self.pos as nat }
    }
}

impl VbaseIterator {
    /// Yields the next item, or the end sentinel `None`.  Once the traversal
    /// is exhausted, every further call yields the sentinel again.
    pub fn next(&mut self) -> (r: Option<u64>)
        ensures
            final(self)@.items == old(self)@.items,
            old(self)@.pos < old(self)@.items.len() ==> r == Some(
                old(self)@.items[old(self)@.pos as int],
            ) && final(self)@.pos == old(self)@.pos + 1,
            old(self)@.pos >= old(self)@.items.len() ==> r == None::<u64> && final(self)@.pos == old(
                self,
            )@.pos,
    {
        if self.pos < self.items.len() {
            let v = self.items[self.pos];
            self.pos = self.pos + 1;
            Some(v)
        } else {
            None
        }
    }
}

} // verus!
