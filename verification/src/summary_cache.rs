//! The cache of index summaries that a server process keeps for its whole life, so that
//! repeated planning does not open each partition's index and read its metapage again.
//!
//! A cached summary is safe as long as it is not narrower than the data. Every insert through an
//! index has an invalidation of the index sent, at most one per index and subtransaction: the
//! server delivers it to this process at the next command boundary and to the others when the
//! transaction commits, and each drops its cached copy. An insert that widens nothing sends one
//! too: what covers its row may be a widening of a transaction that was rolled back, and such a
//! transaction tells nobody. Because a second insert in the same subtransaction sends nothing, an
//! index that was inserted through in the current transaction is not served from the cache.

use vstd::prelude::*;
use std::collections::{HashMap, HashSet};
use std::rc::Rc;
use crate::backend::INVALID_OID;
use crate::index_storage::{col_models, ColModel, ColSummary};
use crate::plan_state::PlanModel;

verus! {

broadcast use vstd::std_specs::hash::group_hash_axioms;

/// The cache of one server process.
pub struct SummaryCache {
    cache: HashMap<u32, Rc<Vec<ColSummary>>>,
    invalidated: HashSet<u32>,
    invalidated_top: u32,
    invalidated_xid: u32,
}

/// What a [`SummaryCache`] holds.
#[verifier::ext_equal]
pub struct CacheModel {
    /// The cached summaries by index.
    pub cached: Map<u32, Seq<ColModel>>,
    /// The indexes for which subtransaction `xid` of transaction `top` already sent an
    /// invalidation.
    pub invalidated: Set<u32>,
    pub top: u32,
    pub xid: u32,
}

impl View for SummaryCache {
    type V = CacheModel;

    closed spec fn view(&self) -> CacheModel {
        CacheModel {
            cached: self.cache@.map_values(|v: Rc<Vec<ColSummary>>| col_models(v@)),
            invalidated: self.invalidated@,
            top: self.invalidated_top,
            xid: self.invalidated_xid,
        }
    }
}

impl CacheModel {
    /// Nothing cached, nothing invalidated.
    pub open spec fn empty() -> CacheModel {
        CacheModel { cached: Map::empty(), invalidated: Set::empty(), top: 0, xid: 0 }
    }

    pub open spec fn put(self, indexoid: u32, summary: Seq<ColModel>) -> CacheModel {
        CacheModel { cached: self.cached.insert(indexoid, summary), ..self }
    }

    /// The indexes already invalidated by subtransaction `xid`.
    pub open spec fn invalidated_by(self, xid: u32) -> Set<u32> {
        if xid != 0 && self.xid == xid {
            self.invalidated
        } else {
            Set::empty()
        }
    }

    /// Whether an insert in subtransaction `xid` has an invalidation sent.
    pub open spec fn sends(self, indexoid: u32, xid: u32) -> bool {
        !self.invalidated_by(xid).contains(indexoid)
    }

    /// The cache after an insert in subtransaction `xid` of transaction `top`. An insert outside of
    /// any identified transaction leaves no trace.
    pub open spec fn noted(self, indexoid: u32, top: u32, xid: u32) -> CacheModel {
        if xid == 0 {
            self
        } else {
            CacheModel { invalidated: self.invalidated_by(xid).insert(indexoid), top, xid, ..self }
        }
    }

    /// The cache after the delivery of an invalidation; the invalid identifier stands for
    /// everything.
    pub open spec fn dropped(self, relid: u32) -> CacheModel {
        if relid == INVALID_OID {
            CacheModel { cached: Map::empty(), ..self }
        } else {
            CacheModel { cached: self.cached.remove(relid), ..self }
        }
    }

    /// Whether transaction `top` may use, and fill, the cached copy of an index.
    pub open spec fn serves(self, indexoid: u32, top: u32) -> bool {
        !(top != 0 && self.top == top && self.invalidated.contains(indexoid))
    }

    /// The summary that transaction `top` plans with, if the cache has it.
    pub open spec fn lookup(self, indexoid: u32, top: u32) -> Option<Seq<ColModel>> {
        if self.serves(indexoid, top) && self.cached.contains_key(indexoid) {
            Some(self.cached[indexoid])
        } else {
            None
        }
    }
}

impl SummaryCache {
    /// An empty cache.
    pub fn new() -> (r: Self)
        ensures
            r@ == CacheModel::empty(),
    {
        let r = SummaryCache {
            cache: HashMap::new(),
            invalidated: HashSet::new(),
            invalidated_top: 0,
            invalidated_xid: 0,
        };
        assert(r@ =~= CacheModel::empty());
        r
    }

    /// The cached summary of an index, whatever the current transaction did to it:
    /// [`SummaryCache::lookup`] is what a plan asks.
    pub fn get(&self, indexoid: u32) -> (r: Option<Rc<Vec<ColSummary>>>)
        ensures
            r is Some == self@.cached.contains_key(indexoid),
            r matches Some(s) ==> col_models(s@) == self@.cached[indexoid],
    {
        match self.cache.get(&indexoid) {
            Some(s) => Some(s.clone()),
            None => None,
        }
    }

    /// Keeps the summary of an index, whatever the current transaction did to it:
    /// [`SummaryCache::keep`] is what a plan calls.
    pub fn put(&mut self, indexoid: u32, summary: Rc<Vec<ColSummary>>)
        ensures
            final(self)@ == old(self)@.put(indexoid, col_models(summary@)),
    {
        self.cache.insert(indexoid, summary);
        assert(self@ =~= old(self)@.put(indexoid, col_models(summary@)));
    }

    /// Notes that an insert in subtransaction `xid` of transaction `top` (zero where they have no
    /// identifier yet) went through an index, whether or not it widened the index's summary, and
    /// tells whether an invalidation of the index is to be sent.
    pub fn note_widened(&mut self, indexoid: u32, top: u32, xid: u32) -> (send: bool)
        ensures
            send == old(self)@.sends(indexoid, xid),
            final(self)@ == old(self)@.noted(indexoid, top, xid),
    {
        if xid == 0 {
            return true;
        }
        if self.invalidated_xid != xid {
            self.invalidated_xid = xid;
            self.invalidated.clear();
        }
        self.invalidated_top = top;
        let first: bool = self.invalidated.insert(indexoid);
        assert(self@ =~= old(self)@.noted(indexoid, top, xid));
        first
    }

    /// Drops the cached summary of an index, or every one on the server's signal to flush
    /// everything.
    pub fn relcache_callback(&mut self, relid: u32)
        ensures
            final(self)@ == old(self)@.dropped(relid),
    {
        if relid == INVALID_OID {
            self.cache.clear();
        } else {
            self.cache.remove(&relid);
        }
        assert(self@ =~= old(self)@.dropped(relid));
    }

    /// The summary of an index for a plan in transaction `top`.
    pub fn lookup(&self, indexoid: u32, top: u32) -> (r: Option<Rc<Vec<ColSummary>>>)
        ensures
            match r {
                Some(s) => self@.lookup(indexoid, top) == Some(col_models(s@)),
                None => self@.lookup(indexoid, top) is None,
            },
    {
        if top != 0 && self.invalidated_top == top && self.invalidated.contains(&indexoid) {
            None
        } else {
            self.get(indexoid)
        }
    }

    /// Keeps a summary that a plan in transaction `top` read, where it may be cached.
    pub fn keep(&mut self, indexoid: u32, top: u32, summary: Rc<Vec<ColSummary>>)
        ensures
            final(self)@ == (if old(self)@.serves(indexoid, top) {
                old(self)@.put(indexoid, col_models(summary@))
            } else {
                old(self)@
            }),
    {
        if top != 0 && self.invalidated_top == top && self.invalidated.contains(&indexoid) {
            return;
        }
        self.put(indexoid, summary);
    }
}

// ---- what a transaction sends ----------------------------------------------------

/// One subtransaction of an open transaction.
pub struct Level {
    pub xid: u32,
    /// The indexes that it inserted through, and did not take back.
    pub inserted: Set<u32>,
    /// The indexes whose invalidation goes out when the transaction commits.
    pub sent: Set<u32>,
}

/// An open transaction, from its outermost level to the current one, with the cache of its process.
pub struct Sender {
    pub cache: CacheModel,
    pub levels: Seq<Level>,
}

impl Sender {
    /// Every index that a level inserted through is one whose invalidation goes out, and the cache
    /// suppresses none that the level it notes inserts for has not sent.
    pub open spec fn announced(self) -> bool {
        forall|k: int|
            0 <= k < self.levels.len() ==> {
                let level = #[trigger] self.levels[k];
                &&& level.inserted.subset_of(level.sent)
                &&& self.cache.invalidated_by(level.xid).subset_of(level.sent)
            }
    }

    /// No level has this identifier.
    pub open spec fn fresh(self, xid: u32) -> bool {
        &&& self.cache.xid != xid
        &&& forall|k: int| 0 <= k < self.levels.len() ==> (#[trigger] self.levels[k]).xid != xid
    }

    /// The levels have identifiers of their own.
    pub open spec fn distinct(self) -> bool {
        forall|j: int, k: int|
            0 <= j < k < self.levels.len() ==> (#[trigger] self.levels[j]).xid != (
            #[trigger] self.levels[k]).xid
    }

    /// A savepoint, or the transaction's begin.
    pub open spec fn begun(self, xid: u32) -> Sender {
        Sender {
            levels: self.levels.push(Level { xid, inserted: Set::empty(), sent: Set::empty() }),
            ..self
        }
    }

    /// An insert through an index at the current level.
    pub open spec fn inserted(self, i: u32, top: u32) -> Sender {
        let last = self.levels.last();
        Sender {
            cache: self.cache.noted(i, top, last.xid),
            levels: self.levels.drop_last().push(
                Level {
                    inserted: last.inserted.insert(i),
                    sent: if self.cache.sends(i, last.xid) {
                        last.sent.insert(i)
                    } else {
                        last.sent
                    },
                    ..last
                },
            ),
        }
    }

    /// The current level is released: what it did is its parent's.
    pub open spec fn released(self) -> Sender {
        let last = self.levels.last();
        let rest = self.levels.drop_last();
        let parent = rest.last();
        Sender {
            levels: rest.drop_last().push(
                Level {
                    inserted: parent.inserted.union(last.inserted),
                    sent: parent.sent.union(last.sent),
                    ..parent
                },
            ),
            ..self
        }
    }

    /// The current level is rolled back: what it did, and what it would have sent, is gone.
    pub open spec fn rolled_back(self) -> Sender {
        Sender { levels: self.levels.drop_last(), ..self }
    }
}

/// A transaction announces every index that it inserted through and did not take back, whatever
/// savepoints it set, released and rolled back on the way: a transaction that begins announces all
/// it has to, and every step keeps that.
pub proof fn law_inserts_are_announced(w: Sender, i: u32, top: u32, xid: u32)
    requires
        w.announced(),
        w.distinct(),
    ensures
        w.fresh(xid) ==> w.begun(xid).announced() && w.begun(xid).distinct(),
        w.levels.len() > 0 ==> w.inserted(i, top).announced() && w.inserted(i, top).distinct(),
        w.levels.len() > 1 ==> w.released().announced() && w.released().distinct(),
        w.levels.len() > 0 ==> w.rolled_back().announced() && w.rolled_back().distinct(),
        (Sender { levels: Seq::empty(), ..w }).announced(),
        (Sender { levels: Seq::empty(), ..w }).distinct(),
{
    if w.levels.len() > 0 {
        let n = w.levels.len() - 1;
        let last = w.levels[n];
        let after = w.inserted(i, top);
        assert forall|k: int| 0 <= k < after.levels.len() implies {
            let level = #[trigger] after.levels[k];
            &&& level.inserted.subset_of(level.sent)
            &&& after.cache.invalidated_by(level.xid).subset_of(level.sent)
        } by {
            assert(w.levels[k].inserted.subset_of(w.levels[k].sent));
            assert(last.inserted.subset_of(last.sent));
            assert(w.cache.invalidated_by(last.xid).subset_of(last.sent));
            if k < n {
                assert(w.levels[k].xid != last.xid);
            }
        }
        assert forall|j: int, k: int| 0 <= j < k < after.levels.len() implies (
        #[trigger] after.levels[j]).xid != (#[trigger] after.levels[k]).xid by {
            assert(w.levels[j].xid != w.levels[k].xid);
        }
    }
    if w.levels.len() > 1 {
        let n = w.levels.len() - 2;
        let after = w.released();
        let (parent, last) = (w.levels[n], w.levels[n + 1]);
        assert(parent.inserted.subset_of(parent.sent) && last.inserted.subset_of(last.sent));
        assert forall|k: int| 0 <= k < after.levels.len() implies {
            let level = #[trigger] after.levels[k];
            &&& level.inserted.subset_of(level.sent)
            &&& after.cache.invalidated_by(level.xid).subset_of(level.sent)
        } by {
            assert(w.levels[k].inserted.subset_of(w.levels[k].sent));
        }
        assert forall|j: int, k: int| 0 <= j < k < after.levels.len() implies (
        #[trigger] after.levels[j]).xid != (#[trigger] after.levels[k]).xid by {
            assert(w.levels[j].xid != w.levels[k].xid);
        }
    }
}

// ---- what a process plans with ---------------------------------------------------

/// Whether an index's summary covers a row.
pub type Coverage = spec_fn(u32, Seq<ColModel>, Map<i16, u64>) -> bool;

/// A process's cache among the stored summaries it copies and the rows they are for.
pub struct CacheWorld {
    pub cache: CacheModel,
    /// What the metapages hold.
    pub stored: Map<u32, Seq<ColModel>>,
    /// The rows that anyone inserted, whether or not they are committed.
    pub written: spec_fn(u32, Map<i16, u64>) -> bool,
    /// The rows that this process sees: its own, and what others committed.
    pub visible: spec_fn(u32, Map<i16, u64>) -> bool,
    /// The indexes whose invalidation was sent but not delivered to this process yet.
    pub pending: Set<u32>,
}

impl CacheWorld {
    /// The stored summaries cover every row that anyone wrote; a cached summary covers every row
    /// that this process sees, or its invalidation is on the way; and of the indexes that
    /// transaction `top` inserted through no copy is cached but one whose invalidation is on the
    /// way.
    pub open spec fn coherent(self, c: Coverage, top: u32) -> bool {
        &&& forall|i: u32, row: Map<i16, u64>| #[trigger] (self.written)(i, row) ==> c(
            i,
            self.stored[i],
            row,
        )
        &&& forall|i: u32, row: Map<i16, u64>| #[trigger] (self.visible)(i, row) ==> (
        self.written)(i, row)
        &&& forall|i: u32, row: Map<i16, u64>|
            #![trigger self.cache.cached.contains_key(i), (self.visible)(i, row)]
            self.cache.cached.contains_key(i) && (self.visible)(i, row) ==> self.pending.contains(i)
                || c(i, self.cache.cached[i], row)
        &&& forall|i: u32| #[trigger]
            self.cache.cached.contains_key(i) && !self.cache.serves(i, top)
                ==> self.pending.contains(i)
    }

    /// What an insert leaves in the metapage covers its row, and all the rows before it.
    pub open spec fn takes_in(
        self,
        c: Coverage,
        i: u32,
        row: Map<i16, u64>,
        summary: Seq<ColModel>,
    ) -> bool {
        &&& c(i, summary, row)
        &&& forall|other: Map<i16, u64>| #[trigger] (self.written)(i, other) ==> c(
            i,
            summary,
            other,
        )
    }

    /// An insert by this process, in subtransaction `xid` of transaction `top`, that leaves
    /// `summary` in the metapage: a wider one, or the one that was there.
    pub open spec fn inserted(
        self,
        i: u32,
        row: Map<i16, u64>,
        top: u32,
        xid: u32,
        summary: Seq<ColModel>,
    ) -> CacheWorld {
        CacheWorld {
            cache: self.cache.noted(i, top, xid),
            stored: self.stored.insert(i, summary),
            written: |j: u32, r: Map<i16, u64>| (self.written)(j, r) || (j == i && r == row),
            visible: |j: u32, r: Map<i16, u64>| (self.visible)(j, r) || (j == i && r == row),
            pending: if self.cache.sends(i, xid) {
                self.pending.insert(i)
            } else {
                self.pending
            },
        }
    }

    /// An insert by another process, not committed yet: the metapage shows it, no row does.
    pub open spec fn inserted_elsewhere(
        self,
        i: u32,
        row: Map<i16, u64>,
        summary: Seq<ColModel>,
    ) -> CacheWorld {
        CacheWorld {
            stored: self.stored.insert(i, summary),
            written: |j: u32, r: Map<i16, u64>| (self.written)(j, r) || (j == i && r == row),
            ..self
        }
    }

    /// A commit by another process: its rows come into sight, and the invalidations that it sent
    /// are on the way.
    pub open spec fn committed_elsewhere(
        self,
        rows: spec_fn(u32, Map<i16, u64>) -> bool,
        sent: Set<u32>,
    ) -> CacheWorld {
        CacheWorld {
            visible: |j: u32, r: Map<i16, u64>| (self.visible)(j, r) || rows(j, r),
            pending: self.pending.union(sent),
            ..self
        }
    }

    /// Rows go: they were deleted, or their transaction or subtransaction was rolled back. What it
    /// did to the metapages stays.
    pub open spec fn left(
        self,
        written: spec_fn(u32, Map<i16, u64>) -> bool,
        visible: spec_fn(u32, Map<i16, u64>) -> bool,
    ) -> CacheWorld {
        CacheWorld { written, visible, ..self }
    }

    /// The delivery of an index's invalidation.
    pub open spec fn delivered(self, i: u32) -> CacheWorld {
        CacheWorld { cache: self.cache.dropped(i), pending: self.pending.remove(i), ..self }
    }

    /// The signal to flush everything.
    pub open spec fn flushed(self) -> CacheWorld {
        CacheWorld { cache: self.cache.dropped(INVALID_OID), pending: Set::empty(), ..self }
    }

    /// A plan that read an index's stored summary and kept it.
    pub open spec fn kept(self, i: u32, top: u32) -> CacheWorld {
        CacheWorld {
            cache: if self.cache.serves(i, top) {
                self.cache.put(i, self.stored[i])
            } else {
                self.cache
            },
            ..self
        }
    }

    /// The summary that a plan in transaction `top` has for a relation with this index, with the
    /// memory `m` of its invocation: what the invocation remembers, else the cached summary where
    /// the transaction is served it, else the stored one.
    pub open spec fn planned_with(self, m: PlanModel, relid: u32, i: u32, top: u32) -> Seq<
        ColModel,
    > {
        if m.summaries.contains_key(relid) {
            m.summaries[relid]
        } else {
            match self.cache.lookup(i, top) {
                Some(summary) => summary,
                None => self.stored[i],
            }
        }
    }
}

/// An empty cache is coherent, where the stored summaries cover the rows.
pub proof fn law_empty_cache_is_coherent(w: CacheWorld, c: Coverage, top: u32)
    requires
        w.cache == CacheModel::empty(),
        forall|i: u32, row: Map<i16, u64>| #[trigger] (w.written)(i, row) ==> c(
            i,
            w.stored[i],
            row,
        ),
        forall|i: u32, row: Map<i16, u64>| #[trigger] (w.visible)(i, row) ==> (w.written)(i, row),
    ensures
        w.coherent(c, top),
{
}

/// An insert leaves the cache coherent, whether or not it widens the stored summary, and whether or
/// not it is the first of its subtransaction.
pub proof fn law_insert_keeps_coherence(
    w: CacheWorld,
    c: Coverage,
    i: u32,
    row: Map<i16, u64>,
    top: u32,
    xid: u32,
    summary: Seq<ColModel>,
)
    requires
        w.coherent(c, top),
        w.takes_in(c, i, row, summary),
        // A subtransaction belongs to one transaction.
        xid != 0 ==> top != 0,
        xid != 0 && w.cache.xid == xid ==> w.cache.top == top,
    ensures
        w.inserted(i, row, top, xid, summary).coherent(c, top),
{
    let after = w.inserted(i, row, top, xid, summary);
    assert forall|j: u32, r: Map<i16, u64>| #[trigger] (after.written)(j, r) implies c(
        j,
        after.stored[j],
        r,
    ) by {
        if !(j == i && r == row) {
            assert((w.written)(j, r));
        }
    }
    assert forall|j: u32, r: Map<i16, u64>| #[trigger] (after.visible)(j, r) implies (
    after.written)(j, r) by {
        if !(j == i && r == row) {
            assert((w.visible)(j, r));
        }
    }
    assert forall|j: u32, r: Map<i16, u64>|
        #![trigger after.cache.cached.contains_key(j), (after.visible)(j, r)]
        after.cache.cached.contains_key(j) && (after.visible)(j, r) implies after.pending.contains(
        j,
    ) || c(j, after.cache.cached[j], r) by {
        assert(w.cache.cached.contains_key(j));
        if j != i {
            assert((w.visible)(j, r));
        }
    }
    assert forall|j: u32| #[trigger]
        after.cache.cached.contains_key(j) && !after.cache.serves(
            j,
            top,
        ) implies after.pending.contains(j) by {
        assert(w.cache.cached.contains_key(j));
    }
}

/// An insert by another process leaves the cache coherent, though the stored summary may widen
/// without an invalidation: if it is rolled back there never is one.
pub proof fn law_insert_elsewhere_keeps_coherence(
    w: CacheWorld,
    c: Coverage,
    i: u32,
    row: Map<i16, u64>,
    top: u32,
    summary: Seq<ColModel>,
)
    requires
        w.coherent(c, top),
        w.takes_in(c, i, row, summary),
    ensures
        w.inserted_elsewhere(i, row, summary).coherent(c, top),
{
    let after = w.inserted_elsewhere(i, row, summary);
    assert forall|j: u32, r: Map<i16, u64>| #[trigger] (after.written)(j, r) implies c(
        j,
        after.stored[j],
        r,
    ) by {
        if !(j == i && r == row) {
            assert((w.written)(j, r));
        }
    }
}

/// A commit by another process leaves the cache coherent: it announces every index that it inserted
/// through, so that whatever row comes into sight, its index's invalidation is on the way.
pub proof fn law_commit_elsewhere_keeps_coherence(
    w: CacheWorld,
    c: Coverage,
    top: u32,
    rows: spec_fn(u32, Map<i16, u64>) -> bool,
    sent: Set<u32>,
)
    requires
        w.coherent(c, top),
        forall|i: u32, row: Map<i16, u64>| #[trigger] rows(i, row) ==> (w.written)(i, row)
            && sent.contains(i),
    ensures
        w.committed_elsewhere(rows, sent).coherent(c, top),
{
    let after = w.committed_elsewhere(rows, sent);
    assert forall|j: u32, r: Map<i16, u64>| #[trigger] (after.visible)(j, r) implies (
    after.written)(j, r) by {
        assert((w.visible)(j, r) || rows(j, r));
    }
    assert forall|j: u32, r: Map<i16, u64>|
        #![trigger after.cache.cached.contains_key(j), (after.visible)(j, r)]
        after.cache.cached.contains_key(j) && (after.visible)(j, r) implies after.pending.contains(
        j,
    ) || c(j, after.cache.cached[j], r) by {
        assert((w.visible)(j, r) || rows(j, r));
        assert(w.cache.cached.contains_key(j));
    }
}

/// Rows that go, by a delete or by a rollback here or elsewhere, leave the cache coherent: what was
/// widened for them stays wide.
pub proof fn law_rows_that_go_keep_coherence(
    w: CacheWorld,
    c: Coverage,
    top: u32,
    written: spec_fn(u32, Map<i16, u64>) -> bool,
    visible: spec_fn(u32, Map<i16, u64>) -> bool,
)
    requires
        w.coherent(c, top),
        forall|i: u32, row: Map<i16, u64>| #[trigger] written(i, row) ==> (w.written)(i, row),
        forall|i: u32, row: Map<i16, u64>| #[trigger] visible(i, row) ==> (w.visible)(i, row)
            && written(i, row),
    ensures
        w.left(written, visible).coherent(c, top),
{
}

/// The delivery of an invalidation leaves the cache coherent.
pub proof fn law_delivery_keeps_coherence(w: CacheWorld, c: Coverage, i: u32, top: u32)
    requires
        w.coherent(c, top),
        i != INVALID_OID,
    ensures
        w.delivered(i).coherent(c, top),
{
    let after = w.delivered(i);
    assert forall|j: u32, r: Map<i16, u64>|
        #![trigger after.cache.cached.contains_key(j), (after.visible)(j, r)]
        after.cache.cached.contains_key(j) && (after.visible)(j, r) implies after.pending.contains(
        j,
    ) || c(j, after.cache.cached[j], r) by {
        assert(w.cache.cached.contains_key(j) && (w.visible)(j, r));
    }
    assert forall|j: u32| #[trigger]
        after.cache.cached.contains_key(j) && !after.cache.serves(
            j,
            top,
        ) implies after.pending.contains(j) by {
        assert(w.cache.cached.contains_key(j) && !w.cache.serves(j, top));
    }
}

/// The signal to flush everything leaves the cache coherent.
pub proof fn law_flush_keeps_coherence(w: CacheWorld, c: Coverage, top: u32)
    requires
        w.coherent(c, top),
    ensures
        w.flushed().coherent(c, top),
{
}

/// Caching what a plan read leaves the cache coherent.
pub proof fn law_keeping_keeps_coherence(w: CacheWorld, c: Coverage, i: u32, top: u32)
    requires
        w.coherent(c, top),
    ensures
        w.kept(i, top).coherent(c, top),
{
    let after = w.kept(i, top);
    assert forall|j: u32, r: Map<i16, u64>|
        #![trigger after.cache.cached.contains_key(j), (after.visible)(j, r)]
        after.cache.cached.contains_key(j) && (after.visible)(j, r) implies after.pending.contains(
        j,
    ) || c(j, after.cache.cached[j], r) by {
        assert((w.visible)(j, r));
        assert((w.written)(j, r));
        assert(w.cache.cached.contains_key(j) || j == i);
    }
    assert forall|j: u32| #[trigger]
        after.cache.cached.contains_key(j) && !after.cache.serves(
            j,
            top,
        ) implies after.pending.contains(j) by {
        assert(w.cache.cached.contains_key(j) && !w.cache.serves(j, top));
    }
}

/// A transaction that gets an identifier, or a later one, finds the cache coherent: no
/// transaction identifier comes twice.
pub proof fn law_next_transaction_finds_coherence(w: CacheWorld, c: Coverage, top: u32, next: u32)
    requires
        w.coherent(c, top),
        next == 0 || next != w.cache.top,
    ensures
        w.coherent(c, next),
{
}

/// A new top-level plan reuses nothing that an earlier one read: what it plans with is what cache
/// and metapage give. That covers every row that the process sees, unless an invalidation of the
/// index is still on the way; and once it is delivered, it is the stored summary itself.
pub proof fn law_new_plans_see_every_row(
    w: CacheWorld,
    c: Coverage,
    m: PlanModel,
    relid: u32,
    i: u32,
    top: u32,
)
    requires
        w.coherent(c, top),
        m.depth == 0,
        i != INVALID_OID,
    ensures
        m.entered().summaries == Map::<u32, Seq<ColModel>>::empty(),
        w.planned_with(m.entered(), relid, i, top) == w.planned_with(
            PlanModel::empty(),
            relid,
            i,
            top,
        ),
        !w.pending.contains(i) ==> forall|row: Map<i16, u64>| #[trigger] (w.visible)(i, row) ==> c(
            i,
            w.planned_with(m.entered(), relid, i, top),
            row,
        ),
        w.delivered(i).planned_with(m.entered(), relid, i, top) == w.stored[i],
{
    if !w.pending.contains(i) {
        assert forall|row: Map<i16, u64>| #[trigger] (w.visible)(i, row) implies c(
            i,
            w.planned_with(m.entered(), relid, i, top),
            row,
        ) by {
            assert((w.written)(i, row));
            if w.cache.lookup(i, top) is Some {
                assert(w.cache.cached.contains_key(i));
            }
        }
    }
}

/// A transaction's own next plan has the summary that its insert left, at once.
pub proof fn law_own_inserts_are_planned_with(
    w: CacheWorld,
    m: PlanModel,
    relid: u32,
    i: u32,
    row: Map<i16, u64>,
    top: u32,
    xid: u32,
    summary: Seq<ColModel>,
)
    requires
        m.depth == 0,
        top != 0,
        xid != 0,
    ensures
        w.inserted(i, row, top, xid, summary).planned_with(m.entered(), relid, i, top) == summary,
{
}

} // verus!
