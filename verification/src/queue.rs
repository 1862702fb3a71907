//! The delay queue: a set of task ids, each scored by the Unix timestamp at
//! which the task becomes eligible for delivery. Re-adding an id replaces its
//! score; `pop_due` atomically removes and returns exactly the ids whose score
//! has been reached. The surrounding program maps this onto a persistent
//! sorted set; the core's scheduling logic is verified against this model.

use vstd::prelude::*;

verus! {

#[derive(Clone, Copy, PartialEq, Eq, Structural, Debug)]
pub struct QueueEntry {
    pub id: i64,
    pub fire_at: i64,
}

/// Entries that are not yet due at `now`.
pub open spec fn still_waiting(now: i64) -> spec_fn(QueueEntry) -> bool {
    |e: QueueEntry| e.fire_at > now
}

/// Entries that are due at `now`.
pub open spec fn due_at(now: i64) -> spec_fn(QueueEntry) -> bool {
    |e: QueueEntry| e.fire_at <= now
}

/// One of the batch items schedules `y`.
pub open spec fn names_id(items: Seq<(i64, i64)>, y: i64) -> bool {
    exists|k: int| 0 <= k < items.len() && (#[trigger] items[k]).0 == y
}

pub struct DelayQueue {
    pub entries: Vec<QueueEntry>,
}

impl DelayQueue {
    /// Well-formed queue: one entry per id.
    pub open spec fn wf(self) -> bool {
        forall|i: int, j: int|
            0 <= i < j < self.entries@.len() ==> #[trigger] self.entries@[i].id
                != #[trigger] self.entries@[j].id
    }

    pub open spec fn has(self, x: i64) -> bool {
        exists|i: int| 0 <= i < self.entries@.len() && #[trigger] self.entries@[i].id == x
    }

    /// The position of the entry for `x` (meaningful under `has`).
    pub open spec fn idx_of(self, x: i64) -> int {
        choose|i: int| 0 <= i < self.entries@.len() && #[trigger] self.entries@[i].id == x
    }

    /// The scheduled fire time of `x` (meaningful under `has`).
    pub open spec fn score_of(self, x: i64) -> i64 {
        self.entries@[self.idx_of(x)].fire_at
    }

    /// Each entry is the one entry of its id.
    pub proof fn lemma_entry(self, k: int)
        requires
            self.wf(),
            0 <= k < self.entries@.len(),
        ensures
            self.has(self.entries@[k].id),
            self.idx_of(self.entries@[k].id) == k,
            self.score_of(self.entries@[k].id) == self.entries@[k].fire_at,
    {
        assert(self.has(self.entries@[k].id));
        let j = self.idx_of(self.entries@[k].id);
        if j != k {
            assert(self.entries@[j].id != self.entries@[k].id);
        }
    }

    pub fn new() -> (r: Self)
        ensures
            r.wf(),
            r.entries@.len() == 0,
    {
        DelayQueue { entries: Vec::new() }
    }

    pub fn len(&self) -> (r: usize)
        ensures
            r == self.entries@.len(),
    {
        self.entries.len()
    }

    /// Drops the entry of `x`, if any.
    fn remove_id(&mut self, x: i64)
        requires
            old(self).wf(),
        ensures
            final(self).wf(),
            !final(self).has(x),
            forall|y: i64|
                y != x ==> (#[trigger] final(self).has(y) <==> old(self).has(y)),
            forall|y: i64|
                y != x && old(self).has(y) ==> #[trigger] final(self).score_of(y) == old(
                    self,
                ).score_of(y),
            final(self).entries@.len() == old(self).entries@.len() - (if old(self).has(x) {
                1int
            } else {
                0int
            }),
    {
        let n = self.entries.len();
        let mut i: usize = 0;
        while i < n
            invariant
                0 <= i <= n,
                n == self.entries@.len(),
                *self == *old(self),
                self.wf(),
                forall|j: int| 0 <= j < i ==> #[trigger] self.entries@[j].id != x,
            decreases n - i,
        {
            if self.entries[i].id == x {
                let ghost pre = *self;
                self.entries.remove(i);
                proof {
                    let s0 = pre.entries@;
                    let s1 = self.entries@;
                    assert(s1 =~= s0.subrange(0, i as int) + s0.subrange(i + 1, s0.len() as int));
                    assert(forall|k: int| 0 <= k < i ==> s1[k] == s0[k]);
                    assert(forall|k: int| i <= k < s1.len() ==> s1[k] == s0[k + 1]);
                    assert(self.wf());
                    assert forall|y: i64| y != x && pre.has(y) implies self.has(y)
                        && self.score_of(y) == pre.score_of(y) by {
                        pre.lemma_entry(pre.idx_of(y));
                        let j0 = pre.idx_of(y);
                        let j1 = if j0 < i as int {
                            j0
                        } else {
                            j0 - 1
                        };
                        assert(s1[j1] == s0[j0]);
                        self.lemma_entry(j1);
                    }
                    assert forall|y: i64| y != x && self.has(y) implies pre.has(y) by {
                        self.lemma_entry(self.idx_of(y));
                        let j1 = self.idx_of(y);
                        let j0 = if j1 < i as int {
                            j1
                        } else {
                            j1 + 1
                        };
                        assert(s0[j0] == s1[j1]);
                        pre.lemma_entry(j0);
                    }
                    assert forall|y: i64| self.has(y) implies y != x by {
                        self.lemma_entry(self.idx_of(y));
                        let j1 = self.idx_of(y);
                        let j0 = if j1 < i as int {
                            j1
                        } else {
                            j1 + 1
                        };
                        assert(s0[j0] == s1[j1]);
                        if j0 != i as int {
                            assert(s0[j0].id != s0[i as int].id);
                        }
                    }
                    assert(pre.has(x)) by {
                        assert(s0[i as int].id == x);
                    }
                }
                return ;
            }
            i = i + 1;
        }
        proof {
            assert(!self.has(x));
        }
    }

    /// Schedules `x` at `fire_at`; a previous entry of `x` is replaced.
    pub fn add(&mut self, x: i64, fire_at: i64)
        requires
            old(self).wf(),
        ensures
            final(self).wf(),
            final(self).has(x),
            final(self).score_of(x) == fire_at,
            forall|y: i64|
                y != x ==> (#[trigger] final(self).has(y) <==> old(self).has(y)),
            forall|y: i64|
                y != x && old(self).has(y) ==> #[trigger] final(self).score_of(y) == old(
                    self,
                ).score_of(y),
            final(self).entries@.len() == old(self).entries@.len() + (if old(self).has(x) {
                0int
            } else {
                1int
            }),
    {
        self.remove_id(x);
        let ghost mid = *self;
        self.entries.push(QueueEntry { id: x, fire_at });
        proof {
            let s1 = mid.entries@;
            let s2 = self.entries@;
            let n1 = s1.len() as int;
            assert(s2 == s1.push((QueueEntry { id: x, fire_at })));
            assert forall|i: int, j: int|
                0 <= i < j < s2.len() implies s2[i].id != s2[j].id by {
                if j < n1 {
                } else {
                    mid.lemma_entry(i);
                    assert(!mid.has(x));
                }
            }
            assert(s2[n1].id == x);
            self.lemma_entry(n1);
            assert forall|y: i64| y != x && mid.has(y) implies self.has(y) && self.score_of(y)
                == mid.score_of(y) by {
                mid.lemma_entry(mid.idx_of(y));
                let j = mid.idx_of(y);
                assert(s2[j] == s1[j]);
                self.lemma_entry(j);
            }
            assert forall|y: i64| y != x && self.has(y) implies mid.has(y) by {
                self.lemma_entry(self.idx_of(y));
                let j = self.idx_of(y);
                assert(j != n1);
                assert(s1[j] == s2[j]);
                mid.lemma_entry(j);
            }
            assert forall|y: i64| y != x implies (self.has(y) <==> old(self).has(y)) by {
                assert(mid.has(y) <==> old(self).has(y));
            }
            assert forall|y: i64| y != x && old(self).has(y) implies self.score_of(y) == old(
                self,
            ).score_of(y) by {
                assert(mid.has(y));
                assert(mid.score_of(y) == old(self).score_of(y));
            }
        }
    }

    /// Batch scheduling: every named id ends at its given score.
    pub fn add_many(&mut self, items: &Vec<(i64, i64)>)
        requires
            old(self).wf(),
            forall|k: int, l: int|
                0 <= k < l < items@.len() ==> (#[trigger] items@[k]).0 != (#[trigger] items@[l]).0,
        ensures
            final(self).wf(),
            forall|k: int| 0 <= k < items@.len() ==> final(self).has((#[trigger] items@[k]).0),
            forall|k: int|
                0 <= k < items@.len() ==> final(self).score_of((#[trigger] items@[k]).0)
                    == items@[k].1,
            forall|y: i64|
                !names_id(items@, y) ==> (#[trigger] final(self).has(y) <==> old(self).has(y)),
            forall|y: i64|
                !names_id(items@, y) && old(self).has(y) ==> #[trigger] final(self).score_of(y)
                    == old(self).score_of(y),
    {
        let n = items.len();
        let mut i: usize = 0;
        while i < n
            invariant
                0 <= i <= n,
                n == items@.len(),
                self.wf(),
                forall|k: int, l: int|
                    0 <= k < l < items@.len() ==> (#[trigger] items@[k]).0 != (
                    #[trigger] items@[l]).0,
                forall|k: int| 0 <= k < i ==> self.has((#[trigger] items@[k]).0),
                forall|k: int|
                    0 <= k < i ==> self.score_of((#[trigger] items@[k]).0) == items@[k].1,
                forall|y: i64|
                    !names_id(items@, y) ==> (#[trigger] self.has(y) <==> old(self).has(y)),
                forall|y: i64|
                    !names_id(items@, y) && old(self).has(y) ==> #[trigger] self.score_of(y) == old(
                        self,
                    ).score_of(y),
            decreases n - i,
        {
            let (id, fire_at) = (items[i].0, items[i].1);
            proof {
                assert(names_id(items@, id));
            }
            self.add(id, fire_at);
            i = i + 1;
        }
    }

    /// Atomically removes and returns the ids of all entries due at `now`, in
    /// queue order. Entries not yet due stay, with their scores.
    pub fn pop_due(&mut self, now: i64) -> (r: Vec<i64>)
        requires
            old(self).wf(),
        ensures
            final(self).wf(),
            // exactly the due ids come out, each once ...
            forall|k: int|
                0 <= k < r@.len() ==> old(self).has(#[trigger] r@[k]) && old(self).score_of(r@[k])
                    <= now,
            forall|k: int, l: int| 0 <= k < l < r@.len() ==> r@[k] != r@[l],
            forall|y: i64| old(self).has(y) && old(self).score_of(y) <= now ==> r@.contains(y),
            // ... and exactly the waiting entries stay, with their scores.
            forall|y: i64|
                #[trigger] final(self).has(y) <==> (old(self).has(y) && old(self).score_of(y)
                    > now),
            forall|y: i64|
                final(self).has(y) ==> #[trigger] final(self).score_of(y) == old(self).score_of(y),
    {
        let n = self.entries.len();
        let mut kept: Vec<QueueEntry> = Vec::new();
        let mut due: Vec<i64> = Vec::new();
        let mut i: usize = 0;
        while i < n
            invariant
                0 <= i <= n,
                n == self.entries@.len(),
                *self == *old(self),
                self.wf(),
                due@ == self.entries@.take(i as int).filter(due_at(now)).map_values(entry_id()),
                kept@ == self.entries@.take(i as int).filter(still_waiting(now)),
            decreases n - i,
        {
            let e = self.entries[i];
            let ghost t1 = self.entries@.take(i + 1);
            proof {
                reveal_with_fuel(Seq::<_>::filter, 2);
                assert(t1.drop_last() =~= self.entries@.take(i as int));
                assert(t1.last() == e);
            }
            if e.fire_at <= now {
                due.push(e.id);
                proof {
                    assert(t1.filter(due_at(now)) == self.entries@.take(i as int).filter(
                        due_at(now),
                    ).push(e));
                    assert(due@ =~= t1.filter(due_at(now)).map_values(entry_id()));
                    assert(kept@ == t1.filter(still_waiting(now)));
                }
            } else {
                kept.push(e);
                proof {
                    assert(kept@ == t1.filter(still_waiting(now)));
                    assert(due@ =~= t1.filter(due_at(now)).map_values(entry_id()));
                }
            }
            i = i + 1;
        }
        let ghost pre = *self;
        self.entries = kept;
        proof {
            assert(pre.entries@.take(n as int) =~= pre.entries@);
            let ghost all = pre.entries@;
            let ghost fdue = all.filter(due_at(now));
            let ghost fkeep = all.filter(still_waiting(now));
            lemma_filter_unique_ids(all, due_at(now));
            lemma_filter_unique_ids(all, still_waiting(now));
            assert(self.wf());
            assert forall|k: int|
                0 <= k < due@.len() implies pre.has(#[trigger] due@[k]) && pre.score_of(due@[k])
                <= now by {
                Seq::lemma_filter_pred(all, due_at(now), k);
                lemma_filter_element_of(all, due_at(now), k);
                let j = choose|j: int| 0 <= j < all.len() && all[j] == fdue[k];
                pre.lemma_entry(j);
            }
            assert forall|k: int, l: int| 0 <= k < l < due@.len() implies due@[k] != due@[l] by {
                assert(fdue[k].id != fdue[l].id);
            }
            assert forall|y: i64| pre.has(y) && pre.score_of(y) <= now implies due@.contains(
                y,
            ) by {
                pre.lemma_entry(pre.idx_of(y));
                let j = pre.idx_of(y);
                Seq::lemma_filter_contains(all, due_at(now), j);
                let k = choose|k: int| 0 <= k < fdue.len() && fdue[k] == all[j];
                assert(due@[k] == y);
            }
            assert forall|y: i64| #[trigger] self.has(y) implies (pre.has(y) && pre.score_of(y)
                > now && self.score_of(y) == pre.score_of(y)) by {
                self.lemma_entry(self.idx_of(y));
                let k = self.idx_of(y);
                Seq::lemma_filter_pred(all, still_waiting(now), k);
                lemma_filter_element_of(all, still_waiting(now), k);
                let j = choose|j: int| 0 <= j < all.len() && all[j] == fkeep[k];
                pre.lemma_entry(j);
            }
            assert forall|y: i64| pre.has(y) && pre.score_of(y) > now implies self.has(y) by {
                pre.lemma_entry(pre.idx_of(y));
                let j = pre.idx_of(y);
                Seq::lemma_filter_contains(all, still_waiting(now), j);
                let k = choose|k: int| 0 <= k < fkeep.len() && fkeep[k] == all[j];
                self.lemma_entry(k);
            }
        }
        due
    }
}

/// The id column of an entry, as a map function.
pub open spec fn entry_id() -> spec_fn(QueueEntry) -> i64 {
    |e: QueueEntry| e.id
}

/// Every element of a filtered sequence is an element of the unfiltered one.
proof fn lemma_filter_element_of(s: Seq<QueueEntry>, pred: spec_fn(QueueEntry) -> bool, k: int)
    requires
        0 <= k < s.filter(pred).len(),
    ensures
        exists|j: int| 0 <= j < s.len() && #[trigger] s[j] == s.filter(pred)[k],
    decreases s.len(),
{
    reveal_with_fuel(Seq::<_>::filter, 2);
    let f = s.filter(pred);
    let d = s.drop_last();
    let fd = d.filter(pred);
    if pred(s.last()) && k == fd.len() {
        assert(s[s.len() - 1] == f[k]);
    } else {
        lemma_filter_element_of(d, pred, k);
        let j = choose|j: int| 0 <= j < d.len() && d[j] == fd[k];
        assert(s[j] == f[k]);
    }
}

/// Filtering keeps ids unique.
proof fn lemma_filter_unique_ids(s: Seq<QueueEntry>, pred: spec_fn(QueueEntry) -> bool)
    requires
        forall|i: int, j: int|
            0 <= i < j < s.len() ==> #[trigger] s[i].id != #[trigger] s[j].id,
    ensures
        forall|i: int, j: int|
            0 <= i < j < s.filter(pred).len() ==> #[trigger] s.filter(pred)[i].id
                != #[trigger] s.filter(pred)[j].id,
    decreases s.len(),
{
    reveal_with_fuel(Seq::<_>::filter, 2);
    if s.len() > 0 {
        let f = s.filter(pred);
        let d = s.drop_last();
        let fd = d.filter(pred);
        assert(forall|i: int| 0 <= i < d.len() ==> d[i] == s[i]);
        lemma_filter_unique_ids(d, pred);
        assert forall|i: int, j: int| 0 <= i < j < f.len() implies #[trigger] f[i].id
            != #[trigger] f[j].id by {
            if pred(s.last()) && j == fd.len() {
                lemma_filter_element_of(d, pred, i);
                let j0 = choose|j0: int| 0 <= j0 < d.len() && d[j0] == fd[i];
                assert(s[j0].id != s[s.len() - 1].id);
            } else {
                assert(f[i] == fd[i] && f[j] == fd[j]);
            }
        }
    }
}

} // verus!
