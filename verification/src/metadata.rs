use vstd::prelude::*;

verus! {

/// Entropy-weighting strategy of the scheduler, recorded in its metadata.
#[derive(Clone, Copy, Debug, PartialEq, Eq, Structural)]
pub enum PowerSchedule {
    Explore,
    Exploit,
    Fast,
    Coe,
    Lin,
    Quad,
}

/// Baseline scheduler bookkeeping, registered by the factory so that
/// scheduling logic can always rely on it existing.
#[derive(Clone, Copy, Debug, PartialEq, Eq)]
pub struct SchedulerMetadata {
    /// Chosen weighting strategy, if any.
    pub strat: Option<PowerSchedule>,
    /// Accumulated execution time of scheduled entries, in microseconds.
    pub exec_time_us: u64,
    /// Completed queue cycles.
    pub cycles: u64,
    /// Accumulated coverage-map size over scheduled entries.
    pub bitmap_size: u64,
    /// Number of entries that contributed to `bitmap_size`.
    pub bitmap_entries: u64,
}

impl SchedulerMetadata {
    /// Fresh scheduler bookkeeping with all counters at zero.
    pub fn new(strat: Option<PowerSchedule>) -> (r: SchedulerMetadata)
        ensures
            r == (SchedulerMetadata {
                strat,
                exec_time_us: 0,
                cycles: 0,
                bitmap_size: 0,
                bitmap_entries: 0,
            }),
    {
        SchedulerMetadata { strat, exec_time_us: 0, cycles: 0, bitmap_size: 0, bitmap_entries: 0 }
    }
}

/// One piece of auxiliary data a pipeline component may attach to the run.
///
/// The set of kinds is closed: each component's data is one variant, and the
/// registry keeps at most one live value per variant.
#[derive(Clone, Debug, PartialEq)]
pub enum MetadataValue {
    /// Scheduler bookkeeping.
    Scheduler(SchedulerMetadata),
    /// Counter series kept by a feedback evaluator.
    Counters(Vec<u64>),
    /// Free-form note attached by a component.
    Note(String),
}

/// The kind (runtime type tag) of a metadata value.
#[derive(Clone, Copy, Debug, PartialEq, Eq, Structural)]
pub enum MetadataKind {
    Scheduler,
    Counters,
    Note,
}

/// Kind of a metadata value, at the specification level.
pub open spec fn spec_kind_of(v: MetadataValue) -> MetadataKind {
    match v {
        MetadataValue::Scheduler(_) => MetadataKind::Scheduler,
        MetadataValue::Counters(_) => MetadataKind::Counters,
        MetadataValue::Note(_) => MetadataKind::Note,
    }
}

/// Kind of a metadata value.
pub fn kind_of(v: &MetadataValue) -> (k: MetadataKind)
    ensures
        k == spec_kind_of(*v),
{
    match v {
        MetadataValue::Scheduler(_) => MetadataKind::Scheduler,
        MetadataValue::Counters(_) => MetadataKind::Counters,
        MetadataValue::Note(_) => MetadataKind::Note,
    }
}

/// First value of kind `k` in `s`, if any.
pub open spec fn seq_get(s: Seq<MetadataValue>, k: MetadataKind) -> Option<MetadataValue>
    decreases s.len(),
{
    if s.len() == 0 {
        None
    } else if spec_kind_of(s[0]) == k {
        Some(s[0])
    } else {
        seq_get(s.drop_first(), k)
    }
}

/// Skipping a prefix without a value of kind `k` does not change the lookup.
proof fn lemma_seq_get_skip(s: Seq<MetadataValue>, k: MetadataKind, i: int)
    requires
        0 <= i <= s.len(),
        forall|j: int| 0 <= j < i ==> spec_kind_of(s[j]) != k,
    ensures
        seq_get(s, k) == seq_get(s.subrange(i, s.len() as int), k),
    decreases i,
{
    if i > 0 {
        assert(s.drop_first() == s.subrange(1, s.len() as int));
        lemma_seq_get_skip(s.drop_first(), k, i - 1);
        assert(s.drop_first().subrange(i - 1, s.drop_first().len() as int)
            == s.subrange(i, s.len() as int));
    } else {
        assert(s.subrange(0, s.len() as int) == s);
    }
}

/// If position `i` holds the first value of kind `k`, the lookup finds it.
proof fn lemma_seq_get_found(s: Seq<MetadataValue>, k: MetadataKind, i: int)
    requires
        0 <= i < s.len(),
        spec_kind_of(s[i]) == k,
        forall|j: int| 0 <= j < i ==> spec_kind_of(s[j]) != k,
    ensures
        seq_get(s, k) == Some(s[i]),
{
    lemma_seq_get_skip(s, k, i);
    assert(s.subrange(i, s.len() as int)[0] == s[i]);
}

/// If no position holds kind `k`, the lookup misses.
proof fn lemma_seq_get_missing(s: Seq<MetadataValue>, k: MetadataKind)
    requires
        forall|j: int| 0 <= j < s.len() ==> spec_kind_of(s[j]) != k,
    ensures
        seq_get(s, k) is None,
{
    lemma_seq_get_skip(s, k, s.len() as int);
}

/// Replacing position `i` with a value of the same kind changes exactly the
/// lookup of that kind, for sequences with pairwise distinct kinds.
proof fn lemma_seq_get_update(s: Seq<MetadataValue>, i: int)
    requires
        0 <= i < s.len(),
        forall|p: int, q: int| 0 <= p < q < s.len()
            ==> spec_kind_of(s[p]) != spec_kind_of(s[q]),
    ensures
        forall|v: MetadataValue, k: MetadataKind|
            spec_kind_of(v) == spec_kind_of(s[i]) ==> #[trigger] seq_get(s.update(i, v), k)
                == (if k == spec_kind_of(v) { Some(v) } else { seq_get(s, k) }),
{
    assert forall|v: MetadataValue, k: MetadataKind|
        spec_kind_of(v) == spec_kind_of(s[i]) implies #[trigger] seq_get(s.update(i, v), k)
            == (if k == spec_kind_of(v) { Some(v) } else { seq_get(s, k) }) by {
        let t = s.update(i, v);
        if k == spec_kind_of(v) {
            lemma_seq_get_found(t, k, i);
        } else {
            if exists|j: int| 0 <= j < s.len() && spec_kind_of(s[j]) == k {
                let j = choose|j: int| 0 <= j < s.len() && spec_kind_of(s[j]) == k;
                lemma_seq_get_found(s, k, j);
                lemma_seq_get_found(t, k, j);
            } else {
                lemma_seq_get_missing(s, k);
                lemma_seq_get_missing(t, k);
            }
        }
    }
}

/// Appending a value does not change the lookup of any other kind.
proof fn lemma_seq_get_push_other(s: Seq<MetadataValue>, v: MetadataValue, k: MetadataKind)
    requires
        k != spec_kind_of(v),
    ensures
        seq_get(s.push(v), k) == seq_get(s, k),
    decreases s.len(),
{
    let t = s.push(v);
    if s.len() == 0 {
        assert(spec_kind_of(t[0]) != k);
        assert(t.drop_first() =~= Seq::<MetadataValue>::empty());
        assert(seq_get(t.drop_first(), k) is None);
        assert(seq_get(s, k) is None);
    } else {
        assert(t[0] == s[0]);
        if spec_kind_of(s[0]) != k {
            assert(t.drop_first() =~= s.drop_first().push(v));
            lemma_seq_get_push_other(s.drop_first(), v, k);
        }
    }
}

/// Appending a value of a kind not yet present changes exactly the lookup of
/// that kind.
proof fn lemma_seq_get_push(s: Seq<MetadataValue>, v: MetadataValue)
    requires
        forall|j: int| 0 <= j < s.len() ==> spec_kind_of(s[j]) != spec_kind_of(v),
    ensures
        forall|k: MetadataKind| #[trigger] seq_get(s.push(v), k)
            == (if k == spec_kind_of(v) { Some(v) } else { seq_get(s, k) }),
{
    assert forall|k: MetadataKind| #[trigger] seq_get(s.push(v), k)
        == (if k == spec_kind_of(v) { Some(v) } else { seq_get(s, k) }) by {
        let t = s.push(v);
        assert(forall|j: int| 0 <= j < s.len() ==> t[j] == s[j]);
        if k == spec_kind_of(v) {
            lemma_seq_get_found(t, k, s.len() as int);
        } else {
            lemma_seq_get_push_other(s, v, k);
        }
    }
}

/// Registry `b` is registry `a` right after storing `v`: `v` is filed under
/// its kind, with no residue of any earlier value of that kind, and every
/// other kind is untouched.
pub open spec fn metadata_inserted(a: MetadataMap, b: MetadataMap, v: MetadataValue) -> bool {
    &&& b.wf()
    &&& b.spec_get(spec_kind_of(v)) == Some(v)
    &&& forall|k: MetadataKind| k != spec_kind_of(v) ==> b.spec_get(k) == a.spec_get(k)
}

/// Type-keyed metadata registry: at most one live value per kind.
///
/// Pure storage — no entry has meaning to the run state itself.  Absence of
/// a kind means "not yet computed", never an error.
#[derive(Clone, Debug, PartialEq)]
pub struct MetadataMap {
    entries: Vec<MetadataValue>,
}

impl MetadataMap {
    /// The stored values, in insertion order.
    pub closed spec fn entries_view(&self) -> Seq<MetadataValue> {
        self.entries@
    }

    /// Registry invariant: pairwise distinct kinds.
    pub open spec fn wf(&self) -> bool {
        forall|p: int, q: int| 0 <= p < q < self.entries_view().len()
            ==> spec_kind_of(self.entries_view()[p]) != spec_kind_of(self.entries_view()[q])
    }

    /// The value stored under kind `k`, if any.
    pub open spec fn spec_get(&self, k: MetadataKind) -> Option<MetadataValue> {
        seq_get(self.entries_view(), k)
    }

    /// Number of live entries.
    pub open spec fn spec_len(&self) -> nat {
        self.entries_view().len()
    }

    /// Empty registry.
    pub fn new() -> (r: MetadataMap)
        ensures
            r.wf(),
            r.spec_len() == 0,
            forall|k: MetadataKind| r.spec_get(k) is None,
    {
        let r = MetadataMap { entries: Vec::new() };
        proof {
            assert forall|k: MetadataKind| r.spec_get(k) is None by {
                lemma_seq_get_missing(r.entries_view(), k);
            }
        }
        r
    }

    /// Index of the entry of kind `k`, or the length if there is none.
    fn find(&self, k: MetadataKind) -> (i: usize)
        ensures
            i <= self.entries_view().len(),
            forall|j: int| 0 <= j < i ==> spec_kind_of(self.entries_view()[j]) != k,
            i < self.entries_view().len() ==> spec_kind_of(self.entries_view()[i as int]) == k,
    {
        let mut i: usize = 0;
        while i < self.entries.len()
            invariant
                i <= self.entries_view().len(),
                forall|j: int| 0 <= j < i ==> spec_kind_of(self.entries_view()[j]) != k,
            decreases self.entries.len() - i,
        {
            if kind_of(&self.entries[i]) == k {
                return i;
            }
            i = i + 1;
        }
        i
    }

    /// The stored values in insertion order, for a persistence layer to
    /// walk.
    pub fn items(&self) -> (r: &Vec<MetadataValue>)
        ensures
            r@ == self.entries_view(),
    {
        &self.entries
    }

    /// Whether a value of kind `k` is present.
    pub fn has(&self, k: MetadataKind) -> (r: bool)
        ensures
            r == (self.spec_get(k) is Some),
    {
        let i = self.find(k);
        proof {
            if i < self.entries.len() {
                lemma_seq_get_found(self.entries_view(), k, i as int);
            } else {
                lemma_seq_get_missing(self.entries_view(), k);
            }
        }
        i < self.entries.len()
    }

    /// Store `v`, fully replacing any existing value of the same kind.
    pub fn insert(&mut self, v: MetadataValue)
        requires
            old(self).wf(),
        ensures
            metadata_inserted(*old(self), *final(self), v),
            final(self).spec_len() == (if old(self).spec_get(spec_kind_of(v)) is Some {
                old(self).spec_len()
            } else {
                old(self).spec_len() + 1
            }),
    {
        let k = kind_of(&v);
        let i = self.find(k);
        if i < self.entries.len() {
            proof {
                lemma_seq_get_found(self.entries_view(), k, i as int);
                lemma_seq_get_update(self.entries_view(), i as int);
            }
            self.entries[i] = v;
        } else {
            proof {
                lemma_seq_get_missing(self.entries_view(), k);
                lemma_seq_get_push(self.entries_view(), v);
            }
            self.entries.push(v);
        }
    }

    /// Read the value of kind `k`.
    pub fn get(&self, k: MetadataKind) -> (r: Option<&MetadataValue>)
        ensures
            match r {
                Some(v) => self.spec_get(k) == Some(*v),
                None => self.spec_get(k) is None,
            },
    {
        let i = self.find(k);
        if i < self.entries.len() {
            proof {
                lemma_seq_get_found(self.entries_view(), k, i as int);
            }
            Some(&self.entries[i])
        } else {
            proof {
                lemma_seq_get_missing(self.entries_view(), k);
            }
            None
        }
    }

    /// Exclusive access to the value of kind `k`, which must be present.
    ///
    /// As long as the caller leaves a value of the same kind behind, the
    /// registry keeps its invariant and every other kind keeps its value.
    pub fn get_mut(&mut self, k: MetadataKind) -> (r: &mut MetadataValue)
        requires
            old(self).wf(),
            old(self).spec_get(k) is Some,
        ensures
            old(self).spec_get(k) == Some(*r),
            spec_kind_of(*final(r)) == k ==> {
                &&& final(self).wf()
                &&& final(self).spec_get(k) == Some(*final(r))
                &&& forall|k2: MetadataKind| k2 != k
                    ==> final(self).spec_get(k2) == old(self).spec_get(k2)
                &&& final(self).spec_len() == old(self).spec_len()
            },
    {
        let i = self.find(k);
        proof {
            if i >= self.entries.len() {
                lemma_seq_get_missing(self.entries_view(), k);
            }
            lemma_seq_get_found(self.entries_view(), k, i as int);
            lemma_seq_get_update(self.entries_view(), i as int);
        }
        &mut self.entries[i]
    }

    /// Remove and return the value of kind `k`, if any.
    pub fn remove(&mut self, k: MetadataKind) -> (r: Option<MetadataValue>)
        requires
            old(self).wf(),
        ensures
            final(self).wf(),
            r == old(self).spec_get(k),
            final(self).spec_get(k) is None,
            forall|k2: MetadataKind| k2 != k
                ==> final(self).spec_get(k2) == old(self).spec_get(k2),
            final(self).spec_len() == (if old(self).spec_get(k) is Some {
                old(self).spec_len() - 1
            } else {
                old(self).spec_len() as int
            }),
    {
        let i = self.find(k);
        if i < self.entries.len() {
            proof {
                lemma_seq_get_found(self.entries_view(), k, i as int);
                lemma_seq_get_remove(self.entries_view(), i as int);
            }
            Some(self.entries.remove(i))
        } else {
            proof {
                lemma_seq_get_missing(self.entries_view(), k);
            }
            None
        }
    }
}

/// Removing position `i` removes exactly the lookup of its kind, for
/// sequences with pairwise distinct kinds.
proof fn lemma_seq_get_remove(s: Seq<MetadataValue>, i: int)
    requires
        0 <= i < s.len(),
        forall|p: int, q: int| 0 <= p < q < s.len()
            ==> spec_kind_of(s[p]) != spec_kind_of(s[q]),
    ensures
        forall|k: MetadataKind| #[trigger] seq_get(s.remove(i), k)
            == (if k == spec_kind_of(s[i]) { None } else { seq_get(s, k) }),
{
    assert forall|k: MetadataKind| #[trigger] seq_get(s.remove(i), k)
        == (if k == spec_kind_of(s[i]) { None::<MetadataValue> } else { seq_get(s, k) }) by {
        let t = s.remove(i);
        if k == spec_kind_of(s[i]) {
            assert forall|j: int| 0 <= j < t.len() implies spec_kind_of(t[j]) != k by {
                if j < i {
                    assert(t[j] == s[j]);
                } else {
                    assert(t[j] == s[j + 1]);
                }
            }
            lemma_seq_get_missing(t, k);
        } else {
            if exists|j: int| 0 <= j < s.len() && spec_kind_of(s[j]) == k {
                let j = choose|j: int| 0 <= j < s.len() && spec_kind_of(s[j]) == k;
                lemma_seq_get_found(s, k, j);
                if j < i {
                    assert(t[j] == s[j]);
                    assert(forall|p: int| 0 <= p < j ==> t[p] == s[p]);
                    lemma_seq_get_found(t, k, j);
                } else {
                    assert(t[j - 1] == s[j]);
                    assert forall|p: int| 0 <= p < j - 1 implies spec_kind_of(t[p]) != k by {
                        if p < i {
                            assert(t[p] == s[p]);
                        } else {
                            assert(t[p] == s[p + 1]);
                        }
                    }
                    lemma_seq_get_found(t, k, j - 1);
                }
            } else {
                lemma_seq_get_missing(s, k);
                assert forall|j: int| 0 <= j < t.len() implies spec_kind_of(t[j]) != k by {
                    if j < i {
                        assert(t[j] == s[j]);
                    } else {
                        assert(t[j] == s[j + 1]);
                    }
                }
                lemma_seq_get_missing(t, k);
            }
        }
    }
}

} // verus!
