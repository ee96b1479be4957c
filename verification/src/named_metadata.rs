use vstd::prelude::*;

use crate::metadata::{kind_of, spec_kind_of, MetadataKind, MetadataValue};

verus! {

/// One named registry entry: a metadata value filed under a string name.
#[derive(Clone, Debug, PartialEq)]
pub struct NamedEntry {
    /// Name under which the value was filed.
    pub name: String,
    /// The value itself.
    pub value: MetadataValue,
}

/// Key of a named entry: its name and the kind of its value.
pub open spec fn spec_key_of(e: NamedEntry) -> (Seq<char>, MetadataKind) {
    (e.name@, spec_kind_of(e.value))
}

/// First entry with key `(n, k)` in `s`, if any.
pub open spec fn seq_get_named(
    s: Seq<NamedEntry>,
    n: Seq<char>,
    k: MetadataKind,
) -> Option<MetadataValue>
    decreases s.len(),
{
    if s.len() == 0 {
        None
    } else if spec_key_of(s[0]) == (n, k) {
        Some(s[0].value)
    } else {
        seq_get_named(s.drop_first(), n, k)
    }
}

/// Skipping a prefix without the key does not change the lookup.
proof fn lemma_named_skip(s: Seq<NamedEntry>, n: Seq<char>, k: MetadataKind, i: int)
    requires
        0 <= i <= s.len(),
        forall|j: int| 0 <= j < i ==> spec_key_of(s[j]) != (n, k),
    ensures
        seq_get_named(s, n, k) == seq_get_named(s.subrange(i, s.len() as int), n, k),
    decreases i,
{
    if i > 0 {
        assert(s.drop_first() == s.subrange(1, s.len() as int));
        lemma_named_skip(s.drop_first(), n, k, i - 1);
        assert(s.drop_first().subrange(i - 1, s.drop_first().len() as int)
            == s.subrange(i, s.len() as int));
    } else {
        assert(s.subrange(0, s.len() as int) == s);
    }
}

/// If position `i` holds the first entry with the key, the lookup finds it.
proof fn lemma_named_found(s: Seq<NamedEntry>, n: Seq<char>, k: MetadataKind, i: int)
    requires
        0 <= i < s.len(),
        spec_key_of(s[i]) == (n, k),
        forall|j: int| 0 <= j < i ==> spec_key_of(s[j]) != (n, k),
    ensures
        seq_get_named(s, n, k) == Some(s[i].value),
{
    lemma_named_skip(s, n, k, i);
    assert(s.subrange(i, s.len() as int)[0] == s[i]);
}

/// If no position holds the key, the lookup misses.
proof fn lemma_named_missing(s: Seq<NamedEntry>, n: Seq<char>, k: MetadataKind)
    requires
        forall|j: int| 0 <= j < s.len() ==> spec_key_of(s[j]) != (n, k),
    ensures
        seq_get_named(s, n, k) is None,
{
    lemma_named_skip(s, n, k, s.len() as int);
}

/// Replacing position `i` with an entry of the same key changes exactly the
/// lookup of that key, for sequences with pairwise distinct keys.
proof fn lemma_named_update(s: Seq<NamedEntry>, i: int)
    requires
        0 <= i < s.len(),
        forall|p: int, q: int| 0 <= p < q < s.len() ==> spec_key_of(s[p]) != spec_key_of(s[q]),
    ensures
        forall|e: NamedEntry, n: Seq<char>, k: MetadataKind|
            spec_key_of(e) == spec_key_of(s[i]) ==> #[trigger] seq_get_named(s.update(i, e), n, k)
                == (if (n, k) == spec_key_of(e) {
                    Some(e.value)
                } else {
                    seq_get_named(s, n, k)
                }),
{
    assert forall|e: NamedEntry, n: Seq<char>, k: MetadataKind|
        spec_key_of(e) == spec_key_of(s[i]) implies #[trigger] seq_get_named(s.update(i, e), n, k)
            == (if (n, k) == spec_key_of(e) {
                Some(e.value)
            } else {
                seq_get_named(s, n, k)
            }) by {
        let t = s.update(i, e);
        if (n, k) == spec_key_of(e) {
            lemma_named_found(t, n, k, i);
        } else {
            if exists|j: int| 0 <= j < s.len() && spec_key_of(s[j]) == (n, k) {
                let j = choose|j: int| 0 <= j < s.len() && spec_key_of(s[j]) == (n, k);
                lemma_named_found(s, n, k, j);
                lemma_named_found(t, n, k, j);
            } else {
                lemma_named_missing(s, n, k);
                lemma_named_missing(t, n, k);
            }
        }
    }
}

/// Appending an entry does not change the lookup of any other key.
proof fn lemma_named_push_other(s: Seq<NamedEntry>, e: NamedEntry, n: Seq<char>, k: MetadataKind)
    requires
        (n, k) != spec_key_of(e),
    ensures
        seq_get_named(s.push(e), n, k) == seq_get_named(s, n, k),
    decreases s.len(),
{
    let t = s.push(e);
    if s.len() == 0 {
        assert(spec_key_of(t[0]) != (n, k));
        assert(t.drop_first() =~= Seq::<NamedEntry>::empty());
        assert(seq_get_named(t.drop_first(), n, k) is None);
        assert(seq_get_named(s, n, k) is None);
    } else {
        assert(t[0] == s[0]);
        if spec_key_of(s[0]) != (n, k) {
            assert(t.drop_first() =~= s.drop_first().push(e));
            lemma_named_push_other(s.drop_first(), e, n, k);
        }
    }
}

/// Appending an entry with a fresh key changes exactly the lookup of that
/// key.
proof fn lemma_named_push(s: Seq<NamedEntry>, e: NamedEntry)
    requires
        forall|j: int| 0 <= j < s.len() ==> spec_key_of(s[j]) != spec_key_of(e),
    ensures
        forall|n: Seq<char>, k: MetadataKind| #[trigger] seq_get_named(s.push(e), n, k)
            == (if (n, k) == spec_key_of(e) {
                Some(e.value)
            } else {
                seq_get_named(s, n, k)
            }),
{
    assert forall|n: Seq<char>, k: MetadataKind| #[trigger] seq_get_named(s.push(e), n, k)
        == (if (n, k) == spec_key_of(e) {
            Some(e.value)
        } else {
            seq_get_named(s, n, k)
        }) by {
        let t = s.push(e);
        assert(forall|j: int| 0 <= j < s.len() ==> t[j] == s[j]);
        if (n, k) == spec_key_of(e) {
            lemma_named_found(t, n, k, s.len() as int);
        } else {
            lemma_named_push_other(s, e, n, k);
        }
    }
}

/// Name-and-type-keyed metadata registry: at most one live value per
/// (name, kind) pair.
#[derive(Clone, Debug, PartialEq)]
pub struct NamedMetadataMap {
    entries: Vec<NamedEntry>,
}

impl NamedMetadataMap {
    /// The stored entries, in insertion order.
    pub closed spec fn entries_view(&self) -> Seq<NamedEntry> {
        self.entries@
    }

    /// Registry invariant: pairwise distinct (name, kind) keys.
    pub open spec fn wf(&self) -> bool {
        forall|p: int, q: int| 0 <= p < q < self.entries_view().len()
            ==> spec_key_of(self.entries_view()[p]) != spec_key_of(self.entries_view()[q])
    }

    /// The value filed under name `n` with kind `k`, if any.
    pub open spec fn spec_get(&self, n: Seq<char>, k: MetadataKind) -> Option<MetadataValue> {
        seq_get_named(self.entries_view(), n, k)
    }

    /// Number of live entries.
    pub open spec fn spec_len(&self) -> nat {
        self.entries_view().len()
    }

    /// Empty registry.
    pub fn new() -> (r: NamedMetadataMap)
        ensures
            r.wf(),
            r.spec_len() == 0,
            forall|n: Seq<char>, k: MetadataKind| r.spec_get(n, k) is None,
    {
        let r = NamedMetadataMap { entries: Vec::new() };
        proof {
            assert forall|n: Seq<char>, k: MetadataKind| r.spec_get(n, k) is None by {
                lemma_named_missing(r.entries_view(), n, k);
            }
        }
        r
    }

    /// Index of the entry with key `(name, k)`, or the length if none.
    fn find(&self, name: &String, k: MetadataKind) -> (i: usize)
        ensures
            i <= self.entries_view().len(),
            forall|j: int| 0 <= j < i ==> spec_key_of(self.entries_view()[j]) != (name@, k),
            i < self.entries_view().len()
                ==> spec_key_of(self.entries_view()[i as int]) == (name@, k),
    {
        let mut i: usize = 0;
        while i < self.entries.len()
            invariant
                i <= self.entries_view().len(),
                forall|j: int| 0 <= j < i ==> spec_key_of(self.entries_view()[j]) != (name@, k),
            decreases self.entries.len() - i,
        {
            if self.entries[i].name == *name && kind_of(&self.entries[i].value) == k {
                return i;
            }
            i = i + 1;
        }
        i
    }

    /// The stored entries in insertion order, for a persistence layer to
    /// walk.
    pub fn items(&self) -> (r: &Vec<NamedEntry>)
        ensures
            r@ == self.entries_view(),
    {
        &self.entries
    }

    /// Whether a value is filed under `(name, k)`.
    pub fn has(&self, name: &String, k: MetadataKind) -> (r: bool)
        ensures
            r == (self.spec_get(name@, k) is Some),
    {
        let i = self.find(name, k);
        proof {
            if i < self.entries.len() {
                lemma_named_found(self.entries_view(), name@, k, i as int);
            } else {
                lemma_named_missing(self.entries_view(), name@, k);
            }
        }
        i < self.entries.len()
    }

    /// File `v` under `name`, fully replacing any value of the same name and
    /// kind.
    pub fn insert(&mut self, name: String, v: MetadataValue)
        requires
            old(self).wf(),
        ensures
            final(self).wf(),
            final(self).spec_get(name@, spec_kind_of(v)) == Some(v),
            forall|n: Seq<char>, k: MetadataKind| (n, k) != (name@, spec_kind_of(v))
                ==> final(self).spec_get(n, k) == old(self).spec_get(n, k),
            final(self).spec_len()
                == (if old(self).spec_get(name@, spec_kind_of(v)) is Some {
                old(self).spec_len() as int
            } else {
                (old(self).spec_len() + 1) as int
            }),
    {
        let k = kind_of(&v);
        let i = self.find(&name, k);
        let e = NamedEntry { name, value: v };
        if i < self.entries.len() {
            proof {
                lemma_named_found(self.entries_view(), e.name@, k, i as int);
                lemma_named_update(self.entries_view(), i as int);
            }
            self.entries[i] = e;
        } else {
            proof {
                lemma_named_missing(self.entries_view(), e.name@, k);
                lemma_named_push(self.entries_view(), e);
            }
            self.entries.push(e);
        }
    }

    /// Read the value filed under `(name, k)`.
    pub fn get(&self, name: &String, k: MetadataKind) -> (r: Option<&MetadataValue>)
        ensures
            match r {
                Some(v) => self.spec_get(name@, k) == Some(*v),
                None => self.spec_get(name@, k) is None,
            },
    {
        let i = self.find(name, k);
        if i < self.entries.len() {
            proof {
                lemma_named_found(self.entries_view(), name@, k, i as int);
            }
            Some(&self.entries[i].value)
        } else {
            proof {
                lemma_named_missing(self.entries_view(), name@, k);
            }
            None
        }
    }

    /// Remove and return the value filed under `(name, k)`, if any.
    pub fn remove(&mut self, name: &String, k: MetadataKind) -> (r: Option<MetadataValue>)
        requires
            old(self).wf(),
        ensures
            final(self).wf(),
            r == old(self).spec_get(name@, k),
            final(self).spec_get(name@, k) is None,
            forall|n: Seq<char>, k2: MetadataKind| (n, k2) != (name@, k)
                ==> final(self).spec_get(n, k2) == old(self).spec_get(n, k2),
    {
        let i = self.find(name, k);
        if i < self.entries.len() {
            proof {
                lemma_named_found(self.entries_view(), name@, k, i as int);
                lemma_named_remove(self.entries_view(), i as int);
            }
            Some(self.entries.remove(i).value)
        } else {
            proof {
                lemma_named_missing(self.entries_view(), name@, k);
            }
            None
        }
    }
}

/// Removing position `i` removes exactly the lookup of its key, for
/// sequences with pairwise distinct keys.
proof fn lemma_named_remove(s: Seq<NamedEntry>, i: int)
    requires
        0 <= i < s.len(),
        forall|p: int, q: int| 0 <= p < q < s.len() ==> spec_key_of(s[p]) != spec_key_of(s[q]),
    ensures
        forall|n: Seq<char>, k: MetadataKind| #[trigger] seq_get_named(s.remove(i), n, k)
            == (if (n, k) == spec_key_of(s[i]) {
                None
            } else {
                seq_get_named(s, n, k)
            }),
{
    assert forall|n: Seq<char>, k: MetadataKind| #[trigger] seq_get_named(s.remove(i), n, k)
        == (if (n, k) == spec_key_of(s[i]) {
            None::<MetadataValue>
        } else {
            seq_get_named(s, n, k)
        }) by {
        let t = s.remove(i);
        if (n, k) == spec_key_of(s[i]) {
            assert forall|j: int| 0 <= j < t.len() implies spec_key_of(t[j]) != (n, k) by {
                if j < i {
                    assert(t[j] == s[j]);
                } else {
                    assert(t[j] == s[j + 1]);
                }
            }
            lemma_named_missing(t, n, k);
        } else {
            if exists|j: int| 0 <= j < s.len() && spec_key_of(s[j]) == (n, k) {
                let j = choose|j: int| 0 <= j < s.len() && spec_key_of(s[j]) == (n, k);
                lemma_named_found(s, n, k, j);
                if j < i {
                    assert(t[j] == s[j]);
                    assert(forall|p: int| 0 <= p < j ==> t[p] == s[p]);
                    lemma_named_found(t, n, k, j);
                } else {
                    assert(t[j - 1] == s[j]);
                    assert forall|p: int| 0 <= p < j - 1 implies spec_key_of(t[p]) != (n, k) by {
                        if p < i {
                            assert(t[p] == s[p]);
                        } else {
                            assert(t[p] == s[p + 1]);
                        }
                    }
                    lemma_named_found(t, n, k, j - 1);
                }
            } else {
                lemma_named_missing(s, n, k);
                assert forall|j: int| 0 <= j < t.len() implies spec_key_of(t[j]) != (n, k) by {
                    if j < i {
                        assert(t[j] == s[j]);
                    } else {
                        assert(t[j] == s[j + 1]);
                    }
                }
                lemma_named_missing(t, n, k);
            }
        }
    }
}

} // verus!
