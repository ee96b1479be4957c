use vstd::prelude::*;

use crate::errors::Error;
use crate::ids::CorpusId;

verus! {

/// A stored input together with its per-entry metadata.
#[derive(Clone, Debug, PartialEq)]
pub struct Testcase {
    /// The input itself, as raw request bytes.
    pub input: Vec<u8>,
    /// Campaign-relative time at which the input was discovered, in
    /// milliseconds.
    pub found_time: u64,
    /// Entry this input was derived from, if any.
    pub parent: Option<CorpusId>,
    /// How often this entry has been scheduled for execution.
    pub scheduled_count: u64,
}

impl Testcase {
    /// A fresh testcase around `input`, with empty metadata.
    pub fn new(input: Vec<u8>) -> (r: Testcase)
        ensures
            r == (Testcase { input, found_time: 0, parent: None, scheduled_count: 0 }),
    {
        Testcase { input, found_time: 0, parent: None, scheduled_count: 0 }
    }
}

/// One slot of the store: a stable identifier and, unless the entry is
/// currently lent out for exclusive access, the testcase itself.
#[derive(Clone, Debug, PartialEq)]
pub struct CorpusSlot {
    /// The entry's identifier.
    pub id: CorpusId,
    /// The entry, or `None` while it is lent out.
    pub item: Option<Testcase>,
}

/// Whether some slot of `s` carries identifier `id`.
pub open spec fn has_id(s: Seq<CorpusSlot>, id: CorpusId) -> bool {
    exists|j: int| 0 <= j < s.len() && (#[trigger] s[j]).id == id
}

/// Index of the slot carrying `id`; meaningful only when `has_id` holds.
pub open spec fn index_of_id(s: Seq<CorpusSlot>, id: CorpusId) -> int {
    choose|j: int| 0 <= j < s.len() && (#[trigger] s[j]).id == id
}

/// Ordered, identifier-addressed store of testcases.
///
/// Identifiers are handed out in increasing order and never reused, not
/// even after removal.  An entry can be lent out for exclusive mutation and
/// must be returned before it can be lent, read or removed again; a
/// conflicting request fails fast instead of aliasing.
#[derive(Clone, Debug, PartialEq)]
pub struct CorpusStore {
    slots: Vec<CorpusSlot>,
    next_id: u64,
}

impl CorpusStore {
    /// The slots, in identifier order.
    pub closed spec fn entries(&self) -> Seq<CorpusSlot> {
        self.slots@
    }

    /// The identifier the next added entry will get.
    pub closed spec fn spec_next_id(&self) -> u64 {
        self.next_id
    }

    /// Store invariant: identifiers strictly increase along the slots and
    /// stay below the next free identifier.
    pub open spec fn wf(&self) -> bool {
        &&& forall|p: int, q: int| 0 <= p < q < self.entries().len()
            ==> (#[trigger] self.entries()[p]).id.0 < (#[trigger] self.entries()[q]).id.0
        &&& forall|p: int| 0 <= p < self.entries().len()
            ==> (#[trigger] self.entries()[p]).id.0 < self.spec_next_id()
    }

    /// The slot carrying `id`, if any.
    pub open spec fn spec_slot(&self, id: CorpusId) -> Option<CorpusSlot> {
        if has_id(self.entries(), id) {
            Some(self.entries()[index_of_id(self.entries(), id)])
        } else {
            None
        }
    }

    /// Empty store; the first entry will get identifier 0.
    pub fn new() -> (r: CorpusStore)
        ensures
            r.wf(),
            r.entries().len() == 0,
            r.spec_next_id() == 0,
    {
        CorpusStore { slots: Vec::new(), next_id: 0 }
    }

    /// Number of entries, lent ones included.
    pub fn count(&self) -> (r: usize)
        ensures
            r == self.entries().len(),
    {
        self.slots.len()
    }

    /// Index of the slot carrying `id`, or the slot count if there is none.
    fn find(&self, id: CorpusId) -> (i: usize)
        ensures
            i <= self.entries().len(),
            i < self.entries().len() ==> self.entries()[i as int].id == id,
            i == self.entries().len() ==> !has_id(self.entries(), id),
    {
        let mut i: usize = 0;
        while i < self.slots.len()
            invariant
                i <= self.entries().len(),
                forall|j: int| 0 <= j < i ==> (#[trigger] self.entries()[j]).id != id,
            decreases self.slots.len() - i,
        {
            if self.slots[i].id == id {
                return i;
            }
            i = i + 1;
        }
        i
    }

    /// Under the invariant the slot of `id` is unique, so finding any slot
    /// with it pins `index_of_id`.
    pub proof fn lemma_index_unique(&self, id: CorpusId, i: int)
        requires
            self.wf(),
            0 <= i < self.entries().len(),
            self.entries()[i].id == id,
        ensures
            has_id(self.entries(), id),
            index_of_id(self.entries(), id) == i,
    {
        assert(has_id(self.entries(), id));
        let j = index_of_id(self.entries(), id);
        if i < j {
            assert(self.entries()[i].id.0 < self.entries()[j].id.0);
        } else if j < i {
            assert(self.entries()[j].id.0 < self.entries()[i].id.0);
        }
    }

    /// The identifiers of all entries, lent ones included, in store order.
    ///
    /// This is the enumeration a persistence layer walks to serialize the
    /// store.
    pub fn ids(&self) -> (r: Vec<CorpusId>)
        ensures
            r@.len() == self.entries().len(),
            forall|i: int| 0 <= i < r@.len() ==> r@[i] == self.entries()[i].id,
    {
        let mut r: Vec<CorpusId> = Vec::new();
        let mut j: usize = 0;
        while j < self.slots.len()
            invariant
                j <= self.entries().len(),
                r@.len() == j,
                forall|i: int| 0 <= i < j ==> r@[i] == self.entries()[i].id,
            decreases self.slots.len() - j,
        {
            r.push(self.slots[j].id);
            j = j + 1;
        }
        r
    }

    /// The identifier the next added entry will get; never one that was
    /// already handed out.
    pub fn peek_free_id(&self) -> (r: CorpusId)
        ensures
            r.0 == self.spec_next_id(),
    {
        CorpusId(self.next_id)
    }

    /// Append a slot as read back from persistent storage, lent or not.
    ///
    /// A deserializer replays the slots in identifier order, so each
    /// identifier must be at least the next free one; the next free
    /// identifier moves past it, keeping every replayed identifier unique.
    pub fn restore_slot(&mut self, id: CorpusId, item: Option<Testcase>)
        requires
            old(self).wf(),
            id.0 >= old(self).spec_next_id(),
            id.0 < u64::MAX,
        ensures
            final(self).wf(),
            final(self).entries() == old(self).entries().push((CorpusSlot { id, item })),
            final(self).spec_next_id() == id.0 + 1,
    {
        self.slots.push(CorpusSlot { id, item });
        self.next_id = id.0 + 1;
    }

    /// How adding reads at the level of `spec_slot`: the fresh identifier
    /// maps to the new entry, and every other identifier keeps its slot.
    pub proof fn lemma_spec_slot_push(self, t: CorpusStore, tc: Testcase, id: CorpusId)
        requires
            self.wf(),
            t.wf(),
            id.0 == self.spec_next_id(),
            t.entries() == self.entries().push(CorpusSlot { id, item: Some(tc) }),
        ensures
            t.spec_slot(id) == Some(CorpusSlot { id, item: Some(tc) }),
            forall|x: CorpusId| x != id ==> t.spec_slot(x) == self.spec_slot(x),
    {
        let n = self.entries().len() as int;
        assert(t.entries()[n].id == id);
        t.lemma_index_unique(id, n);
        assert forall|x: CorpusId| x != id implies t.spec_slot(x) == self.spec_slot(x) by {
            if has_id(self.entries(), x) {
                let j = index_of_id(self.entries(), x);
                assert(self.entries()[j].id == x);
                assert(t.entries()[j] == self.entries()[j]);
                t.lemma_index_unique(x, j);
            } else {
                if has_id(t.entries(), x) {
                    let j = index_of_id(t.entries(), x);
                    assert(t.entries()[j].id == x);
                    if j < n {
                        assert(self.entries()[j].id == x);
                    }
                }
            }
        }
    }

    /// How lending or returning reads at the level of `spec_slot`: the
    /// identifier maps to the replacement slot, and every other identifier
    /// keeps its slot.
    pub proof fn lemma_spec_slot_update(self, t: CorpusStore, id: CorpusId, slot: CorpusSlot)
        requires
            self.wf(),
            t.wf(),
            has_id(self.entries(), id),
            slot.id == id,
            t.entries() == self.entries().update(index_of_id(self.entries(), id), slot),
        ensures
            t.spec_slot(id) == Some(slot),
            forall|x: CorpusId| x != id ==> t.spec_slot(x) == self.spec_slot(x),
    {
        let i = index_of_id(self.entries(), id);
        assert(self.entries()[i].id == id);
        assert(t.entries()[i] == slot);
        t.lemma_index_unique(id, i);
        assert forall|x: CorpusId| x != id implies t.spec_slot(x) == self.spec_slot(x) by {
            if has_id(self.entries(), x) {
                let j = index_of_id(self.entries(), x);
                assert(self.entries()[j].id == x);
                assert(j != i);
                assert(t.entries()[j] == self.entries()[j]);
                t.lemma_index_unique(x, j);
                self.lemma_index_unique(x, j);
            } else {
                if has_id(t.entries(), x) {
                    let j = index_of_id(t.entries(), x);
                    assert(t.entries()[j].id == x);
                    assert(j != i);
                    assert(self.entries()[j].id == x);
                }
            }
        }
    }

    /// Add a testcase, handing out the next free identifier.
    pub fn add(&mut self, tc: Testcase) -> (r: CorpusId)
        requires
            old(self).wf(),
            old(self).spec_next_id() < u64::MAX,
        ensures
            final(self).wf(),
            r == (CorpusId { 0: old(self).spec_next_id() }),
            final(self).spec_next_id() == old(self).spec_next_id() + 1,
            final(self).entries() == old(self).entries().push(
                (CorpusSlot { id: r, item: Some(tc) }),
            ),
    {
        let id = CorpusId(self.next_id);
        self.slots.push(CorpusSlot { id, item: Some(tc) });
        self.next_id = self.next_id + 1;
        id
    }

    /// Shared read access to the entry carrying `id`.
    ///
    /// Fails with `KeyNotFound` when no entry carries `id`, and fast with
    /// `BorrowConflict` when the entry is currently lent out.
    pub fn get(&self, id: CorpusId) -> (r: Result<&Testcase, Error>)
        requires
            self.wf(),
        ensures
            match r {
                Ok(tc) => self.spec_slot(id) matches Some(slot) && slot.item == Some(*tc),
                Err(e) => {
                    &&& (e == Error::KeyNotFound || e == Error::BorrowConflict)
                    &&& (e == Error::KeyNotFound <==> self.spec_slot(id) is None)
                    &&& (e == Error::BorrowConflict <==> (self.spec_slot(id) matches Some(slot)
                        && slot.item is None))
                },
            },
    {
        let i = self.find(id);
        if i == self.slots.len() {
            return Err(Error::KeyNotFound);
        }
        proof {
            self.lemma_index_unique(id, i as int);
        }
        match &self.slots[i].item {
            Some(tc) => Ok(tc),
            None => Err(Error::BorrowConflict),
        }
    }

    /// Lend the entry carrying `id` out for exclusive mutation.
    ///
    /// The entry leaves the store until it is handed back with
    /// [`CorpusStore::checkin`].  A second request for an entry that is
    /// already lent fails fast with `BorrowConflict` instead of yielding a
    /// second live handle.
    pub fn checkout(&mut self, id: CorpusId) -> (r: Result<Testcase, Error>)
        requires
            old(self).wf(),
        ensures
            final(self).wf(),
            final(self).spec_next_id() == old(self).spec_next_id(),
            match r {
                Ok(tc) => {
                    &&& old(self).spec_slot(id) == Some(CorpusSlot { id, item: Some(tc) })
                    &&& final(self).entries() == old(self).entries().update(
                        index_of_id(old(self).entries(), id),
                        (CorpusSlot { id, item: None }),
                    )
                },
                Err(e) => {
                    &&& *final(self) == *old(self)
                    &&& (e == Error::KeyNotFound || e == Error::BorrowConflict)
                    &&& (e == Error::KeyNotFound <==> old(self).spec_slot(id) is None)
                    &&& (e == Error::BorrowConflict <==> (old(self).spec_slot(id)
                        matches Some(slot) && slot.item is None))
                },
            },
    {
        let i = self.find(id);
        if i == self.slots.len() {
            return Err(Error::KeyNotFound);
        }
        proof {
            self.lemma_index_unique(id, i as int);
        }
        if self.slots[i].item.is_none() {
            return Err(Error::BorrowConflict);
        }
        let ghost s0 = *self;
        let slot = &mut self.slots[i];
        let taken = slot.item.take();
        proof {
            assert(self.entries() =~= s0.entries().update(
                i as int,
                (CorpusSlot { id, item: None }),
            ));
        }
        match taken {
            Some(tc) => Ok(tc),
            None => Err(Error::BorrowConflict),
        }
    }

    /// Hand a lent entry back.
    ///
    /// Fails with `KeyNotFound` when no entry carries `id`, and with
    /// `BorrowConflict` when the entry was never lent out.
    pub fn checkin(&mut self, id: CorpusId, tc: Testcase) -> (r: Result<(), Error>)
        requires
            old(self).wf(),
        ensures
            final(self).wf(),
            final(self).spec_next_id() == old(self).spec_next_id(),
            match r {
                Ok(()) => {
                    &&& old(self).spec_slot(id) == Some(CorpusSlot { id, item: None })
                    &&& final(self).entries() == old(self).entries().update(
                        index_of_id(old(self).entries(), id),
                        (CorpusSlot { id, item: Some(tc) }),
                    )
                },
                Err(e) => {
                    &&& *final(self) == *old(self)
                    &&& (e == Error::KeyNotFound || e == Error::BorrowConflict)
                    &&& (e == Error::KeyNotFound <==> old(self).spec_slot(id) is None)
                    &&& (e == Error::BorrowConflict <==> (old(self).spec_slot(id)
                        matches Some(slot) && slot.item is Some))
                },
            },
    {
        let i = self.find(id);
        if i == self.slots.len() {
            return Err(Error::KeyNotFound);
        }
        proof {
            self.lemma_index_unique(id, i as int);
        }
        if self.slots[i].item.is_some() {
            return Err(Error::BorrowConflict);
        }
        let slot = &mut self.slots[i];
        slot.item = Some(tc);
        Ok(())
    }

    /// Remove and return the entry carrying `id`.
    ///
    /// Its identifier is never handed out again.  A lent entry cannot be
    /// removed until it is handed back.
    pub fn remove(&mut self, id: CorpusId) -> (r: Result<Testcase, Error>)
        requires
            old(self).wf(),
        ensures
            final(self).wf(),
            final(self).spec_next_id() == old(self).spec_next_id(),
            match r {
                Ok(tc) => {
                    &&& old(self).spec_slot(id) == Some(CorpusSlot { id, item: Some(tc) })
                    &&& final(self).entries() == old(self).entries().remove(
                        index_of_id(old(self).entries(), id),
                    )
                },
                Err(e) => {
                    &&& *final(self) == *old(self)
                    &&& (e == Error::KeyNotFound || e == Error::BorrowConflict)
                    &&& (e == Error::KeyNotFound <==> old(self).spec_slot(id) is None)
                    &&& (e == Error::BorrowConflict <==> (old(self).spec_slot(id)
                        matches Some(slot) && slot.item is None))
                },
            },
    {
        let i = self.find(id);
        if i == self.slots.len() {
            return Err(Error::KeyNotFound);
        }
        proof {
            self.lemma_index_unique(id, i as int);
        }
        if self.slots[i].item.is_none() {
            return Err(Error::BorrowConflict);
        }
        let slot = self.slots.remove(i);
        proof {
            let t = final(self).entries();
            let s = old(self).entries();
            assert forall|p: int, q: int| 0 <= p < q < t.len()
                implies (#[trigger] t[p]).id.0 < (#[trigger] t[q]).id.0 by {
                if q < i as int {
                    assert(t[p] == s[p] && t[q] == s[q]);
                } else if p < i as int {
                    assert(t[p] == s[p] && t[q] == s[q + 1]);
                } else {
                    assert(t[p] == s[p + 1] && t[q] == s[q + 1]);
                }
            }
            assert forall|p: int| 0 <= p < t.len()
                implies (#[trigger] t[p]).id.0 < final(self).spec_next_id() by {
                if p < i as int {
                    assert(t[p] == s[p]);
                } else {
                    assert(t[p] == s[p + 1]);
                }
            }
        }
        match slot.item {
            Some(tc) => Ok(tc),
            None => Err(Error::BorrowConflict),
        }
    }
}

} // verus!
