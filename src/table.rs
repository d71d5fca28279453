use vstd::prelude::*;
use crate::types::Record;

verus! {

/// The values of the records of `s`, in order.
pub open spec fn views_of<T: View>(s: Seq<T>) -> Seq<T::V> {
    s.map_values(|r: T| r@)
}

/// Keys handed out one after another by a fresh counter count up from 0.
pub proof fn ids_count_up<T: Record>(states: Seq<Table<T>>, ids: Seq<u64>)
    requires
        states.len() == ids.len() + 1,
        states[0].next_id() == 0,
        forall|k: int| 0 <= k < ids.len() ==> #[trigger] Table::<T>::allocated(states[k], states[k + 1], ids[k]),
    ensures
        forall|k: int| 0 <= k < ids.len() ==> #[trigger] ids[k] == k,
        forall|i: int, j: int| 0 <= i < j < ids.len() ==> #[trigger] ids[i] < #[trigger] ids[j],
{
    assert forall|k: int| 0 <= k < states.len() implies #[trigger] states[k].next_id() == k by {
        lemma_counter_at(states, ids, k);
    }
    assert forall|k: int| 0 <= k < ids.len() implies #[trigger] ids[k] == k by {
        assert(Table::<T>::allocated(states[k], states[k + 1], ids[k]));
        assert(states[k].next_id() == k);
    }
}

proof fn lemma_counter_at<T: Record>(states: Seq<Table<T>>, ids: Seq<u64>, k: int)
    requires
        states.len() == ids.len() + 1,
        states[0].next_id() == 0,
        forall|k: int| 0 <= k < ids.len() ==> #[trigger] Table::<T>::allocated(states[k], states[k + 1], ids[k]),
        0 <= k < states.len(),
    ensures
        states[k].next_id() == k,
    decreases k,
{
    if k > 0 {
        lemma_counter_at(states, ids, k - 1);
        let j = k - 1;
        assert(Table::<T>::allocated(states[j], states[j + 1], ids[j]));
        assert(j + 1 == k);
    }
}

/// One table of records, kept in ascending key order, with the counter that
/// hands out its keys. A key is never handed out twice, so a deleted key is
/// never reused.
pub struct Table<T> {
    rows: Vec<T>,
    next_id: u64,
}

impl<T: Record> Table<T> {
    /// The records, in ascending key order.
    pub closed spec fn rows(&self) -> Seq<T> {
        self.rows@
    }

    /// The key that the next allocation hands out.
    pub closed spec fn next_id(&self) -> u64 {
        self.next_id
    }

    /// Keys strictly increase along the rows, and all lie below the counter.
    pub open spec fn wf(&self) -> bool {
        &&& forall|i: int, j: int|
            0 <= i < j < self.rows().len() ==> #[trigger] self.rows()[i].key_of()
                < #[trigger] self.rows()[j].key_of()
        &&& forall|i: int| 0 <= i < self.rows().len() ==> #[trigger] self.rows()[i].key_of() < self.next_id()
    }

    pub open spec fn has(&self, id: u64) -> bool {
        exists|i: int| 0 <= i < self.rows().len() && #[trigger] self.rows()[i].key_of() == id
    }

    /// The position of the record under `id`.
    pub open spec fn index_of(&self, id: u64) -> int {
        choose|i: int| 0 <= i < self.rows().len() && #[trigger] self.rows()[i].key_of() == id
    }

    /// The table as a map from key to record value.
    pub open spec fn view(&self) -> Map<u64, T::V> {
        Map::new(|id: u64| self.has(id), |id: u64| self.rows()[self.index_of(id)]@)
    }

    /// The record values, in ascending key order.
    pub open spec fn values(&self) -> Seq<T::V> {
        views_of(self.rows())
    }

    /// `id` is stored, or newer than every stored key and already handed out.
    pub open spec fn insertable(&self, id: u64) -> bool {
        ||| self.has(id)
        ||| id < self.next_id() && forall|i: int| 0 <= i < self.rows().len() ==> #[trigger] self.rows()[i].key_of() < id
    }

    /// `id` was handed out by the counter between `before` and `after`.
    pub open spec fn allocated(before: Self, after: Self, id: u64) -> bool {
        &&& id == before.next_id()
        &&& after.next_id() == before.next_id() + 1
    }

    pub proof fn lemma_index_of(&self, i: int)
        requires
            self.wf(),
            0 <= i < self.rows().len(),
        ensures
            self.has(self.rows()[i].key_of()),
            self.index_of(self.rows()[i].key_of()) == i,
    {
        let k = self.rows()[i].key_of();
        assert(self.rows()[i].key_of() == k);
        let j = self.index_of(k);
        if j < i {
            assert(self.rows()[j].key_of() < self.rows()[i].key_of());
        } else if i < j {
            assert(self.rows()[i].key_of() < self.rows()[j].key_of());
        }
    }

    pub fn new() -> (r: Self)
        ensures
            r.wf(),
            r.rows().len() == 0,
            r@ == Map::<u64, T::V>::empty(),
            r.next_id() == 0,
    {
        let r = Table { rows: Vec::new(), next_id: 0 };
        assert(r@ =~= Map::<u64, T::V>::empty());
        r
    }

    pub fn len(&self) -> (r: usize)
        ensures
            r == self.rows().len(),
    {
        self.rows.len()
    }

    pub fn row_at(&self, i: usize) -> (r: &T)
        requires
            i < self.rows().len(),
        ensures
            *r == self.rows()[i as int],
    {
        &self.rows[i]
    }

    /// Hands out the counter's value and advances it; `None` once the counter
    /// has reached `u64::MAX`, which is never handed out.
    pub fn allocate(&mut self) -> (r: Option<u64>)
        requires
            old(self).wf(),
        ensures
            final(self).wf(),
            final(self).rows() == old(self).rows(),
            final(self)@ == old(self)@,
            final(self).values() == old(self).values(),
            old(self).next_id() == u64::MAX ==> r is None && *final(self) == *old(self),
            old(self).next_id() < u64::MAX ==> r is Some && Self::allocated(*old(self), *final(self), r->0),
            r matches Some(id) ==> !old(self)@.contains_key(id) && final(self).insertable(id),
    {
        if self.next_id == u64::MAX {
            None
        } else {
            let id = self.next_id;
            self.next_id = id + 1;
            assert(self.rows() == old(self).rows());
            assert(!self.has(id));
            assert(self@ =~= old(self)@);
            Some(id)
        }
    }

    /// The position of the record under `id`, if there is one.
    pub fn find(&self, id: u64) -> (r: Option<usize>)
        requires
            self.wf(),
        ensures
            r is None <==> !self.has(id),
            r matches Some(i) ==> i < self.rows().len() && self.rows()[i as int].key_of() == id
                && self.index_of(id) == i,
    {
        let mut i: usize = 0;
        while i < self.rows.len()
            invariant
                self.wf(),
                i <= self.rows().len(),
                forall|j: int| 0 <= j < i ==> #[trigger] self.rows()[j].key_of() != id,
            decreases self.rows().len() - i,
        {
            if self.rows[i].key() == id {
                proof {
                    self.lemma_index_of(i as int);
                }
                return Some(i);
            }
            i = i + 1;
        }
        None
    }

    /// A copy of the record under `id`, if there is one.
    pub fn get(&self, id: u64) -> (r: Option<T>)
        requires
            self.wf(),
        ensures
            r is Some <==> self@.contains_key(id),
            r matches Some(v) ==> v@ == self@[id] && v.key_of() == id,
    {
        match self.find(id) {
            Some(i) => Some(self.rows[i].duplicate()),
            None => None,
        }
    }

    /// Whether a record is stored under `id`.
    pub fn contains(&self, id: u64) -> (r: bool)
        requires
            self.wf(),
        ensures
            r == self@.contains_key(id),
    {
        self.find(id).is_some()
    }

    /// Copies of all records, in ascending key order.
    pub fn all(&self) -> (r: Vec<T>)
        requires
            self.wf(),
        ensures
            views_of(r@) == self.values(),
            forall|i: int| 0 <= i < r@.len() ==> #[trigger] r@[i].key_of() == self.rows()[i].key_of(),
    {
        let r = crate::types::duplicate_all(&self.rows);
        assert(views_of(r@) =~= self.values());
        r
    }

    /// Adds a record under a key that the counter has handed out and that no
    /// record holds yet.
    pub fn insert_fresh(&mut self, row: T)
        requires
            old(self).wf(),
            row.key_of() < old(self).next_id(),
            forall|i: int| 0 <= i < old(self).rows().len() ==> #[trigger] old(self).rows()[i].key_of() < row.key_of(),
        ensures
            final(self).wf(),
            final(self).next_id() == old(self).next_id(),
            final(self).rows() == old(self).rows().push(row),
            final(self)@ == old(self)@.insert(row.key_of(), row@),
            final(self).values() == old(self).values().push(row@),
    {
        let ghost k = row.key_of();
        let ghost v = row@;
        self.rows.push(row);
        proof {
            let o = *old(self);
            let n = *self;
            assert forall|id: u64| #[trigger] n.has(id) == (o.has(id) || id == k) by {
                if o.has(id) {
                    let j = o.index_of(id);
                    assert(n.rows()[j].key_of() == id);
                }
                if id == k {
                    assert(n.rows()[o.rows().len() as int].key_of() == id);
                }
            }
            assert forall|id: u64| #[trigger] n.has(id) implies n@[id] == o@.insert(k, v)[id] by {
                let j = n.index_of(id);
                n.lemma_index_of(j);
                if j < o.rows().len() {
                    o.lemma_index_of(j);
                }
            }
            assert(n@ =~= o@.insert(k, v));
            assert(n.values() =~= o.values().push(v));
        }
    }

    /// Stores `row` under its key, in place of the record there if any.
    pub fn put(&mut self, row: T)
        requires
            old(self).wf(),
            old(self).insertable(row.key_of()),
        ensures
            final(self).wf(),
            final(self).next_id() == old(self).next_id(),
            final(self)@ == old(self)@.insert(row.key_of(), row@),
            !old(self)@.contains_key(row.key_of()) ==> final(self).values() == old(self).values().push(row@),
    {
        match self.find(row.key()) {
            Some(i) => self.replace(i, row),
            None => self.insert_fresh(row),
        }
    }

    /// Replaces the record at position `i` by one under the same key.
    pub fn replace(&mut self, i: usize, row: T)
        requires
            old(self).wf(),
            i < old(self).rows().len(),
            row.key_of() == old(self).rows()[i as int].key_of(),
        ensures
            final(self).wf(),
            final(self).next_id() == old(self).next_id(),
            final(self).rows() == old(self).rows().update(i as int, row),
            final(self)@ == old(self)@.insert(row.key_of(), row@),
    {
        let ghost k = row.key_of();
        let ghost v = row@;
        self.rows.set(i, row);
        proof {
            let o = *old(self);
            let n = *self;
            assert forall|id: u64| #[trigger] n.has(id) == o.has(id) by {
                if o.has(id) {
                    let j = o.index_of(id);
                    assert(n.rows()[j].key_of() == id);
                }
                if n.has(id) {
                    let j = n.index_of(id);
                    assert(o.rows()[j].key_of() == id);
                }
            }
            o.lemma_index_of(i as int);
            assert forall|id: u64| #[trigger] n.has(id) implies n@[id] == o@.insert(k, v)[id] by {
                let j = n.index_of(id);
                n.lemma_index_of(j);
                o.lemma_index_of(j);
            }
            assert(n@ =~= o@.insert(k, v));
        }
    }

    /// Removes the record at position `i`.
    pub fn remove_at(&mut self, i: usize)
        requires
            old(self).wf(),
            i < old(self).rows().len(),
        ensures
            final(self).wf(),
            final(self).next_id() == old(self).next_id(),
            final(self).rows() == old(self).rows().remove(i as int),
            final(self)@ == old(self)@.remove(old(self).rows()[i as int].key_of()),
            final(self).values() == old(self).values().remove(i as int),
    {
        let ghost k = self.rows()[i as int].key_of();
        self.rows.remove(i);
        proof {
            let o = *old(self);
            let n = *self;
            o.lemma_index_of(i as int);
            assert forall|id: u64| #[trigger] n.has(id) == (o.has(id) && id != k) by {
                if o.has(id) && id != k {
                    let j = o.index_of(id);
                    if j < i {
                        assert(n.rows()[j].key_of() == id);
                    } else {
                        assert(n.rows()[j - 1].key_of() == id);
                    }
                }
                if n.has(id) {
                    let j = n.index_of(id);
                    if j < i {
                        assert(o.rows()[j].key_of() == id);
                        assert(o.rows()[j].key_of() < o.rows()[i as int].key_of());
                    } else {
                        assert(o.rows()[j + 1].key_of() == id);
                        assert(o.rows()[i as int].key_of() < o.rows()[j + 1].key_of());
                    }
                }
            }
            assert forall|id: u64| #[trigger] n.has(id) implies n@[id] == o@.remove(k)[id] by {
                let j = n.index_of(id);
                n.lemma_index_of(j);
                if j < i {
                    o.lemma_index_of(j);
                } else {
                    o.lemma_index_of(j + 1);
                }
            }
            assert(n@ =~= o@.remove(k));
            assert(n.values() =~= o.values().remove(i as int));
        }
    }
}

} // verus!
