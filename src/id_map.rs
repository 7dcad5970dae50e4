use vstd::prelude::*;

verus! {

/// Whether the ids of `s` strictly increase, which also makes them unique.
pub open spec fn ids_increasing<T>(s: Seq<(u32, T)>) -> bool {
    forall|i: int, j: int| 0 <= i < j < s.len() ==> s[i].0 < s[j].0
}

/// The position of the entry with id `id`, if there is one.
pub open spec fn position_of<T>(s: Seq<(u32, T)>, id: u32) -> Option<int> {
    if exists|i: int| 0 <= i < s.len() && s[i].0 == id {
        Some(choose|i: int| 0 <= i < s.len() && s[i].0 == id)
    } else {
        None
    }
}

/// The value stored under `id`, if there is one.
pub open spec fn value_of<T>(s: Seq<(u32, T)>, id: u32) -> Option<T> {
    match position_of(s, id) {
        Some(i) => Some(s[i].1),
        None => None,
    }
}

/// The ids stored.
pub open spec fn id_set<T>(s: Seq<(u32, T)>) -> Set<u32> {
    Set::new(|k: u32| position_of(s, k) is Some)
}

/// In a sequence with unique ids, the entry found at `i` is the one of its id.
pub proof fn lemma_position_unique<T>(s: Seq<(u32, T)>, i: int)
    requires
        ids_increasing(s),
        0 <= i < s.len(),
    ensures
        position_of(s, s[i].0) == Some(i),
        value_of(s, s[i].0) == Some(s[i].1),
{
    let j = choose|j: int| 0 <= j < s.len() && s[j].0 == s[i].0;
    if j < i {
        assert(s[j].0 < s[i].0);
    } else if i < j {
        assert(s[i].0 < s[j].0);
    }
}

/// Replacing the value at `i` leaves the ids, and so every other id's
/// position, as they were.
pub proof fn lemma_update_keeps_positions<T>(s: Seq<(u32, T)>, i: int, v: T, id: u32)
    requires
        0 <= i < s.len(),
        ids_increasing(s),
    ensures
        position_of(s.update(i, (s[i].0, v)), id) == position_of(s, id),
        ids_increasing(s.update(i, (s[i].0, v))),
{
    let t = s.update(i, (s[i].0, v));
    assert(forall|k: int| 0 <= k < s.len() ==> t[k].0 == s[k].0);
    if let Some(j) = position_of(s, id) {
        lemma_position_unique(s, j);
        lemma_position_unique(t, j);
    } else if let Some(j) = position_of(t, id) {
        assert(s[j].0 == id);
    }
}

/// A table of values keyed by `u32` ids, kept in ascending id order.
///
/// The component tables are read and updated in place, entry by entry, in
/// id order. vstd specifies `BTreeMap`'s `get`, `insert` and `remove` but
/// gives it no specified mutable access (`get_mut`, `iter_mut`), so the
/// tables are a sorted vector with that order as their invariant.
pub struct IdMap<T> {
    entries: Vec<(u32, T)>,
}

impl<T> View for IdMap<T> {
    type V = Seq<(u32, T)>;

    closed spec fn view(&self) -> Seq<(u32, T)> {
        self.entries@
    }
}

impl<T> IdMap<T> {
    pub open spec fn wf(&self) -> bool {
        ids_increasing(self@)
    }

    pub fn new() -> (m: IdMap<T>)
        ensures
            m@ == Seq::<(u32, T)>::empty(),
            m.wf(),
    {
        IdMap { entries: Vec::new() }
    }

    pub fn len(&self) -> (n: usize)
        ensures
            n == self@.len(),
    {
        self.entries.len()
    }

    pub fn id_at(&self, i: usize) -> (id: u32)
        requires
            i < self@.len(),
        ensures
            id == self@[i as int].0,
    {
        self.entries[i].0
    }

    pub fn value_at(&self, i: usize) -> (v: &T)
        requires
            i < self@.len(),
        ensures
            *v == self@[i as int].1,
    {
        &self.entries[i].1
    }

    pub fn value_at_mut(&mut self, i: usize) -> (v: &mut T)
        requires
            i < old(self)@.len(),
        ensures
            *v == old(self)@[i as int].1,
            final(self)@ == old(self)@.update(i as int, (old(self)@[i as int].0, *final(v))),
    {
        let e = &mut self.entries[i];
        &mut e.1
    }

    /// Appends an entry whose id is above every id already stored.
    pub fn push_back(&mut self, id: u32, v: T)
        requires
            old(self).wf(),
            forall|k: int| 0 <= k < old(self)@.len() ==> old(self)@[k].0 < id,
        ensures
            final(self).wf(),
            final(self)@ == old(self)@.push((id, v)),
    {
        self.entries.push((id, v));
    }

    /// The position of `id`.
    pub fn find(&self, id: u32) -> (r: Option<usize>)
        requires
            self.wf(),
        ensures
            r == match position_of(self@, id) {
                Some(i) => Some(i as usize),
                None => None::<usize>,
            },
            r matches Some(i) ==> i < self@.len() && self@[i as int].0 == id,
    {
        let mut i: usize = 0;
        while i < self.entries.len()
            invariant
                0 <= i <= self@.len(),
                self@ == self.entries@,
                ids_increasing(self@),
                forall|k: int| 0 <= k < i ==> self@[k].0 != id,
            decreases self@.len() - i,
        {
            if self.entries[i].0 == id {
                proof {
                    lemma_position_unique(self@, i as int);
                }
                return Some(i);
            }
            i = i + 1;
        }
        None
    }

    /// Stores `v` under `id`, replacing the value already there.
    pub fn insert(&mut self, id: u32, v: T)
        requires
            old(self).wf(),
        ensures
            final(self).wf(),
            value_of(final(self)@, id) == Some(v),
            forall|k: u32| k != id ==> value_of(final(self)@, k) == value_of(old(self)@, k),
            id_set(final(self)@) == id_set(old(self)@).insert(id),
    {
        let mut i: usize = 0;
        while i < self.entries.len() && self.entries[i].0 < id
            invariant
                0 <= i <= self@.len(),
                self@ == self.entries@,
                self@ == old(self)@,
                ids_increasing(self@),
                forall|k: int| 0 <= k < i ==> self@[k].0 < id,
            decreases self@.len() - i,
        {
            i = i + 1;
        }
        let ghost s = self@;
        if i < self.entries.len() && self.entries[i].0 == id {
            self.entries.set(i, (id, v));
            proof {
                assert(self@ == s.update(i as int, (s[i as int].0, v)));
                lemma_update_keeps_positions(s, i as int, v, id);
                lemma_position_unique(self@, i as int);
                assert forall|k: u32| k != id implies value_of(self@, k) == value_of(s, k) by {
                    lemma_update_keeps_positions(s, i as int, v, k);
                    if let Some(j) = position_of(s, k) {
                        assert(s[j].0 == k);
                        assert(j != i);
                    }
                }
            }
        } else {
            self.entries.insert(i, (id, v));
            proof {
                let t = self@;
                assert(t == s.insert(i as int, (id, v)));
                assert forall|a: int, b: int| 0 <= a < b < t.len() implies t[a].0 < t[b].0 by {
                    if b < i {
                    } else if a > i {
                        assert(t[a] == s[a - 1] && t[b] == s[b - 1]);
                    } else if a == i {
                        assert(t[b] == s[b - 1]);
                    } else {
                        if b == i {
                        } else {
                            assert(t[b] == s[b - 1]);
                        }
                    }
                }
                lemma_position_unique(t, i as int);
                assert forall|k: u32| k != id implies value_of(t, k) == value_of(s, k) by {
                    if let Some(j) = position_of(s, k) {
                        assert(s[j].0 == k);
                        let jj = if j < i { j } else { j + 1 };
                        assert(t[jj] == s[j]);
                        lemma_position_unique(t, jj);
                        lemma_position_unique(s, j);
                    } else {
                        if let Some(j) = position_of(t, k) {
                            assert(t[j].0 == k);
                            assert(j != i);
                            let jj = if j < i { j } else { j - 1 };
                            assert(s[jj] == t[j]);
                        }
                    }
                }
            }
        }
        proof {
            assert forall|k: u32| #[trigger] id_set(self@).contains(k) == id_set(old(self)@).insert(id).contains(k) by {
                if k != id {
                    assert(value_of(self@, k) == value_of(old(self)@, k));
                }
            }
            assert(id_set(self@) =~= id_set(old(self)@).insert(id));
        }
    }
}

} // verus!
