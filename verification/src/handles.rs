//! Handles that belong to owners: opened, looked up, closed one by one or all at once.
use crate::text::same_text;
use vstd::prelude::*;

verus! {

/// Owner and number of a handle.
pub type HandleKey = (Seq<char>, u64);

struct Handle<T> {
    owner: String,
    id: u64,
    value: T,
}

/// Handles by owner and number; no pair occurs twice.
pub struct HandleTable<T> {
    entries: Vec<Handle<T>>,
}

spec fn keys_of<T>(v: Seq<Handle<T>>) -> Seq<HandleKey> {
    Seq::new(v.len(), |i: int| (v[i].owner@, v[i].id))
}

impl<T> HandleTable<T> {
    closed spec fn keys(&self) -> Seq<HandleKey> {
        keys_of(self.entries@)
    }

    #[verifier::type_invariant]
    closed spec fn wf(&self) -> bool {
        keys_of(self.entries@).no_duplicates()
    }

    /// The handles.
    pub closed spec fn view(&self) -> Map<HandleKey, T> {
        Map::new(
            |k: HandleKey| self.keys().contains(k),
            |k: HandleKey| self.entries@[self.keys().index_of(k)].value,
        )
    }

    proof fn lemma_count(&self)
        requires
            self.wf(),
        ensures
            self@.dom().finite(),
            self@.dom().len() == self.entries@.len(),
    {
        self.keys().unique_seq_to_set();
        vstd::seq_lib::seq_to_set_is_finite(self.keys());
        assert(self@.dom() =~= self.keys().to_set());
    }

    proof fn lemma_at(&self, i: int)
        requires
            self.wf(),
            0 <= i < self.entries@.len(),
        ensures
            self@.dom().contains((self.entries@[i].owner@, self.entries@[i].id)),
            self@[(self.entries@[i].owner@, self.entries@[i].id)] == self.entries@[i].value,
    {
        let k = (self.entries@[i].owner@, self.entries@[i].id);
        assert(self.keys()[i] == k);
        assert(self.keys().contains(k));
        let j = self.keys().index_of(k);
        assert(0 <= j < self.keys().len() && self.keys()[j] == k);
    }

    /// A table without handles.
    pub fn new() -> (r: Self)
        ensures
            r@ == Map::<HandleKey, T>::empty(),
    {
        let r = HandleTable { entries: Vec::new() };
        assert(r@ =~= Map::<HandleKey, T>::empty());
        r
    }

    /// How many handles there are.
    pub fn len(&self) -> (r: usize)
        ensures
            self@.dom().finite(),
            r == self@.dom().len(),
    {
        proof {
            use_type_invariant(self);
            self.lemma_count();
        }
        self.entries.len()
    }

    fn find(&self, owner: &str, id: u64) -> (r: Option<usize>)
        ensures
            match r {
                Some(i) => i < self.entries@.len() && self.entries@[i as int].owner@ == owner@
                    && self.entries@[i as int].id == id,
                None => !self.keys().contains((owner@, id)),
            },
    {
        let mut i: usize = 0;
        while i < self.entries.len()
            invariant
                i <= self.entries@.len(),
                forall|k: int| 0 <= k < i ==> #[trigger] self.keys()[k] != (owner@, id),
            decreases self.entries@.len() - i,
        {
            if self.entries[i].id == id && same_text(self.entries[i].owner.as_str(), owner) {
                return Some(i);
            }
            assert(self.keys()[i as int] != (owner@, id));
            i += 1;
        }
        None
    }

    /// Whether a handle is open.
    pub fn contains(&self, owner: &str, id: u64) -> (r: bool)
        ensures
            r == self@.dom().contains((owner@, id)),
    {
        match self.find(owner, id) {
            Some(i) => {
                assert(self.keys()[i as int] == (owner@, id));
                true
            },
            None => false,
        }
    }

    /// What a handle stands for.
    pub fn get(&self, owner: &str, id: u64) -> (r: Option<&T>)
        ensures
            r is Some <==> self@.dom().contains((owner@, id)),
            r matches Some(v) ==> *v == self@[(owner@, id)],
    {
        proof {
            use_type_invariant(self);
        }
        match self.find(owner, id) {
            Some(i) => {
                proof {
                    self.lemma_at(i as int);
                }
                Some(&self.entries[i].value)
            },
            None => None,
        }
    }

    /// Closes a handle and returns what it stood for.
    pub fn close(&mut self, owner: &str, id: u64) -> (r: Option<T>)
        ensures
            final(self)@ == old(self)@.remove((owner@, id)),
            r is Some <==> old(self)@.dom().contains((owner@, id)),
            r matches Some(v) ==> v == old(self)@[(owner@, id)],
    {
        proof {
            use_type_invariant(&*self);
        }
        let ghost before = *self;
        match self.find(owner, id) {
            None => {
                assert(self@ =~= before@.remove((owner@, id)));
                None
            },
            Some(i) => {
                proof {
                    before.lemma_at(i as int);
                }
                let mut held = HandleTable { entries: Vec::new() };
                std::mem::swap(&mut held, self);
                let HandleTable { mut entries } = held;
                let gone = entries.remove(i);
                proof {
                    assert(keys_of(entries@) =~= before.keys().remove(i as int));
                }
                *self = HandleTable { entries };
                proof {
                    lemma_removed(before, *self, i as int);
                }
                Some(gone.value)
            },
        }
    }

    /// Opens a handle, in place of one of the same owner and number.
    pub fn open(&mut self, owner: &str, id: u64, value: T)
        ensures
            final(self)@ == old(self)@.insert((owner@, id), value),
    {
        let _ = self.close(owner, id);
        proof {
            use_type_invariant(&*self);
        }
        let ghost before = *self;
        let ghost key = (owner@, id);
        assert(!before.keys().contains(key)) by {
            assert(!before@.dom().contains(key));
        }
        let mut held = HandleTable { entries: Vec::new() };
        std::mem::swap(&mut held, self);
        let HandleTable { mut entries } = held;
        entries.push(Handle { owner: owner.to_owned(), id, value });
        proof {
            assert(keys_of(entries@) =~= before.keys().push(key));
            assert forall|a: int, b: int|
                0 <= a < keys_of(entries@).len() && 0 <= b < keys_of(entries@).len() && a
                    != b implies keys_of(entries@)[a] != keys_of(entries@)[b] by {
                let n = before.keys().len();
                if a < n && b < n {
                    assert(before.keys()[a] != before.keys()[b]);
                } else if a < n {
                    assert(before.keys().contains(before.keys()[a]));
                } else {
                    assert(before.keys().contains(before.keys()[b]));
                }
            }
        }
        *self = HandleTable { entries };
        proof {
            let after = *self;
            let n = before.entries@.len() as int;
            assert forall|k: HandleKey| #[trigger] after@.dom().contains(k) <==> before@.insert(
                key,
                value,
            ).dom().contains(k) by {
                if after.keys().contains(k) {
                    let j = choose|j: int| 0 <= j < after.keys().len() && after.keys()[j] == k;
                    if j < n {
                        assert(before.keys()[j] == k);
                    }
                }
                if before.keys().contains(k) {
                    let j = choose|j: int| 0 <= j < before.keys().len() && before.keys()[j] == k;
                    assert(after.keys()[j] == k);
                }
                if k == key {
                    assert(after.keys()[n] == k);
                }
            }
            assert forall|k: HandleKey| #[trigger] after@.dom().contains(k) implies after@[k]
                == before@.insert(key, value)[k] by {
                let j = choose|j: int| 0 <= j < after.keys().len() && after.keys()[j] == k;
                assert(after.keys()[j] == k);
                after.lemma_at(j);
                if j < n {
                    assert(before.keys()[j] == k);
                    before.lemma_at(j);
                    assert(k != key) by {
                        assert(before.keys().contains(k));
                    }
                }
            }
            assert(after@ =~= before@.insert(key, value));
            assert(after@ =~= old(self)@.insert(key, value));
        }
    }

    /// Closes all handles of an owner and returns how many there were.
    pub fn close_all(&mut self, owner: &str) -> (r: usize)
        ensures
            final(self)@ == owned_by_others(old(self)@, owner@),
            old(self)@.dom().finite(),
            old(self)@.dom().len() == final(self)@.dom().len() + r,
    {
        let ghost start = self@;
        proof {
            use_type_invariant(&*self);
            self.lemma_count();
        }
        let total: usize = self.entries.len();
        let mut closed: usize = 0;
        let mut i: usize = 0;
        assert(self@ =~= start);
        while i < self.entries.len()
            invariant
                i <= self.entries@.len(),
                closed + self.entries@.len() == total,
                forall|k: HandleKey|
                    #[trigger] self@.dom().contains(k) ==> start.dom().contains(k) && self@[k]
                        == start[k],
                forall|k: HandleKey|
                    #[trigger] start.dom().contains(k) && k.0 != owner@ ==> self@.dom().contains(k),
                forall|k: int| 0 <= k < i ==> (#[trigger] self.entries@[k]).owner@ != owner@,
            decreases self.entries@.len() - i,
        {
            if same_text(self.entries[i].owner.as_str(), owner) {
                proof {
                    use_type_invariant(&*self);
                }
                let ghost before = *self;
                let ghost key = (self.entries@[i as int].owner@, self.entries@[i as int].id);
                let mut held = HandleTable { entries: Vec::new() };
                std::mem::swap(&mut held, self);
                let HandleTable { mut entries } = held;
                let _ = entries.remove(i);
                proof {
                    assert(keys_of(entries@) =~= before.keys().remove(i as int));
                }
                *self = HandleTable { entries };
                proof {
                    lemma_removed(before, *self, i as int);
                    assert(self@ == before@.remove(key));
                }
                closed += 1;
            } else {
                i += 1;
            }
        }
        proof {
            use_type_invariant(&*self);
            assert forall|k: HandleKey| #[trigger] self@.dom().contains(k) implies k.0 != owner@ by {
                let j = choose|j: int| 0 <= j < self.keys().len() && self.keys()[j] == k;
                assert(self.entries@[j].owner@ == k.0);
            }
            assert(self@ =~= owned_by_others(start, owner@));
            self.lemma_count();
        }
        closed
    }
}

/// The handles of all owners but one.
pub open spec fn owned_by_others<T>(m: Map<HandleKey, T>, owner: Seq<char>) -> Map<HandleKey, T> {
    Map::new(|k: HandleKey| m.dom().contains(k) && k.0 != owner, |k: HandleKey| m[k])
}

proof fn lemma_removed<T>(before: HandleTable<T>, after: HandleTable<T>, i: int)
    requires
        before.wf(),
        0 <= i < before.entries@.len(),
        after.entries@ == before.entries@.remove(i),
    ensures
        after.wf(),
        after@ == before@.remove((before.entries@[i].owner@, before.entries@[i].id)),
{
    let key = (before.entries@[i].owner@, before.entries@[i].id);
    assert(after.keys() =~= before.keys().remove(i));
    assert(before.keys()[i] == key);
    assert forall|a: int, b: int|
        0 <= a < after.keys().len() && 0 <= b < after.keys().len() && a != b implies after.keys()[a]
        != after.keys()[b] by {
        let x = if a < i { a } else { a + 1 };
        let y = if b < i { b } else { b + 1 };
        assert(before.keys()[x] != before.keys()[y]);
    }
    assert forall|k: HandleKey| #[trigger] after@.dom().contains(k) <==> before@.remove(
        key,
    ).dom().contains(k) by {
        if after.keys().contains(k) {
            let j = choose|j: int| 0 <= j < after.keys().len() && after.keys()[j] == k;
            let x = if j < i { j } else { j + 1 };
            assert(before.keys()[x] == k);
            assert(before.keys()[x] != before.keys()[i]);
        }
        if before.keys().contains(k) && k != key {
            let j = choose|j: int| 0 <= j < before.keys().len() && before.keys()[j] == k;
            let x = if j < i { j } else { j - 1 };
            assert(after.keys()[x] == k);
        }
    }
    assert forall|k: HandleKey| #[trigger] after@.dom().contains(k) implies after@[k]
        == before@.remove(key)[k] by {
        let j = choose|j: int| 0 <= j < after.keys().len() && after.keys()[j] == k;
        assert(after.keys()[j] == k);
        after.lemma_at(j);
        let x = if j < i { j } else { j + 1 };
        assert(before.keys()[x] == k);
        before.lemma_at(x);
    }
    assert(after@ =~= before@.remove(key));
}

/// Closing all handles of an owner leaves none of them and touches no other owner.
pub proof fn law_release_is_complete_and_exact<T>(
    m: Map<HandleKey, T>,
    owner: Seq<char>,
    key: HandleKey,
)
    ensures
        owned_by_others(m, owner).dom().contains(key) <==> m.dom().contains(key) && key.0 != owner,
        owned_by_others(m, owner).dom().contains(key) ==> owned_by_others(m, owner)[key] == m[key],
        owned_by_others(owned_by_others(m, owner), owner) == owned_by_others(m, owner),
{
    assert(owned_by_others(owned_by_others(m, owner), owner) =~= owned_by_others(m, owner));
}

/// A handle that was opened is found and stands for what it was opened for, until it is closed;
/// closing it hands that out, once, and touches no other handle.
pub proof fn law_opened_handles_are_found<T>(
    table: &mut HandleTable<T>,
    owner: &str,
    id: u64,
    value: T,
    after: HandleTable<T>,
    found: Option<&T>,
    closing: &mut HandleTable<T>,
    closed: Option<T>,
    end: HandleTable<T>,
    gone: Option<&T>,
)
    requires
        call_ensures(HandleTable::<T>::open, (table, owner, id, value), ()),
        after == *final(table),
        call_ensures(HandleTable::<T>::get, (&after, owner, id), found),
        *old(closing) == after,
        call_ensures(HandleTable::<T>::close, (closing, owner, id), closed),
        end == *final(closing),
        call_ensures(HandleTable::<T>::get, (&end, owner, id), gone),
    ensures
        found matches Some(v) && *v == value,
        closed == Some(value),
        gone is None,
        forall|k: HandleKey|
            k != (owner@, id) && #[trigger] old(table)@.dom().contains(k) ==> end@.dom().contains(k)
                && end@[k] == old(table)@[k],
        forall|k: HandleKey|
            #[trigger] end@.dom().contains(k) ==> old(table)@.dom().contains(k),
{
}

} // verus!
