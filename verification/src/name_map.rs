//! A map keyed by names and listed in name order.
use crate::text::{same_text, text_before};
use crate::text;
use vstd::prelude::*;

verus! {

/// Values keyed by name, held in byte order of the names.
#[derive(Debug)]
pub struct NameMap<V> {
    names: Vec<String>,
    values: Vec<V>,
}

/// Names in strictly ascending order, hence without repetition.
pub open spec fn ascending(names: Seq<Seq<char>>) -> bool {
    forall|i: int, j: int|
        0 <= i < j < names.len() ==> text::text_lt(#[trigger] names[i], #[trigger] names[j])
}

/// The contents of texts.
pub open spec fn text_views(v: Seq<String>) -> Seq<Seq<char>> {
    Seq::new(v.len(), |i: int| v[i]@)
}

/// An ascending sequence names nothing twice.
pub proof fn lemma_ascending_distinct(names: Seq<Seq<char>>)
    requires
        ascending(names),
    ensures
        names.no_duplicates(),
{
    assert forall|i: int, j: int| 0 <= i < names.len() && 0 <= j < names.len() && i != j implies names[i]
        != names[j] by {
        if i < j {
            text::lemma_text_order(names[i], names[j], names[i]);
        } else {
            text::lemma_text_order(names[j], names[i], names[j]);
        }
    }
}

/// Whether names are those of a map, in order.
pub open spec fn lists<V>(names: Seq<Seq<char>>, m: Map<Seq<char>, V>) -> bool {
    &&& ascending(names)
    &&& forall|n: Seq<char>| #[trigger] names.contains(n) <==> m.dom().contains(n)
}

/// The names of a map can be listed in order in one way only.
pub proof fn law_names_have_one_listing<V>(a: Seq<Seq<char>>, b: Seq<Seq<char>>, m: Map<Seq<char>, V>)
    requires
        lists(a, m),
        lists(b, m),
    ensures
        a == b,
    decreases a.len() + b.len(),
{
    if a.len() == 0 {
        if b.len() > 0 {
            assert(b.contains(b[0]));
            assert(a.contains(b[0]));
        }
        assert(a =~= b);
    } else {
        let x = a.last();
        assert(a.contains(x));
        assert(b.contains(x));
        let j = choose|j: int| 0 <= j < b.len() && b[j] == x;
        let y = b.last();
        assert(b.contains(y));
        assert(a.contains(y));
        let i = choose|i: int| 0 <= i < a.len() && a[i] == y;
        assert(x == y) by {
            if i < a.len() - 1 && j < b.len() - 1 {
                assert(text::text_lt(a[i], a[a.len() - 1]));
                assert(text::text_lt(b[j], b[b.len() - 1]));
                text::lemma_text_order(x, y, x);
            }
        }
        lemma_ascending_distinct(a);
        lemma_ascending_distinct(b);
        let rest = m.remove(x);
        lemma_drop_last_lists(a, m);
        lemma_drop_last_lists(b, m);
        law_names_have_one_listing(a.drop_last(), b.drop_last(), rest);
        assert(a =~= a.drop_last().push(x));
        assert(b =~= b.drop_last().push(x));
    }
}

proof fn lemma_drop_last_lists<V>(names: Seq<Seq<char>>, m: Map<Seq<char>, V>)
    requires
        lists(names, m),
        names.len() > 0,
    ensures
        lists(names.drop_last(), m.remove(names.last())),
{
    lemma_ascending_distinct(names);
    let init = names.drop_last();
    assert forall|n: Seq<char>| #[trigger] init.contains(n) <==> m.remove(names.last()).dom().contains(
        n,
    ) by {
        if init.contains(n) {
            let i = choose|i: int| 0 <= i < init.len() && init[i] == n;
            assert(names[i] == n);
            assert(names.contains(n));
            assert(names[i] != names[names.len() - 1]);
        }
        if names.contains(n) && n != names.last() {
            let i = choose|i: int| 0 <= i < names.len() && names[i] == n;
            assert(init[i] == n);
        }
    }
}

impl<V> NameMap<V> {
    /// The names in order.
    pub closed spec fn keys(&self) -> Seq<Seq<char>> {
        text_views(self.names@)
    }

    /// The values, each at the position of its name.
    pub closed spec fn vals(&self) -> Seq<V> {
        self.values@
    }

    /// Every name once and in order, each with its value.
    #[verifier::type_invariant]
    pub closed spec fn wf(&self) -> bool {
        &&& self.names@.len() == self.values@.len()
        &&& ascending(text_views(self.names@))
    }

    /// The contents as a map.
    pub open spec fn view(&self) -> Map<Seq<char>, V> {
        Map::new(|k: Seq<char>| self.keys().contains(k), |k: Seq<char>| self.vals()[self.keys().index_of(k)])
    }

    /// How the ordered listing and the map relate.
    pub proof fn lemma_listing(&self)
        requires
            self.wf(),
        ensures
            ascending(self.keys()),
            self.keys().no_duplicates(),
            self.keys().len() == self.vals().len(),
            forall|i: int|
                0 <= i < self.keys().len() ==> self@.dom().contains(#[trigger] self.keys()[i])
                    && self@[self.keys()[i]] == self.vals()[i],
            forall|k: Seq<char>| #[trigger] self@.dom().contains(k) <==> self.keys().contains(k),
    {
        lemma_ascending_distinct(self.keys());
        assert forall|i: int| 0 <= i < self.keys().len() implies self@.dom().contains(
            #[trigger] self.keys()[i],
        ) && self@[self.keys()[i]] == self.vals()[i] by {
            assert(self.keys().contains(self.keys()[i]));
            let j = self.keys().index_of(self.keys()[i]);
            assert(0 <= j < self.keys().len() && self.keys()[j] == self.keys()[i]);
        }
    }

    /// An empty map.
    pub fn new() -> (r: Self)
        ensures
            r.keys() == Seq::<Seq<char>>::empty(),
            r.vals() == Seq::<V>::empty(),
            r@ == Map::<Seq<char>, V>::empty(),
    {
        let r = NameMap { names: Vec::new(), values: Vec::new() };
        assert(r.keys() =~= Seq::<Seq<char>>::empty());
        assert(r.vals() =~= Seq::<V>::empty());
        assert(r@ =~= Map::<Seq<char>, V>::empty());
        r
    }

    /// How many names are held.
    pub fn len(&self) -> (r: usize)
        ensures
            r == self.keys().len(),
            r == self.vals().len(),
            self@.dom().finite(),
            r == self@.dom().len(),
    {
        proof {
            use_type_invariant(self);
            self.lemma_listing();
            self.keys().unique_seq_to_set();
            vstd::seq_lib::seq_to_set_is_finite(self.keys());
            assert(self@.dom() =~= self.keys().to_set());
        }
        self.names.len()
    }

    /// Whether nothing is held.
    pub fn is_empty(&self) -> (r: bool)
        ensures
            r == (self.keys().len() == 0),
    {
        self.names.len() == 0
    }

    /// The name at a position of the listing.
    pub fn name_at(&self, i: usize) -> (r: &String)
        requires
            i < self.keys().len(),
        ensures
            r@ == self.keys()[i as int],
    {
        &self.names[i]
    }

    /// The value at a position of the listing.
    pub fn value_at(&self, i: usize) -> (r: &V)
        requires
            i < self.vals().len(),
        ensures
            *r == self.vals()[i as int],
    {
        &self.values[i]
    }

    /// Where a name stands, or where it would be inserted.
    fn locate(&self, name: &str) -> (r: (usize, bool))
        ensures
            r.0 <= self.keys().len(),
            r.1 ==> r.0 < self.keys().len() && self.keys()[r.0 as int] == name@,
            !r.1 ==> !self.keys().contains(name@),
            forall|k: int| 0 <= k < r.0 ==> text::text_lt(#[trigger] self.keys()[k], name@),
            !r.1 ==> forall|k: int|
                r.0 <= k < self.keys().len() ==> text::text_lt(name@, #[trigger] self.keys()[k]),
    {
        proof {
            use_type_invariant(self);
        }
        let mut i: usize = 0;
        while i < self.names.len() && text_before(self.names[i].as_str(), name)
            invariant
                i <= self.names@.len(),
                self.wf(),
                forall|k: int| 0 <= k < i ==> text::text_lt(#[trigger] self.keys()[k], name@),
            decreases self.names@.len() - i,
        {
            assert(self.keys()[i as int] == self.names@[i as int]@);
            i += 1;
        }
        if i < self.names.len() && same_text(self.names[i].as_str(), name) {
            assert(self.keys()[i as int] == self.names@[i as int]@);
            return (i, true);
        }
        proof {
            assert forall|k: int| i <= k < self.keys().len() implies text::text_lt(
                name@,
                #[trigger] self.keys()[k],
            ) by {
                assert(self.keys()[i as int] == self.names@[i as int]@);
                text::lemma_text_order(self.keys()[i as int], name@, name@);
                if k > i {
                    text::lemma_text_order(name@, self.keys()[i as int], self.keys()[k]);
                }
            }
            if self.keys().contains(name@) {
                let k = choose|k: int| 0 <= k < self.keys().len() && self.keys()[k] == name@;
                text::lemma_text_order(name@, name@, name@);
                assert(self.keys()[k] == name@);
            }
        }
        (i, false)
    }

    /// Whether a name is held.
    pub fn contains(&self, name: &str) -> (r: bool)
        ensures
            r == self@.dom().contains(name@),
    {
        let (i, found) = self.locate(name);
        proof {
            if found {
                assert(self.keys()[i as int] == name@);
            }
        }
        found
    }

    /// The value of a name.
    pub fn get(&self, name: &str) -> (r: Option<&V>)
        ensures
            r is Some <==> self@.dom().contains(name@),
            r matches Some(v) ==> *v == self@[name@],
    {
        proof {
            use_type_invariant(self);
        }
        let (i, found) = self.locate(name);
        proof {
            self.lemma_listing();
        }
        if found {
            assert(self.keys()[i as int] == name@);
            Some(&self.values[i])
        } else {
            None
        }
    }

    /// Position of a name in the listing.
    pub fn position(&self, name: &str) -> (r: Option<usize>)
        ensures
            r is Some <==> self@.dom().contains(name@),
            r matches Some(i) ==> i < self.keys().len() && self.keys()[i as int] == name@
                && self.vals()[i as int] == self@[name@],
    {
        proof {
            use_type_invariant(self);
        }
        let (i, found) = self.locate(name);
        proof {
            self.lemma_listing();
        }
        if found {
            assert(self.keys()[i as int] == name@);
            Some(i)
        } else {
            None
        }
    }

    /// Sets the value of a name and returns the value it replaces.
    pub fn insert(&mut self, name: String, value: V) -> (r: Option<V>)
        ensures
            final(self)@ == old(self)@.insert(name@, value),
            r is Some <==> old(self)@.dom().contains(name@),
            r matches Some(v) ==> v == old(self)@[name@],
            old(self)@.dom().contains(name@) ==> final(self).keys() == old(self).keys(),
            !old(self)@.dom().contains(name@) ==> final(self).keys().len() == old(self).keys().len() + 1,
    {
        proof {
            use_type_invariant(&*self);
        }
        let (i, found) = self.locate(name.as_str());
        proof {
            self.lemma_listing();
        }
        let ghost before = *self;
        let ghost key = name@;
        let mut held = NameMap { names: Vec::new(), values: Vec::new() };
        std::mem::swap(&mut held, self);
        let NameMap { mut names, mut values } = held;
        if found {
            assert(before.keys()[i as int] == key);
            let mut slot = value;
            std::mem::swap(&mut slot, &mut values[i]);
            *self = NameMap { names, values };
            proof {
                assert(self.keys() =~= before.keys());
                self.lemma_listing();
                assert forall|k: Seq<char>| self@.dom().contains(k) implies #[trigger] self@[k]
                    == before@.insert(key, value)[k] by {
                    let j = choose|j: int| 0 <= j < self.keys().len() && self.keys()[j] == k;
                    assert(self.keys()[j] == k);
                    assert(before.keys()[j] == k);
                    if j == i {
                        assert(k == key);
                    } else {
                        assert(k != key);
                    }
                }
                assert(self@ =~= before@.insert(key, value));
            }
            Some(slot)
        } else {
            names.insert(i, name);
            values.insert(i, value);
            proof {
                let keys = text_views(names@);
                assert(keys =~= before.keys().insert(i as int, key));
                assert forall|a: int, b: int| 0 <= a < b < keys.len() implies text::text_lt(
                    #[trigger] keys[a],
                    #[trigger] keys[b],
                ) by {
                    let x = if a < i { a } else { a - 1 };
                    let y = if b < i { b } else { b - 1 };
                    if a == i {
                        assert(keys[b] == before.keys()[y]);
                    } else if b == i {
                        assert(keys[a] == before.keys()[x]);
                    } else {
                        assert(keys[a] == before.keys()[x]);
                        assert(keys[b] == before.keys()[y]);
                    }
                }
            }
            *self = NameMap { names, values };
            proof {
                self.lemma_listing();
                assert(self.keys() =~= before.keys().insert(i as int, key));
                assert(self.vals() =~= before.vals().insert(i as int, value));
                assert forall|k: Seq<char>| #[trigger] self@.dom().contains(k) <==> before@.insert(
                    key,
                    value,
                ).dom().contains(k) by {
                    if self.keys().contains(k) {
                        let j = choose|j: int| 0 <= j < self.keys().len() && self.keys()[j] == k;
                        if j < i {
                            assert(before.keys()[j] == k);
                        } else if j > i {
                            assert(before.keys()[j - 1] == k);
                        }
                    }
                    if before.keys().contains(k) {
                        let j = choose|j: int| 0 <= j < before.keys().len() && before.keys()[j] == k;
                        if j < i {
                            assert(self.keys()[j] == k);
                        } else {
                            assert(self.keys()[j + 1] == k);
                        }
                    }
                    if k == key {
                        assert(self.keys()[i as int] == k);
                    }
                }
                assert forall|k: Seq<char>| self@.dom().contains(k) implies #[trigger] self@[k]
                    == before@.insert(key, value)[k] by {
                    let j = choose|j: int| 0 <= j < self.keys().len() && self.keys()[j] == k;
                    assert(self.keys()[j] == k);
                    if j < i {
                        assert(before.keys()[j] == k);
                    } else if j > i {
                        assert(before.keys()[j - 1] == k);
                    }
                }
                assert(self@ =~= before@.insert(key, value));
            }
            None
        }
    }

    /// Removes a name and returns its value.
    pub fn remove(&mut self, name: &str) -> (r: Option<V>)
        ensures
            final(self)@ == old(self)@.remove(name@),
            r is Some <==> old(self)@.dom().contains(name@),
            r matches Some(v) ==> v == old(self)@[name@],
            !old(self)@.dom().contains(name@) ==> final(self).keys() == old(self).keys(),
    {
        proof {
            use_type_invariant(&*self);
        }
        let (i, found) = self.locate(name);
        proof {
            self.lemma_listing();
        }
        let ghost before = *self;
        if !found {
            assert(self@ =~= before@.remove(name@));
            return None;
        }
        assert(before.keys()[i as int] == name@);
        let mut held = NameMap { names: Vec::new(), values: Vec::new() };
        std::mem::swap(&mut held, self);
        let NameMap { mut names, mut values } = held;
        names.remove(i);
        let old_value = values.remove(i);
        proof {
            let keys = text_views(names@);
            assert(keys =~= before.keys().remove(i as int));
            assert forall|a: int, b: int| 0 <= a < b < keys.len() implies text::text_lt(
                #[trigger] keys[a],
                #[trigger] keys[b],
            ) by {
                let x = if a < i { a } else { a + 1 };
                let y = if b < i { b } else { b + 1 };
                assert(keys[a] == before.keys()[x]);
                assert(keys[b] == before.keys()[y]);
            }
        }
        *self = NameMap { names, values };
        proof {
            self.lemma_listing();
            assert(self.keys() =~= before.keys().remove(i as int));
            assert(self.vals() =~= before.vals().remove(i as int));
            assert forall|k: Seq<char>| #[trigger] self@.dom().contains(k) <==> before@.remove(
                name@,
            ).dom().contains(k) by {
                if self.keys().contains(k) {
                    let j = choose|j: int| 0 <= j < self.keys().len() && self.keys()[j] == k;
                    let x = if j < i { j } else { j + 1 };
                    assert(before.keys()[x] == k);
                }
                if before.keys().contains(k) && k != name@ {
                    let j = choose|j: int| 0 <= j < before.keys().len() && before.keys()[j] == k;
                    let x = if j < i { j } else { j - 1 };
                    assert(self.keys()[x] == k);
                }
            }
            assert forall|k: Seq<char>| self@.dom().contains(k) implies #[trigger] self@[k]
                == before@.remove(name@)[k] by {
                let j = choose|j: int| 0 <= j < self.keys().len() && self.keys()[j] == k;
                assert(self.keys()[j] == k);
                let x = if j < i { j } else { j + 1 };
                assert(before.keys()[x] == k);
            }
            assert(self@ =~= before@.remove(name@));
        }
        Some(old_value)
    }

    /// The names in order.
    pub fn names(&self) -> (r: Vec<String>)
        ensures
            text_views(r@) == self.keys(),
            ascending(text_views(r@)),
            forall|k: Seq<char>| #[trigger] self@.dom().contains(k) <==> text_views(r@).contains(k),
    {
        proof {
            use_type_invariant(self);
            self.lemma_listing();
        }
        let mut out: Vec<String> = Vec::new();
        let mut i: usize = 0;
        while i < self.names.len()
            invariant
                i <= self.names@.len(),
                out@ == self.names@.take(i as int),
            decreases self.names@.len() - i,
        {
            out.push(self.names[i].clone());
            assert(self.names@.take(i + 1) =~= self.names@.take(i as int).push(self.names@[i as int]));
            i += 1;
        }
        assert(out@ =~= self.names@);
        out
    }
}

/// What was put under a name is found there, until it is taken out; every other name keeps what it
/// has.
pub proof fn law_names_keep_what_they_were_given<V>(
    map: &mut NameMap<V>,
    name: String,
    value: V,
    earlier: Option<V>,
    after: NameMap<V>,
    text: &str,
    found: Option<&V>,
    taking: &mut NameMap<V>,
    taken: Option<V>,
    end: NameMap<V>,
    gone: Option<&V>,
)
    requires
        text@ == name@,
        call_ensures(NameMap::<V>::insert, (map, name, value), earlier),
        after == *final(map),
        call_ensures(NameMap::<V>::get, (&after, text), found),
        *old(taking) == after,
        call_ensures(NameMap::<V>::remove, (taking, text), taken),
        end == *final(taking),
        call_ensures(NameMap::<V>::get, (&end, text), gone),
    ensures
        found matches Some(v) && *v == value,
        taken == Some(value),
        gone is None,
        earlier is Some <==> old(map)@.dom().contains(name@),
        forall|k: Seq<char>|
            k != name@ && #[trigger] old(map)@.dom().contains(k) ==> end@.dom().contains(k) && end@[k]
                == old(map)@[k],
        forall|k: Seq<char>|
            #[trigger] end@.dom().contains(k) ==> old(map)@.dom().contains(k),
{
}

} // verus!
