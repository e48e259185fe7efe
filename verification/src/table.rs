//! Tables keyed by text.
//!
//! A `Table` finds its entries through a `DashMap` index; a `Dict` is an association list.
//! Both hold at most one value for each key.

use dashmap::DashMap;
use dashmap::DashSet;
use vstd::prelude::*;

use crate::store::{
    index_clear, index_contains, index_get, index_insert, index_new, index_of, index_remove,
    set_contains, set_insert, set_items, set_len, set_new, set_of, set_remove,
};
use crate::model::Duplicate;
use crate::text::{same, texts};

verus! {

/// A map from text to `T`: an index gives the position of each key, and the entries stand in
/// two vectors, key by key.
pub struct Table<T> {
    index: DashMap<String, usize>,
    keys: Vec<String>,
    values: Vec<T>,
}

impl<T: View> View for Table<T> {
    type V = Map<Seq<char>, T::V>;

    closed spec fn view(&self) -> Map<Seq<char>, T::V> {
        Map::new(
            |k: Seq<char>| index_of(self.index).contains_key(k),
            |k: Seq<char>| self.values@[index_of(self.index)[k] as int]@,
        )
    }
}

impl<T> Table<T> {
    /// Each key stands once, and the index gives its position.
    #[verifier::type_invariant]
    spec fn indexed(self) -> bool {
        &&& self.keys@.len() == self.values@.len()
        &&& forall|i: int|
            0 <= i < self.keys@.len() ==> index_of(self.index).contains_key(
                (#[trigger] self.keys@[i])@,
            ) && index_of(self.index)[self.keys@[i]@] == i
        &&& forall|k: Seq<char>| #[trigger]
            index_of(self.index).contains_key(k) ==> index_of(self.index)[k] < self.keys@.len()
                && self.keys@[index_of(self.index)[k] as int]@ == k
    }
}

impl<T: View> Table<T> {
    /// The keys in the order in which the table walks them.
    pub closed spec fn order(&self) -> Seq<Seq<char>> {
        texts(self.keys@)
    }

    /// A table without entries.
    pub fn new() -> (t: Self)
        ensures
            t@ == Map::<Seq<char>, T::V>::empty(),
    {
        let t = Table { index: index_new(), keys: Vec::new(), values: Vec::new() };
        assert(t@ =~= Map::<Seq<char>, T::V>::empty());
        t
    }

    /// The number of entries.
    pub fn len(&self) -> (r: usize)
        ensures
            r == self.order().len(),
            r == self@.dom().len(),
            self@.dom().finite(),
            self.order().no_duplicates(),
            self.order().to_set() == self@.dom(),
    {
        proof {
            use_type_invariant(&*self);
            let order = self.order();
            assert forall|i: int, j: int| 0 <= i < order.len() && 0 <= j < order.len() && i != j
                implies order[i] != order[j] by {
                assert(order[i] == self.keys@[i]@ && order[j] == self.keys@[j]@);
            }
            assert forall|k: Seq<char>| order.to_set().contains(k) == self@.dom().contains(k) by {
                if order.contains(k) {
                    let i = choose|i: int| 0 <= i < order.len() && order[i] == k;
                    assert(self.keys@[i]@ == k);
                }
                if self@.dom().contains(k) {
                    let i = index_of(self.index)[k] as int;
                    assert(order[i] == k);
                }
            }
            assert(order.to_set() =~= self@.dom());
            order.unique_seq_to_set();
        }
        self.keys.len()
    }

    /// Whether there is an entry under `key`.
    pub fn contains_key(&self, key: &str) -> (r: bool)
        ensures
            r == self@.contains_key(key@),
    {
        index_contains(&self.index, key)
    }

    /// The value under `key`.
    pub fn get(&self, key: &str) -> (r: Option<&T>)
        ensures
            match r {
                Some(v) => self@.contains_key(key@) && v@ == self@[key@],
                None => !self@.contains_key(key@),
            },
    {
        proof {
            use_type_invariant(&*self);
        }
        match index_get(&self.index, key) {
            Some(at) => Some(&self.values[at]),
            None => None,
        }
    }

    /// The value under `key`, to be changed in place.
    pub fn get_mut(&mut self, key: &str) -> (r: Option<&mut T>)
        ensures
            match r {
                Some(v) => {
                    &&& old(self)@.contains_key(key@)
                    &&& v@ == old(self)@[key@]
                    &&& final(self)@ == old(self)@.insert(key@, final(v)@)
                },
                None => !old(self)@.contains_key(key@) && final(self)@ == old(self)@,
            },
    {
        proof {
            use_type_invariant(&*self);
        }
        match index_get(&self.index, key) {
            Some(at) => Some(&mut self.values[at]),
            None => None,
        }
    }

    /// The key of the entry at position `at`.
    pub fn key_at(&self, at: usize) -> (r: &String)
        requires
            at < self.order().len(),
        ensures
            r@ == self.order()[at as int],
            self@.contains_key(r@),
    {
        proof {
            use_type_invariant(&*self);
        }
        &self.keys[at]
    }

    /// The value of the entry at position `at`.
    pub fn value_at(&self, at: usize) -> (r: &T)
        requires
            at < self.order().len(),
        ensures
            self@.contains_key(self.order()[at as int]),
            r@ == self@[self.order()[at as int]],
    {
        proof {
            use_type_invariant(&*self);
        }
        assert(self.order()[at as int] == self.keys@[at as int]@);
        &self.values[at]
    }

    /// Every key once.
    pub fn keys(&self) -> (r: Vec<String>)
        ensures
            texts(r@) == self.order(),
            texts(r@).no_duplicates(),
            texts(r@).to_set() == self@.dom(),
    {
        let n: usize = self.len();
        let mut r: Vec<String> = Vec::new();
        let mut i: usize = 0;
        while i < n
            invariant
                i <= n,
                n == self.order().len(),
                texts(r@) == self.order().take(i as int),
            decreases n - i,
        {
            let ghost before = r@;
            r.push(self.key_at(i).clone());
            proof {
                assert(texts(r@) =~= texts(before).push(self.order()[i as int]));
                assert(self.order().take(i + 1) =~= self.order().take(i as int).push(
                    self.order()[i as int],
                ));
            }
            i = i + 1;
        }
        assert(self.order().take(i as int) =~= self.order());
        r
    }

    /// Puts `value` under `key`, in place of what was there.
    pub fn insert(&mut self, key: String, value: T)
        ensures
            final(self)@ == old(self)@.insert(key@, value@),
    {
        proof {
            use_type_invariant(&*self);
        }
        match index_get(&self.index, key.as_str()) {
            Some(at) => {
                self.values[at] = value;
                assert(self@ =~= old(self)@.insert(key@, value@));
            },
            None => {
                let mut whole = Table::new();
                std::mem::swap(self, &mut whole);
                let ghost before = whole;
                let Table { mut index, mut keys, mut values } = whole;
                index_insert(&mut index, key.clone(), keys.len());
                keys.push(key);
                values.push(value);
                let t = Table { index, keys, values };
                assert(t@ =~= before@.insert(key@, value@));
                *self = t;
            },
        }
    }

    /// Takes out the entry under `key`.
    pub fn remove(&mut self, key: &str) -> (r: Option<T>)
        ensures
            final(self)@ == old(self)@.remove(key@),
            match r {
                Some(v) => old(self)@.contains_key(key@) && v@ == old(self)@[key@],
                None => !old(self)@.contains_key(key@),
            },
    {
        proof {
            use_type_invariant(&*self);
        }
        let mut whole = Table::new();
        std::mem::swap(self, &mut whole);
        let ghost before = whole;
        let Table { mut index, mut keys, mut values } = whole;
        match index_remove(&mut index, key) {
            Some(at) => {
                let last: usize = keys.len() - 1;
                let value = values.swap_remove(at);
                keys.swap_remove(at);
                if at < last {
                    index_insert(&mut index, keys[at].clone(), at);
                }
                let t = Table { index, keys, values };
                assert(t@ =~= before@.remove(key@));
                *self = t;
                Some(value)
            },
            None => {
                let t = Table { index, keys, values };
                assert(t@ =~= before@.remove(key@));
                *self = t;
                None
            },
        }
    }

    /// Takes out every entry.
    pub fn clear(&mut self)
        ensures
            final(self)@ == Map::<Seq<char>, T::V>::empty(),
    {
        let mut whole = Table::new();
        std::mem::swap(self, &mut whole);
        let Table { mut index, mut keys, mut values } = whole;
        index_clear(&mut index);
        keys.clear();
        values.clear();
        let t = Table { index, keys, values };
        assert(t@ =~= Map::<Seq<char>, T::V>::empty());
        *self = t;
    }
}


/// `order` names each element of `names` once.
pub open spec fn named_order(order: Seq<Seq<char>>, names: Set<Seq<char>>) -> bool {
    order.no_duplicates() && order.to_set() == names
}

/// What a sequence holds after one more element.
pub proof fn lemma_push_contains<A>(s: Seq<A>, a: A, k: A)
    ensures
        s.push(a).contains(k) <==> (s.contains(k) || k == a),
{
    if s.contains(k) {
        let j = choose|j: int| 0 <= j < s.len() && s[j] == k;
        assert(s.push(a)[j] == k);
    }
    assert(s.push(a)[s.len() as int] == a);
}

/// A map from text to `T` as two vectors, key by key, for small maps.
pub struct Dict<T> {
    keys: Vec<String>,
    values: Vec<T>,
}

/// The first position at which `key` stands among `keys`, which hold it.
spec fn position(keys: Seq<String>, key: Seq<char>) -> int {
    choose|i: int| 0 <= i < keys.len() && (#[trigger] keys[i])@ == key
}

impl<T: View> View for Dict<T> {
    type V = Map<Seq<char>, T::V>;

    closed spec fn view(&self) -> Map<Seq<char>, T::V> {
        Map::new(
            |k: Seq<char>| texts(self.keys@).contains(k),
            |k: Seq<char>| self.values@[position(self.keys@, k)]@,
        )
    }
}

impl<T> Dict<T> {
    /// Each key stands once.
    #[verifier::type_invariant]
    spec fn distinct(self) -> bool {
        &&& self.keys@.len() == self.values@.len()
        &&& forall|i: int, j: int|
            0 <= i < self.keys@.len() && 0 <= j < self.keys@.len() && i != j ==> (
            #[trigger] self.keys@[i])@ != (#[trigger] self.keys@[j])@
    }
}

impl<T: View> Dict<T> {
    /// The keys in the order in which they were put in.
    pub closed spec fn order(&self) -> Seq<Seq<char>> {
        texts(self.keys@)
    }

    /// What a key that stands at `i` is mapped to.
    proof fn lemma_at(self, i: int)
        requires
            self.distinct(),
            0 <= i < self.keys@.len(),
        ensures
            self@.contains_key(self.keys@[i]@),
            self@[self.keys@[i]@] == self.values@[i]@,
    {
        assert(texts(self.keys@)[i] == self.keys@[i]@);
        assert(self.keys@[i]@ == self.keys@[i]@);
    }

    /// Where the keys are found.
    proof fn lemma_dom(self)
        requires
            self.distinct(),
        ensures
            forall|k: Seq<char>| #[trigger]
                self@.contains_key(k) ==> 0 <= position(self.keys@, k) < self.keys@.len()
                    && self.keys@[position(self.keys@, k)]@ == k && self@[k]
                    == self.values@[position(self.keys@, k)]@,
    {
        assert forall|k: Seq<char>| #[trigger] self@.contains_key(k) implies 0 <= position(
            self.keys@,
            k,
        ) < self.keys@.len() && self.keys@[position(self.keys@, k)]@ == k && self@[k]
            == self.values@[position(self.keys@, k)]@ by {
            let i = choose|i: int|
                0 <= i < texts(self.keys@).len() && texts(self.keys@)[i] == k;
            assert(self.keys@[i]@ == k);
        }
    }

    /// A dictionary without entries.
    pub fn new() -> (d: Self)
        ensures
            d@ == Map::<Seq<char>, T::V>::empty(),
            d.order() == Seq::<Seq<char>>::empty(),
    {
        let d = Dict { keys: Vec::new(), values: Vec::new() };
        assert(d@ =~= Map::<Seq<char>, T::V>::empty());
        d
    }

    /// The number of entries.
    pub fn len(&self) -> (r: usize)
        ensures
            r == self.order().len(),
            r == self@.dom().len(),
            self@.dom().finite(),
            self.order().no_duplicates(),
            self.order().to_set() == self@.dom(),
    {
        proof {
            use_type_invariant(&*self);
            let order = self.order();
            assert forall|i: int, j: int| 0 <= i < order.len() && 0 <= j < order.len() && i != j
                implies order[i] != order[j] by {
                assert(order[i] == self.keys@[i]@ && order[j] == self.keys@[j]@);
            }
            assert(order.to_set() =~= self@.dom());
            order.unique_seq_to_set();
        }
        self.keys.len()
    }

    /// The position of `key`, or the number of entries where there is none.
    fn find(&self, key: &str) -> (r: usize)
        ensures
            r <= self.keys@.len(),
            r < self.keys@.len() ==> self.keys@[r as int]@ == key@,
            r == self.keys@.len() ==> !self@.contains_key(key@),
    {
        proof {
            use_type_invariant(&*self);
        }
        let mut i: usize = 0;
        while i < self.keys.len()
            invariant
                i <= self.keys@.len(),
                forall|j: int| 0 <= j < i ==> (#[trigger] self.keys@[j])@ != key@,
            decreases self.keys@.len() - i,
        {
            if same(self.keys[i].as_str(), key) {
                return i;
            }
            i = i + 1;
        }
        proof {
            self.lemma_dom();
        }
        i
    }

    /// Whether there is an entry under `key`.
    pub fn contains_key(&self, key: &str) -> (r: bool)
        ensures
            r == self@.contains_key(key@),
    {
        let at: usize = self.find(key);
        proof {
            use_type_invariant(&*self);
            if at < self.keys@.len() {
                self.lemma_at(at as int);
            }
        }
        at < self.keys.len()
    }

    /// The value under `key`.
    pub fn get(&self, key: &str) -> (r: Option<&T>)
        ensures
            match r {
                Some(v) => self@.contains_key(key@) && v@ == self@[key@],
                None => !self@.contains_key(key@),
            },
    {
        let at: usize = self.find(key);
        proof {
            use_type_invariant(&*self);
            if at < self.keys@.len() {
                self.lemma_at(at as int);
            }
        }
        if at < self.keys.len() {
            Some(&self.values[at])
        } else {
            None
        }
    }

    /// The value under `key`, to be changed in place.
    pub fn get_mut(&mut self, key: &str) -> (r: Option<&mut T>)
        ensures
            match r {
                Some(v) => {
                    &&& old(self)@.contains_key(key@)
                    &&& v@ == old(self)@[key@]
                    &&& final(self)@ == old(self)@.insert(key@, final(v)@)
                    &&& final(self).order() == old(self).order()
                },
                None => !old(self)@.contains_key(key@) && *final(self) == *old(self),
            },
    {
        let at: usize = self.find(key);
        proof {
            use_type_invariant(&*self);
            self.lemma_dom();
            if at < self.keys@.len() {
                self.lemma_at(at as int);
            }
        }
        if at < self.keys.len() {
            Some(&mut self.values[at])
        } else {
            None
        }
    }

    /// The key of the entry at position `at`.
    pub fn key_at(&self, at: usize) -> (r: &String)
        requires
            at < self.order().len(),
        ensures
            r@ == self.order()[at as int],
            self@.contains_key(r@),
    {
        proof {
            use_type_invariant(&*self);
            self.lemma_at(at as int);
        }
        &self.keys[at]
    }

    /// The value of the entry at position `at`.
    pub fn value_at(&self, at: usize) -> (r: &T)
        requires
            at < self.order().len(),
        ensures
            self@.contains_key(self.order()[at as int]),
            r@ == self@[self.order()[at as int]],
    {
        proof {
            use_type_invariant(&*self);
            self.lemma_at(at as int);
        }
        &self.values[at]
    }

    /// Puts `value` under `key`, in place of what was there.
    pub fn insert(&mut self, key: String, value: T)
        ensures
            final(self)@ == old(self)@.insert(key@, value@),
            final(self).order() == if old(self)@.contains_key(key@) {
                old(self).order()
            } else {
                old(self).order().push(key@)
            },
    {
        let at: usize = self.find(key.as_str());
        let mut whole = Dict::new();
        std::mem::swap(self, &mut whole);
        let ghost before = whole;
        proof {
            use_type_invariant(&whole);
            before.lemma_dom();
        }
        let Dict { mut keys, mut values } = whole;
        if at < keys.len() {
            proof {
                before.lemma_at(at as int);
            }
            values[at] = value;
            let d = Dict { keys, values };
            proof {
                d.lemma_dom();
                d.lemma_at(at as int);
                assert forall|k: Seq<char>| #[trigger] d@.contains_key(k) && k != key@ implies d@[k]
                    == before@[k] by {
                    before.lemma_at(position(d.keys@, k));
                }
            }
            assert(d@ =~= before@.insert(key@, value@));
            *self = d;
        } else {
            let ghost name = key@;
            proof {
                assert forall|i: int| 0 <= i < before.keys@.len() implies (
                #[trigger] before.keys@[i])@ != name by {
                    before.lemma_at(i);
                }
            }
            keys.push(key);
            values.push(value);
            let d = Dict { keys, values };
            proof {
                d.lemma_dom();
                d.lemma_at(at as int);
                assert(d.order() =~= before.order().push(name));
                assert forall|k: Seq<char>| before@.contains_key(k) implies #[trigger]
                    d@.contains_key(k) && d@[k] == before@[k] by {
                    let i = position(before.keys@, k);
                    before.lemma_at(i);
                    d.lemma_at(i);
                    assert(d.keys@[i] == before.keys@[i]);
                }
                assert forall|k: Seq<char>| #[trigger] d@.contains_key(k) && k != name implies
                    before@.contains_key(k) by {
                    let i = position(d.keys@, k);
                    assert(before.keys@[i] == d.keys@[i]);
                    before.lemma_at(i);
                }
            }
            assert(d@ =~= before@.insert(name, value@));
            *self = d;
        }
    }

    /// Takes out the entry under `key`.
    pub fn remove(&mut self, key: &str) -> (r: Option<T>)
        ensures
            final(self)@ == old(self)@.remove(key@),
            match r {
                Some(v) => old(self)@.contains_key(key@) && v@ == old(self)@[key@],
                None => !old(self)@.contains_key(key@),
            },
    {
        let at: usize = self.find(key);
        if at == self.keys.len() {
            assert(self@ =~= old(self)@.remove(key@));
            return None;
        }
        let mut whole = Dict::new();
        std::mem::swap(self, &mut whole);
        let ghost before = whole;
        proof {
            use_type_invariant(&whole);
            before.lemma_dom();
            before.lemma_at(at as int);
        }
        let Dict { mut keys, mut values } = whole;
        let value = values.remove(at);
        keys.remove(at);
        let d = Dict { keys, values };
        proof {
            d.lemma_dom();
            assert forall|k: Seq<char>| before@.contains_key(k) && k != key@ implies #[trigger]
                d@.contains_key(k) && d@[k] == before@[k] by {
                let i = position(before.keys@, k);
                let j = if i < at { i } else { i - 1 };
                before.lemma_at(i);
                assert(d.keys@[j] == before.keys@[i]);
                d.lemma_at(j);
            }
            assert forall|k: Seq<char>| #[trigger] d@.contains_key(k) implies before@.contains_key(k)
                && k != key@ by {
                let j = position(d.keys@, k);
                let i = if j < at { j } else { j + 1 };
                assert(d.keys@[j] == before.keys@[i]);
                before.lemma_at(i);
            }
        }
        assert(d@ =~= before@.remove(key@));
        *self = d;
        Some(value)
    }
}

impl<T: Duplicate> Duplicate for Dict<T> {
    fn duplicate(&self) -> (r: Self) {
        let n: usize = self.len();
        let mut r: Dict<T> = Dict::new();
        let mut i: usize = 0;
        while i < n
            invariant
                i <= n,
                n == self.order().len(),
                self.order().no_duplicates(),
                self.order().to_set() == self@.dom(),
                forall|k: Seq<char>| #[trigger]
                    r@.contains_key(k) <==> self.order().take(i as int).contains(k),
                forall|k: Seq<char>| #[trigger] r@.contains_key(k) ==> r@[k] == self@[k],
            decreases n - i,
        {
            let key = self.key_at(i);
            let value = self.value_at(i);
            proof {
                let order = self.order();
                assert(order.take(i + 1) =~= order.take(i as int).push(order[i as int]));
                assert forall|k: Seq<char>|
                    order.take(i + 1).contains(k) <==> (order.take(i as int).contains(k) || k
                        == order[i as int]) by {
                    lemma_push_contains(order.take(i as int), order[i as int], k);
                }
            }
            r.insert(key.clone(), value.duplicate());
            i = i + 1;
        }
        assert(self.order().take(i as int) =~= self.order());
        assert(r@ =~= self@) by {
            assert forall|k: Seq<char>| r@.contains_key(k) <==> self@.contains_key(k) by {
                assert(self.order().to_set().contains(k) <==> self.order().contains(k));
                assert(self@.dom().contains(k) <==> self@.contains_key(k));
            }
        }
        r
    }
}

/// A set of names.
pub struct NameSet {
    names: DashSet<String>,
}

impl View for NameSet {
    type V = Set<Seq<char>>;

    closed spec fn view(&self) -> Set<Seq<char>> {
        set_of(self.names)
    }
}

impl NameSet {
    /// A set without names.
    pub fn new() -> (s: Self)
        ensures
            s@ == Set::<Seq<char>>::empty(),
    {
        NameSet { names: set_new() }
    }

    /// Puts `name` in, and says whether it was absent before.
    pub fn insert(&mut self, name: String) -> (r: bool)
        ensures
            final(self)@ == old(self)@.insert(name@),
            r == !old(self)@.contains(name@),
    {
        set_insert(&mut self.names, name)
    }

    /// Takes `name` out, and says whether it was there.
    pub fn remove(&mut self, name: &str) -> (r: bool)
        ensures
            final(self)@ == old(self)@.remove(name@),
            r == old(self)@.contains(name@),
    {
        set_remove(&mut self.names, name)
    }

    /// Whether `name` is in the set.
    pub fn contains(&self, name: &str) -> (r: bool)
        ensures
            r == self@.contains(name@),
    {
        set_contains(&self.names, name)
    }

    /// The number of names.
    pub fn len(&self) -> (r: usize)
        ensures
            r == self@.len(),
            self@.finite(),
    {
        set_len(&self.names)
    }

    /// Whether there are no names.
    pub fn is_empty(&self) -> (r: bool)
        ensures
            r == (self@ == Set::<Seq<char>>::empty()),
    {
        let n: usize = set_len(&self.names);
        proof {
            if n == 0 {
                assert(self@ =~= Set::<Seq<char>>::empty()) by {
                    assert forall|k: Seq<char>| !self@.contains(k) by {
                        if self@.contains(k) {
                            vstd::set_lib::lemma_set_empty_equivalency_len(self@);
                        }
                    }
                }
            }
        }
        n == 0
    }

    /// Every name once, in no particular order.
    pub fn items(&self) -> (r: Vec<String>)
        ensures
            texts(r@).no_duplicates(),
            texts(r@).to_set() == self@,
    {
        set_items(&self.names)
    }

    /// A set with the same names.
    pub fn copy(&self) -> (r: NameSet)
        ensures
            r@ == self@,
    {
        let items = self.items();
        let mut r = NameSet::new();
        let mut i: usize = 0;
        while i < items.len()
            invariant
                i <= items@.len(),
                r@ == texts(items@).take(i as int).to_set(),
            decreases items@.len() - i,
        {
            assert(texts(items@).take(i + 1).to_set() =~= texts(items@).take(i as int).to_set().insert(
                items@[i as int]@,
            )) by {
                let a = texts(items@).take(i as int);
                let b = texts(items@).take(i + 1);
                assert(b =~= a.push(items@[i as int]@));
                assert forall|k: Seq<char>| b.contains(k) == (a.contains(k) || k == items@[i as int]@) by {
                    if a.contains(k) {
                        let j = choose|j: int| 0 <= j < a.len() && a[j] == k;
                        assert(b[j] == k);
                    }
                    assert(b[i as int] == items@[i as int]@);
                }
            }
            r.insert(items[i].clone());
            i = i + 1;
        }
        assert(texts(items@).take(i as int) =~= texts(items@));
        r
    }
}

} // verus!
