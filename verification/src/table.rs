//! A map from text keys to values, walked in the order in which the keys came in.

use crate::text;
use std::fmt;
use vstd::prelude::*;

verus! {

/// Keys and values side by side.
struct Columns<V> {
    keys: Vec<String>,
    values: Vec<V>,
}

/// A map from text keys to values. No key occurs twice, and a key that is there
/// already keeps its place when its value is replaced.
pub struct Table<V> {
    columns: Columns<V>,
}

impl<V> View for Table<V> {
    type V = Map<Seq<char>, V>;

    closed spec fn view(&self) -> Map<Seq<char>, V> {
        Map::new(
            |k: Seq<char>| self.order().contains(k),
            |k: Seq<char>| self.columns.values@[self.order().index_of(k)],
        )
    }
}

impl<V> Table<V> {
    /// The keys, in the order in which they came in.
    pub closed spec fn order(&self) -> Seq<Seq<char>> {
        text::texts(self.columns.keys@)
    }

    /// Whether the order holds each key once, and nothing else.
    pub open spec fn listed(&self) -> bool {
        &&& self.order().no_duplicates()
        &&& forall|k: Seq<char>| #[trigger] self@.contains_key(k) <==> self.order().contains(k)
    }

    #[verifier::type_invariant]
    closed spec fn inv(self) -> bool {
        &&& self.columns.keys@.len() == self.columns.values@.len()
        &&& self.order().no_duplicates()
    }

    /// The table without keys.
    pub fn new() -> (t: Self)
        ensures
            t@ == Map::<Seq<char>, V>::empty(),
            t.order() == Seq::<Seq<char>>::empty(),
    {
        Table { columns: Columns { keys: Vec::new(), values: Vec::new() } }
    }

    /// The number of keys. The order holds each key once, and nothing else.
    pub fn len(&self) -> (n: usize)
        ensures
            n == self.order().len(),
            self.listed(),
    {
        proof {
            use_type_invariant(self);
        }
        self.columns.keys.len()
    }

    /// The place of the key among the columns.
    fn find(&self, key: &String) -> (r: Option<usize>)
        ensures
            match r {
                Some(i) => {
                    &&& i < self.columns.keys@.len()
                    &&& i < self.columns.values@.len()
                    &&& self.order()[i as int] == key@
                    &&& self.order().index_of(key@) == i
                },
                None => !self.order().contains(key@),
            },
    {
        proof {
            use_type_invariant(self);
        }
        let mut i: usize = 0;
        while i < self.columns.keys.len()
            invariant
                i <= self.columns.keys@.len(),
                self.inv(),
                forall|j: int| 0 <= j < i ==> self.order()[j] != key@,
            decreases self.columns.keys@.len() - i,
        {
            if self.columns.keys[i] == *key {
                assert(self.order()[i as int] == key@);
                return Some(i);
            }
            i = i + 1;
        }
        None
    }

    /// The value at the key.
    pub fn get(&self, key: &String) -> (r: Option<&V>)
        ensures
            match r {
                Some(v) => self@.contains_key(key@) && *v == self@[key@],
                None => !self@.contains_key(key@),
            },
    {
        match self.find(key) {
            Some(i) => Some(&self.columns.values[i]),
            None => None,
        }
    }

    /// The value at the key, to be changed in place.
    pub fn get_mut(&mut self, key: &String) -> (r: Option<&mut V>)
        ensures
            match r {
                Some(v) => {
                    &&& old(self)@.contains_key(key@)
                    &&& *v == old(self)@[key@]
                    &&& final(self)@ == old(self)@.insert(key@, *final(v))
                    &&& final(self).order() == old(self).order()
                },
                None => !old(self)@.contains_key(key@) && *final(self) == *old(self),
            },
    {
        proof {
            use_type_invariant(&*self);
        }
        match self.find(key) {
            Some(i) => Some(&mut self.columns.values[i]),
            None => None,
        }
    }

    /// The key at a place of the order.
    pub fn key_at(&self, i: usize) -> (r: &String)
        requires
            i < self.order().len(),
        ensures
            r@ == self.order()[i as int],
            self@.contains_key(r@),
    {
        assert(self.order().contains(self.order()[i as int]));
        &self.columns.keys[i]
    }

    /// The value whose key is at a place of the order.
    pub fn value_at(&self, i: usize) -> (r: &V)
        requires
            i < self.order().len(),
        ensures
            self@.contains_key(self.order()[i as int]),
            *r == self@[self.order()[i as int]],
    {
        proof {
            use_type_invariant(self);
            assert(self.order().contains(self.order()[i as int]));
        }
        &self.columns.values[i]
    }

    /// Sets the value at the key, which comes last in the order unless it was there.
    pub fn insert(&mut self, key: String, value: V)
        ensures
            final(self)@ == old(self)@.insert(key@, value),
            final(self).order() == if old(self)@.contains_key(key@) {
                old(self).order()
            } else {
                old(self).order().push(key@)
            },
    {
        proof {
            use_type_invariant(&*self);
        }
        match self.find(&key) {
            Some(i) => {
                self.columns.values[i] = value;
            },
            None => {
                let ghost keys = self.columns.keys@;
                let ghost before = self.order();
                let mut columns = Columns { keys: Vec::new(), values: Vec::new() };
                std::mem::swap(&mut columns, &mut self.columns);
                columns.keys.push(key);
                columns.values.push(value);
                assert(text::texts(columns.keys@) =~= before.push(key@));
                assert forall|k: Seq<char>| before.contains(k) implies before.push(key@).contains(k)
                    && before.push(key@).index_of(k) == before.index_of(k) by {
                    let i = before.index_of(k);
                    assert(before.push(key@)[i] == k);
                }
                assert(before.push(key@)[before.len() as int] == key@);
                self.columns = columns;
            },
        }
    }

    /// Takes the key out, if it is there.
    pub fn remove(&mut self, key: &String)
        ensures
            final(self)@ == old(self)@.remove(key@),
            final(self).order() == if old(self)@.contains_key(key@) {
                old(self).order().remove(old(self).order().index_of(key@))
            } else {
                old(self).order()
            },
    {
        proof {
            use_type_invariant(&*self);
        }
        match self.find(key) {
            Some(i) => {
                let ghost before = self.order();
                let mut columns = Columns { keys: Vec::new(), values: Vec::new() };
                std::mem::swap(&mut columns, &mut self.columns);
                columns.keys.remove(i);
                columns.values.remove(i);
                let ghost after = before.remove(i as int);
                assert(text::texts(columns.keys@) =~= after);
                assert forall|k: Seq<char>| after.contains(k) <==> before.contains(k) && k != key@ by {
                    if before.contains(k) && k != key@ {
                        let j = before.index_of(k);
                        assert(after[if j < i { j } else { j - 1 }] == k);
                    }
                }
                self.columns = columns;
            },
            None => {},
        }
    }
}

impl<V> Default for Table<V> {
    fn default() -> (t: Self)
        ensures
            t@ == Map::<Seq<char>, V>::empty(),
            t.order() == Seq::<Seq<char>>::empty(),
    {
        Table::new()
    }
}

impl<V: Clone> Clone for Table<V> {
    fn clone(&self) -> (t: Self)
        ensures
            t.order() == self.order(),
            t@.dom() == self@.dom(),
            forall|k: Seq<char>|
                #![trigger t@[k]]
                self@.contains_key(k) ==> cloned::<V>(self@[k], t@[k]),
    {
        proof {
            use_type_invariant(self);
        }
        let keys = self.columns.keys.clone();
        let values = self.columns.values.clone();
        assert(text::texts(keys@) =~= text::texts(self.columns.keys@));
        Table { columns: Columns { keys, values } }
    }
}

impl<V: fmt::Debug> fmt::Debug for Table<V> {
    /// `Formatter::debug_map`: writes the table as a map, each key with its value. What the
    /// formatter makes of that is not stated.
    #[verifier::external_body]
    fn fmt(&self, f: &mut fmt::Formatter<'_>) -> (r: fmt::Result) {
        f.debug_map().entries(self.columns.keys.iter().zip(self.columns.values.iter())).finish()
    }
}

} // verus!
