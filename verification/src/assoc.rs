//! A map kept as a list of entries, for keys that are compared by their
//! text.

use vstd::prelude::*;

verus! {

/// A key that can be compared with another of its kind.
pub trait Keyed: View + Sized {
    /// Whether two keys have the same value.
    fn same(&self, other: &Self) -> (b: bool)
        ensures
            b == (self@ == other@),
    ;

    /// A copy of the key.
    fn copy(&self) -> (r: Self)
        ensures
            r@ == self@,
    ;
}

impl Keyed for String {
    fn same(&self, other: &Self) -> (b: bool) {
        *self == *other
    }

    fn copy(&self) -> (r: Self) {
        self.clone()
    }
}

/// A map from keys to values. Where a key was inserted more than once, the
/// value inserted last is the one it maps to.
pub struct KeyedList<K: Keyed, V: View> {
    entries: Vec<(K, V)>,
}

/// The map that a sequence of entries stands for: a later entry overrides
/// an earlier one with the same key.
pub open spec fn map_of<K: Keyed, V: View>(entries: Seq<(K, V)>) -> Map<K::V, V::V>
    decreases entries.len(),
{
    if entries.len() == 0 {
        Map::empty()
    } else {
        map_of(entries.drop_last()).insert(entries.last().0@, entries.last().1@)
    }
}

proof fn lemma_map_of_update<K: Keyed, V: View>(entries: Seq<(K, V)>, at: int, key: K, value: V)
    requires
        0 <= at < entries.len(),
        entries[at].0@ == key@,
        forall|j: int| at < j < entries.len() ==> entries[j].0@ != key@,
    ensures
        map_of(entries.update(at, (key, value))) == map_of(entries).insert(key@, value@),
    decreases entries.len(),
{
    let changed = entries.update(at, (key, value));
    if at == entries.len() - 1 {
        assert(changed.drop_last() == entries.drop_last());
        assert(map_of(changed) =~= map_of(entries).insert(key@, value@));
    } else {
        assert(changed.drop_last() == entries.drop_last().update(at, (key, value)));
        assert(changed.last() == entries.last());
        assert forall|j: int| at < j < entries.drop_last().len() implies entries.drop_last()[j].0@
            != key@ by {
            assert(entries.drop_last()[j] == entries[j]);
        }
        lemma_map_of_update(entries.drop_last(), at, key, value);
        assert(map_of(changed) =~= map_of(entries).insert(key@, value@));
    }
}

impl<K: Keyed, V: View> View for KeyedList<K, V> {
    type V = Map<K::V, V::V>;

    closed spec fn view(&self) -> Map<K::V, V::V> {
        map_of(self.entries@)
    }
}

impl<K: Keyed, V: View> KeyedList<K, V> {
    /// The empty map.
    pub fn new() -> (r: Self)
        ensures
            r@ == Map::<K::V, V::V>::empty(),
    {
        KeyedList { entries: Vec::new() }
    }

    fn position(&self, key: &K) -> (r: Option<usize>)
        ensures
            match r {
                Some(at) => at < self.entries.len() && self.entries@[at as int].0@ == key@
                    && self@.contains_key(key@) && self@[key@] == self.entries@[at as int].1@
                    && forall|j: int|
                    at < j < self.entries.len() ==> self.entries@[j].0@ != key@,
                None => !self@.contains_key(key@),
            },
    {
        let ghost all = self.entries@;
        let mut i: usize = self.entries.len();
        assert(all.take(i as int) == all);
        while i > 0
            invariant
                i <= self.entries.len(),
                all == self.entries@,
                forall|j: int| i <= j < all.len() ==> all[j].0@ != key@,
                map_of(all).contains_key(key@) == map_of(all.take(i as int)).contains_key(key@),
                map_of(all).contains_key(key@) ==> map_of(all)[key@] == map_of(
                    all.take(i as int),
                )[key@],
            decreases i,
        {
            i -= 1;
            assert(all.take(i + 1).drop_last() == all.take(i as int));
            assert(all.take(i + 1).last() == all[i as int]);
            if self.entries[i].0.same(key) {
                return Some(i);
            }
        }
        assert(all.take(0) == Seq::<(K, V)>::empty());
        None
    }

    /// Whether the map holds `key`.
    pub fn contains_key(&self, key: &K) -> (r: bool)
        ensures
            r == self@.contains_key(key@),
    {
        self.position(key).is_some()
    }

    /// The value of `key`.
    pub fn get(&self, key: &K) -> (r: Option<&V>)
        ensures
            match r {
                Some(value) => self@.contains_key(key@) && self@[key@] == value@,
                None => !self@.contains_key(key@),
            },
    {
        match self.position(key) {
            Some(at) => Some(&self.entries[at].1),
            None => None,
        }
    }

    /// Maps `key` to `value`, whatever it mapped to before.
    pub fn insert(&mut self, key: K, value: V)
        ensures
            final(self)@ == old(self)@.insert(key@, value@),
    {
        match self.position(&key) {
            Some(at) => {
                proof {
                    lemma_map_of_update(self.entries@, at as int, key, value);
                }
                self.entries.set(at, (key, value));
            },
            None => {
                let ghost before = self.entries@;
                self.entries.push((key, value));
                assert(self.entries@.drop_last() == before);
            },
        }
    }
}

} // verus!
