//! Keyed storage: a table from keys to values in which each key occurs once.

use vstd::prelude::*;
use crate::bytes::{bytes_equal, copy_bytes, AccountId};

verus! {

/// What a table can be keyed by: a value with a mathematical identity, a
/// test for that identity and a way to copy it.
pub trait Key: Sized {
    /// The identity that the table's view is keyed by.
    type Id;

    spec fn id(&self) -> Self::Id;

    fn same(&self, other: &Self) -> (equal: bool)
        ensures
            equal == (self.id() == other.id()),
    ;

    fn duplicate(&self) -> (copy: Self)
        ensures
            copy.id() == self.id(),
    ;
}

impl Key for Vec<u8> {
    type Id = Seq<u8>;

    open spec fn id(&self) -> Seq<u8> {
        self@
    }

    fn same(&self, other: &Self) -> (equal: bool) {
        bytes_equal(self.as_slice(), other.as_slice())
    }

    fn duplicate(&self) -> (copy: Self) {
        copy_bytes(self.as_slice())
    }
}

impl Key for AccountId {
    type Id = Seq<u8>;

    open spec fn id(&self) -> Seq<u8> {
        self@
    }

    fn same(&self, other: &Self) -> (equal: bool) {
        bytes_equal(self.as_slice(), other.as_slice())
    }

    fn duplicate(&self) -> (copy: Self) {
        *self
    }
}

impl Key for u64 {
    type Id = u64;

    open spec fn id(&self) -> u64 {
        *self
    }

    fn same(&self, other: &Self) -> (equal: bool) {
        *self == *other
    }

    fn duplicate(&self) -> (copy: Self) {
        *self
    }
}

impl<A: Key, B: Key> Key for (A, B) {
    type Id = (A::Id, B::Id);

    open spec fn id(&self) -> (A::Id, B::Id) {
        (self.0.id(), self.1.id())
    }

    fn same(&self, other: &Self) -> (equal: bool) {
        self.0.same(&other.0) && self.1.same(&other.1)
    }

    fn duplicate(&self) -> (copy: Self) {
        (self.0.duplicate(), self.1.duplicate())
    }
}

/// The map that a sequence of entries stands for: later entries win.
pub open spec fn entries_map<K: Key, V: DeepView>(entries: Seq<(K, V)>) -> Map<K::Id, V::V>
    decreases entries.len(),
{
    if entries.len() == 0 {
        Map::empty()
    } else {
        entries_map(entries.drop_last()).insert(
            entries.last().0.id(),
            entries.last().1.deep_view(),
        )
    }
}

/// No key identity occurs in two entries.
pub open spec fn distinct_keys<K: Key, V>(entries: Seq<(K, V)>) -> bool {
    forall|i: int, j: int|
        0 <= i < j < entries.len() ==> (#[trigger] entries[i]).0.id() != (#[trigger] entries[j]).0.id()
}

/// The map's domain is finite and holds exactly the keys of the entries.
pub proof fn lemma_entries_domain<K: Key, V: DeepView>(entries: Seq<(K, V)>)
    ensures
        entries_map(entries).dom().finite(),
        forall|id: K::Id|
            entries_map(entries).contains_key(id) <==> exists|i: int|
                0 <= i < entries.len() && (#[trigger] entries[i]).0.id() == id,
    decreases entries.len(),
{
    if entries.len() > 0 {
        let front = entries.drop_last();
        lemma_entries_domain(front);
        assert forall|id: K::Id|
            entries_map(entries).contains_key(id) <==> exists|i: int|
                0 <= i < entries.len() && (#[trigger] entries[i]).0.id() == id by {
            if entries_map(entries).contains_key(id) {
                if id != entries.last().0.id() {
                    let i = choose|i: int| 0 <= i < front.len() && (#[trigger] front[i]).0.id() == id;
                }
            }
            if exists|i: int| 0 <= i < entries.len() && (#[trigger] entries[i]).0.id() == id {
                let i = choose|i: int| 0 <= i < entries.len() && (#[trigger] entries[i]).0.id() == id;
                if i < front.len() {
                    assert(front[i].0.id() == id);
                }
            }
        }
    }
}

/// With distinct keys, each entry's value is what the map holds at its key.
pub proof fn lemma_entries_lookup<K: Key, V: DeepView>(entries: Seq<(K, V)>, at: int)
    requires
        distinct_keys(entries),
        0 <= at < entries.len(),
    ensures
        entries_map(entries).contains_key(entries[at].0.id()),
        entries_map(entries)[entries[at].0.id()] == entries[at].1.deep_view(),
    decreases entries.len(),
{
    let front = entries.drop_last();
    if at < entries.len() - 1 {
        lemma_entries_lookup(front, at);
    }
}

/// With distinct keys, taking one entry out removes its key from the map.
pub proof fn lemma_entries_remove<K: Key, V: DeepView>(entries: Seq<(K, V)>, at: int)
    requires
        distinct_keys(entries),
        0 <= at < entries.len(),
    ensures
        distinct_keys(entries.remove(at)),
        entries_map(entries.remove(at)) == entries_map(entries).remove(entries[at].0.id()),
    decreases entries.len(),
{
    let rest = entries.remove(at);
    let front = entries.drop_last();
    if at == entries.len() - 1 {
        lemma_entries_domain(front);
    } else {
        lemma_entries_remove(front, at);
        assert(rest.drop_last() =~= front.remove(at));
    }
}

/// A table from keys to values. Its view is the map from each key's
/// identity to the deep view of the value stored under it.
pub struct Table<K: Key, V: DeepView> {
    entries: Vec<(K, V)>,
}

impl<K: Key, V: DeepView> Table<K, V> {
    pub closed spec fn view(&self) -> Map<K::Id, V::V> {
        entries_map(self.entries@)
    }

    /// Each key occurs in one entry.
    pub closed spec fn wf(&self) -> bool {
        distinct_keys(self.entries@)
    }

    pub fn new() -> (table: Self)
        ensures
            table.wf(),
            table@ == Map::<K::Id, V::V>::empty(),
    {
        Table { entries: Vec::new() }
    }

    fn position(&self, key: &K) -> (found: Option<usize>)
        requires
            self.wf(),
        ensures
            match found {
                Some(at) => at < self.entries@.len() && self.entries@[at as int].0.id() == key.id()
                    && self@.contains_key(key.id())
                    && self@[key.id()] == self.entries@[at as int].1.deep_view(),
                None => !self@.contains_key(key.id()),
            },
    {
        let mut i: usize = 0;
        while i < self.entries.len()
            invariant
                self.wf(),
                i <= self.entries@.len(),
                forall|j: int| 0 <= j < i ==> (#[trigger] self.entries@[j]).0.id() != key.id(),
            decreases self.entries@.len() - i,
        {
            if self.entries[i].0.same(key) {
                proof {
                    lemma_entries_lookup(self.entries@, i as int);
                }
                return Some(i);
            }
            i += 1;
        }
        proof {
            lemma_entries_domain(self.entries@);
        }
        None
    }

    pub fn contains_key(&self, key: &K) -> (present: bool)
        requires
            self.wf(),
        ensures
            present == self@.contains_key(key.id()),
    {
        self.position(key).is_some()
    }

    /// The value stored under `key`, if there is one.
    pub fn get(&self, key: &K) -> (value: Option<&V>)
        requires
            self.wf(),
        ensures
            match value {
                Some(v) => self@.contains_key(key.id()) && v.deep_view() == self@[key.id()],
                None => !self@.contains_key(key.id()),
            },
    {
        match self.position(key) {
            Some(at) => Some(&self.entries[at].1),
            None => None,
        }
    }

    /// Takes the entry for `key` out of the table and hands its value back.
    pub fn remove(&mut self, key: &K) -> (value: Option<V>)
        requires
            old(self).wf(),
        ensures
            final(self).wf(),
            final(self)@ == old(self)@.remove(key.id()),
            match value {
                Some(v) => old(self)@.contains_key(key.id()) && v.deep_view() == old(self)@[key.id()],
                None => !old(self)@.contains_key(key.id()),
            },
    {
        match self.position(key) {
            Some(at) => {
                proof {
                    lemma_entries_remove(self.entries@, at as int);
                }
                let entry = self.entries.remove(at);
                Some(entry.1)
            },
            None => {
                None
            },
        }
    }

    /// Stores `value` under `key`, in place of what was stored there.
    pub fn insert(&mut self, key: K, value: V)
        requires
            old(self).wf(),
        ensures
            final(self).wf(),
            final(self)@ == old(self)@.insert(key.id(), value.deep_view()),
    {
        let _ = self.remove(&key);
        proof {
            lemma_entries_domain(self.entries@);
            let grown = self.entries@.push((key, value));
            assert(grown.drop_last() =~= self.entries@);
            assert forall|i: int, j: int| 0 <= i < j < grown.len() implies (#[trigger] grown[i]).0.id()
                != (#[trigger] grown[j]).0.id() by {
                if j < self.entries@.len() {
                } else {
                    assert(!self@.contains_key(key.id()));
                }
            }
            assert(old(self)@.remove(key.id()).insert(key.id(), value.deep_view()) =~= old(self)@.insert(
                key.id(),
                value.deep_view(),
            ));
        }
        self.entries.push((key, value));
    }
}

} // verus!
