//! Storage backends for a homogeneous collection: a dense one whose removal
//! moves the last element into the freed slot and reports the move, and a
//! stable one whose keys are issued once and never reused.
use vstd::prelude::*;
use std::collections::HashMap;
use crate::incidence::swap_removed;

verus! {

broadcast use vstd::std_specs::hash::group_hash_axioms;

/// Dense, array-like storage; ids are the positions `0..len()`.
pub struct DenseStore<T> {
    items: Vec<T>,
}

impl<T> View for DenseStore<T> {
    type V = Seq<T>;

    closed spec fn view(&self) -> Seq<T> {
        self.items@
    }
}

impl<T> DenseStore<T> {
    pub fn new() -> (r: Self)
        ensures
            r@ == Seq::<T>::empty(),
    {
        DenseStore { items: Vec::new() }
    }

    pub fn len(&self) -> (r: usize)
        ensures
            r == self@.len(),
    {
        self.items.len()
    }

    /// Appends `value`; its id is the old length.
    pub fn insert(&mut self, value: T) -> (id: usize)
        ensures
            id == old(self)@.len(),
            final(self)@ == old(self)@.push(value),
    {
        self.items.push(value);
        self.items.len() - 1
    }

    /// Removes the element with id `id`, moving the last element into its
    /// slot. Returns the removed element and, when an element moved, its old
    /// id (its new id is `id`).
    pub fn remove(&mut self, id: usize) -> (r: (T, Option<usize>))
        requires
            id < old(self)@.len(),
        ensures
            r.0 == old(self)@[id as int],
            final(self)@ == swap_removed(old(self)@, id as int),
            r.1 == if id + 1 < old(self)@.len() {
                Some((old(self)@.len() - 1) as usize)
            } else {
                None::<usize>
            },
    {
        let value = self.items.swap_remove(id);
        assert(self@ =~= swap_removed(old(self)@, id as int));
        if id < self.items.len() {
            (value, Some(self.items.len()))
        } else {
            (value, None)
        }
    }

    pub fn get(&self, id: usize) -> (r: Option<&T>)
        ensures
            match r {
                Some(x) => id < self@.len() && *x == self@[id as int],
                None => id >= self@.len(),
            },
    {
        if id < self.items.len() {
            Some(&self.items[id])
        } else {
            None
        }
    }

    /// The element with id `id`.
    pub fn at(&self, id: usize) -> (r: &T)
        requires
            id < self@.len(),
        ensures
            *r == self@[id as int],
    {
        &self.items[id]
    }

    /// Mutable access to the element with id `id`.
    pub fn at_mut(&mut self, id: usize) -> (r: &mut T)
        requires
            id < old(self)@.len(),
        ensures
            *r == old(self)@[id as int],
            final(self)@ == old(self)@.update(id as int, *final(r)),
    {
        &mut self.items[id]
    }

    /// Drops every element.
    pub fn clear(&mut self)
        ensures
            final(self)@ == Seq::<T>::empty(),
    {
        self.items.clear();
    }

    /// The elements in id order.
    pub fn iter(&self) -> (r: &[T])
        ensures
            r@ == self@,
    {
        self.items.as_slice()
    }
}

impl<T> Default for DenseStore<T> {
    fn default() -> (r: Self)
        ensures
            r@ == Seq::<T>::empty(),
    {
        DenseStore::new()
    }
}

/// Associative storage with keys issued in increasing order and never reused.
pub struct StableStore<T> {
    entries: HashMap<usize, T>,
    next_key: usize,
}

impl<T> View for StableStore<T> {
    type V = Map<usize, T>;

    closed spec fn view(&self) -> Map<usize, T> {
        self.entries@
    }
}

impl<T> StableStore<T> {
    /// The key the next insertion will issue.
    pub closed spec fn next_key(&self) -> usize {
        self.next_key
    }

    /// Every live key was issued before the next one.
    pub open spec fn wf(&self) -> bool {
        forall|k: usize| #[trigger] self@.contains_key(k) ==> k < self.next_key()
    }

    pub fn new() -> (r: Self)
        ensures
            r.wf(),
            r@ == Map::<usize, T>::empty(),
            r.next_key() == 0,
    {
        StableStore { entries: HashMap::new(), next_key: 0 }
    }

    pub fn len(&self) -> (r: usize)
        ensures
            r == self@.len(),
    {
        self.entries.len()
    }

    /// Stores `value` under a fresh key and returns the key.
    pub fn insert(&mut self, value: T) -> (key: usize)
        requires
            old(self).wf(),
            old(self).next_key() < usize::MAX,
        ensures
            final(self).wf(),
            key == old(self).next_key(),
            final(self).next_key() == key + 1,
            !old(self)@.contains_key(key),
            final(self)@ == old(self)@.insert(key, value),
    {
        let key = self.next_key;
        self.entries.insert(key, value);
        self.next_key = key + 1;
        assert forall|k: usize| #[trigger] self@.contains_key(k) implies k < self.next_key() by {
            if k != key {
                assert(old(self)@.contains_key(k));
            }
        }
        key
    }

    /// Removes the entry under `key`, if any; no other key changes.
    pub fn remove(&mut self, key: usize) -> (r: Option<T>)
        requires
            old(self).wf(),
        ensures
            final(self).wf(),
            final(self).next_key() == old(self).next_key(),
            final(self)@ == old(self)@.remove(key),
            match r {
                Some(v) => old(self)@.contains_key(key) && v == old(self)@[key],
                None => !old(self)@.contains_key(key),
            },
    {
        let r = self.entries.remove(&key);
        assert forall|k: usize| #[trigger] self@.contains_key(k) implies k < self.next_key() by {
            assert(old(self)@.contains_key(k));
        }
        r
    }

    pub fn get(&self, key: usize) -> (r: Option<&T>)
        ensures
            match r {
                Some(x) => self@.contains_key(key) && *x == self@[key],
                None => !self@.contains_key(key),
            },
    {
        self.entries.get(&key)
    }
}

/// The values of `m` under keys below `n`, in increasing key order.
pub open spec fn values_below<T>(m: Map<usize, T>, n: int) -> Seq<T>
    decreases n,
{
    if n <= 0 {
        Seq::empty()
    } else if m.contains_key((n - 1) as usize) {
        values_below(m, n - 1).push(m[(n - 1) as usize])
    } else {
        values_below(m, n - 1)
    }
}

impl<T> StableStore<T> {
    /// The stored values in increasing key order; every live key is below the
    /// next key, so these are all of them.
    pub fn iter(&self) -> (r: Vec<&T>)
        requires
            self.wf(),
        ensures
            r@.len() == values_below(self@, self.next_key() as int).len(),
            forall|i: int| 0 <= i < r@.len() ==> *#[trigger] r@[i] == values_below(self@, self.next_key() as int)[i],
    {
        let mut r: Vec<&T> = Vec::new();
        let mut k: usize = 0;
        while k < self.next_key
            invariant
                k <= self.next_key(),
                r@.len() == values_below(self@, k as int).len(),
                forall|i: int| 0 <= i < r@.len() ==> *#[trigger] r@[i] == values_below(self@, k as int)[i],
            decreases self.next_key() - k,
        {
            let ghost before = r@;
            match self.entries.get(&k) {
                Some(v) => r.push(v),
                None => {},
            }
            k += 1;
            assert forall|i: int| 0 <= i < r@.len() implies *#[trigger] r@[i] == values_below(self@, k as int)[i] by {
                if i < before.len() {
                    assert(r@[i] == before[i]);
                }
            }
        }
        r
    }
}

impl<T> Default for StableStore<T> {
    fn default() -> (r: Self)
        ensures
            r.wf(),
            r@ == Map::<usize, T>::empty(),
            r.next_key() == 0,
    {
        StableStore::new()
    }
}


/// Chooses, at compile time, the container that stores values of type
/// `ValueType` under storage selector `Selector`.
pub struct ContainerGen<Selector, ValueType> {
    selector: std::marker::PhantomData<Selector>,
    value_type: std::marker::PhantomData<ValueType>,
}

/// The container a `ContainerGen` stands for.
pub trait ContainerGenTrait<ValueType> {
    type Type;
}

impl<T> ContainerGenTrait<T> for ContainerGen<crate::selectors::VecS, T> {
    type Type = DenseStore<T>;
}

impl<T> ContainerGenTrait<T> for ContainerGen<crate::selectors::MapS, T> {
    type Type = StableStore<T>;
}

} // verus!
