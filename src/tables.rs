//! Finite sets and finite partial maps over labels.

use vstd::laws_eq::obeys_concrete_eq;
use vstd::prelude::*;

use crate::labels::same;

verus! {

/// A finite set of labels.
pub struct FinSet<T> {
    elems: Vec<T>,
}

impl<T: PartialEq> FinSet<T> {
    /// The elements of the set.
    pub closed spec fn view(&self) -> Set<T> {
        self.elems@.to_set()
    }

    /// Creates an empty set.
    pub fn new() -> (r: Self)
        ensures
            r@ == Set::<T>::empty(),
    {
        let r = FinSet { elems: Vec::new() };
        proof {
            assert(r@ =~= Set::<T>::empty());
        }
        r
    }

    /// Is the element in the set?
    pub fn contains(&self, x: &T) -> (r: bool)
        requires
            obeys_concrete_eq::<T>(),
        ensures
            r == self@.contains(*x),
    {
        let mut i: usize = 0;
        while i < self.elems.len()
            invariant
                0 <= i <= self.elems@.len(),
                obeys_concrete_eq::<T>(),
                forall|j: int| 0 <= j < i ==> self.elems@[j] != *x,
            decreases self.elems@.len() - i,
        {
            if same(&self.elems[i], x) {
                return true;
            }
            i = i + 1;
        }
        false
    }

    /// Inserts an element; says whether it was new.
    pub fn insert(&mut self, x: T) -> (r: bool)
        requires
            obeys_concrete_eq::<T>(),
        ensures
            r == !old(self)@.contains(x),
            final(self)@ == old(self)@.insert(x),
    {
        if self.contains(&x) {
            proof {
                assert(self@.insert(x) =~= self@);
            }
            false
        } else {
            let ghost before = self.elems@;
            self.elems.push(x);
            proof {
                assert(self.elems@.to_set() =~= before.to_set().insert(x)) by {
                    assert forall|y: T| self.elems@.to_set().contains(y) implies before.to_set().insert(
                        x,
                    ).contains(y) by {
                        let j = choose|j: int| 0 <= j < self.elems@.len() && self.elems@[j] == y;
                        if j < before.len() {
                            assert(before[j] == y);
                        }
                    }
                    assert forall|y: T| before.to_set().insert(x).contains(y) implies self.elems@.to_set().contains(y) by {
                        if y == x {
                            assert(self.elems@[before.len() as int] == x);
                        } else {
                            let j = choose|j: int| 0 <= j < before.len() && before[j] == y;
                            assert(self.elems@[j] == y);
                        }
                    }
                }
            }
            true
        }
    }
}

/// The value that the last assignment to a key gives it, if any.
pub open spec fn last_assigned<K, T>(s: Seq<(K, T)>, k: K) -> Option<T>
    decreases s.len(),
{
    if s.len() == 0 {
        None
    } else if s.last().0 == k {
        Some(s.last().1)
    } else {
        last_assigned(s.drop_last(), k)
    }
}

/// Overwriting the last assignment to a key changes the value of that key
/// alone.
proof fn lemma_last_assigned_update<K, T>(s: Seq<(K, T)>, i: int, k: K, v: T)
    requires
        0 <= i < s.len(),
        s[i].0 == k,
        forall|j: int| i < j < s.len() ==> (#[trigger] s[j]).0 != k,
    ensures
        last_assigned(s.update(i, (k, v)), k) == Some(v),
        forall|j: K| j != k ==> last_assigned(s.update(i, (k, v)), j) == last_assigned(s, j),
    decreases s.len(),
{
    let t = s.update(i, (k, v));
    if i < s.len() - 1 {
        assert(t.drop_last() =~= s.drop_last().update(i, (k, v)));
        assert(t.last() == s.last());
        lemma_last_assigned_update(s.drop_last(), i, k, v);
        assert forall|j: K| j != k implies last_assigned(t, j) == last_assigned(s, j) by {
            assert(last_assigned(t.drop_last(), j) == last_assigned(s.drop_last(), j));
        }
    } else {
        assert(t.drop_last() =~= s.drop_last());
        assert(s.last() == s[i]);
        assert forall|j: K| j != k implies last_assigned(t, j) == last_assigned(s, j) by {
            assert(t.last().0 != j);
            assert(s.last().0 != j);
        }
    }
}

/// A finite partial map from keys to values.
pub struct Column<K, T> {
    entries: Vec<(K, T)>,
}

impl<K: PartialEq, T> Column<K, T> {
    /// The value at a key, if any.
    pub closed spec fn get(&self, k: K) -> Option<T> {
        last_assigned(self.entries@, k)
    }

    /// Creates a map with no keys.
    pub fn new() -> (r: Self)
        ensures
            forall|k: K| r.get(k) is None,
    {
        Column { entries: Vec::new() }
    }

    /// Sets the value at a key, replacing any value it had.
    pub fn set(&mut self, k: K, v: T)
        requires
            obeys_concrete_eq::<K>(),
        ensures
            final(self).get(k) == Some(v),
            forall|j: K| j != k ==> final(self).get(j) == old(self).get(j),
    {
        let ghost before = self.entries@;
        let mut i: usize = self.entries.len();
        while i > 0
            invariant
                0 <= i <= self.entries@.len(),
                self.entries@ == before,
                before == old(self).entries@,
                obeys_concrete_eq::<K>(),
                forall|j: int| i <= j < before.len() ==> (#[trigger] before[j]).0 != k,
            decreases i,
        {
            if same(&self.entries[i - 1].0, &k) {
                self.entries.set(i - 1, (k, v));
                proof {
                    lemma_last_assigned_update(before, (i - 1) as int, k, v);
                }
                return;
            }
            i = i - 1;
        }
        self.entries.push((k, v));
        proof {
            assert(self.entries@.drop_last() =~= before);
        }
    }

    /// The value at a key, if any.
    pub fn apply(&self, k: &K) -> (r: Option<&T>)
        requires
            obeys_concrete_eq::<K>(),
        ensures
            match r {
                Option::Some(v) => self.get(*k) == Some(*v),
                Option::None => self.get(*k) is None,
            },
    {
        let mut i: usize = self.entries.len();
        proof {
            assert(self.entries@.take(i as int) =~= self.entries@);
        }
        while i > 0
            invariant
                0 <= i <= self.entries@.len(),
                obeys_concrete_eq::<K>(),
                last_assigned(self.entries@, *k) == last_assigned(self.entries@.take(i as int), *k),
            decreases i,
        {
            proof {
                assert(self.entries@.take(i as int).drop_last() =~= self.entries@.take(i - 1));
            }
            if same(&self.entries[i - 1].0, k) {
                return Some(&self.entries[i - 1].1);
            }
            i = i - 1;
        }
        None
    }
}

} // verus!
