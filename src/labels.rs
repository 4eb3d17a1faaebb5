//! Equality on generic labels, as the verified code sees it.

use vstd::laws_eq::obeys_concrete_eq;
use vstd::prelude::*;

verus! {

/// Compares two labels; for a type whose `==` is lawful this is equality.
pub fn same<T: PartialEq>(a: &T, b: &T) -> (r: bool)
    requires
        obeys_concrete_eq::<T>(),
    ensures
        r == (*a == *b),
{
    proof {
        reveal(obeys_concrete_eq);
    }
    a.eq(b)
}


/// Pairs of lawfully compared labels are lawfully compared.
pub proof fn lemma_pair_eq<A: PartialEq, B: PartialEq>()
    requires
        obeys_concrete_eq::<A>(),
        obeys_concrete_eq::<B>(),
    ensures
        obeys_concrete_eq::<(A, B)>(),
{
    reveal(obeys_concrete_eq);
}

} // verus!
