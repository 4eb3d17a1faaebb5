//! Paths: composable chains of morphisms, possibly empty at an object.

use vstd::prelude::*;

verus! {

/// A path in a graph: the empty path at a vertex, or a nonempty chain of
/// edges.
#[derive(Debug, PartialEq, Eq)]
pub enum Path<V, E> {
    /// The identity, or empty, path at a vertex.
    Id(V),
    /// A nonempty chain of edges, first to last.
    Chain(Vec<E>),
}

/// What a path is: an empty path at a vertex, or a sequence of edges.
pub enum PathView<V, E> {
    Id(V),
    Chain(Seq<E>),
}

impl<V, E> PathView<V, E> {
    /// A chain is never empty.
    pub open spec fn wf(&self) -> bool {
        match self {
            PathView::Id(_) => true,
            PathView::Chain(es) => es.len() > 0,
        }
    }
}

impl<V, E> Path<V, E> {
    pub open spec fn view(&self) -> PathView<V, E> {
        match self {
            Path::Id(x) => PathView::Id(*x),
            Path::Chain(es) => PathView::Chain(es@),
        }
    }

    /// The path of one edge.
    pub fn single(e: E) -> (r: Self)
        ensures
            r@ == PathView::<V, E>::Chain(seq![e]),
    {
        let mut es: Vec<E> = Vec::new();
        es.push(e);
        proof {
            assert(es@ =~= seq![e]);
        }
        Path::Chain(es)
    }

    /// The path of two edges.
    pub fn pair(e: E, f: E) -> (r: Self)
        ensures
            r@ == PathView::<V, E>::Chain(seq![e, f]),
    {
        let mut es: Vec<E> = Vec::new();
        es.push(e);
        es.push(f);
        proof {
            assert(es@ =~= seq![e, f]);
        }
        Path::Chain(es)
    }
}

impl<V: Copy, E: Copy> Path<V, E> {
    /// A copy of the path.
    pub fn duplicate(&self) -> (r: Self)
        ensures
            r@ == self@,
    {
        match self {
            Path::Id(x) => Path::Id(*x),
            Path::Chain(es) => {
                let mut out: Vec<E> = Vec::new();
                let mut i: usize = 0;
                while i < es.len()
                    invariant
                        0 <= i <= es@.len(),
                        out@ == es@.take(i as int),
                    decreases es@.len() - i,
                {
                    out.push(es[i]);
                    i = i + 1;
                    proof {
                        assert(out@ =~= es@.take(i as int));
                    }
                }
                proof {
                    assert(out@ =~= es@);
                }
                Path::Chain(out)
            },
        }
    }
}


/// Composes a nonempty sequence from left to right with a partial binary
/// operation; a step without a result leaves the whole without one.
pub open spec fn fold_path<T>(ms: Seq<T>, op: spec_fn(T, T) -> Option<T>) -> Option<T>
    decreases ms.len(),
{
    if ms.len() == 0 {
        None
    } else if ms.len() == 1 {
        Some(ms[0])
    } else {
        match fold_path(ms.drop_last(), op) {
            Option::Some(acc) => op(acc, ms.last()),
            Option::None => None,
        }
    }
}

/// A prefix without a composite leaves the whole sequence without one.
pub proof fn lemma_fold_path_prefix<T>(ms: Seq<T>, op: spec_fn(T, T) -> Option<T>, k: int)
    requires
        1 <= k <= ms.len(),
        fold_path(ms.take(k), op) is None,
    ensures
        fold_path(ms, op) is None,
    decreases ms.len() - k,
{
    if k < ms.len() {
        assert(ms.take(k + 1).drop_last() =~= ms.take(k));
        lemma_fold_path_prefix(ms, op, k + 1);
    } else {
        assert(ms.take(k) =~= ms);
    }
}

/// One more step of a left-to-right composition.
pub proof fn lemma_fold_path_step<T>(ms: Seq<T>, op: spec_fn(T, T) -> Option<T>, k: int)
    requires
        1 <= k < ms.len(),
    ensures
        fold_path(ms.take(k + 1), op) == match fold_path(ms.take(k), op) {
            Option::Some(acc) => op(acc, ms[k]),
            Option::None => None,
        },
{
    assert(ms.take(k + 1).drop_last() =~= ms.take(k));
}

} // verus!
