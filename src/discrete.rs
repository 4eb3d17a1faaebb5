//! Discrete double theories.
//!
//! A discrete double theory has no nontrivial operations on either object or
//! morphism types. It is given by a category: object types are its objects,
//! morphism types its morphisms, object operations are objects again (the
//! identities), and morphism operations are paths of morphisms.

use vstd::prelude::*;

use crate::category::{FinCategory, FinMor};
use crate::labels::same;
use crate::path::{Path, PathView, fold_path, lemma_fold_path_prefix, lemma_fold_path_step};
use crate::theory::DblTheory;

verus! {

/// A discrete double theory over a finitely generated category.
pub struct DiscreteDblTheory<V, E>(pub FinCategory<V, E>);

/// Composite of two identities of a discrete category: defined when they are
/// the same.
pub open spec fn compose2_discrete<V>(x: V, y: V) -> Option<V> {
    if x == y {
        Some(x)
    } else {
        None
    }
}

/// Binary composition in a discrete category, as a function.
pub open spec fn compose2_discrete_op<V>() -> spec_fn(V, V) -> Option<V> {
    |x: V, y: V| compose2_discrete(x, y)
}

impl<V: Eq + Copy, E: Eq + Copy> From<FinCategory<V, E>> for DiscreteDblTheory<V, E> {
    fn from(cat: FinCategory<V, E>) -> (r: Self) {
        DiscreteDblTheory(cat)
    }
}

impl<V: Eq + Copy, E: Eq + Copy> vstd::std_specs::convert::FromSpecImpl<FinCategory<V, E>> for DiscreteDblTheory<V, E> {
    open spec fn obeys_from_spec() -> bool {
        true
    }

    open spec fn from_spec(cat: FinCategory<V, E>) -> Self {
        DiscreteDblTheory(cat)
    }
}

impl<V: Eq + Copy, E: Eq + Copy> DblTheory for DiscreteDblTheory<V, E> {
    type ObType = V;
    type MorType = FinMor<V, E>;
    type ObOp = V;
    type MorOp = Path<V, FinMor<V, E>>;

    open spec fn well_formed(&self) -> bool {
        FinCategory::<V, E>::labels_lawful()
    }

    open spec fn spec_has_ob_type(&self, x: V) -> bool {
        self.0.objects().contains(x)
    }

    open spec fn spec_has_mor_type(&self, m: FinMor<V, E>) -> bool {
        self.0.mor_in(m)
    }

    open spec fn spec_has_ob_op(&self, f: V) -> bool {
        self.0.objects().contains(f)
    }

    /// A path is an operation of the theory when its vertex or each of its
    /// edges belongs to the category.
    open spec fn spec_has_mor_op(&self, a: Path<V, FinMor<V, E>>) -> bool {
        match a@ {
            PathView::Id(x) => self.0.objects().contains(x),
            PathView::Chain(ms) => forall|i: int| 0 <= i < ms.len() ==> self.0.mor_in(#[trigger] ms[i]),
        }
    }

    open spec fn spec_src(&self, m: FinMor<V, E>) -> Option<V> {
        self.0.dom_of(m)
    }

    open spec fn spec_tgt(&self, m: FinMor<V, E>) -> Option<V> {
        self.0.cod_of(m)
    }

    open spec fn spec_dom(&self, f: V) -> Option<V> {
        Some(f)
    }

    open spec fn spec_cod(&self, f: V) -> Option<V> {
        Some(f)
    }

    open spec fn spec_op_src(&self, a: Path<V, FinMor<V, E>>) -> Option<V> {
        match a@ {
            PathView::Id(x) => Some(x),
            PathView::Chain(ms) => if ms.len() > 0 {
                self.0.dom_of(ms[0])
            } else {
                None
            },
        }
    }

    open spec fn spec_op_tgt(&self, a: Path<V, FinMor<V, E>>) -> Option<V> {
        match a@ {
            PathView::Id(x) => Some(x),
            PathView::Chain(ms) => if ms.len() > 0 {
                self.0.cod_of(ms.last())
            } else {
                None
            },
        }
    }

    open spec fn spec_op_dom(&self, a: Path<V, FinMor<V, E>>) -> Option<PathView<V, FinMor<V, E>>> {
        if a@.wf() {
            Some(a@)
        } else {
            None
        }
    }

    open spec fn spec_op_cod(&self, a: Path<V, FinMor<V, E>>) -> Option<FinMor<V, E>> {
        if a@.wf() {
            self.0.composite(a@)
        } else {
            None
        }
    }

    open spec fn spec_compose_types(&self, p: PathView<V, FinMor<V, E>>) -> Option<FinMor<V, E>> {
        self.0.composite(p)
    }

    open spec fn spec_hom_type(&self, x: V) -> FinMor<V, E> {
        FinMor::Id(x)
    }

    open spec fn spec_compose_ob_ops(&self, p: PathView<V, V>) -> Option<V> {
        match p {
            PathView::Id(x) => Some(x),
            PathView::Chain(xs) => fold_path(xs, compose2_discrete_op()),
        }
    }

    open spec fn spec_id_ob_op(&self, x: V) -> V {
        x
    }

    open spec fn is_hom_op(&self, f: V, a: Path<V, FinMor<V, E>>) -> bool {
        a@ == PathView::<V, FinMor<V, E>>::Id(f)
    }

    open spec fn is_id_mor_op(&self, m: FinMor<V, E>, a: Path<V, FinMor<V, E>>) -> bool {
        a@ == PathView::<V, FinMor<V, E>>::Chain(seq![m])
    }

    fn has_ob_type(&self, x: &V) -> (r: bool) {
        self.0.has_ob(x)
    }

    fn has_mor_type(&self, m: &FinMor<V, E>) -> (r: bool) {
        self.0.has_mor(m)
    }

    fn has_ob_op(&self, f: &V) -> (r: bool) {
        self.0.has_ob(f)
    }

    #[verifier::loop_isolation(false)]
    fn has_mor_op(&self, a: &Path<V, FinMor<V, E>>) -> (r: bool) {
        match a {
            Path::Id(x) => self.0.has_ob(x),
            Path::Chain(ms) => {
                let mut i: usize = 0;
                while i < ms.len()
                    invariant
                        0 <= i <= ms@.len(),
                        FinCategory::<V, E>::labels_lawful(),
                        forall|j: int| 0 <= j < i ==> self.0.mor_in(#[trigger] ms@[j]),
                    decreases ms@.len() - i,
                {
                    if !self.0.has_mor(&ms[i]) {
                        proof {
                            let ghost es = a@->Chain_0;
                            assert(es == ms@);
                            assert(!self.0.mor_in(es[i as int]));
                        }
                        return false;
                    }
                    i = i + 1;
                }
                true
            },
        }
    }

    fn src(&self, m: &FinMor<V, E>) -> (r: V) {
        self.0.dom(m)
    }

    fn tgt(&self, m: &FinMor<V, E>) -> (r: V) {
        self.0.cod(m)
    }

    fn dom(&self, f: &V) -> (r: V) {
        *f
    }

    fn cod(&self, f: &V) -> (r: V) {
        *f
    }

    fn op_src(&self, a: &Path<V, FinMor<V, E>>) -> (r: V) {
        match a {
            Path::Id(x) => *x,
            Path::Chain(ms) => self.0.dom(&ms[0]),
        }
    }

    fn op_tgt(&self, a: &Path<V, FinMor<V, E>>) -> (r: V) {
        match a {
            Path::Id(x) => *x,
            Path::Chain(ms) => self.0.cod(&ms[ms.len() - 1]),
        }
    }

    fn op_dom(&self, a: &Path<V, FinMor<V, E>>) -> (r: Path<V, FinMor<V, E>>) {
        a.duplicate()
    }

    fn op_cod(&self, a: &Path<V, FinMor<V, E>>) -> (r: FinMor<V, E>) {
        self.0.compose(a).unwrap()
    }

    fn compose_types(&self, path: Path<V, FinMor<V, E>>) -> (r: Option<FinMor<V, E>>) {
        self.0.compose(&path)
    }

    fn hom_type(&self, x: V) -> (r: FinMor<V, E>) {
        FinMor::Id(x)
    }

    #[verifier::loop_isolation(false)]
    fn compose_ob_ops(&self, path: Path<V, V>) -> (r: V) {
        match path {
            Path::Id(x) => x,
            Path::Chain(xs) => {
                let ghost op = compose2_discrete_op::<V>();
                let x = xs[0];
                let mut i: usize = 1;
                proof {
                    assert(xs@.take(1) =~= seq![xs@[0]]);
                }
                while i < xs.len()
                    invariant
                        1 <= i <= xs@.len(),
                        op == compose2_discrete_op::<V>(),
                        fold_path(xs@.take(i as int), op) == Some(x),
                    decreases xs@.len() - i,
                {
                    proof {
                        lemma_fold_path_step(xs@, op, i as int);
                        if fold_path(xs@.take(i + 1), op) is None {
                            lemma_fold_path_prefix(xs@, op, i + 1);
                        }
                    }
                    let same_ob = same(&x, &xs[i]);
                    proof {
                        assert(same_ob);
                    }
                    i = i + 1;
                }
                proof {
                    assert(xs@.take(i as int) =~= xs@);
                }
                x
            },
        }
    }

    fn id_ob_op(&self, x: V) -> (r: V) {
        x
    }

    fn hom_op(&self, f: V) -> (r: Path<V, FinMor<V, E>>) {
        Path::Id(f)
    }

    fn id_mor_op(&self, m: FinMor<V, E>) -> (r: Path<V, FinMor<V, E>>) {
        Path::single(m)
    }

    proof fn lemma_hom_type_is_unit(&self, x: V) {
    }

    proof fn lemma_op_boundary(&self, a: Path<V, FinMor<V, E>>) {
    }

    proof fn lemma_id_ob_op_is_unit(&self, x: V) {
    }
}

} // verus!
