//! Finitely generated categories.
//!
//! A finitely generated category is given by generating objects, generating
//! morphisms with their domain and codomain, and the composites that pairs of
//! generating morphisms have. Its morphisms are identities and generators.

use vstd::laws_eq::obeys_concrete_eq;
use vstd::prelude::*;

use crate::labels::lemma_pair_eq;
use crate::path::{Path, PathView, fold_path, lemma_fold_path_prefix, lemma_fold_path_step};
use crate::tables::{Column, FinSet};

verus! {

/// Morphism in a finitely generated category.
#[derive(Clone, Copy, Debug, PartialEq, Eq, Hash)]
pub enum FinMor<V, E> {
    /// Identity morphism on an object.
    Id(V),
    /// Generating morphism.
    Generator(E),
}

/// A finitely generated category.
pub struct FinCategory<V, E> {
    obs: FinSet<V>,
    generators: FinSet<E>,
    gen_dom: Column<E, V>,
    gen_cod: Column<E, V>,
    composites: Column<(E, E), FinMor<V, E>>,
}

impl<V: Eq + Copy, E: Eq + Copy> FinCategory<V, E> {
    /// The objects.
    pub closed spec fn objects(&self) -> Set<V> {
        self.obs@
    }

    /// The generating morphisms.
    pub closed spec fn generators(&self) -> Set<E> {
        self.generators@
    }

    /// The domain recorded for a generator.
    pub closed spec fn generator_dom(&self, e: E) -> Option<V> {
        self.gen_dom.get(e)
    }

    /// The codomain recorded for a generator.
    pub closed spec fn generator_cod(&self, e: E) -> Option<V> {
        self.gen_cod.get(e)
    }

    /// The composite recorded for a pair of generators.
    pub closed spec fn generator_composite(&self, d: E, e: E) -> Option<FinMor<V, E>> {
        self.composites.get((d, e))
    }

    /// Labels of both kinds compare lawfully.
    pub open spec fn labels_lawful() -> bool {
        obeys_concrete_eq::<V>() && obeys_concrete_eq::<E>()
    }

    /// Does the category have the morphism?
    pub open spec fn mor_in(&self, m: FinMor<V, E>) -> bool {
        match m {
            FinMor::Id(x) => self.objects().contains(x),
            FinMor::Generator(e) => self.generators().contains(e),
        }
    }

    /// Domain of a morphism.
    pub open spec fn dom_of(&self, m: FinMor<V, E>) -> Option<V> {
        match m {
            FinMor::Id(x) => Some(x),
            FinMor::Generator(e) => self.generator_dom(e),
        }
    }

    /// Codomain of a morphism.
    pub open spec fn cod_of(&self, m: FinMor<V, E>) -> Option<V> {
        match m {
            FinMor::Id(x) => Some(x),
            FinMor::Generator(e) => self.generator_cod(e),
        }
    }

    /// Composite of two morphisms: identities are units, and two generators
    /// compose as recorded.
    pub open spec fn compose2_spec(&self, m: FinMor<V, E>, n: FinMor<V, E>) -> Option<
        FinMor<V, E>,
    > {
        match m {
            FinMor::Id(_) => Some(n),
            FinMor::Generator(d) => match n {
                FinMor::Id(_) => Some(m),
                FinMor::Generator(e) => self.generator_composite(d, e),
            },
        }
    }

    /// Binary composition, as a function.
    pub open spec fn compose2_op(&self) -> spec_fn(FinMor<V, E>, FinMor<V, E>) -> Option<
        FinMor<V, E>,
    > {
        |m: FinMor<V, E>, n: FinMor<V, E>| self.compose2_spec(m, n)
    }

    /// Composite of a path of morphisms, if every step has one.
    pub open spec fn composite(&self, p: PathView<V, FinMor<V, E>>) -> Option<FinMor<V, E>> {
        match p {
            PathView::Id(x) => Some(FinMor::Id(x)),
            PathView::Chain(ms) => fold_path(ms, self.compose2_op()),
        }
    }

    /// Creates a category with no generators.
    pub fn new() -> (r: Self)
        ensures
            r.objects() == Set::<V>::empty(),
            r.generators() == Set::<E>::empty(),
            forall|e: E| r.generator_dom(e) is None && r.generator_cod(e) is None,
            forall|d: E, e: E| r.generator_composite(d, e) is None,
    {
        FinCategory {
            obs: FinSet::new(),
            generators: FinSet::new(),
            gen_dom: Column::new(),
            gen_cod: Column::new(),
            composites: Column::new(),
        }
    }

    /// Adds a generating object; says whether it was new.
    pub fn add_ob_generator(&mut self, v: V) -> (r: bool)
        requires
            Self::labels_lawful(),
        ensures
            r == !old(self).objects().contains(v),
            final(self).objects() == old(self).objects().insert(v),
            final(self).generators() == old(self).generators(),
            forall|e: E| final(self).generator_dom(e) == old(self).generator_dom(e),
            forall|e: E| final(self).generator_cod(e) == old(self).generator_cod(e),
            forall|d: E, e: E|
                final(self).generator_composite(d, e) == old(self).generator_composite(d, e),
    {
        self.obs.insert(v)
    }

    /// Adds a generating morphism with its domain and codomain; says whether
    /// it was new. The domain and codomain are recorded either way.
    pub fn add_mor_generator(&mut self, e: E, dom: V, cod: V) -> (r: bool)
        requires
            Self::labels_lawful(),
        ensures
            r == !old(self).generators().contains(e),
            final(self).generators() == old(self).generators().insert(e),
            final(self).objects() == old(self).objects(),
            final(self).generator_dom(e) == Some(dom),
            final(self).generator_cod(e) == Some(cod),
            forall|d: E| d != e ==> final(self).generator_dom(d) == old(self).generator_dom(d),
            forall|d: E| d != e ==> final(self).generator_cod(d) == old(self).generator_cod(d),
            forall|d: E, f: E|
                final(self).generator_composite(d, f) == old(self).generator_composite(d, f),
    {
        self.gen_dom.set(e, dom);
        self.gen_cod.set(e, cod);
        self.generators.insert(e)
    }

    /// Records the composite of two generators.
    pub fn set_composite(&mut self, d: E, e: E, f: FinMor<V, E>)
        requires
            Self::labels_lawful(),
        ensures
            final(self).generator_composite(d, e) == Some(f),
            forall|a: E, b: E|
                (a, b) != (d, e) ==> final(self).generator_composite(a, b)
                    == old(self).generator_composite(a, b),
            final(self).objects() == old(self).objects(),
            final(self).generators() == old(self).generators(),
            forall|a: E| final(self).generator_dom(a) == old(self).generator_dom(a),
            forall|a: E| final(self).generator_cod(a) == old(self).generator_cod(a),
    {
        proof {
            lemma_pair_eq::<E, E>();
        }
        self.composites.set((d, e), f);
    }

    /// Does the category have the object?
    pub fn has_ob(&self, x: &V) -> (r: bool)
        requires
            Self::labels_lawful(),
        ensures
            r == self.objects().contains(*x),
    {
        self.obs.contains(x)
    }

    /// Does the category have the morphism?
    pub fn has_mor(&self, m: &FinMor<V, E>) -> (r: bool)
        requires
            Self::labels_lawful(),
        ensures
            r == self.mor_in(*m),
    {
        match m {
            FinMor::Id(x) => self.obs.contains(x),
            FinMor::Generator(e) => self.generators.contains(e),
        }
    }

    /// Domain of a morphism.
    pub fn dom(&self, m: &FinMor<V, E>) -> (r: V)
        requires
            Self::labels_lawful(),
            self.dom_of(*m) is Some,
        ensures
            self.dom_of(*m) == Some(r),
    {
        match m {
            FinMor::Id(x) => *x,
            FinMor::Generator(e) => *self.gen_dom.apply(e).unwrap(),
        }
    }

    /// Codomain of a morphism.
    pub fn cod(&self, m: &FinMor<V, E>) -> (r: V)
        requires
            Self::labels_lawful(),
            self.cod_of(*m) is Some,
        ensures
            self.cod_of(*m) == Some(r),
    {
        match m {
            FinMor::Id(x) => *x,
            FinMor::Generator(e) => *self.gen_cod.apply(e).unwrap(),
        }
    }

    fn compose2(&self, m: FinMor<V, E>, n: FinMor<V, E>) -> (r: Option<FinMor<V, E>>)
        requires
            Self::labels_lawful(),
        ensures
            r == self.compose2_spec(m, n),
    {
        match m {
            FinMor::Id(_) => Some(n),
            FinMor::Generator(d) => match n {
                FinMor::Id(_) => Some(m),
                FinMor::Generator(e) => {
                    proof {
                        lemma_pair_eq::<E, E>();
                    }
                    match self.composites.apply(&(d, e)) {
                        Option::Some(c) => Some(*c),
                        Option::None => None,
                    }
                },
            },
        }
    }

    /// Composes a path of morphisms, if every step has a composite.
    pub fn compose(&self, path: &Path<V, FinMor<V, E>>) -> (r: Option<FinMor<V, E>>)
        requires
            Self::labels_lawful(),
            path@.wf(),
        ensures
            r == self.composite(path@),
    {
        match path {
            Path::Id(x) => Some(FinMor::Id(*x)),
            Path::Chain(ms) => {
                let ghost op = self.compose2_op();
                let mut acc = ms[0];
                let mut i: usize = 1;
                proof {
                    assert(ms@.take(1) =~= seq![ms@[0]]);
                }
                while i < ms.len()
                    invariant
                        1 <= i <= ms@.len(),
                        Self::labels_lawful(),
                        op == self.compose2_op(),
                        path@ == PathView::<V, FinMor<V, E>>::Chain(ms@),
                        fold_path(ms@.take(i as int), op) == Some(acc),
                    decreases ms@.len() - i,
                {
                    proof {
                        lemma_fold_path_step(ms@, op, i as int);
                    }
                    match self.compose2(acc, ms[i]) {
                        Option::Some(c) => {
                            acc = c;
                        },
                        Option::None => {
                            proof {
                                lemma_fold_path_prefix(ms@, op, i + 1);
                            }
                            return None;
                        },
                    }
                    i = i + 1;
                }
                proof {
                    assert(ms@.take(i as int) =~= ms@);
                }
                Some(acc)
            },
        }
    }
}

impl<V: Eq + Copy, E: Eq + Copy> Default for FinCategory<V, E> {
    fn default() -> (r: Self)
        ensures
            r.objects() == Set::<V>::empty(),
            r.generators() == Set::<E>::empty(),
            forall|e: E| r.generator_dom(e) is None && r.generator_cod(e) is None,
            forall|d: E, e: E| r.generator_composite(d, e) is None,
    {
        Self::new()
    }
}

} // verus!
