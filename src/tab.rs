//! Discrete tabulator theories.
//!
//! A discrete tabulator theory is a small double category with tabulators and
//! with no arrows or cells beyond the identities and the tabulator
//! projections. Its object types are basic ones and tabulators of morphism
//! types; its morphism types are basic ones and hom types of object types.

use vstd::laws_eq::obeys_concrete_eq;
use vstd::prelude::*;

use crate::labels::lemma_pair_eq;
use crate::path::{Path, PathView, fold_path, lemma_fold_path_prefix, lemma_fold_path_step};
use crate::tables::{Column, FinSet};
use crate::theory::DblTheory;

verus! {

/// Object type in a discrete tabulator theory.
#[derive(Debug, PartialEq, Eq, Hash)]
pub enum TabObType<V, E> {
    /// Basic or generating object type.
    Basic(V),
    /// Tabulator of a morphism type.
    Tabulator(Box<TabMorType<V, E>>),
}

/// Morphism type in a discrete tabulator theory.
#[derive(Debug, PartialEq, Eq, Hash)]
pub enum TabMorType<V, E> {
    /// Basic or generating morphism type.
    Basic(E),
    /// Hom type on an object type.
    Hom(Box<TabObType<V, E>>),
}

/// Object operation in a discrete tabulator theory.
#[derive(Debug, PartialEq, Eq)]
pub enum TabObOp<V, E> {
    /// Identity operation on an object type.
    Id(TabObType<V, E>),
    /// Projection from tabulator onto source of morphism type.
    ProjSrc(TabMorType<V, E>),
    /// Projection from tabulator onto target of morphism type.
    ProjTgt(TabMorType<V, E>),
}

/// Morphism operation in a discrete tabulator theory.
#[derive(Debug, PartialEq, Eq)]
pub enum TabMorOp<V, E> {
    /// Identity operation on a morphism type.
    Id(TabMorType<V, E>),
    /// Hom operation on an object operation.
    Hom(TabObOp<V, E>),
    /// Projection from tabulator onto morphism type.
    Proj(TabMorType<V, E>),
}

impl<V: Copy, E: Copy> TabObType<V, E> {
    /// A copy of the object type.
    pub fn duplicate(&self) -> (r: Self)
        ensures
            r == *self,
        decreases self,
    {
        match self {
            TabObType::Basic(v) => TabObType::Basic(*v),
            TabObType::Tabulator(m) => TabObType::Tabulator(Box::new((**m).duplicate())),
        }
    }
}

impl<V: Copy, E: Copy> TabMorType<V, E> {
    /// A copy of the morphism type.
    pub fn duplicate(&self) -> (r: Self)
        ensures
            r == *self,
        decreases self,
    {
        match self {
            TabMorType::Basic(e) => TabMorType::Basic(*e),
            TabMorType::Hom(x) => TabMorType::Hom(Box::new((**x).duplicate())),
        }
    }
}

impl<V: Copy, E: Copy> TabObOp<V, E> {
    /// A copy of the operation.
    pub fn duplicate(&self) -> (r: Self)
        ensures
            r == *self,
    {
        match self {
            TabObOp::Id(x) => TabObOp::Id(x.duplicate()),
            TabObOp::ProjSrc(m) => TabObOp::ProjSrc(m.duplicate()),
            TabObOp::ProjTgt(m) => TabObOp::ProjTgt(m.duplicate()),
        }
    }
}


impl<V: Copy, E: Copy> TabMorOp<V, E> {
    /// A copy of the operation.
    pub fn duplicate(&self) -> (r: Self)
        ensures
            r == *self,
    {
        match self {
            TabMorOp::Id(m) => TabMorOp::Id(m.duplicate()),
            TabMorOp::Hom(f) => TabMorOp::Hom(f.duplicate()),
            TabMorOp::Proj(m) => TabMorOp::Proj(m.duplicate()),
        }
    }
}

impl<V: Copy, E: Copy> Clone for TabObType<V, E> {
    fn clone(&self) -> Self {
        self.duplicate()
    }
}

impl<V: Copy, E: Copy> Clone for TabMorType<V, E> {
    fn clone(&self) -> Self {
        self.duplicate()
    }
}

impl<V: Copy, E: Copy> Clone for TabObOp<V, E> {
    fn clone(&self) -> Self {
        self.duplicate()
    }
}

impl<V: Copy, E: Copy> Clone for TabMorOp<V, E> {
    fn clone(&self) -> Self {
        self.duplicate()
    }
}


/// A discrete tabulator theory.
///
/// Loosely speaking, a discrete double theory extended to allow tabulators.
/// Tabulators are computed, not stored: the theory holds its basic object and
/// morphism types, the source and target of basic morphism types, and the
/// composites of pairs of basic morphism types that it defines.
pub struct DiscreteTabTheory<V, E> {
    ob_types: FinSet<V>,
    mor_types: FinSet<E>,
    src: Column<E, TabObType<V, E>>,
    tgt: Column<E, TabObType<V, E>>,
    compose_map: Column<(E, E), TabMorType<V, E>>,
}

impl<V: Eq + Copy, E: Eq + Copy> DiscreteTabTheory<V, E> {
    /// The basic object types.
    pub closed spec fn basic_ob_types(&self) -> Set<V> {
        self.ob_types@
    }

    /// The basic morphism types.
    pub closed spec fn basic_mor_types(&self) -> Set<E> {
        self.mor_types@
    }

    /// The source recorded for a basic morphism type.
    pub closed spec fn basic_src(&self, e: E) -> Option<TabObType<V, E>> {
        self.src.get(e)
    }

    /// The target recorded for a basic morphism type.
    pub closed spec fn basic_tgt(&self, e: E) -> Option<TabObType<V, E>> {
        self.tgt.get(e)
    }

    /// The composite recorded for a pair of basic morphism types.
    pub closed spec fn basic_composite(&self, d: E, e: E) -> Option<TabMorType<V, E>> {
        self.compose_map.get((d, e))
    }

    /// Labels of both kinds compare lawfully.
    pub open spec fn labels_lawful() -> bool {
        obeys_concrete_eq::<V>() && obeys_concrete_eq::<E>()
    }

    /// Does the theory have the object type?
    pub open spec fn ob_type_in(&self, x: TabObType<V, E>) -> bool
        decreases x,
    {
        match x {
            TabObType::Basic(v) => self.basic_ob_types().contains(v),
            TabObType::Tabulator(m) => self.mor_type_in(*m),
        }
    }

    /// Does the theory have the morphism type?
    pub open spec fn mor_type_in(&self, m: TabMorType<V, E>) -> bool
        decreases m,
    {
        match m {
            TabMorType::Basic(e) => self.basic_mor_types().contains(e),
            TabMorType::Hom(x) => self.ob_type_in(*x),
        }
    }

    /// Source of a morphism type: the recorded one of a basic type, the
    /// object type itself of a hom type.
    pub open spec fn src_of(&self, m: TabMorType<V, E>) -> Option<TabObType<V, E>> {
        match m {
            TabMorType::Basic(e) => self.basic_src(e),
            TabMorType::Hom(x) => Some(*x),
        }
    }

    /// Target of a morphism type.
    pub open spec fn tgt_of(&self, m: TabMorType<V, E>) -> Option<TabObType<V, E>> {
        match m {
            TabMorType::Basic(e) => self.basic_tgt(e),
            TabMorType::Hom(x) => Some(*x),
        }
    }

    /// Codomain of an object operation.
    pub open spec fn cod_of(&self, f: TabObOp<V, E>) -> Option<TabObType<V, E>> {
        match f {
            TabObOp::Id(x) => Some(x),
            TabObOp::ProjSrc(m) => self.src_of(m),
            TabObOp::ProjTgt(m) => self.tgt_of(m),
        }
    }

    /// Composite of two morphism types: a hom type on either side is a unit,
    /// and two basic types compose as the table says.
    pub open spec fn compose2_spec(&self, m: TabMorType<V, E>, n: TabMorType<V, E>) -> Option<
        TabMorType<V, E>,
    > {
        match m {
            TabMorType::Hom(_) => Some(n),
            TabMorType::Basic(d) => match n {
                TabMorType::Hom(_) => Some(m),
                TabMorType::Basic(e) => self.basic_composite(d, e),
            },
        }
    }

    /// Composite of two object operations: one of them must be an identity,
    /// which is then a unit.
    pub open spec fn compose2_ob_spec(f: TabObOp<V, E>, g: TabObOp<V, E>) -> Option<
        TabObOp<V, E>,
    > {
        if g is Id {
            Some(f)
        } else if f is Id {
            Some(g)
        } else {
            None
        }
    }

    /// Binary composition of morphism types, as a function.
    pub open spec fn compose2_op(&self) -> spec_fn(TabMorType<V, E>, TabMorType<V, E>) -> Option<
        TabMorType<V, E>,
    > {
        |m: TabMorType<V, E>, n: TabMorType<V, E>| self.compose2_spec(m, n)
    }

    /// Binary composition of object operations, as a function.
    pub open spec fn compose2_ob_op() -> spec_fn(TabObOp<V, E>, TabObOp<V, E>) -> Option<
        TabObOp<V, E>,
    > {
        |f: TabObOp<V, E>, g: TabObOp<V, E>| Self::compose2_ob_spec(f, g)
    }

    /// Creates an empty discrete tabulator theory.
    pub fn new() -> (r: Self)
        ensures
            r.basic_ob_types() == Set::<V>::empty(),
            r.basic_mor_types() == Set::<E>::empty(),
            forall|e: E| r.basic_src(e) is None && r.basic_tgt(e) is None,
            forall|d: E, e: E| r.basic_composite(d, e) is None,
    {
        DiscreteTabTheory {
            ob_types: FinSet::new(),
            mor_types: FinSet::new(),
            src: Column::new(),
            tgt: Column::new(),
            compose_map: Column::new(),
        }
    }

    /// Convenience method to construct the tabulator of a morphism type.
    pub fn tabulator(&self, m: TabMorType<V, E>) -> (r: TabObType<V, E>)
        ensures
            r == TabObType::Tabulator(Box::new(m)),
    {
        TabObType::Tabulator(Box::new(m))
    }

    /// Adds a basic object type to the theory; says whether it was new.
    pub fn add_ob_type(&mut self, v: V) -> (r: bool)
        requires
            Self::labels_lawful(),
        ensures
            r == !old(self).basic_ob_types().contains(v),
            final(self).basic_ob_types() == old(self).basic_ob_types().insert(v),
            final(self).basic_mor_types() == old(self).basic_mor_types(),
            forall|e: E| final(self).basic_src(e) == old(self).basic_src(e),
            forall|e: E| final(self).basic_tgt(e) == old(self).basic_tgt(e),
            forall|d: E, e: E| final(self).basic_composite(d, e) == old(self).basic_composite(d, e),
    {
        self.ob_types.insert(v)
    }

    /// Adds a basic morphism type with its source and target; says whether
    /// the morphism type was new. The source and target are recorded either
    /// way.
    pub fn add_mor_type(&mut self, e: E, src: TabObType<V, E>, tgt: TabObType<V, E>) -> (r: bool)
        requires
            Self::labels_lawful(),
        ensures
            r == !old(self).basic_mor_types().contains(e),
            final(self).basic_mor_types() == old(self).basic_mor_types().insert(e),
            final(self).basic_ob_types() == old(self).basic_ob_types(),
            final(self).basic_src(e) == Some(src),
            final(self).basic_tgt(e) == Some(tgt),
            forall|d: E| d != e ==> final(self).basic_src(d) == old(self).basic_src(d),
            forall|d: E| d != e ==> final(self).basic_tgt(d) == old(self).basic_tgt(d),
            forall|d: E, f: E| final(self).basic_composite(d, f) == old(self).basic_composite(d, f),
    {
        self.src.set(e, src);
        self.tgt.set(e, tgt);
        self.make_mor_type(e)
    }

    /// Adds a basic morphism type without recording its source or target;
    /// says whether it was new.
    pub fn make_mor_type(&mut self, e: E) -> (r: bool)
        requires
            Self::labels_lawful(),
        ensures
            r == !old(self).basic_mor_types().contains(e),
            final(self).basic_mor_types() == old(self).basic_mor_types().insert(e),
            final(self).basic_ob_types() == old(self).basic_ob_types(),
            forall|d: E| final(self).basic_src(d) == old(self).basic_src(d),
            forall|d: E| final(self).basic_tgt(d) == old(self).basic_tgt(d),
            forall|d: E, f: E| final(self).basic_composite(d, f) == old(self).basic_composite(d, f),
    {
        self.mor_types.insert(e)
    }

    fn ob_type_known(&self, x: &TabObType<V, E>) -> (r: bool)
        requires
            Self::labels_lawful(),
        ensures
            r == self.ob_type_in(*x),
        decreases x,
    {
        match x {
            TabObType::Basic(v) => self.ob_types.contains(v),
            TabObType::Tabulator(m) => self.mor_type_known(m),
        }
    }

    fn mor_type_known(&self, m: &TabMorType<V, E>) -> (r: bool)
        requires
            Self::labels_lawful(),
        ensures
            r == self.mor_type_in(*m),
        decreases m,
    {
        match m {
            TabMorType::Basic(e) => self.mor_types.contains(e),
            TabMorType::Hom(x) => self.ob_type_known(x),
        }
    }

    fn compose2_types(&self, m: TabMorType<V, E>, n: TabMorType<V, E>) -> (r: Option<
        TabMorType<V, E>,
    >)
        requires
            Self::labels_lawful(),
        ensures
            r == self.compose2_spec(m, n),
    {
        match m {
            TabMorType::Hom(_) => Some(n),
            TabMorType::Basic(d) => match n {
                TabMorType::Hom(_) => Some(m),
                TabMorType::Basic(e) => {
                    proof {
                        lemma_pair_eq::<E, E>();
                    }
                    match self.compose_map.apply(&(d, e)) {
                        Option::Some(c) => Some(c.duplicate()),
                        Option::None => None,
                    }
                },
            },
        }
    }

    fn compose2_ob_ops(&self, f: TabObOp<V, E>, g: TabObOp<V, E>) -> (r: TabObOp<V, E>)
        requires
            Self::compose2_ob_spec(f, g) is Some,
        ensures
            Self::compose2_ob_spec(f, g) == Some(r),
    {
        if let TabObOp::Id(_) = g {
            f
        } else {
            g
        }
    }
}


impl<V: Eq + Copy, E: Eq + Copy> Default for DiscreteTabTheory<V, E> {
    fn default() -> (r: Self)
        ensures
            r.basic_ob_types() == Set::<V>::empty(),
            r.basic_mor_types() == Set::<E>::empty(),
            forall|e: E| r.basic_src(e) is None && r.basic_tgt(e) is None,
            forall|d: E, e: E| r.basic_composite(d, e) is None,
    {
        Self::new()
    }
}

impl<V: Eq + Copy, E: Eq + Copy> DblTheory for DiscreteTabTheory<V, E> {
    type ObType = TabObType<V, E>;
    type MorType = TabMorType<V, E>;
    type ObOp = TabObOp<V, E>;
    type MorOp = TabMorOp<V, E>;

    open spec fn well_formed(&self) -> bool {
        Self::labels_lawful()
    }

    open spec fn spec_has_ob_type(&self, x: TabObType<V, E>) -> bool {
        self.ob_type_in(x)
    }

    open spec fn spec_has_mor_type(&self, m: TabMorType<V, E>) -> bool {
        self.mor_type_in(m)
    }

    open spec fn spec_has_ob_op(&self, f: TabObOp<V, E>) -> bool {
        match f {
            TabObOp::Id(x) => self.ob_type_in(x),
            TabObOp::ProjSrc(m) => self.mor_type_in(m),
            TabObOp::ProjTgt(m) => self.mor_type_in(m),
        }
    }

    open spec fn spec_has_mor_op(&self, a: TabMorOp<V, E>) -> bool {
        match a {
            TabMorOp::Id(m) => self.mor_type_in(m),
            TabMorOp::Hom(f) => self.spec_has_ob_op(f),
            TabMorOp::Proj(m) => self.mor_type_in(m),
        }
    }

    open spec fn spec_src(&self, m: TabMorType<V, E>) -> Option<TabObType<V, E>> {
        self.src_of(m)
    }

    open spec fn spec_tgt(&self, m: TabMorType<V, E>) -> Option<TabObType<V, E>> {
        self.tgt_of(m)
    }

    open spec fn spec_dom(&self, f: TabObOp<V, E>) -> Option<TabObType<V, E>> {
        match f {
            TabObOp::Id(x) => Some(x),
            TabObOp::ProjSrc(m) => Some(TabObType::Tabulator(Box::new(m))),
            TabObOp::ProjTgt(m) => Some(TabObType::Tabulator(Box::new(m))),
        }
    }

    open spec fn spec_cod(&self, f: TabObOp<V, E>) -> Option<TabObType<V, E>> {
        self.cod_of(f)
    }

    open spec fn spec_op_src(&self, a: TabMorOp<V, E>) -> Option<TabObOp<V, E>> {
        match a {
            TabMorOp::Id(m) => match self.src_of(m) {
                Option::Some(x) => Some(TabObOp::Id(x)),
                Option::None => None,
            },
            TabMorOp::Hom(f) => Some(f),
            TabMorOp::Proj(m) => Some(TabObOp::ProjSrc(m)),
        }
    }

    open spec fn spec_op_tgt(&self, a: TabMorOp<V, E>) -> Option<TabObOp<V, E>> {
        match a {
            TabMorOp::Id(m) => match self.tgt_of(m) {
                Option::Some(x) => Some(TabObOp::Id(x)),
                Option::None => None,
            },
            TabMorOp::Hom(f) => Some(f),
            TabMorOp::Proj(m) => Some(TabObOp::ProjTgt(m)),
        }
    }

    open spec fn spec_op_dom(&self, a: TabMorOp<V, E>) -> Option<
        PathView<TabObType<V, E>, TabMorType<V, E>>,
    > {
        match a {
            TabMorOp::Id(m) => Some(PathView::Chain(seq![m])),
            TabMorOp::Hom(f) => match self.spec_dom(f) {
                Option::Some(x) => Some(PathView::Chain(seq![TabMorType::Hom(Box::new(x))])),
                Option::None => None,
            },
            TabMorOp::Proj(m) => Some(
                PathView::Chain(
                    seq![TabMorType::Hom(Box::new(TabObType::Tabulator(Box::new(m))))],
                ),
            ),
        }
    }

    open spec fn spec_op_cod(&self, a: TabMorOp<V, E>) -> Option<TabMorType<V, E>> {
        match a {
            TabMorOp::Id(m) => Some(m),
            TabMorOp::Proj(m) => Some(m),
            TabMorOp::Hom(f) => match self.cod_of(f) {
                Option::Some(x) => Some(TabMorType::Hom(Box::new(x))),
                Option::None => None,
            },
        }
    }

    open spec fn spec_compose_types(&self, p: PathView<TabObType<V, E>, TabMorType<V, E>>) -> Option<
        TabMorType<V, E>,
    > {
        match p {
            PathView::Id(x) => Some(TabMorType::Hom(Box::new(x))),
            PathView::Chain(ms) => fold_path(ms, self.compose2_op()),
        }
    }

    open spec fn spec_hom_type(&self, x: TabObType<V, E>) -> TabMorType<V, E> {
        TabMorType::Hom(Box::new(x))
    }

    open spec fn spec_compose_ob_ops(&self, p: PathView<TabObType<V, E>, TabObOp<V, E>>) -> Option<
        TabObOp<V, E>,
    > {
        match p {
            PathView::Id(x) => Some(TabObOp::Id(x)),
            PathView::Chain(fs) => fold_path(fs, Self::compose2_ob_op()),
        }
    }

    open spec fn spec_id_ob_op(&self, x: TabObType<V, E>) -> TabObOp<V, E> {
        TabObOp::Id(x)
    }

    open spec fn is_hom_op(&self, f: TabObOp<V, E>, a: TabMorOp<V, E>) -> bool {
        a == TabMorOp::Hom(f)
    }

    open spec fn is_id_mor_op(&self, m: TabMorType<V, E>, a: TabMorOp<V, E>) -> bool {
        a == TabMorOp::Id(m)
    }

    fn has_ob_type(&self, x: &TabObType<V, E>) -> (r: bool) {
        self.ob_type_known(x)
    }

    fn has_mor_type(&self, m: &TabMorType<V, E>) -> (r: bool) {
        self.mor_type_known(m)
    }

    fn has_ob_op(&self, f: &TabObOp<V, E>) -> (r: bool) {
        match f {
            TabObOp::Id(x) => self.ob_type_known(x),
            TabObOp::ProjSrc(m) => self.mor_type_known(m),
            TabObOp::ProjTgt(m) => self.mor_type_known(m),
        }
    }

    fn has_mor_op(&self, a: &TabMorOp<V, E>) -> (r: bool) {
        match a {
            TabMorOp::Id(m) => self.mor_type_known(m),
            TabMorOp::Hom(f) => self.has_ob_op(f),
            TabMorOp::Proj(m) => self.mor_type_known(m),
        }
    }

    fn src(&self, m: &TabMorType<V, E>) -> (r: TabObType<V, E>) {
        match m {
            TabMorType::Basic(e) => self.src.apply(e).unwrap().duplicate(),
            TabMorType::Hom(x) => (**x).duplicate(),
        }
    }

    fn tgt(&self, m: &TabMorType<V, E>) -> (r: TabObType<V, E>) {
        match m {
            TabMorType::Basic(e) => self.tgt.apply(e).unwrap().duplicate(),
            TabMorType::Hom(x) => (**x).duplicate(),
        }
    }

    fn dom(&self, f: &TabObOp<V, E>) -> (r: TabObType<V, E>) {
        match f {
            TabObOp::Id(x) => x.duplicate(),
            TabObOp::ProjSrc(m) => self.tabulator(m.duplicate()),
            TabObOp::ProjTgt(m) => self.tabulator(m.duplicate()),
        }
    }

    fn cod(&self, f: &TabObOp<V, E>) -> (r: TabObType<V, E>) {
        match f {
            TabObOp::Id(x) => x.duplicate(),
            TabObOp::ProjSrc(m) => self.src(m),
            TabObOp::ProjTgt(m) => self.tgt(m),
        }
    }

    fn op_src(&self, a: &TabMorOp<V, E>) -> (r: TabObOp<V, E>) {
        match a {
            TabMorOp::Id(m) => TabObOp::Id(self.src(m)),
            TabMorOp::Hom(f) => f.duplicate(),
            TabMorOp::Proj(m) => TabObOp::ProjSrc(m.duplicate()),
        }
    }

    fn op_tgt(&self, a: &TabMorOp<V, E>) -> (r: TabObOp<V, E>) {
        match a {
            TabMorOp::Id(m) => TabObOp::Id(self.tgt(m)),
            TabMorOp::Hom(f) => f.duplicate(),
            TabMorOp::Proj(m) => TabObOp::ProjTgt(m.duplicate()),
        }
    }

    fn op_dom(&self, a: &TabMorOp<V, E>) -> (r: Path<TabObType<V, E>, TabMorType<V, E>>) {
        match a {
            TabMorOp::Id(m) => Path::single(m.duplicate()),
            TabMorOp::Hom(f) => Path::single(TabMorType::Hom(Box::new(self.dom(f)))),
            TabMorOp::Proj(m) => Path::single(
                TabMorType::Hom(Box::new(self.tabulator(m.duplicate()))),
            ),
        }
    }

    fn op_cod(&self, a: &TabMorOp<V, E>) -> (r: TabMorType<V, E>) {
        match a {
            TabMorOp::Id(m) => m.duplicate(),
            TabMorOp::Proj(m) => m.duplicate(),
            TabMorOp::Hom(f) => TabMorType::Hom(Box::new(self.cod(f))),
        }
    }

    #[verifier::loop_isolation(false)]
    fn compose_types(&self, path: Path<TabObType<V, E>, TabMorType<V, E>>) -> (r: Option<
        TabMorType<V, E>,
    >) {
        match path {
            Path::Id(x) => Some(self.hom_type(x)),
            Path::Chain(ms) => {
                let ghost op = self.compose2_op();
                let mut acc = ms[0].duplicate();
                let mut i: usize = 1;
                proof {
                    assert(ms@.take(1) =~= seq![ms@[0]]);
                }
                while i < ms.len()
                    invariant
                        1 <= i <= ms@.len(),
                        Self::labels_lawful(),
                        op == self.compose2_op(),
                        fold_path(ms@.take(i as int), op) == Some(acc),
                    decreases ms@.len() - i,
                {
                    proof {
                        lemma_fold_path_step(ms@, op, i as int);
                    }
                    match self.compose2_types(acc, ms[i].duplicate()) {
                        Option::Some(c) => {
                            acc = c;
                        },
                        Option::None => {
                            proof {
                                lemma_fold_path_prefix(ms@, op, i + 1);
                            }
                            return None;
                        },
                    }
                    i = i + 1;
                }
                proof {
                    assert(ms@.take(i as int) =~= ms@);
                }
                Some(acc)
            },
        }
    }

    fn hom_type(&self, x: TabObType<V, E>) -> (r: TabMorType<V, E>) {
        TabMorType::Hom(Box::new(x))
    }

    #[verifier::loop_isolation(false)]
    fn compose_ob_ops(&self, path: Path<TabObType<V, E>, TabObOp<V, E>>) -> (r: TabObOp<V, E>) {
        match path {
            Path::Id(x) => self.id_ob_op(x),
            Path::Chain(fs) => {
                let ghost op = Self::compose2_ob_op();
                let mut acc = fs[0].duplicate();
                let mut i: usize = 1;
                proof {
                    assert(fs@.take(1) =~= seq![fs@[0]]);
                }
                while i < fs.len()
                    invariant
                        1 <= i <= fs@.len(),
                        op == Self::compose2_ob_op(),
                        fold_path(fs@, op) is Some,
                        fold_path(fs@.take(i as int), op) == Some(acc),
                    decreases fs@.len() - i,
                {
                    proof {
                        lemma_fold_path_step(fs@, op, i as int);
                        if fold_path(fs@.take(i + 1), op) is None {
                            lemma_fold_path_prefix(fs@, op, i + 1);
                        }
                    }
                    acc = self.compose2_ob_ops(acc, fs[i].duplicate());
                    i = i + 1;
                }
                proof {
                    assert(fs@.take(i as int) =~= fs@);
                }
                acc
            },
        }
    }

    fn id_ob_op(&self, x: TabObType<V, E>) -> (r: TabObOp<V, E>) {
        TabObOp::Id(x)
    }

    fn hom_op(&self, f: TabObOp<V, E>) -> (r: TabMorOp<V, E>) {
        let single = Path::single(f);
        proof {
            assert(seq![f].len() == 1);
        }
        TabMorOp::Hom(self.compose_ob_ops(single))
    }

    fn id_mor_op(&self, m: TabMorType<V, E>) -> (r: TabMorOp<V, E>) {
        TabMorOp::Id(m)
    }

    proof fn lemma_hom_type_is_unit(&self, x: TabObType<V, E>) {
    }

    proof fn lemma_op_boundary(&self, a: TabMorOp<V, E>) {
    }

    proof fn lemma_id_ob_op_is_unit(&self, x: TabObType<V, E>) {
    }
}

} // verus!
