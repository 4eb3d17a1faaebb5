//! The interface that every double theory offers.
//!
//! A double theory has four kinds of things: object types, morphism types
//! (each with a source and a target object type), object operations (each
//! with a domain and a codomain object type) and morphism operations (each
//! with a source and a target object operation, a path of morphism types as
//! its domain and one morphism type as its codomain). Morphism types compose
//! along paths, where the theory has a composite; object operations compose
//! along paths too.

use vstd::prelude::*;

use crate::path::{Path, PathView};

verus! {

/// A double theory.
pub trait DblTheory: Sized {
    /// Object types of the theory.
    type ObType;
    /// Morphism types of the theory.
    type MorType;
    /// Operations on objects.
    type ObOp;
    /// Operations on morphisms.
    type MorOp;

    /// The theory's own tables are coherent, and its labels compare lawfully.
    spec fn well_formed(&self) -> bool;

    spec fn spec_has_ob_type(&self, x: Self::ObType) -> bool;

    spec fn spec_has_mor_type(&self, m: Self::MorType) -> bool;

    spec fn spec_has_ob_op(&self, f: Self::ObOp) -> bool;

    spec fn spec_has_mor_op(&self, a: Self::MorOp) -> bool;

    /// Source of a morphism type, where the theory gives one.
    spec fn spec_src(&self, m: Self::MorType) -> Option<Self::ObType>;

    /// Target of a morphism type, where the theory gives one.
    spec fn spec_tgt(&self, m: Self::MorType) -> Option<Self::ObType>;

    /// Domain of an object operation, where the theory gives one.
    spec fn spec_dom(&self, f: Self::ObOp) -> Option<Self::ObType>;

    /// Codomain of an object operation, where the theory gives one.
    spec fn spec_cod(&self, f: Self::ObOp) -> Option<Self::ObType>;

    spec fn spec_op_src(&self, a: Self::MorOp) -> Option<Self::ObOp>;

    spec fn spec_op_tgt(&self, a: Self::MorOp) -> Option<Self::ObOp>;

    spec fn spec_op_dom(&self, a: Self::MorOp) -> Option<PathView<Self::ObType, Self::MorType>>;

    spec fn spec_op_cod(&self, a: Self::MorOp) -> Option<Self::MorType>;

    /// The composite of a path of morphism types, if the theory has one.
    spec fn spec_compose_types(&self, p: PathView<Self::ObType, Self::MorType>) -> Option<
        Self::MorType,
    >;

    /// The hom type on an object type.
    spec fn spec_hom_type(&self, x: Self::ObType) -> Self::MorType;

    /// The composite of a path of object operations, if it is well typed.
    spec fn spec_compose_ob_ops(&self, p: PathView<Self::ObType, Self::ObOp>) -> Option<
        Self::ObOp,
    >;

    /// The identity operation on an object type.
    spec fn spec_id_ob_op(&self, x: Self::ObType) -> Self::ObOp;

    /// `a` is the hom operation of the object operation `f`.
    spec fn is_hom_op(&self, f: Self::ObOp, a: Self::MorOp) -> bool;

    /// `a` is the identity operation on the morphism type `m`.
    spec fn is_id_mor_op(&self, m: Self::MorType, a: Self::MorOp) -> bool;

    /// Does the object type belong to the theory?
    fn has_ob_type(&self, x: &Self::ObType) -> (r: bool)
        requires
            self.well_formed(),
        ensures
            r == self.spec_has_ob_type(*x),
    ;

    /// Does the morphism type belong to the theory?
    fn has_mor_type(&self, m: &Self::MorType) -> (r: bool)
        requires
            self.well_formed(),
        ensures
            r == self.spec_has_mor_type(*m),
    ;

    /// Does the object operation belong to the theory?
    fn has_ob_op(&self, f: &Self::ObOp) -> (r: bool)
        requires
            self.well_formed(),
        ensures
            r == self.spec_has_ob_op(*f),
    ;

    /// Does the morphism operation belong to the theory?
    fn has_mor_op(&self, a: &Self::MorOp) -> (r: bool)
        requires
            self.well_formed(),
        ensures
            r == self.spec_has_mor_op(*a),
    ;

    /// Source of a morphism type.
    fn src(&self, m: &Self::MorType) -> (r: Self::ObType)
        requires
            self.well_formed(),
            self.spec_src(*m) is Some,
        ensures
            self.spec_src(*m) == Some(r),
    ;

    /// Target of a morphism type.
    fn tgt(&self, m: &Self::MorType) -> (r: Self::ObType)
        requires
            self.well_formed(),
            self.spec_tgt(*m) is Some,
        ensures
            self.spec_tgt(*m) == Some(r),
    ;

    /// Domain of an operation on objects.
    fn dom(&self, f: &Self::ObOp) -> (r: Self::ObType)
        requires
            self.well_formed(),
            self.spec_dom(*f) is Some,
        ensures
            self.spec_dom(*f) == Some(r),
    ;

    /// Codomain of an operation on objects.
    fn cod(&self, f: &Self::ObOp) -> (r: Self::ObType)
        requires
            self.well_formed(),
            self.spec_cod(*f) is Some,
        ensures
            self.spec_cod(*f) == Some(r),
    ;

    /// Source operation of an operation on morphisms.
    fn op_src(&self, a: &Self::MorOp) -> (r: Self::ObOp)
        requires
            self.well_formed(),
            self.spec_op_src(*a) is Some,
        ensures
            self.spec_op_src(*a) == Some(r),
    ;

    /// Target operation of an operation on morphisms.
    fn op_tgt(&self, a: &Self::MorOp) -> (r: Self::ObOp)
        requires
            self.well_formed(),
            self.spec_op_tgt(*a) is Some,
        ensures
            self.spec_op_tgt(*a) == Some(r),
    ;

    /// Domain of an operation on morphisms, a path of morphism types.
    fn op_dom(&self, a: &Self::MorOp) -> (r: Path<Self::ObType, Self::MorType>)
        requires
            self.well_formed(),
            self.spec_op_dom(*a) is Some,
        ensures
            self.spec_op_dom(*a) == Some(r@),
    ;

    /// Codomain of an operation on morphisms, a single morphism type.
    fn op_cod(&self, a: &Self::MorOp) -> (r: Self::MorType)
        requires
            self.well_formed(),
            self.spec_op_cod(*a) is Some,
        ensures
            self.spec_op_cod(*a) == Some(r),
    ;

    /// Composes a path of morphism types, if they have a composite.
    fn compose_types(&self, path: Path<Self::ObType, Self::MorType>) -> (r: Option<Self::MorType>)
        requires
            self.well_formed(),
            path@.wf(),
        ensures
            r == self.spec_compose_types(path@),
    ;

    /// Hom morphism type on an object type.
    fn hom_type(&self, x: Self::ObType) -> (r: Self::MorType)
        requires
            self.well_formed(),
        ensures
            r == self.spec_hom_type(x),
    ;

    /// Composes a well-typed path of operations on objects.
    fn compose_ob_ops(&self, path: Path<Self::ObType, Self::ObOp>) -> (r: Self::ObOp)
        requires
            self.well_formed(),
            path@.wf(),
            self.spec_compose_ob_ops(path@) is Some,
        ensures
            self.spec_compose_ob_ops(path@) == Some(r),
    ;

    /// Identity operation on an object type.
    fn id_ob_op(&self, x: Self::ObType) -> (r: Self::ObOp)
        requires
            self.well_formed(),
        ensures
            r == self.spec_id_ob_op(x),
    ;

    /// Hom operation on an object operation.
    fn hom_op(&self, f: Self::ObOp) -> (r: Self::MorOp)
        requires
            self.well_formed(),
        ensures
            self.is_hom_op(f, r),
    ;

    /// Identity operation on a morphism type.
    fn id_mor_op(&self, m: Self::MorType) -> (r: Self::MorOp)
        requires
            self.well_formed(),
        ensures
            self.is_id_mor_op(m, r),
    ;

    /// The hom type on an object type is the composite of the empty path
    /// there.
    proof fn lemma_hom_type_is_unit(&self, x: Self::ObType)
        requires
            self.well_formed(),
        ensures
            self.spec_compose_types(PathView::Id(x)) == Some(self.spec_hom_type(x)),
    ;

    /// The source and target operations of a morphism operation start where
    /// its domain path starts and where it ends.
    proof fn lemma_op_boundary(&self, a: Self::MorOp)
        requires
            self.well_formed(),
            self.spec_op_dom(a) is Some,
        ensures
            self.spec_op_src(a) is Some ==> self.spec_dom(self.spec_op_src(a)->0) == match self.spec_op_dom(
                a,
            )->0 {
                PathView::Id(x) => Some(x),
                PathView::Chain(ms) => self.spec_src(ms[0]),
            },
            self.spec_op_tgt(a) is Some ==> self.spec_dom(self.spec_op_tgt(a)->0) == match self.spec_op_dom(
                a,
            )->0 {
                PathView::Id(x) => Some(x),
                PathView::Chain(ms) => self.spec_tgt(ms.last()),
            },
    ;

    /// The identity operation on an object type is the composite of the
    /// empty path there.
    proof fn lemma_id_ob_op_is_unit(&self, x: Self::ObType)
        requires
            self.well_formed(),
        ensures
            self.spec_compose_ob_ops(PathView::Id(x)) == Some(self.spec_id_ob_op(x)),
    ;
}

} // verus!
