//! Trees with boundary: pending composites of operations.
//!
//! A nonempty composite is an ordered tree whose nodes carry an optional
//! operation. A node labelled `None` with no children is an open slot of the
//! composite, part of its boundary. The shape of such a tree is stated through
//! its preorder listing, each node written as its label and its number of
//! children; that listing determines the tree.

use std::collections::VecDeque;
use vstd::laws_eq::obeys_concrete_eq;
use vstd::prelude::*;

use crate::labels::same;

verus! {

/// An ordered tree whose nodes each carry a value.
#[derive(Debug, PartialEq, Eq)]
pub struct Tree<T> {
    pub value: T,
    pub children: Vec<Tree<T>>,
}

/// An open tree, or tree with boundary.
#[derive(Debug, PartialEq, Eq)]
pub enum OpenTree<Ty, Op> {
    /// The identity, or empty, tree on a type.
    Id(Ty),
    /// A nonempty tree, representing a nonempty composite of operations.
    Comp(Tree<Option<Op>>),
}

/// What an open tree is, up to isomorphism: an identity on a type, or the
/// preorder listing of a nonempty tree.
pub enum OpenShape<Ty, Op> {
    Id(Ty),
    Comp(Seq<(Option<Op>, nat)>),
}

/// The preorder listing of a tree: each node as its value and its number of
/// children, a node before its children, children left to right.
pub open spec fn preorder<T>(t: Tree<T>) -> Seq<(T, nat)>
    decreases t,
{
    seq![(t.value, t.children@.len())] + preorder_all(t.children@)
}

/// The preorder listings of a sequence of trees, one after the other.
pub open spec fn preorder_all<T>(ts: Seq<Tree<T>>) -> Seq<(T, nat)>
    decreases ts,
{
    if ts.len() == 0 {
        seq![]
    } else {
        preorder_all(ts.drop_last()) + preorder(ts.last())
    }
}

/// An entry of a preorder listing that stands for a boundary slot.
pub open spec fn is_slot<T>(e: (Option<T>, nat)) -> bool {
    e.0 is None && e.1 == 0
}

/// The number of boundary slots in a listing.
pub open spec fn slot_count<T>(p: Seq<(Option<T>, nat)>) -> nat
    decreases p.len(),
{
    if p.len() == 0 {
        0
    } else {
        (if is_slot(p[0]) { 1nat } else { 0nat }) + slot_count(p.drop_first())
    }
}

/// The listing `p` with its slots replaced, in order, by the listings in
/// `args`.
pub open spec fn fill<T>(p: Seq<(Option<T>, nat)>, args: Seq<Seq<(Option<T>, nat)>>) -> Seq<
    (Option<T>, nat),
>
    decreases p.len(),
{
    if p.len() == 0 {
        seq![]
    } else if is_slot(p[0]) {
        args[0] + fill(p.drop_first(), args.drop_first())
    } else {
        seq![p[0]] + fill(p.drop_first(), args)
    }
}

/// The preorder listings of a sequence of trees, each on its own.
pub open spec fn preorders<T>(ts: Seq<Tree<T>>) -> Seq<Seq<(T, nat)>> {
    ts.map_values(|t: Tree<T>| preorder(t))
}


proof fn lemma_slot_count_append<T>(a: Seq<(Option<T>, nat)>, b: Seq<(Option<T>, nat)>)
    ensures
        slot_count(a + b) == slot_count(a) + slot_count(b),
    decreases a.len(),
{
    if a.len() == 0 {
        assert(a + b =~= b);
    } else {
        assert((a + b).drop_first() =~= a.drop_first() + b);
        lemma_slot_count_append(a.drop_first(), b);
    }
}

proof fn lemma_fill_append<T>(
    a: Seq<(Option<T>, nat)>,
    b: Seq<(Option<T>, nat)>,
    xs: Seq<Seq<(Option<T>, nat)>>,
)
    requires
        slot_count(a) <= xs.len(),
    ensures
        fill(a + b, xs) == fill(a, xs.take(slot_count(a) as int)) + fill(
            b,
            xs.skip(slot_count(a) as int),
        ),
    decreases a.len(),
{
    let n = slot_count(a) as int;
    if a.len() == 0 {
        assert(a + b =~= b);
        assert(xs.skip(0) =~= xs);
        assert(fill(a, xs.take(0)) =~= seq![]);
    } else {
        assert((a + b).drop_first() =~= a.drop_first() + b);
        assert((a + b)[0] == a[0]);
        if is_slot(a[0]) {
            let ys = xs.drop_first();
            lemma_fill_append(a.drop_first(), b, ys);
            assert(xs.take(n).drop_first() =~= ys.take(n - 1));
            assert(ys.skip(n - 1) =~= xs.skip(n));
            assert(fill(a + b, xs) =~= fill(a, xs.take(n)) + fill(b, xs.skip(n)));
        } else {
            lemma_fill_append(a.drop_first(), b, xs);
            assert(fill(a + b, xs) =~= fill(a, xs.take(n)) + fill(b, xs.skip(n)));
        }
    }
}

proof fn lemma_preorder_all_append<T>(a: Seq<Tree<T>>, b: Seq<Tree<T>>)
    ensures
        preorder_all(a + b) == preorder_all(a) + preorder_all(b),
    decreases b.len(),
{
    if b.len() == 0 {
        assert(a + b =~= a);
        assert(preorder_all(a) + preorder_all(b) =~= preorder_all(a));
    } else {
        assert((a + b).drop_last() =~= a + b.drop_last());
        lemma_preorder_all_append(a, b.drop_last());
        assert(preorder_all(a + b) =~= preorder_all(a) + preorder_all(b));
    }
}


/// Replaces the boundary slots of `t`, in order, by trees taken from the front
/// of `args`, one for each slot.
#[verifier::loop_isolation(false)]
fn fill_boundary<Op>(t: Tree<Option<Op>>, args: &mut VecDeque<Tree<Option<Op>>>) -> (r: Tree<
    Option<Op>,
>)
    requires
        slot_count(preorder(t)) <= old(args)@.len(),
    ensures
        final(args)@ == old(args)@.skip(slot_count(preorder(t)) as int),
        preorder(r) == fill(
            preorder(t),
            preorders(old(args)@).take(slot_count(preorder(t)) as int),
        ),
    decreases t,
{
    let ghost whole = t;
    let ghost args0 = args@;
    let ghost xs = preorders(args0);
    if t.value.is_none() && t.children.len() == 0 {
        proof {
            assert(preorder_all(t.children@) =~= seq![]);
            assert(preorder(t) =~= seq![(t.value, 0nat)]);
            assert(slot_count(preorder(t)) == 1) by {
                reveal_with_fuel(slot_count, 2);
            }
        }
        let a = args.pop_front().unwrap();
        proof {
            assert(fill(preorder(whole), xs.take(1)) =~= xs[0]) by {
                reveal_with_fuel(fill, 2);
            }
        }
        return a;
    }
    let Tree { value, mut children } = t;
    let ghost cs = children@;
    let mut filled: Vec<Tree<Option<Op>>> = Vec::new();
    let ghost mut k: int = 0;
    let ghost mut used: int = 0;
    proof {
        assert(cs.take(0) =~= seq![]);
        assert(cs.skip(0) =~= cs);
        assert(filled@ =~= seq![]);
        assert(xs.take(0) =~= seq![]);
        assert(args@.skip(0) =~= args@);
        assert(preorder_all(cs.take(0)) =~= seq![]);
        assert(preorder(whole) =~= seq![(whole.value, cs.len())] + preorder_all(cs));
        assert(!is_slot(preorder(whole)[0]));
        assert(preorder(whole).drop_first() =~= preorder_all(cs));
    }
    while children.len() > 0
        invariant
            0 <= k <= cs.len(),
            children@ == cs.skip(k),
            filled@.len() == k,
            used == slot_count(preorder_all(cs.take(k))),
            slot_count(preorder_all(cs)) <= args0.len(),
            args@ == args0.skip(used),
            xs == preorders(args0),
            preorder_all(filled@) == fill(preorder_all(cs.take(k)), xs.take(used)),
            whole.children@ == cs,
        decreases children.len(),
    {
        let c = children.remove(0);
        proof {
            assert(c == cs[k]);
            assert(cs =~= cs.take(k) + seq![c] + cs.skip(k + 1));
            lemma_preorder_all_append(cs.take(k) + seq![c], cs.skip(k + 1));
            lemma_preorder_all_append(cs.take(k), seq![c]);
            assert(seq![c].drop_last() =~= Seq::<Tree<Option<Op>>>::empty());
            assert(seq![c].last() == c);
            assert(preorder_all(Seq::<Tree<Option<Op>>>::empty()) =~= seq![]);
            assert(preorder_all(seq![c]) =~= preorder(c));
            lemma_slot_count_append(
                preorder_all(cs.take(k)) + preorder(c),
                preorder_all(cs.skip(k + 1)),
            );
            lemma_slot_count_append(preorder_all(cs.take(k)), preorder(c));
            assert(decreases_to!(whole => whole.children));
            assert(decreases_to!(whole.children => whole.children@));
            assert(decreases_to!(whole.children@ => whole.children@[k]));
            assert(decreases_to!(whole => c));
        }
        let ghost mid = args@;
        let fc = fill_boundary(c, args);
        proof {
            let n = slot_count(preorder(c)) as int;
            assert(preorders(mid).take(n) =~= xs.subrange(used, used + n));
            assert(args@ =~= args0.skip(used + n));
            assert(cs.take(k + 1) =~= cs.take(k).push(c));
            assert(cs.take(k + 1).drop_last() =~= cs.take(k));
            let ys = xs.take(used + n);
            lemma_fill_append(preorder_all(cs.take(k)), preorder(c), ys);
            assert(ys.take(used) =~= xs.take(used));
            assert(ys.skip(used) =~= xs.subrange(used, used + n));
            assert(filled@.push(fc).drop_last() =~= filled@);
            assert(children@ =~= cs.skip(k + 1));
        }
        filled.push(fc);
        proof {
            k = k + 1;
            used = used + slot_count(preorder(c));
        }
    }
    proof {
        assert(cs.take(k) =~= cs);
        let n = slot_count(preorder(whole)) as int;
        assert(preorder(whole) =~= seq![(whole.value, cs.len())] + preorder_all(cs));
        assert(!is_slot(preorder(whole)[0]));
        assert(preorder(whole).drop_first() =~= preorder_all(cs));
        assert(n == used);
        assert(fill(preorder(whole), xs.take(n)) =~= seq![(whole.value, cs.len())] + fill(
            preorder_all(cs),
            xs.take(n),
        ));
    }
    Tree { value, children: filled }
}


/// The listing that a node of a tree of trees stands for once flattened: a
/// slot stays a slot, an identity passes its one child through, and a
/// nonempty tree has its slots filled by its children, flattened in turn.
pub open spec fn flat<Ty, Op>(n: Tree<Option<OpenTree<Ty, Op>>>) -> Seq<(Option<Op>, nat)>
    decreases n,
{
    match n.value {
        Option::Some(OpenTree::Comp(inner)) => fill(preorder(inner), flat_all(n.children@)),
        Option::Some(OpenTree::Id(_)) => {
            if n.children@.len() > 0 {
                flat(n.children@[0])
            } else {
                seq![(None, 0nat)]
            }
        },
        Option::None => seq![(None, 0nat)],
    }
}

/// The flattened listings of a sequence of nodes.
pub open spec fn flat_all<Ty, Op>(ns: Seq<Tree<Option<OpenTree<Ty, Op>>>>) -> Seq<
    Seq<(Option<Op>, nat)>,
>
    decreases ns,
{
    if ns.len() == 0 {
        seq![]
    } else {
        flat_all(ns.drop_last()).push(flat(ns.last()))
    }
}

/// A node of a tree of trees can be flattened: each identity has exactly one
/// child, and each nonempty tree has as many children as boundary slots.
pub open spec fn flattenable<Ty, Op>(n: Tree<Option<OpenTree<Ty, Op>>>) -> bool
    decreases n,
{
    match n.value {
        Option::Some(OpenTree::Comp(inner)) => {
            &&& slot_count(preorder(inner)) == n.children@.len()
            &&& forall|i: int| 0 <= i < n.children@.len() ==> flattenable(#[trigger] n.children@[i])
        },
        Option::Some(OpenTree::Id(_)) => n.children@.len() == 1 && flattenable(n.children@[0]),
        Option::None => true,
    }
}

/// Flattens one node of a tree of trees.
#[verifier::loop_isolation(false)]
fn flatten_node<Ty, Op>(n: Tree<Option<OpenTree<Ty, Op>>>) -> (r: Tree<Option<Op>>)
    requires
        flattenable(n),
    ensures
        preorder(r) == flat(n),
    decreases n,
{
    let ghost whole = n;
    let Tree { value, mut children } = n;
    let ghost cs = children@;
    proof {
        assert(decreases_to!(whole => whole.children));
        assert(decreases_to!(whole.children => whole.children@));
    }
    match value {
        Option::None => {
            let r = Tree { value: None, children: Vec::new() };
            proof {
                assert(preorder_all(r.children@) =~= seq![]);
                assert(preorder(r) =~= seq![(None, 0nat)]);
            }
            r
        },
        Option::Some(OpenTree::Id(_)) => {
            let c = children.pop().unwrap();
            proof {
                assert(c == cs[0]);
                assert(decreases_to!(whole.children@ => whole.children@[0]));
            }
            flatten_node(c)
        },
        Option::Some(OpenTree::Comp(inner)) => {
            let mut args: VecDeque<Tree<Option<Op>>> = VecDeque::new();
            let ghost mut k: int = 0;
            proof {
                assert(cs.skip(0) =~= cs);
                assert(preorders(args@) =~= seq![]);
                assert(flat_all(cs.take(0)) =~= seq![]);
            }
            while children.len() > 0
                invariant
                    0 <= k <= cs.len(),
                    children@ == cs.skip(k),
                    args@.len() == k,
                    preorders(args@) == flat_all(cs.take(k)),
                decreases children.len(),
            {
                let c = children.remove(0);
                proof {
                    assert(c == cs[k]);
                    assert(decreases_to!(whole.children@ => whole.children@[k]));
                    assert(flattenable(cs[k]));
                }
                let fc = flatten_node(c);
                let ghost before = args@;
                args.push_back(fc);
                proof {
                    assert(cs.take(k + 1).drop_last() =~= cs.take(k));
                    assert(preorders(args@) =~= preorders(before).push(preorder(fc)));
                    assert(children@ =~= cs.skip(k + 1));
                    k = k + 1;
                }
            }
            proof {
                assert(cs.take(k) =~= cs);
                assert(preorders(args@).take(args@.len() as int) =~= preorders(args@));
            }
            fill_boundary(inner, &mut args)
        },
    }
}

impl<Ty, Op> OpenTree<Ty, Op> {
    /// The open tree up to isomorphism.
    pub open spec fn shape(&self) -> OpenShape<Ty, Op> {
        match self {
            OpenTree::Id(x) => OpenShape::Id(*x),
            OpenTree::Comp(t) => OpenShape::Comp(preorder(*t)),
        }
    }
}

impl<Ty, Op> OpenTree<Ty, OpenTree<Ty, Op>> {
    /// The tree of trees can be flattened: its root holds a tree, its nodes
    /// fit together, and a root that holds a nonempty tree does not end as a
    /// bare slot.
    pub open spec fn can_flatten(&self) -> bool {
        match self {
            OpenTree::Id(_) => true,
            OpenTree::Comp(o) => match o.value {
                Option::Some(OpenTree::Comp(_)) => flattenable(*o) && flat(*o)[0].0 is Some,
                Option::Some(OpenTree::Id(_)) => flattenable(*o),
                Option::None => false,
            },
        }
    }

    /// The flattened tree, up to isomorphism.
    pub open spec fn flattened(&self) -> OpenShape<Ty, Op> {
        match self {
            OpenTree::Id(x) => OpenShape::Id(*x),
            OpenTree::Comp(o) => match o.value {
                Option::Some(OpenTree::Id(x)) => {
                    if flat(*o)[0].0 is None {
                        OpenShape::Id(x)
                    } else {
                        OpenShape::Comp(flat(*o))
                    }
                },
                _ => OpenShape::Comp(flat(*o)),
            },
        }
    }

    /// Flattens a tree of trees into a single tree.
    pub fn flatten(self) -> (r: OpenTree<Ty, Op>)
        requires
            self.can_flatten(),
        ensures
            r.shape() == self.flattened(),
    {
        match self {
            OpenTree::Id(x) => OpenTree::Id(x),
            OpenTree::Comp(outer) => {
                let ghost o = outer;
                let Tree { value, mut children } = outer;
                match value.unwrap() {
                    OpenTree::Id(x) => {
                        let c = children.pop().unwrap();
                        proof {
                            assert(c == o.children@[0]);
                        }
                        let t = flatten_node(c);
                        if t.value.is_none() {
                            OpenTree::Id(x)
                        } else {
                            OpenTree::Comp(t)
                        }
                    },
                    OpenTree::Comp(inner) => {
                        let t = flatten_node(Tree { value: Some(OpenTree::Comp(inner)), children });
                        proof {
                            assert(preorder(t)[0].0 == t.value);
                        }
                        OpenTree::Comp(t)
                    },
                }
            },
        }
    }
}

/// Two trees have the same shape and the same labels, children in order.
pub open spec fn same_tree<T>(a: Tree<T>, b: Tree<T>) -> bool
    decreases a,
{
    &&& a.value == b.value
    &&& a.children@.len() == b.children@.len()
    &&& forall|i: int|
        0 <= i < a.children@.len() ==> same_tree(#[trigger] a.children@[i], b.children@[i])
}

proof fn lemma_preorder_all_front<T>(ts: Seq<Tree<T>>)
    requires
        ts.len() > 0,
    ensures
        preorder_all(ts) == preorder(ts[0]) + preorder_all(ts.drop_first()),
{
    assert(ts =~= seq![ts[0]] + ts.drop_first());
    lemma_preorder_all_append(seq![ts[0]], ts.drop_first());
    assert(seq![ts[0]].drop_last() =~= Seq::<Tree<T>>::empty());
    assert(preorder_all(Seq::<Tree<T>>::empty()) =~= seq![]);
    assert(preorder_all(seq![ts[0]]) =~= preorder(ts[0]));
}

/// Trees of the same shape have the same listing.
proof fn lemma_same_tree_preorder<T>(a: Tree<T>, b: Tree<T>)
    requires
        same_tree(a, b),
    ensures
        preorder(a) == preorder(b),
    decreases a,
{
    assert(decreases_to!(a => a.children));
    assert(decreases_to!(a.children => a.children@));
    lemma_same_trees_preorder(a.children@, b.children@);
}

proof fn lemma_same_trees_preorder<T>(xs: Seq<Tree<T>>, ys: Seq<Tree<T>>)
    requires
        xs.len() == ys.len(),
        forall|i: int| 0 <= i < xs.len() ==> same_tree(#[trigger] xs[i], ys[i]),
    ensures
        preorder_all(xs) == preorder_all(ys),
    decreases xs,
{
    if xs.len() > 0 {
        let k = xs.len() - 1;
        lemma_same_tree_preorder(xs[k], ys[k]);
        lemma_same_trees_preorder(xs.drop_last(), ys.drop_last());
    }
}

/// A listing followed by anything else is read back in one way only: equal
/// listings come from trees of the same shape.
proof fn lemma_preorder_unique<T>(a: Tree<T>, b: Tree<T>, p: Seq<(T, nat)>, q: Seq<(T, nat)>)
    requires
        preorder(a) + p == preorder(b) + q,
    ensures
        same_tree(a, b),
        p == q,
    decreases a,
{
    let pa = preorder(a) + p;
    let pb = preorder(b) + q;
    assert(pa[0] == (a.value, a.children@.len()));
    assert(pb[0] == (b.value, b.children@.len()));
    assert(pa.drop_first() =~= preorder_all(a.children@) + p);
    assert(pb.drop_first() =~= preorder_all(b.children@) + q);
    assert(decreases_to!(a => a.children));
    assert(decreases_to!(a.children => a.children@));
    lemma_preorder_all_unique(a.children@, b.children@, p, q);
}

proof fn lemma_preorder_all_unique<T>(
    xs: Seq<Tree<T>>,
    ys: Seq<Tree<T>>,
    p: Seq<(T, nat)>,
    q: Seq<(T, nat)>,
)
    requires
        xs.len() == ys.len(),
        preorder_all(xs) + p == preorder_all(ys) + q,
    ensures
        forall|i: int| 0 <= i < xs.len() ==> same_tree(#[trigger] xs[i], ys[i]),
        p == q,
    decreases xs,
{
    if xs.len() == 0 {
        assert(preorder_all(xs) + p =~= p);
        assert(preorder_all(ys) + q =~= q);
    } else {
        lemma_preorder_all_front(xs);
        lemma_preorder_all_front(ys);
        let rx = preorder_all(xs.drop_first()) + p;
        let ry = preorder_all(ys.drop_first()) + q;
        assert(preorder_all(xs) + p =~= preorder(xs[0]) + rx);
        assert(preorder_all(ys) + q =~= preorder(ys[0]) + ry);
        lemma_preorder_unique(xs[0], ys[0], rx, ry);
        lemma_preorder_all_unique(xs.drop_first(), ys.drop_first(), p, q);
        assert forall|i: int| 0 <= i < xs.len() implies same_tree(#[trigger] xs[i], ys[i]) by {
            if i > 0 {
                assert(xs[i] == xs.drop_first()[i - 1]);
                assert(ys[i] == ys.drop_first()[i - 1]);
            }
        }
    }
}

/// Two trees have the same listing exactly when they have the same shape.
proof fn lemma_same_tree_iff_preorder<T>(a: Tree<T>, b: Tree<T>)
    ensures
        same_tree(a, b) <==> preorder(a) == preorder(b),
{
    if same_tree(a, b) {
        lemma_same_tree_preorder(a, b);
    }
    if preorder(a) == preorder(b) {
        let e = Seq::<(T, nat)>::empty();
        assert(preorder(a) + e =~= preorder(a));
        assert(preorder(b) + e =~= preorder(b));
        lemma_preorder_unique(a, b, e, e);
    }
}

/// Compares two trees node by node.
fn trees_match<Op: PartialEq>(a: &Tree<Option<Op>>, b: &Tree<Option<Op>>) -> (r: bool)
    requires
        obeys_concrete_eq::<Op>(),
    ensures
        r == same_tree(*a, *b),
    decreases a,
{
    let values_match = match (&a.value, &b.value) {
        (Option::Some(x), Option::Some(y)) => same(x, y),
        (Option::None, Option::None) => true,
        _ => false,
    };
    if !values_match || a.children.len() != b.children.len() {
        return false;
    }
    let mut i: usize = 0;
    while i < a.children.len()
        invariant
            0 <= i <= a.children@.len(),
            a.children@.len() == b.children@.len(),
            a.value == b.value,
            obeys_concrete_eq::<Op>(),
            forall|j: int| 0 <= j < i ==> same_tree(#[trigger] a.children@[j], b.children@[j]),
        decreases a.children@.len() - i,
    {
        proof {
            assert(decreases_to!(*a => a.children));
            assert(decreases_to!(a.children => a.children@));
            assert(decreases_to!(a.children@ => a.children@[i as int]));
        }
        if !trees_match(&a.children[i], &b.children[i]) {
            return false;
        }
        i = i + 1;
    }
    true
}

impl<Ty, Op> OpenTree<Ty, Op> {
    /// Is this open tree isomorphic to another: identities on equal types, or
    /// nonempty trees equal in shape and labels?
    pub fn is_isomorphic_to(&self, other: &Self) -> (r: bool) where Ty: PartialEq, Op: PartialEq
        requires
            obeys_concrete_eq::<Ty>(),
            obeys_concrete_eq::<Op>(),
        ensures
            r == (self.shape() == other.shape()),
    {
        match (self, other) {
            (OpenTree::Comp(s), OpenTree::Comp(t)) => {
                proof {
                    lemma_same_tree_iff_preorder(*s, *t);
                }
                trees_match(s, t)
            },
            (OpenTree::Id(x), OpenTree::Id(y)) => same(x, y),
            _ => false,
        }
    }
}


/// A node of a tree of trees that only wraps its one child in an identity.
pub open spec fn is_identity_layer<Ty, Op>(n: Tree<Option<OpenTree<Ty, Op>>>) -> bool {
    &&& n.value matches Option::Some(OpenTree::Id(_))
    &&& n.children@.len() == 1
}

/// `b` is `a` with identity layers inserted above some of its nodes, any
/// number above each.
pub open spec fn padded<Ty, Op>(
    a: Tree<Option<OpenTree<Ty, Op>>>,
    b: Tree<Option<OpenTree<Ty, Op>>>,
) -> bool
    decreases b,
{
    ||| is_identity_layer(b) && padded(a, b.children@[0])
    ||| {
        &&& a.value == b.value
        &&& a.children@.len() == b.children@.len()
        &&& forall|i: int|
            0 <= i < b.children@.len() ==> padded(a.children@[i], #[trigger] b.children@[i])
    }
}

proof fn lemma_flat_all_pointwise<Ty, Op>(
    xs: Seq<Tree<Option<OpenTree<Ty, Op>>>>,
    ys: Seq<Tree<Option<OpenTree<Ty, Op>>>>,
)
    requires
        xs.len() == ys.len(),
        forall|i: int| 0 <= i < xs.len() ==> flat(#[trigger] xs[i]) == flat(ys[i]),
    ensures
        flat_all(xs) == flat_all(ys),
    decreases xs.len(),
{
    if xs.len() > 0 {
        lemma_flat_all_pointwise(xs.drop_last(), ys.drop_last());
        assert(flat(xs.last()) == flat(ys.last()));
    }
}

proof fn lemma_padded_flat<Ty, Op>(
    a: Tree<Option<OpenTree<Ty, Op>>>,
    b: Tree<Option<OpenTree<Ty, Op>>>,
)
    requires
        padded(a, b),
        flattenable(a),
    ensures
        flattenable(b),
        flat(b) == flat(a),
    decreases b,
{
    assert(decreases_to!(b => b.children));
    assert(decreases_to!(b.children => b.children@));
    if is_identity_layer(b) && padded(a, b.children@[0]) {
        lemma_padded_flat(a, b.children@[0]);
    } else {
        if a.value is Some {
            assert forall|i: int| 0 <= i < b.children@.len() implies flattenable(
                #[trigger] b.children@[i],
            ) && flat(b.children@[i]) == flat(a.children@[i]) by {
                assert(flattenable(a.children@[i]));
                lemma_padded_flat(a.children@[i], b.children@[i]);
            }
            if a.value->0 is Comp {
                lemma_flat_all_pointwise(a.children@, b.children@);
            }
        }
    }
}

/// Flattening is blind to identity layers: inserting identities above any of
/// the nodes of a tree of trees, any number above each, leaves what it
/// flattens to unchanged. Above the root this asks that the root hold a
/// nonempty tree: an identity at the root gives its type to a result that is
/// an identity, and a layer inserted above it would give its own instead.
pub proof fn lemma_flatten_ignores_identity_layers<Ty, Op>(
    a: Tree<Option<OpenTree<Ty, Op>>>,
    b: Tree<Option<OpenTree<Ty, Op>>>,
)
    requires
        OpenTree::<Ty, OpenTree<Ty, Op>>::Comp(a).can_flatten(),
        padded(a, b),
        a.value == b.value || a.value matches Option::Some(OpenTree::Comp(_)),
    ensures
        OpenTree::<Ty, OpenTree<Ty, Op>>::Comp(b).can_flatten(),
        OpenTree::<Ty, OpenTree<Ty, Op>>::Comp(b).flattened() == OpenTree::<
            Ty,
            OpenTree<Ty, Op>,
        >::Comp(a).flattened(),
{
    lemma_padded_flat(a, b);
}

/// Flattening an identity gives back that identity.
pub proof fn lemma_flatten_identity<Ty, Op>(x: Ty)
    ensures
        OpenTree::<Ty, OpenTree<Ty, Op>>::Id(x).can_flatten(),
        OpenTree::<Ty, OpenTree<Ty, Op>>::Id(x).flattened() == OpenShape::<Ty, Op>::Id(x),
{
}

} // verus!
