use catlog::tree::{OpenTree, Tree};

type OT = OpenTree<char, char>;

fn slot<T>() -> Tree<Option<T>> {
    Tree { value: None, children: vec![] }
}

fn node<T>(value: T, children: Vec<Tree<Option<T>>>) -> Tree<Option<T>> {
    Tree { value: Some(value), children }
}

fn flat_tree() -> OT {
    OT::Comp(node(
        'f',
        vec![
            node('h', vec![node('k', vec![slot(), slot()]), slot()]),
            node('g', vec![slot(), node('l', vec![slot(), slot()])]),
        ],
    ))
}

fn subtree1() -> OT {
    OT::Comp(node('f', vec![slot(), node('g', vec![slot(), slot()])]))
}

fn subtree2() -> OT {
    OT::Comp(node('h', vec![node('k', vec![slot(), slot()]), slot()]))
}

fn subtree3() -> OT {
    OT::Comp(node('l', vec![slot(), slot()]))
}

#[test]
fn flatten_tree() {
    // Typical cases.
    let tree = flat_tree();

    let outer_tree = OpenTree::Comp(node(
        subtree1(),
        vec![
            node(subtree2(), vec![slot(), slot(), slot()]),
            slot(),
            node(subtree3(), vec![slot(), slot()]),
        ],
    ));
    assert!(outer_tree.flatten().is_isomorphic_to(&tree));

    let outer_tree = OpenTree::Comp(node(
        subtree1(),
        vec![
            node(OpenTree::Id('X'), vec![node(subtree2(), vec![slot(), slot(), slot()])]),
            node(OpenTree::Id('X'), vec![slot()]),
            node(OpenTree::Id('X'), vec![node(subtree3(), vec![slot(), slot()])]),
        ],
    ));
    assert!(outer_tree.flatten().is_isomorphic_to(&tree));

    // Special case: outer tree is identity.
    let outer_tree: OpenTree<char, OT> = OpenTree::Id('X');
    assert_eq!(outer_tree.flatten(), OT::Id('X'));

    // Special case: every inner tree is an identity.
    let outer_tree: OpenTree<char, OT> =
        OpenTree::Comp(node(OT::Id('X'), vec![node(OT::Id('x'), vec![slot()])]));
    assert_eq!(outer_tree.flatten(), OT::Id('X'));
}

#[test]
fn flatten_identity_returns_it() {
    let outer_tree: OpenTree<char, OT> = OpenTree::Id('q');
    assert_eq!(outer_tree.flatten(), OT::Id('q'));
}

#[test]
fn flatten_with_stacked_identity_layers() {
    let outer_tree = OpenTree::Comp(node(
        subtree1(),
        vec![
            node(
                OpenTree::Id('X'),
                vec![node(OpenTree::Id('Y'), vec![node(subtree2(), vec![slot(), slot(), slot()])])],
            ),
            node(OpenTree::Id('X'), vec![node(OpenTree::Id('Y'), vec![slot()])]),
            node(subtree3(), vec![node(OpenTree::Id('Z'), vec![slot()]), slot()]),
        ],
    ));
    let flat = outer_tree.flatten();
    assert!(flat.is_isomorphic_to(&flat_tree()));
    assert_eq!(flat, flat_tree());
}

#[test]
fn flatten_identity_root_keeps_inner_tree() {
    let outer_tree = OpenTree::Comp(node(OT::Id('X'), vec![node(subtree3(), vec![slot(), slot()])]));
    assert_eq!(outer_tree.flatten(), subtree3());
}

#[test]
fn flatten_fills_slots_in_order() {
    // Root a(_, _): left slot gets b(_), right slot gets c(_).
    let outer_tree = OpenTree::Comp(node(
        OT::Comp(node('a', vec![slot(), slot()])),
        vec![
            node(OT::Comp(node('b', vec![slot()])), vec![slot()]),
            node(OT::Comp(node('c', vec![slot()])), vec![slot()]),
        ],
    ));
    let expected = OT::Comp(node('a', vec![node('b', vec![slot()]), node('c', vec![slot()])]));
    let swapped = OT::Comp(node('a', vec![node('c', vec![slot()]), node('b', vec![slot()])]));
    let flat = outer_tree.flatten();
    assert!(flat.is_isomorphic_to(&expected));
    assert!(!flat.is_isomorphic_to(&swapped));
}

#[test]
fn isomorphism_cases() {
    assert!(OT::Id('x').is_isomorphic_to(&OT::Id('x')));
    assert!(!OT::Id('x').is_isomorphic_to(&OT::Id('y')));
    assert!(!OT::Id('x').is_isomorphic_to(&subtree3()));
    assert!(subtree3().is_isomorphic_to(&subtree3()));
    assert!(!subtree3().is_isomorphic_to(&subtree2()));
    assert!(!OT::Comp(node('l', vec![slot()])).is_isomorphic_to(&subtree3()));
}

#[test]
fn flatten_with_identity_above_root() {
    let outer_tree = OpenTree::Comp(node(
        OT::Id('W'),
        vec![node(
            subtree1(),
            vec![
                node(subtree2(), vec![slot(), slot(), slot()]),
                slot(),
                node(subtree3(), vec![slot(), slot()]),
            ],
        )],
    ));
    assert!(outer_tree.flatten().is_isomorphic_to(&flat_tree()));
}
