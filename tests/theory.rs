use catlog::category::{FinCategory, FinMor};
use catlog::discrete::DiscreteDblTheory;
use catlog::path::Path;
use catlog::tab::{DiscreteTabTheory, TabMorOp, TabMorType, TabObOp, TabObType};
use catlog::theory::DblTheory;

type Mor<V, E> = FinMor<V, E>;

fn sign_category() -> FinCategory<char, char> {
    let mut sgn: FinCategory<char, char> = Default::default();
    sgn.add_ob_generator('*');
    sgn.add_mor_generator('n', '*', '*');
    sgn.set_composite('n', 'n', Mor::Id('*'));
    sgn
}

#[test]
fn discrete_double_theory() {
    let th = DiscreteDblTheory::from(sign_category());
    assert!(th.has_ob_type(&'*'));
    assert!(th.has_mor_type(&Mor::Generator('n')));
    let path = Path::pair(Mor::Generator('n'), Mor::Generator('n'));
    assert_eq!(th.compose_types(path), Some(Mor::Id('*')));
}

#[test]
fn discrete_tabulator_theory() {
    let mut th = DiscreteTabTheory::<char, char>::new();
    th.add_ob_type('*');
    let x = TabObType::Basic('*');
    assert!(th.has_ob_type(&x));
    let tab = th.tabulator(th.hom_type(x.clone()));
    assert!(th.has_ob_type(&tab));
    assert!(th.has_mor_type(&th.hom_type(tab.clone())));

    th.add_mor_type('m', x, tab);
    let m = TabMorType::Basic('m');
    assert!(th.has_mor_type(&m));
}

#[test]
fn discrete_hom_type_is_unit_composite() {
    let th = DiscreteDblTheory::from(sign_category());
    assert_eq!(th.compose_types(Path::Id('*')), Some(th.hom_type('*')));
    assert_eq!(th.hom_type('*'), Mor::Id('*'));
}

#[test]
fn discrete_composition_with_identities() {
    let th = DiscreteDblTheory::from(sign_category());
    let path = Path::pair(Mor::Id('*'), Mor::Generator('n'));
    assert_eq!(th.compose_types(path), Some(Mor::Generator('n')));
    let path = Path::pair(Mor::Generator('n'), Mor::Id('*'));
    assert_eq!(th.compose_types(path), Some(Mor::Generator('n')));
    let path = Path::Chain(vec![Mor::Generator('n'), Mor::Generator('n'), Mor::Generator('n')]);
    assert_eq!(th.compose_types(path), Some(Mor::Generator('n')));
}

#[test]
fn discrete_missing_composite_is_none() {
    let mut cat: FinCategory<char, char> = FinCategory::new();
    cat.add_ob_generator('x');
    cat.add_mor_generator('f', 'x', 'x');
    let th = DiscreteDblTheory::from(cat);
    let path = Path::pair(Mor::Generator('f'), Mor::Generator('f'));
    assert_eq!(th.compose_types(path), None);
    assert!(!th.has_mor_type(&Mor::Generator('g')));
    assert!(!th.has_ob_type(&'y'));
}

#[test]
fn discrete_object_operations() {
    let th = DiscreteDblTheory::from(sign_category());
    assert_eq!(th.compose_ob_ops(Path::Chain(vec!['*', '*'])), '*');
    assert_eq!(th.compose_ob_ops(Path::Id('*')), th.id_ob_op('*'));
    assert_eq!(th.dom(&'*'), '*');
    assert_eq!(th.cod(&'*'), '*');
    assert!(th.has_ob_op(&'*'));
}

#[test]
fn discrete_morphism_operations() {
    let th = DiscreteDblTheory::from(sign_category());
    let cell = Path::pair(Mor::Generator('n'), Mor::Generator('n'));
    assert!(th.has_mor_op(&cell));
    assert_eq!(th.op_dom(&cell), Path::pair(Mor::Generator('n'), Mor::Generator('n')));
    assert_eq!(th.op_cod(&cell), Mor::Id('*'));
    assert_eq!(th.op_src(&cell), '*');
    assert_eq!(th.op_tgt(&cell), '*');
    assert_eq!(th.src(&Mor::Generator('n')), '*');
    assert_eq!(th.tgt(&Mor::Generator('n')), '*');
    assert_eq!(th.id_mor_op(Mor::Generator('n')), Path::single(Mor::Generator('n')));
    assert_eq!(th.hom_op('*'), Path::Id('*'));
    assert!(!th.has_mor_op(&Path::single(Mor::Generator('z'))));
}

#[test]
fn tabulator_construction_steps() {
    let mut th = DiscreteTabTheory::<char, char>::new();
    assert!(th.add_ob_type('*'));
    assert!(!th.add_ob_type('*'));
    let x = TabObType::Basic('*');
    let tab = th.tabulator(th.hom_type(x.clone()));
    assert_eq!(tab, TabObType::Tabulator(Box::new(TabMorType::Hom(Box::new(x.clone())))));
    assert!(!th.has_mor_type(&TabMorType::Basic('m')));
    assert!(th.add_mor_type('m', x.clone(), tab.clone()));
    assert!(!th.add_mor_type('m', x.clone(), x.clone()));
    assert_eq!(th.src(&TabMorType::Basic('m')), x);
    assert_eq!(th.tgt(&TabMorType::Basic('m')), x);
    assert!(th.make_mor_type('k'));
    assert!(th.has_mor_type(&TabMorType::Basic('k')));
    assert!(!th.has_ob_type(&TabObType::Basic('y')));
}

#[test]
fn tabulator_structure_maps() {
    let mut th = DiscreteTabTheory::<char, char>::new();
    th.add_ob_type('*');
    let x = TabObType::Basic('*');
    let tab = th.tabulator(th.hom_type(x.clone()));
    th.add_mor_type('m', x.clone(), tab.clone());
    let m = TabMorType::Basic('m');

    assert_eq!(th.src(&m), x);
    assert_eq!(th.tgt(&m), tab);
    assert_eq!(th.src(&th.hom_type(tab.clone())), tab);
    assert_eq!(th.dom(&TabObOp::ProjSrc(m.clone())), th.tabulator(m.clone()));
    assert_eq!(th.cod(&TabObOp::ProjSrc(m.clone())), x);
    assert_eq!(th.cod(&TabObOp::ProjTgt(m.clone())), tab);
    assert_eq!(th.op_src(&TabMorOp::Proj(m.clone())), TabObOp::ProjSrc(m.clone()));
    assert_eq!(th.op_tgt(&TabMorOp::Proj(m.clone())), TabObOp::ProjTgt(m.clone()));
    assert_eq!(th.op_src(&TabMorOp::Id(m.clone())), TabObOp::Id(x.clone()));
    assert_eq!(th.op_cod(&TabMorOp::Proj(m.clone())), m);
    assert_eq!(
        th.op_cod(&TabMorOp::Hom(TabObOp::ProjTgt(m.clone()))),
        TabMorType::Hom(Box::new(tab.clone()))
    );
    assert_eq!(
        th.op_dom(&TabMorOp::Proj(m.clone())),
        Path::single(TabMorType::Hom(Box::new(th.tabulator(m.clone()))))
    );
    assert!(th.has_mor_op(&TabMorOp::Proj(m.clone())));
    assert!(th.has_ob_op(&TabObOp::ProjSrc(m.clone())));
    assert!(!th.has_ob_op(&TabObOp::ProjSrc(TabMorType::Basic('q'))));
}

#[test]
fn tabulator_composition() {
    let mut th = DiscreteTabTheory::<char, char>::new();
    th.add_ob_type('*');
    let x = TabObType::Basic('*');
    th.add_mor_type('m', x.clone(), x.clone());
    let m = TabMorType::Basic('m');
    let hom = th.hom_type(x.clone());

    assert_eq!(th.compose_types(Path::Id(x.clone())), Some(hom.clone()));
    assert_eq!(th.compose_types(Path::pair(hom.clone(), m.clone())), Some(m.clone()));
    assert_eq!(th.compose_types(Path::pair(m.clone(), hom.clone())), Some(m.clone()));
    assert_eq!(th.compose_types(Path::single(m.clone())), Some(m.clone()));
    assert_eq!(th.compose_types(Path::pair(m.clone(), m.clone())), None);

    let f = TabObOp::ProjSrc(m.clone());
    let id = th.id_ob_op(x.clone());
    assert_eq!(th.compose_ob_ops(Path::pair(id.clone(), f.clone())), f);
    assert_eq!(th.compose_ob_ops(Path::pair(f.clone(), id.clone())), f);
    assert_eq!(th.compose_ob_ops(Path::Id(x.clone())), TabObOp::Id(x.clone()));
    assert_eq!(th.hom_op(f.clone()), TabMorOp::Hom(f.clone()));
    assert_eq!(th.id_mor_op(m.clone()), TabMorOp::Id(m.clone()));
}
