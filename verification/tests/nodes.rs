use reflect::nodes::{can_reflect_path, NodeId, NodeKind, NodeTable};

const WITH_PATH: [NodeKind; 11] = [
    NodeKind::Item,
    NodeKind::ForeignItem,
    NodeKind::TraitItem,
    NodeKind::ImplItem,
    NodeKind::Variant,
    NodeKind::Field,
    NodeKind::Binding,
    NodeKind::Local,
    NodeKind::MacroDef,
    NodeKind::Ctor,
    NodeKind::GenericParam,
];

const WITHOUT_PATH: [NodeKind; 13] = [
    NodeKind::AnonConst,
    NodeKind::Expr,
    NodeKind::Stmt,
    NodeKind::PathSegment,
    NodeKind::Ty,
    NodeKind::TraitRef,
    NodeKind::Pat,
    NodeKind::Arm,
    NodeKind::Param,
    NodeKind::Block,
    NodeKind::Lifetime,
    NodeKind::Visibility,
    NodeKind::Crate,
];

#[test]
fn expression_has_no_path_and_field_has_one() {
    let mut table = NodeTable::new();
    table.insert(NodeId { index: 10 }, NodeKind::Expr);
    table.insert(NodeId { index: 11 }, NodeKind::Field);
    assert!(!can_reflect_path(&table, NodeId { index: 10 }));
    assert!(can_reflect_path(&table, NodeId { index: 11 }));
}

#[test]
fn node_that_the_table_does_not_hold_has_no_path() {
    let mut table = NodeTable::new();
    assert!(!can_reflect_path(&table, NodeId { index: 0 }));
    table.insert(NodeId { index: 1 }, NodeKind::Item);
    assert!(!can_reflect_path(&table, NodeId { index: 0 }));
    assert!(!can_reflect_path(&table, NodeId { index: 2 }));
    assert_eq!(table.find(NodeId { index: 2 }), None);
    assert_eq!(table.find(NodeId { index: 1 }), Some(NodeKind::Item));
}

#[test]
fn every_category_is_on_its_side() {
    let mut table = NodeTable::new();
    let mut next: u32 = 0;
    for kind in WITH_PATH {
        assert!(kind.has_path());
        table.insert(NodeId { index: next }, kind);
        assert!(can_reflect_path(&table, NodeId { index: next }));
        next += 1;
    }
    for kind in WITHOUT_PATH {
        assert!(!kind.has_path());
        table.insert(NodeId { index: next }, kind);
        assert!(!can_reflect_path(&table, NodeId { index: next }));
        next += 1;
    }
    assert_eq!(next, 24);
}

#[test]
fn later_entry_for_a_node_replaces_the_earlier() {
    let mut table = NodeTable::new();
    table.insert(NodeId { index: 5 }, NodeKind::Stmt);
    assert!(!can_reflect_path(&table, NodeId { index: 5 }));
    table.insert(NodeId { index: 5 }, NodeKind::Variant);
    assert!(can_reflect_path(&table, NodeId { index: 5 }));
}
