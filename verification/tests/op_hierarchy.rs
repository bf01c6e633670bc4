use kiln::ast::BinOp;
use kiln::op_hierarchy::{compound_assign_hierarchy, compound_assign_iface};

#[test]
fn add_hierarchy_starts_with_add_assignable() {
    let h = compound_assign_hierarchy(&BinOp::Add);
    assert_eq!(h[0], "AddAssignable");
}

#[test]
fn add_hierarchy_ends_with_addable() {
    let h = compound_assign_hierarchy(&BinOp::Add);
    assert_eq!(*h.last().unwrap(), "Addable");
}

#[test]
fn add_iface_is_addable() {
    assert_eq!(compound_assign_iface(&BinOp::Add), Some("Addable"));
}

#[test]
fn non_compound_op_returns_empty() {
    assert!(compound_assign_hierarchy(&BinOp::Eq).is_empty());
}

#[test]
fn every_arithmetic_operator_has_three_steps() {
    assert_eq!(compound_assign_hierarchy(&BinOp::Mod), vec!["RemainderAssignable", "RemainderableWith", "Remainder"]);
    assert_eq!(compound_assign_iface(&BinOp::Div), Some("Divisible"));
    assert_eq!(compound_assign_iface(&BinOp::Pipe), None);
}
