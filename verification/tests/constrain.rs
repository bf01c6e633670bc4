use kiln::ast::{BinOp, UnOp};
use kiln::constrain::{
    binop_required_iface, collect_constraints, collect_expr, emit_call_bound_constraints,
    Constraint, ConstraintKind, ConstraintReason,
};
use kiln::env::GenericBound;
use kiln::span::Span;
use kiln::ty::{InterfaceId, Ty, TypeId};
use kiln::typed_ast::{
    TypedBlock, TypedExpr, TypedExprKind, TypedFile, TypedFnDef, TypedItem, TypedStmt,
    TypedStringSegment,
};

fn s() -> Span {
    Span::new(0, 0)
}

fn int_expr() -> TypedExpr {
    TypedExpr { kind: TypedExprKind::Int(1), ty: Ty::Int, span: s() }
}

#[test]
fn int_add_emits_addable() {
    let expr = TypedExpr {
        kind: TypedExprKind::BinOp { op: BinOp::Add, left: Box::new(int_expr()), right: Box::new(int_expr()) },
        ty: Ty::Int,
        span: s(),
    };
    let mut out = vec![];
    collect_expr(&expr, &mut out);
    assert!(out.iter().any(|c| matches!(&c.kind, ConstraintKind::Bound { ty, iface } if matches!(ty, Ty::Int) && iface == "Addable")));
}

#[test]
fn string_interp_emits_display() {
    let interp = TypedExpr { kind: TypedExprKind::Int(42), ty: Ty::Int, span: s() };
    let expr = TypedExpr {
        kind: TypedExprKind::Str(vec![TypedStringSegment::Interp(interp)]),
        ty: Ty::Str,
        span: s(),
    };
    let mut out = vec![];
    collect_expr(&expr, &mut out);
    assert!(out.iter().any(|c| matches!(&c.kind, ConstraintKind::Bound { ty, iface } if matches!(ty, Ty::Int) && iface == "Display")));
}

#[test]
fn no_constraints_for_bool_and() {
    let expr = TypedExpr {
        kind: TypedExprKind::BinOp {
            op: BinOp::And,
            left: Box::new(TypedExpr { kind: TypedExprKind::Bool(true), ty: Ty::Bool, span: s() }),
            right: Box::new(TypedExpr { kind: TypedExprKind::Bool(false), ty: Ty::Bool, span: s() }),
        },
        ty: Ty::Bool,
        span: s(),
    };
    let mut out = vec![];
    collect_expr(&expr, &mut out);
    assert!(out.is_empty());
}

#[test]
fn operator_interfaces() {
    assert_eq!(binop_required_iface(&BinOp::Sub), Some("Subtractable"));
    assert_eq!(binop_required_iface(&BinOp::LtEq), Some("PartialOrd"));
    assert_eq!(binop_required_iface(&BinOp::Spaceship), Some("Ord"));
    assert_eq!(binop_required_iface(&BinOp::Pipe), None);
}

#[test]
fn negation_requires_negatable() {
    let expr = TypedExpr {
        kind: TypedExprKind::UnOp { op: UnOp::Neg, operand: Box::new(int_expr()) },
        ty: Ty::Int,
        span: s(),
    };
    let mut out = vec![];
    collect_expr(&expr, &mut out);
    assert_eq!(out.len(), 1);
    assert!(matches!(&out[0].kind, ConstraintKind::Bound { iface, .. } if iface == "Negatable"));
    assert_eq!(out[0].reason.context_string(), " (required by unary `-`)");
}

#[test]
fn compound_assign_requires_loosest_interface() {
    let stmt = TypedStmt::CompoundAssign {
        target: TypedExpr { kind: TypedExprKind::Ident("x".into()), ty: Ty::Float, span: s() },
        op: BinOp::Mul,
        rhs: TypedExpr { kind: TypedExprKind::Float(2.0f64.to_bits()), ty: Ty::Float, span: s() },
        span: Span::new(3, 9),
    };
    let file = TypedFile {
        items: vec![TypedItem::Function(TypedFnDef {
            name: "f".into(),
            params: vec![],
            variadic: None,
            return_type: Ty::Void,
            body: TypedBlock { stmts: vec![stmt], span: s() },
            is_builtin: false,
            is_inline: false,
            is_declaration: false,
            is_entry: false,
            is_impure: false,
            span: s(),
        })],
        span: s(),
    };
    let cs = collect_constraints(&file);
    assert_eq!(cs.len(), 1);
    assert!(matches!(&cs[0].kind, ConstraintKind::Bound { ty: Ty::Float, iface } if iface == "Multiplicable"));
    assert_eq!(cs[0].span, Span::new(3, 9));
    assert_eq!(cs[0].reason.context_string(), " (required by compound-assign operator `Mul=`)");
}

fn list_of(t: Ty) -> Ty {
    Ty::Named(TypeId(7), "List".into(), vec![t])
}

#[test]
fn generic_call_binds_parameters_through_named_types() {
    let bound = GenericBound {
        param: "T".into(),
        iface: "Container".into(),
        assoc_bindings: vec![
            ("Item".into(), Ty::Interface(InterfaceId(2), "Display".into())),
            ("Key".into(), Ty::Int),
        ],
        is_explicit: true,
        decl_span: None,
        source_span: None,
        source_desc: String::new(),
    };
    let unused = GenericBound {
        param: "U".into(),
        iface: "Addable".into(),
        assoc_bindings: vec![],
        is_explicit: false,
        decl_span: None,
        source_span: None,
        source_desc: String::new(),
    };
    let mut out: Vec<Constraint> = vec![];
    emit_call_bound_constraints(
        "g",
        &[bound, unused],
        &["T".to_string(), "U".to_string()],
        &[list_of(Ty::GenericParam("T".into()))],
        &[(list_of(Ty::Str), Span::new(5, 6))],
        &mut out,
    );
    assert_eq!(out.len(), 2);
    assert!(matches!(&out[0].kind, ConstraintKind::Bound { ty: Ty::Str, iface } if iface == "Container"));
    assert_eq!(out[0].span, Span::new(5, 6));
    assert!(matches!(&out[1].kind, ConstraintKind::ProjectedBound { base_ty: Ty::Str, assoc_name, required_iface, .. }
        if assoc_name == "Item" && required_iface == "Display"));
    assert!(matches!(&out[0].reason, ConstraintReason::GenericBoundCheck { .. }));
    assert_eq!(out[0].reason.context_string(), " (explicit bound `T: Container` on `g`)");
}
