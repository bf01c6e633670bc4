use kiln::ast::BinOp;
use kiln::prop::{propagate_block, propagate_file};
use kiln::span::Span;
use kiln::ty::Ty;
use kiln::typed_ast::{TypedBlock, TypedExpr, TypedExprKind, TypedFile, TypedFnDef, TypedItem, TypedStmt};

fn s() -> Span {
    Span { start: 0, end: 0 }
}

fn int_expr(n: i64) -> TypedExpr {
    TypedExpr { kind: TypedExprKind::Int(n), ty: Ty::Int, span: s() }
}

fn bool_expr(b: bool) -> TypedExpr {
    TypedExpr { kind: TypedExprKind::Bool(b), ty: Ty::Bool, span: s() }
}

fn ident_expr(name: &str) -> TypedExpr {
    TypedExpr { kind: TypedExprKind::Ident(name.into()), ty: Ty::Int, span: s() }
}

fn binop_expr(op: BinOp, left: TypedExpr, right: TypedExpr) -> TypedExpr {
    TypedExpr {
        kind: TypedExprKind::BinOp { op, left: Box::new(left), right: Box::new(right) },
        ty: Ty::Int,
        span: s(),
    }
}

fn make_file(stmts: Vec<TypedStmt>) -> TypedFile {
    TypedFile {
        items: vec![TypedItem::Function(TypedFnDef {
            name: "f".into(),
            params: vec![],
            variadic: None,
            return_type: Ty::Int,
            body: TypedBlock { stmts, span: s() },
            is_builtin: false,
            is_inline: false,
            is_declaration: false,
            is_entry: false,
            is_impure: false,
            span: s(),
        })],
        span: s(),
    }
}

fn let_decl(name: &str, value: TypedExpr, mutable: bool) -> TypedStmt {
    TypedStmt::VarDecl { name: name.into(), ty: Ty::Int, value, mutable, span: s() }
}

fn ret(e: TypedExpr) -> TypedStmt {
    TypedStmt::Return { value: Some(e), span: s() }
}

fn assert_return_is_int(file: &TypedFile, expected: i64) {
    if let TypedItem::Function(f) = &file.items[0] {
        for stmt in &f.body.stmts {
            if let TypedStmt::Return { value: Some(e), .. } = stmt {
                match &e.kind {
                    TypedExprKind::Int(n) => {
                        assert_eq!(*n, expected, "expected return Int({})", expected);
                        return;
                    }
                    other => panic!("expected Int({}), got {:?}", expected, other),
                }
            }
        }
        panic!("no return statement found");
    }
}

#[test]
fn propagate_integer_const_into_expression() {
    let stmts = vec![
        let_decl("x", int_expr(5), false),
        ret(binop_expr(BinOp::Add, ident_expr("x"), int_expr(1))),
    ];
    let file = propagate_file(make_file(stmts));
    assert_return_is_int(&file, 6);
}

#[test]
fn mutation_invalidates_propagated_constant() {
    let stmts = vec![
        let_decl("x", int_expr(5), true),
        TypedStmt::Assign { target: ident_expr("x"), value: int_expr(10), span: s() },
        ret(ident_expr("x")),
    ];
    let file = propagate_file(make_file(stmts));
    if let TypedItem::Function(f) = &file.items[0] {
        for stmt in &f.body.stmts {
            if let TypedStmt::Return { value: Some(e), .. } = stmt {
                assert!(
                    !matches!(&e.kind, TypedExprKind::Int(5)),
                    "mutable var x=5 then x=10 should not propagate 5"
                );
                return;
            }
        }
    }
}

#[test]
fn propagation_enables_subsequent_fold() {
    let stmts = vec![
        let_decl("x", int_expr(3), false),
        let_decl("y", int_expr(4), false),
        ret(binop_expr(BinOp::Add, ident_expr("x"), ident_expr("y"))),
    ];
    let file = propagate_file(make_file(stmts));
    assert_return_is_int(&file, 7);
}

#[test]
fn non_constant_binding_is_not_propagated() {
    let call_expr = TypedExpr {
        kind: TypedExprKind::Call {
            callee: Box::new(TypedExpr { kind: TypedExprKind::Ident("get_val".into()), ty: Ty::Int, span: s() }),
            args: vec![],
            fn_name: "get_val".into(),
            generic_bounds: vec![],
            generic_params: vec![],
            param_tys: vec![],
        },
        ty: Ty::Int,
        span: s(),
    };
    let stmts = vec![let_decl("x", call_expr, false), ret(ident_expr("x"))];
    let file = propagate_file(make_file(stmts));
    if let TypedItem::Function(f) = &file.items[0] {
        for stmt in &f.body.stmts {
            if let TypedStmt::Return { value: Some(e), .. } = stmt {
                assert!(
                    matches!(&e.kind, TypedExprKind::Ident(n) if n == "x"),
                    "expected Ident(x) in return, got {:?}",
                    e.kind
                );
                return;
            }
        }
    }
}

#[test]
fn loop_forgets_known_constants() {
    let stmts = vec![
        let_decl("x", int_expr(2), false),
        TypedStmt::While { cond: bool_expr(false), body: TypedBlock { stmts: vec![], span: s() }, span: s() },
        ret(ident_expr("x")),
    ];
    let out = propagate_block(TypedBlock { stmts, span: s() });
    let last = out.stmts.last().unwrap();
    match last {
        TypedStmt::Return { value: Some(e), .. } => {
            assert!(matches!(&e.kind, TypedExprKind::Ident(n) if n == "x"))
        }
        other => panic!("expected return, got {:?}", other),
    }
}

#[test]
fn boolean_constant_is_substituted() {
    let stmts = vec![
        TypedStmt::VarDecl { name: "b".into(), ty: Ty::Bool, value: bool_expr(true), mutable: false, span: s() },
        TypedStmt::Expr(TypedExpr { kind: TypedExprKind::Ident("b".into()), ty: Ty::Bool, span: s() }),
    ];
    let out = propagate_block(TypedBlock { stmts, span: s() });
    assert_eq!(out.stmts.len(), 2);
    match &out.stmts[1] {
        TypedStmt::Expr(e) => assert!(matches!(e.kind, TypedExprKind::Bool(true))),
        other => panic!("expected expression statement, got {:?}", other),
    }
}

#[test]
fn redeclaration_with_non_literal_ends_constant() {
    let call = TypedExpr {
        kind: TypedExprKind::Call {
            callee: Box::new(ident_expr("get_val")),
            args: vec![],
            fn_name: "get_val".into(),
            generic_bounds: vec![],
            generic_params: vec![],
            param_tys: vec![],
        },
        ty: Ty::Int,
        span: s(),
    };
    let block = TypedBlock {
        stmts: vec![let_decl("x", int_expr(5), false), let_decl("x", call, false), ret(ident_expr("x"))],
        span: s(),
    };
    let out = propagate_block(block);
    match &out.stmts[2] {
        TypedStmt::Return { value: Some(v), .. } => assert!(matches!(&v.kind, TypedExprKind::Ident(n) if n == "x")),
        _ => panic!("expected a return"),
    }
}
