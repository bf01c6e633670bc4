use kiln::dce::{dce_block, dce_file, expr_has_side_effects};
use kiln::span::Span;
use kiln::ty::Ty;
use kiln::typed_ast::{TypedBlock, TypedExpr, TypedExprKind, TypedFile, TypedFnDef, TypedItem, TypedStmt};

fn s() -> Span {
    Span { start: 0, end: 0 }
}

fn int_expr(n: i64) -> TypedExpr {
    TypedExpr { kind: TypedExprKind::Int(n), ty: Ty::Int, span: s() }
}

fn ident_expr(name: &str) -> TypedExpr {
    TypedExpr { kind: TypedExprKind::Ident(name.into()), ty: Ty::Int, span: s() }
}

fn var_decl(name: &str, value: TypedExpr) -> TypedStmt {
    TypedStmt::VarDecl { name: name.into(), ty: Ty::Int, value, mutable: false, span: s() }
}

fn ret_stmt(e: TypedExpr) -> TypedStmt {
    TypedStmt::Return { value: Some(e), span: s() }
}

fn block(stmts: Vec<TypedStmt>) -> TypedBlock {
    TypedBlock { stmts, span: s() }
}

fn call_expr(name: &str) -> TypedExpr {
    TypedExpr {
        kind: TypedExprKind::Call {
            callee: Box::new(ident_expr(name)),
            args: vec![],
            fn_name: name.into(),
            generic_bounds: vec![],
            generic_params: vec![],
            param_tys: vec![],
        },
        ty: Ty::Int,
        span: s(),
    }
}

#[test]
fn dead_let_binding_is_removed() {
    let b = block(vec![var_decl("x", int_expr(42)), ret_stmt(int_expr(0))]);
    let result = dce_block(b);
    assert_eq!(result.stmts.len(), 1, "dead let should be removed, only return should remain");
    assert!(matches!(result.stmts[0], TypedStmt::Return { .. }));
}

#[test]
fn live_variable_is_not_removed() {
    let b = block(vec![var_decl("x", int_expr(42)), ret_stmt(ident_expr("x"))]);
    let result = dce_block(b);
    assert_eq!(result.stmts.len(), 2, "live variable binding must be kept");
}

#[test]
fn redundant_self_assignment_is_removed() {
    let b = block(vec![
        TypedStmt::Assign { target: ident_expr("x"), value: ident_expr("x"), span: s() },
        ret_stmt(ident_expr("x")),
    ]);
    let result = dce_block(b);
    assert_eq!(result.stmts.len(), 1, "x = x should be eliminated");
    assert!(matches!(result.stmts[0], TypedStmt::Return { .. }));
}

#[test]
fn assignment_with_side_effecting_rhs_is_kept() {
    let b = block(vec![var_decl("x", call_expr("some_call")), ret_stmt(int_expr(0))]);
    let result = dce_block(b);
    assert_eq!(result.stmts.len(), 2, "side-effecting RHS must not be eliminated even if LHS is dead");
}

#[test]
fn mutable_binding_is_kept_even_if_unread() {
    let b = block(vec![
        TypedStmt::VarDecl { name: "m".into(), ty: Ty::Int, value: int_expr(1), mutable: true, span: s() },
        ret_stmt(int_expr(0)),
    ]);
    assert_eq!(dce_block(b).stmts.len(), 2);
}

#[test]
fn writing_a_name_is_not_reading_it() {
    // let x = 1; x = 2; return 0  -> x is only written, so the let goes
    let b = block(vec![
        var_decl("x", int_expr(1)),
        TypedStmt::Assign { target: ident_expr("x"), value: int_expr(2), span: s() },
        ret_stmt(int_expr(0)),
    ]);
    let result = dce_block(b);
    assert_eq!(result.stmts.len(), 2);
    assert!(matches!(result.stmts[0], TypedStmt::Assign { .. }));
}

#[test]
fn nested_blocks_are_cleaned_in_a_file() {
    let inner = TypedStmt::While {
        cond: ident_expr("c"),
        body: block(vec![var_decl("dead", int_expr(3))]),
        span: s(),
    };
    let file = TypedFile {
        items: vec![TypedItem::Function(TypedFnDef {
            name: "f".into(),
            params: vec![],
            variadic: None,
            return_type: Ty::Void,
            body: block(vec![inner]),
            is_builtin: false,
            is_inline: false,
            is_declaration: false,
            is_entry: false,
            is_impure: false,
            span: s(),
        })],
        span: s(),
    };
    let out = dce_file(file);
    match &out.items[0] {
        TypedItem::Function(f) => match &f.body.stmts[0] {
            TypedStmt::While { body, .. } => assert!(body.stmts.is_empty()),
            other => panic!("expected while, got {:?}", other),
        },
        _ => panic!("expected function"),
    }
}

#[test]
fn side_effects_are_calls_not_closures() {
    assert!(expr_has_side_effects(&call_expr("g")));
    assert!(!expr_has_side_effects(&ident_expr("g")));
}
