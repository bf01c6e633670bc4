use kiln::escape::{analyze_escapes, escape_for_file, EscapeInfo};
use kiln::span::Span;
use kiln::ty::Ty;
use kiln::typed_ast::{TypedBlock, TypedExpr, TypedExprKind, TypedFile, TypedFnDef, TypedItem, TypedStmt};

fn s() -> Span {
    Span { start: 0, end: 0 }
}

fn int_expr(n: i64) -> TypedExpr {
    TypedExpr { kind: TypedExprKind::Int(n), ty: Ty::Int, span: s() }
}

fn ident_expr(name: &str) -> TypedExpr {
    TypedExpr { kind: TypedExprKind::Ident(name.into()), ty: Ty::Int, span: s() }
}

fn block(stmts: Vec<TypedStmt>) -> TypedBlock {
    TypedBlock { stmts, span: s() }
}

fn var_decl(name: &str, value: TypedExpr) -> TypedStmt {
    TypedStmt::VarDecl { name: name.into(), ty: Ty::Int, value, mutable: false, span: s() }
}

fn non_escaping(info: &EscapeInfo, name: &str) -> bool {
    info.non_escaping.iter().any(|n| n == name)
}

#[test]
fn non_escaping_local_is_identified() {
    let b = block(vec![var_decl("x", int_expr(42)), TypedStmt::Return { value: Some(int_expr(0)), span: s() }]);
    let info = analyze_escapes(&b);
    assert!(
        non_escaping(&info, "x"),
        "x should be non-escaping since it is never returned or passed to calls"
    );
}

#[test]
fn returned_variable_escapes() {
    let b = block(vec![var_decl("x", int_expr(42)), TypedStmt::Return { value: Some(ident_expr("x")), span: s() }]);
    let info = analyze_escapes(&b);
    assert!(!non_escaping(&info, "x"), "x should escape because it is returned");
}

#[test]
fn variable_passed_to_call_escapes() {
    let call_expr = TypedExpr {
        kind: TypedExprKind::Call {
            callee: Box::new(ident_expr("some_fn")),
            args: vec![ident_expr("x")],
            fn_name: "some_fn".into(),
            generic_bounds: vec![],
            generic_params: vec![],
            param_tys: vec![],
        },
        ty: Ty::Void,
        span: s(),
    };
    let b = block(vec![var_decl("x", int_expr(42)), TypedStmt::Expr(call_expr)]);
    let info = analyze_escapes(&b);
    assert!(!non_escaping(&info, "x"), "x should escape because it is passed to a call");
}

#[test]
fn value_stored_into_field_escapes_and_names_are_listed_once() {
    let store = TypedStmt::Assign {
        target: TypedExpr {
            kind: TypedExprKind::Field { object: Box::new(ident_expr("obj")), field: "f".into() },
            ty: Ty::Int,
            span: s(),
        },
        value: ident_expr("v"),
        span: s(),
    };
    let b = block(vec![
        var_decl("obj", int_expr(1)),
        var_decl("v", int_expr(2)),
        var_decl("w", int_expr(3)),
        var_decl("w", int_expr(4)),
        store,
    ]);
    let info = analyze_escapes(&b);
    assert!(!non_escaping(&info, "obj"));
    assert!(!non_escaping(&info, "v"));
    assert_eq!(info.non_escaping, vec!["w".to_string()]);
}

#[test]
fn file_results_follow_function_order() {
    let mk = |name: &str, body: Vec<TypedStmt>| {
        TypedItem::Function(TypedFnDef {
            name: name.into(),
            params: vec![],
            variadic: None,
            return_type: Ty::Void,
            body: block(body),
            is_builtin: false,
            is_inline: false,
            is_declaration: false,
            is_entry: false,
            is_impure: false,
            span: s(),
        })
    };
    let file = TypedFile {
        items: vec![mk("a", vec![var_decl("p", int_expr(1))]), mk("b", vec![])],
        span: s(),
    };
    let out = escape_for_file(&file);
    assert_eq!(out.len(), 2);
    assert_eq!(out[0].0, "a");
    assert!(non_escaping(&out[0].1, "p"));
    assert_eq!(out[1].0, "b");
    assert!(out[1].1.non_escaping.is_empty());
}
