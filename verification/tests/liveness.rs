use kiln::cfg::CfgBuilder;
use kiln::liveness::{analyze_liveness, liveness_for_file};
use kiln::span::Span;
use kiln::ty::Ty;
use kiln::typed_ast::{TypedBlock, TypedExpr, TypedExprKind, TypedFile, TypedFnDef, TypedItem, TypedStmt};

fn s() -> Span {
    Span { start: 0, end: 0 }
}

fn int_expr(n: i64) -> TypedExpr {
    TypedExpr { kind: TypedExprKind::Int(n), ty: Ty::Int, span: s() }
}

fn ident_expr(name: &str) -> TypedExpr {
    TypedExpr { kind: TypedExprKind::Ident(name.into()), ty: Ty::Int, span: s() }
}

fn var_decl(name: &str, value: TypedExpr) -> TypedStmt {
    TypedStmt::VarDecl { name: name.into(), ty: Ty::Int, value, mutable: false, span: s() }
}

fn ret_stmt(e: TypedExpr) -> TypedStmt {
    TypedStmt::Return { value: Some(e), span: s() }
}

fn block(stmts: Vec<TypedStmt>) -> TypedBlock {
    TypedBlock { stmts, span: s() }
}

fn has(set: &[String], name: &str) -> bool {
    set.iter().any(|n| n == name)
}

#[test]
fn live_in_set_includes_variable_read_in_block() {
    let b = block(vec![var_decl("x", int_expr(1)), ret_stmt(ident_expr("x"))]);
    let cfg = CfgBuilder::build(&b);
    let live = analyze_liveness(&cfg, &b.stmts);
    assert!(!has(&live.live_in[0], "x"));
}

#[test]
fn defined_variable_not_in_live_in_if_not_used_before() {
    let b = block(vec![var_decl("x", int_expr(1)), ret_stmt(int_expr(0))]);
    let cfg = CfgBuilder::build(&b);
    let live = analyze_liveness(&cfg, &b.stmts);
    assert!(!has(&live.live_in[0], "x"));
    assert!(!has(&live.live_out[0], "x"));
}

#[test]
fn liveness_propagates_backwards_through_loop() {
    let b = block(vec![
        var_decl("x", int_expr(1)),
        var_decl("y", int_expr(2)),
        ret_stmt(ident_expr("x")),
    ]);
    let cfg = CfgBuilder::build(&b);
    let live = analyze_liveness(&cfg, &b.stmts);
    assert!(!has(&live.live_out[0], "y"), "y is dead after its block; should not be in live_out");
}

#[test]
fn variable_read_before_definition_is_live_on_entry() {
    let b = block(vec![var_decl("y", ident_expr("p")), ret_stmt(ident_expr("y"))]);
    let cfg = CfgBuilder::build(&b);
    let live = analyze_liveness(&cfg, &b.stmts);
    assert_eq!(live.live_in[0], vec!["p".to_string()]);
}

#[test]
fn every_block_of_a_loop_gets_its_sets() {
    let body = block(vec![TypedStmt::Assign { target: ident_expr("acc"), value: ident_expr("step"), span: s() }]);
    let b = block(vec![
        var_decl("acc", ident_expr("seed")),
        TypedStmt::While { cond: ident_expr("go"), body, span: s() },
    ]);
    let cfg = CfgBuilder::build(&b);
    let live = analyze_liveness(&cfg, &b.stmts);
    assert_eq!(live.live_in.len(), cfg.blocks.len());
    assert_eq!(live.live_out.len(), cfg.blocks.len());
    assert_eq!(live.live_in[0], vec!["seed".to_string()]);
}

#[test]
fn file_liveness_follows_function_order() {
    let f = TypedFnDef {
        name: "main".into(),
        params: vec![],
        variadic: None,
        return_type: Ty::Int,
        body: block(vec![ret_stmt(ident_expr("g"))]),
        is_builtin: false,
        is_inline: false,
        is_declaration: false,
        is_entry: true,
        is_impure: false,
        span: s(),
    };
    let file = TypedFile { items: vec![TypedItem::Function(f)], span: s() };
    let out = liveness_for_file(&file);
    assert_eq!(out.len(), 1);
    assert_eq!(out[0].0, "main");
    assert_eq!(out[0].1.live_in[0], vec!["g".to_string()]);
}
