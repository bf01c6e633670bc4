use kiln::env::{Env, Symbol};
use kiln::error::AnalysisError;
use kiln::span::Span;
use kiln::ty::Ty;
use kiln::typed_ast::{TypedBlock, TypedExpr, TypedExprKind, TypedStmt};
use kiln::unused::{
    collect_ident_reads, collect_reassigned_names, emit_unused_var_warnings,
    is_definite_terminator, typed_stmt_span,
};

fn sp(start: usize) -> Span {
    Span { start, end: start + 1 }
}

fn int_expr(n: i64) -> TypedExpr {
    TypedExpr { kind: TypedExprKind::Int(n), ty: Ty::Int, span: sp(0) }
}

fn ident_expr(name: &str) -> TypedExpr {
    TypedExpr { kind: TypedExprKind::Ident(name.into()), ty: Ty::Int, span: sp(0) }
}

fn assign(name: &str, value: TypedExpr) -> TypedStmt {
    TypedStmt::Assign { target: ident_expr(name), value, span: sp(0) }
}

fn var(mutable: bool, at: usize) -> Symbol {
    Symbol::Var { ty: Ty::Int, mutable, span: sp(at) }
}

#[test]
fn assigned_variable_is_written_not_read() {
    let stmts = vec![assign("x", ident_expr("y"))];
    let reads = collect_ident_reads(&stmts);
    assert_eq!(reads, vec!["y".to_string()]);
    let writes = collect_reassigned_names(&stmts);
    assert_eq!(writes, vec!["x".to_string()]);
}

#[test]
fn writes_inside_loops_are_found() {
    let body = TypedBlock { stmts: vec![assign("i", int_expr(1))], span: sp(0) };
    let stmts = vec![TypedStmt::While { cond: ident_expr("c"), body, span: sp(0) }];
    assert_eq!(collect_reassigned_names(&stmts), vec!["i".to_string()]);
    assert_eq!(collect_ident_reads(&stmts), vec!["c".to_string()]);
}

#[test]
fn unused_and_needless_mut_warnings() {
    let mut env = Env::new();
    env.push_scope();
    env.define("unused", var(false, 1));
    env.define("fixed", var(true, 2));
    env.define("counter", var(true, 3));
    env.define("_ignored", var(false, 4));
    let stmts = vec![
        TypedStmt::Expr(ident_expr("fixed")),
        TypedStmt::Expr(ident_expr("counter")),
        assign("counter", int_expr(2)),
    ];
    let mut errors: Vec<AnalysisError> = Vec::new();
    emit_unused_var_warnings(&env, &stmts, &mut errors);
    assert_eq!(errors.len(), 2);
    assert!(matches!(&errors[0], AnalysisError::UnusedVariable { name, span } if name == "unused" && span.start == 1));
    assert!(matches!(&errors[1], AnalysisError::NeedlessMut { name, span } if name == "fixed" && span.start == 2));
}

#[test]
fn no_scope_variables_no_warnings() {
    let env = Env::new();
    let mut errors: Vec<AnalysisError> = Vec::new();
    emit_unused_var_warnings(&env, &vec![], &mut errors);
    assert!(errors.is_empty());
}

#[test]
fn terminators_and_spans() {
    assert!(is_definite_terminator(&TypedStmt::Break(sp(5))));
    assert!(is_definite_terminator(&TypedStmt::Return { value: None, span: sp(5) }));
    assert!(!is_definite_terminator(&TypedStmt::Expr(int_expr(1))));
    assert_eq!(typed_stmt_span(&TypedStmt::Continue(sp(7))).start, 7);
}
