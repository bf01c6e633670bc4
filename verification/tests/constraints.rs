use kiln::constraints::{check_expr_condition, check_tautological_conditions};
use kiln::error::AnalysisError;
use kiln::span::Span;
use kiln::ty::Ty;
use kiln::typed_ast::{TypedBlock, TypedExpr, TypedExprKind, TypedFile, TypedFnDef, TypedItem, TypedStmt};

fn s() -> Span {
    Span { start: 0, end: 0 }
}

fn bool_expr(b: bool) -> TypedExpr {
    TypedExpr { kind: TypedExprKind::Bool(b), ty: Ty::Bool, span: s() }
}

fn ident_expr(name: &str) -> TypedExpr {
    TypedExpr { kind: TypedExprKind::Ident(name.into()), ty: Ty::Bool, span: s() }
}

fn block(stmts: Vec<TypedStmt>) -> TypedBlock {
    TypedBlock { stmts, span: s() }
}

fn fn_file(body: Vec<TypedStmt>) -> TypedFile {
    TypedFile {
        items: vec![TypedItem::Function(TypedFnDef {
            name: "f".into(),
            params: vec![],
            variadic: None,
            return_type: Ty::Void,
            body: block(body),
            is_builtin: false,
            is_inline: false,
            is_declaration: false,
            is_entry: false,
            is_impure: false,
            span: s(),
        })],
        span: s(),
    }
}

#[test]
fn literal_true_condition_is_tautology() {
    let result = check_expr_condition(&bool_expr(true));
    assert!(
        matches!(result, Some(AnalysisError::TautologicalCondition { .. })),
        "Bool(true) as a condition should produce TautologicalCondition"
    );
}

#[test]
fn literal_false_condition_is_contradiction() {
    let result = check_expr_condition(&bool_expr(false));
    assert!(
        matches!(result, Some(AnalysisError::ContradictoryCondition { .. })),
        "Bool(false) as a condition should produce ContradictoryCondition"
    );
}

#[test]
fn independent_condition_produces_no_warning() {
    let result = check_expr_condition(&ident_expr("x"));
    assert!(result.is_none(), "variable condition should not produce a warning");
}

#[test]
fn while_true_is_not_flagged_but_while_false_is() {
    let file = fn_file(vec![
        TypedStmt::While { cond: bool_expr(true), body: block(vec![]), span: s() },
        TypedStmt::While { cond: bool_expr(false), body: block(vec![]), span: s() },
    ]);
    let errs = check_tautological_conditions(&file);
    assert_eq!(errs.len(), 1);
    assert!(matches!(errs[0], AnalysisError::ContradictoryCondition { .. }));
}

#[test]
fn nested_if_conditions_reported_in_source_order() {
    let inner = TypedStmt::If {
        branches: vec![(bool_expr(false), block(vec![]))],
        else_branch: None,
        span: s(),
    };
    let outer = TypedStmt::If {
        branches: vec![(bool_expr(true), block(vec![inner])), (ident_expr("y"), block(vec![]))],
        else_branch: None,
        span: s(),
    };
    let errs = check_tautological_conditions(&fn_file(vec![outer]));
    assert_eq!(errs.len(), 2);
    assert!(matches!(errs[0], AnalysisError::TautologicalCondition { .. }));
    assert!(matches!(errs[1], AnalysisError::ContradictoryCondition { .. }));
}
