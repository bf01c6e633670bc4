use kiln::ast::{BinOp, UnOp};
use kiln::error::AnalysisError;
use kiln::fold::{check_division_by_zero, expr_has_side_effects, fold_block, fold_expr, fold_file, is_power_of_two};
use kiln::span::Span;
use kiln::ty::Ty;
use kiln::typed_ast::{
    TypedBlock, TypedExpr, TypedExprKind, TypedFile, TypedFnDef, TypedItem, TypedStmt,
    TypedStringSegment,
};

fn s() -> Span {
    Span { start: 0, end: 0 }
}

fn int_expr(n: i64) -> TypedExpr {
    TypedExpr { kind: TypedExprKind::Int(n), ty: Ty::Int, span: s() }
}

fn float_expr(f: f64) -> TypedExpr {
    TypedExpr { kind: TypedExprKind::Float(f.to_bits()), ty: Ty::Float, span: s() }
}

fn bool_expr(b: bool) -> TypedExpr {
    TypedExpr { kind: TypedExprKind::Bool(b), ty: Ty::Bool, span: s() }
}

fn str_expr(text: &str) -> TypedExpr {
    TypedExpr {
        kind: TypedExprKind::Str(vec![TypedStringSegment::Text(text.into())]),
        ty: Ty::Str,
        span: s(),
    }
}

fn ident_expr(name: &str) -> TypedExpr {
    TypedExpr { kind: TypedExprKind::Ident(name.into()), ty: Ty::Int, span: s() }
}

fn binop(op: BinOp, left: TypedExpr, right: TypedExpr, ty: Ty) -> TypedExpr {
    TypedExpr {
        kind: TypedExprKind::BinOp { op, left: Box::new(left), right: Box::new(right) },
        ty,
        span: s(),
    }
}

fn unop(op: UnOp, operand: TypedExpr, ty: Ty) -> TypedExpr {
    TypedExpr { kind: TypedExprKind::UnOp { op, operand: Box::new(operand) }, ty, span: s() }
}

fn assert_int(expr: &TypedExpr, expected: i64) {
    match &expr.kind {
        TypedExprKind::Int(n) => assert_eq!(*n, expected, "expected Int({})", expected),
        other => panic!("expected Int({}), got {:?}", expected, other),
    }
}

fn assert_bool(expr: &TypedExpr, expected: bool) {
    match &expr.kind {
        TypedExprKind::Bool(b) => assert_eq!(*b, expected, "expected Bool({})", expected),
        other => panic!("expected Bool({}), got {:?}", expected, other),
    }
}

fn assert_ident(expr: &TypedExpr, expected: &str) {
    match &expr.kind {
        TypedExprKind::Ident(n) => assert_eq!(n, expected, "expected Ident({})", expected),
        other => panic!("expected Ident({}), got {:?}", expected, other),
    }
}

fn fn_file(body: Vec<TypedStmt>) -> TypedFile {
    TypedFile {
        items: vec![TypedItem::Function(TypedFnDef {
            name: "f".into(),
            params: vec![],
            variadic: None,
            return_type: Ty::Void,
            body: TypedBlock { stmts: body, span: s() },
            is_builtin: false,
            is_inline: false,
            is_declaration: false,
            is_entry: false,
            is_impure: false,
            span: s(),
        })],
        span: s(),
    }
}

#[test]
fn fold_integer_add_produces_literal() {
    let expr = binop(BinOp::Add, int_expr(3), int_expr(4), Ty::Int);
    let folded = fold_expr(expr);
    assert_int(&folded, 7);
}

#[test]
fn fold_boolean_and_short_circuits_false() {
    let expr = binop(BinOp::And, bool_expr(false), bool_expr(true), Ty::Bool);
    let folded = fold_expr(expr);
    assert_bool(&folded, false);
}

#[test]
fn fold_string_concat_two_literals() {
    let expr = binop(BinOp::Pipe, str_expr("hello"), str_expr(" world"), Ty::Str);
    let folded = fold_expr(expr);
    match folded.kind {
        TypedExprKind::Str(segs) => {
            assert_eq!(segs.len(), 1);
            if let TypedStringSegment::Text(t) = &segs[0] {
                assert_eq!(t, "hello world");
            } else {
                panic!("expected Text segment");
            }
        }
        other => panic!("expected Str, got {:?}", other),
    }
}

#[test]
fn fold_does_not_change_non_constant_expr() {
    let expr = binop(BinOp::Add, ident_expr("x"), ident_expr("y"), Ty::Int);
    let folded = fold_expr(expr);
    assert!(matches!(folded.kind, TypedExprKind::BinOp { .. }));
}

#[test]
fn fold_nested_expr_reduces_fully() {
    let inner = binop(BinOp::Add, int_expr(2), int_expr(3), Ty::Int);
    let outer = binop(BinOp::Mul, inner, int_expr(4), Ty::Int);
    let folded = fold_expr(outer);
    assert_int(&folded, 20);
}

#[test]
fn literal_division_by_zero_is_error() {
    let div_zero = binop(BinOp::Div, int_expr(10), int_expr(0), Ty::Int);
    let file = fn_file(vec![TypedStmt::Expr(div_zero)]);
    let errors = check_division_by_zero(&file);
    assert!(!errors.is_empty(), "expected division by zero error");
    assert!(matches!(errors[0], AnalysisError::DivisionByZero { .. }));
}

#[test]
fn non_zero_divisor_produces_no_error() {
    let div_ok = binop(BinOp::Div, int_expr(10), int_expr(2), Ty::Int);
    let file = fn_file(vec![TypedStmt::Expr(div_ok)]);
    let errors = check_division_by_zero(&file);
    assert!(errors.is_empty(), "no error for non-zero divisor");
}

#[test]
fn division_by_variable_without_known_value_is_not_flagged() {
    let div_var = binop(BinOp::Div, int_expr(10), ident_expr("n"), Ty::Int);
    let file = fn_file(vec![TypedStmt::Expr(div_var)]);
    let errors = check_division_by_zero(&file);
    assert!(errors.is_empty(), "variable divisor should not be flagged");
}

#[test]
fn double_negation_eliminated() {
    let expr = unop(UnOp::Neg, unop(UnOp::Neg, ident_expr("x"), Ty::Int), Ty::Int);
    let folded = fold_expr(expr);
    assert_ident(&folded, "x");
}

#[test]
fn double_not_eliminated() {
    let expr = unop(UnOp::Not, unop(UnOp::Not, ident_expr("b"), Ty::Bool), Ty::Bool);
    let folded = fold_expr(expr);
    assert_ident(&folded, "b");
}

#[test]
fn add_zero_identity() {
    let expr = binop(BinOp::Add, ident_expr("x"), int_expr(0), Ty::Int);
    let folded = fold_expr(expr);
    assert_ident(&folded, "x");
}

#[test]
fn mul_by_one_identity() {
    let expr = binop(BinOp::Mul, ident_expr("x"), int_expr(1), Ty::Int);
    let folded = fold_expr(expr);
    assert_ident(&folded, "x");
}

#[test]
fn mul_by_zero_is_zero() {
    let expr = binop(BinOp::Mul, ident_expr("x"), int_expr(0), Ty::Int);
    let folded = fold_expr(expr);
    assert_int(&folded, 0);
}

#[test]
fn sub_self_is_zero() {
    let expr = binop(BinOp::Sub, ident_expr("x"), ident_expr("x"), Ty::Int);
    let folded = fold_expr(expr);
    assert_int(&folded, 0);
}

#[test]
fn eq_true_simplifies_to_self() {
    let expr = binop(BinOp::Eq, ident_expr("b"), bool_expr(true), Ty::Bool);
    let folded = fold_expr(expr);
    assert_ident(&folded, "b");
}

#[test]
fn eq_false_becomes_not() {
    let expr = binop(BinOp::Eq, ident_expr("b"), bool_expr(false), Ty::Bool);
    let folded = fold_expr(expr);
    assert!(matches!(folded.kind, TypedExprKind::UnOp { op: UnOp::Not, .. }));
}

#[test]
fn false_and_expr_is_false_when_no_side_effects() {
    let expr = binop(BinOp::And, bool_expr(false), ident_expr("x"), Ty::Bool);
    let folded = fold_expr(expr);
    assert_bool(&folded, false);
}

#[test]
fn neg_zero_is_zero() {
    let expr = unop(UnOp::Neg, int_expr(0), Ty::Int);
    let folded = fold_expr(expr);
    assert_int(&folded, 0);
}

#[test]
fn string_len_method_folds_to_int() {
    let str_e = str_expr("hello");
    let len_call = TypedExpr {
        kind: TypedExprKind::MethodCall { object: Box::new(str_e), method_fn: "len".into(), args: vec![] },
        ty: Ty::Int,
        span: s(),
    };
    let folded = fold_expr(len_call);
    assert_int(&folded, 5);
}

#[test]
fn true_and_x_simplifies_to_x() {
    let expr = binop(BinOp::And, bool_expr(true), ident_expr("x"), Ty::Bool);
    let folded = fold_expr(expr);
    assert_ident(&folded, "x");
}

#[test]
fn false_or_x_simplifies_to_x() {
    let expr = binop(BinOp::Or, bool_expr(false), ident_expr("x"), Ty::Bool);
    let folded = fold_expr(expr);
    assert_ident(&folded, "x");
}

#[test]
fn zero_minus_x_becomes_negation() {
    let expr = binop(BinOp::Sub, int_expr(0), ident_expr("x"), Ty::Int);
    let folded = fold_expr(expr);
    assert!(
        matches!(folded.kind, TypedExprKind::UnOp { op: UnOp::Neg, .. }),
        "expected Neg, got {:?}",
        folded.kind
    );
}

#[test]
fn mul_by_neg_one_becomes_negation() {
    let expr = binop(BinOp::Mul, ident_expr("x"), int_expr(-1), Ty::Int);
    let folded = fold_expr(expr);
    assert!(matches!(folded.kind, TypedExprKind::UnOp { op: UnOp::Neg, .. }));
}

#[test]
fn mod_by_one_is_zero() {
    let expr = binop(BinOp::Mod, ident_expr("x"), int_expr(1), Ty::Int);
    let folded = fold_expr(expr);
    assert_int(&folded, 0);
}

#[test]
fn ident_eq_itself_is_true() {
    let expr = binop(BinOp::Eq, ident_expr("x"), ident_expr("x"), Ty::Bool);
    let folded = fold_expr(expr);
    assert_bool(&folded, true);
}

#[test]
fn ident_ne_itself_is_false() {
    let expr = binop(BinOp::Ne, ident_expr("x"), ident_expr("x"), Ty::Bool);
    let folded = fold_expr(expr);
    assert_bool(&folded, false);
}

#[test]
fn ident_lt_itself_is_false() {
    let expr = binop(BinOp::Lt, ident_expr("x"), ident_expr("x"), Ty::Bool);
    let folded = fold_expr(expr);
    assert_bool(&folded, false);
}

#[test]
fn ident_lteq_itself_is_true() {
    let expr = binop(BinOp::LtEq, ident_expr("x"), ident_expr("x"), Ty::Bool);
    let folded = fold_expr(expr);
    assert_bool(&folded, true);
}

#[test]
fn float_add_zero_identity() {
    let expr = binop(BinOp::Add, float_expr(3.14), float_expr(0.0), Ty::Float);
    let folded = fold_expr(expr);
    match folded.kind {
        TypedExprKind::Float(bits) => assert!((f64::from_bits(bits) - 3.14).abs() < 1e-9),
        other => panic!("expected Float, got {:?}", other),
    }
}

#[test]
fn float_mul_one_identity() {
    let expr = binop(BinOp::Mul, float_expr(2.5), float_expr(1.0), Ty::Float);
    let folded = fold_expr(expr);
    match folded.kind {
        TypedExprKind::Float(bits) => assert!((f64::from_bits(bits) - 2.5).abs() < 1e-9),
        other => panic!("expected Float, got {:?}", other),
    }
}

#[test]
fn adjacent_text_segments_are_merged() {
    let segs = vec![
        TypedStringSegment::Text("hello".into()),
        TypedStringSegment::Text(" ".into()),
        TypedStringSegment::Text("world".into()),
    ];
    let expr = TypedExpr { kind: TypedExprKind::Str(segs), ty: Ty::Str, span: s() };
    let folded = fold_expr(expr);
    match folded.kind {
        TypedExprKind::Str(segs) => {
            assert_eq!(segs.len(), 1);
            if let TypedStringSegment::Text(t) = &segs[0] {
                assert_eq!(t, "hello world");
            } else {
                panic!("expected Text segment");
            }
        }
        other => panic!("expected Str, got {:?}", other),
    }
}

#[test]
fn constant_true_if_branch_is_pruned_to_then() {
    let then_body = TypedBlock {
        stmts: vec![TypedStmt::Return { value: Some(int_expr(42)), span: s() }],
        span: s(),
    };
    let block = TypedBlock {
        stmts: vec![TypedStmt::If {
            branches: vec![(bool_expr(true), then_body)],
            else_branch: None,
            span: s(),
        }],
        span: s(),
    };
    let folded = fold_block(block);
    assert_eq!(folded.stmts.len(), 1);
    assert!(matches!(folded.stmts[0], TypedStmt::Return { .. }));
}

#[test]
fn constant_false_if_branch_is_pruned_to_else() {
    let then_body = TypedBlock {
        stmts: vec![TypedStmt::Return { value: Some(int_expr(0)), span: s() }],
        span: s(),
    };
    let else_body = TypedBlock {
        stmts: vec![TypedStmt::Return { value: Some(int_expr(1)), span: s() }],
        span: s(),
    };
    let block = TypedBlock {
        stmts: vec![TypedStmt::If {
            branches: vec![(bool_expr(false), then_body)],
            else_branch: Some(else_body),
            span: s(),
        }],
        span: s(),
    };
    let folded = fold_block(block);
    assert_eq!(folded.stmts.len(), 1);
    assert!(matches!(folded.stmts[0], TypedStmt::Return { .. }));
}

#[test]
fn sub_neg_y_becomes_add() {
    let neg_y = unop(UnOp::Neg, ident_expr("y"), Ty::Int);
    let expr = binop(BinOp::Sub, ident_expr("x"), neg_y, Ty::Int);
    let folded = fold_expr(expr);
    assert!(
        matches!(folded.kind, TypedExprKind::BinOp { op: BinOp::Add, .. }),
        "expected Add, got {:?}",
        folded.kind
    );
}

#[test]
fn ne_true_becomes_not() {
    let expr = binop(BinOp::Ne, ident_expr("b"), bool_expr(true), Ty::Bool);
    let folded = fold_expr(expr);
    assert!(matches!(folded.kind, TypedExprKind::UnOp { op: UnOp::Not, .. }));
}

#[test]
fn ne_false_simplifies_to_self() {
    let expr = binop(BinOp::Ne, ident_expr("b"), bool_expr(false), Ty::Bool);
    let folded = fold_expr(expr);
    assert_ident(&folded, "b");
}

#[test]
fn mod_self_is_zero() {
    let expr = binop(BinOp::Mod, ident_expr("x"), ident_expr("x"), Ty::Int);
    let folded = fold_expr(expr);
    assert_int(&folded, 0);
}

#[test]
fn unreachable_code_after_return_is_pruned() {
    let block = TypedBlock {
        stmts: vec![
            TypedStmt::Return { value: Some(int_expr(1)), span: s() },
            TypedStmt::Expr(int_expr(99)),
        ],
        span: s(),
    };
    let folded = fold_block(block);
    assert_eq!(folded.stmts.len(), 1, "dead code after return should be pruned");
    assert!(matches!(folded.stmts[0], TypedStmt::Return { .. }));
}

#[test]
fn dead_while_false_is_pruned() {
    let body = TypedBlock { stmts: vec![TypedStmt::Break(s())], span: s() };
    let block = TypedBlock {
        stmts: vec![TypedStmt::While { cond: bool_expr(false), body, span: s() }],
        span: s(),
    };
    let folded = fold_block(block);
    assert!(folded.stmts.is_empty(), "while false should be pruned");
}

#[test]
fn ident_and_itself_simplifies_to_itself() {
    let expr = binop(BinOp::And, ident_expr("x"), ident_expr("x"), Ty::Bool);
    let folded = fold_expr(expr);
    assert_ident(&folded, "x");
}

#[test]
fn ident_or_itself_simplifies_to_itself() {
    let expr = binop(BinOp::Or, ident_expr("x"), ident_expr("x"), Ty::Bool);
    let folded = fold_expr(expr);
    assert_ident(&folded, "x");
}

#[test]
fn multiply_by_two_becomes_addition() {
    let expr = binop(BinOp::Mul, ident_expr("x"), int_expr(2), Ty::Int);
    let folded = fold_expr(expr);
    if let TypedExprKind::BinOp { op: BinOp::Add, left, right } = &folded.kind {
        assert!(matches!(left.kind, TypedExprKind::Ident(ref n) if n == "x"), "left should be x");
        assert!(matches!(right.kind, TypedExprKind::Ident(ref n) if n == "x"), "right should be x");
    } else {
        panic!("x * 2 should become x + x, got {:?}", folded.kind);
    }
}

#[test]
fn two_times_x_becomes_addition() {
    let expr = binop(BinOp::Mul, int_expr(2), ident_expr("x"), Ty::Int);
    let folded = fold_expr(expr);
    if let TypedExprKind::BinOp { op: BinOp::Add, left, right } = &folded.kind {
        assert!(matches!(left.kind, TypedExprKind::Ident(ref n) if n == "x"), "left should be x");
        assert!(matches!(right.kind, TypedExprKind::Ident(ref n) if n == "x"), "right should be x");
    } else {
        panic!("2 * x should become x + x, got {:?}", folded.kind);
    }
}

#[test]
fn not_and_becomes_or_of_nots() {
    let inner = binop(BinOp::And, ident_expr("a"), ident_expr("b"), Ty::Bool);
    let expr = unop(UnOp::Not, inner, Ty::Bool);
    let folded = fold_expr(expr);
    assert!(
        matches!(folded.kind, TypedExprKind::BinOp { op: BinOp::Or, .. }),
        "!(a && b) should become (!a || !b)"
    );
}

#[test]
fn not_or_becomes_and_of_nots() {
    let inner = binop(BinOp::Or, ident_expr("a"), ident_expr("b"), Ty::Bool);
    let expr = unop(UnOp::Not, inner, Ty::Bool);
    let folded = fold_expr(expr);
    assert!(
        matches!(folded.kind, TypedExprKind::BinOp { op: BinOp::And, .. }),
        "!(a || b) should become (!a && !b)"
    );
}

#[test]
fn demorgan_with_true_simplifies() {
    let inner = binop(BinOp::And, bool_expr(true), ident_expr("x"), Ty::Bool);
    let expr = unop(UnOp::Not, inner, Ty::Bool);
    let folded = fold_expr(expr);
    assert!(
        matches!(folded.kind, TypedExprKind::UnOp { op: UnOp::Not, .. }),
        "!(true && x) should simplify to !x"
    );
}

#[test]
fn ident_or_true_is_true() {
    let expr = binop(BinOp::Or, ident_expr("x"), bool_expr(true), Ty::Bool);
    let folded = fold_expr(expr);
    assert_bool(&folded, true);
}

#[test]
fn ident_and_false_is_false() {
    let expr = binop(BinOp::And, ident_expr("x"), bool_expr(false), Ty::Bool);
    let folded = fold_expr(expr);
    assert_bool(&folded, false);
}

// Further cases.

#[test]
fn int_arithmetic_wraps_on_overflow() {
    let expr = binop(BinOp::Add, int_expr(i64::MAX), int_expr(1), Ty::Int);
    assert_int(&fold_expr(expr), i64::MIN);
    let expr = binop(BinOp::Div, int_expr(i64::MIN), int_expr(-1), Ty::Int);
    assert_int(&fold_expr(expr), i64::MIN);
    let expr = binop(BinOp::Mod, int_expr(i64::MIN), int_expr(-1), Ty::Int);
    assert_int(&fold_expr(expr), 0);
}

#[test]
fn int_division_and_remainder_truncate() {
    assert_int(&fold_expr(binop(BinOp::Div, int_expr(-7), int_expr(2), Ty::Int)), -3);
    assert_int(&fold_expr(binop(BinOp::Mod, int_expr(-7), int_expr(2), Ty::Int)), -1);
}

#[test]
fn division_by_literal_zero_is_left_alone() {
    let folded = fold_expr(binop(BinOp::Div, int_expr(7), int_expr(0), Ty::Int));
    assert!(matches!(folded.kind, TypedExprKind::BinOp { op: BinOp::Div, .. }));
}

#[test]
fn comparisons_of_literals_fold() {
    assert_bool(&fold_expr(binop(BinOp::Lt, int_expr(1), int_expr(2), Ty::Bool)), true);
    assert_bool(&fold_expr(binop(BinOp::GtEq, int_expr(1), int_expr(2), Ty::Bool)), false);
    assert_bool(&fold_expr(binop(BinOp::Ne, int_expr(3), int_expr(3), Ty::Bool)), false);
}

#[test]
fn negating_a_literal_folds() {
    assert_int(&fold_expr(unop(UnOp::Neg, int_expr(5), Ty::Int)), -5);
    assert_bool(&fold_expr(unop(UnOp::Not, bool_expr(true), Ty::Bool)), false);
    match fold_expr(unop(UnOp::Neg, float_expr(1.5), Ty::Float)).kind {
        TypedExprKind::Float(bits) => assert_eq!(f64::from_bits(bits), -1.5),
        other => panic!("expected Float, got {:?}", other),
    }
}

#[test]
fn side_effecting_operand_blocks_short_circuit() {
    let call = TypedExpr {
        kind: TypedExprKind::StaticCall { method_fn: "tick".into(), args: vec![] },
        ty: Ty::Bool,
        span: s(),
    };
    assert!(expr_has_side_effects(&call));
    let expr = binop(BinOp::And, call, bool_expr(false), Ty::Bool);
    let folded = fold_expr(expr);
    assert!(matches!(folded.kind, TypedExprKind::BinOp { op: BinOp::And, .. }));
}

#[test]
fn fold_file_folds_function_bodies() {
    let file = fn_file(vec![TypedStmt::Expr(binop(BinOp::Add, int_expr(1), int_expr(2), Ty::Int))]);
    let folded = fold_file(file);
    match &folded.items[0] {
        TypedItem::Function(f) => match &f.body.stmts[0] {
            TypedStmt::Expr(e) => assert_int(e, 3),
            other => panic!("expected expression statement, got {:?}", other),
        },
        other => panic!("expected function, got {:?}", other),
    }
}

#[test]
fn powers_of_two_are_recognised() {
    assert_eq!(is_power_of_two(1), Some(0));
    assert_eq!(is_power_of_two(8), Some(3));
    assert_eq!(is_power_of_two(1 << 62), Some(62));
    assert_eq!(is_power_of_two(0), None);
    assert_eq!(is_power_of_two(6), None);
    assert_eq!(is_power_of_two(-8), None);
}

#[test]
fn division_by_float_zero_is_flagged_once_per_site() {
    let inner = binop(BinOp::Mod, int_expr(1), float_expr(-0.0), Ty::Float);
    let outer = binop(BinOp::Div, inner, int_expr(0), Ty::Int);
    let errors = check_division_by_zero(&fn_file(vec![TypedStmt::Expr(outer)]));
    assert_eq!(errors.len(), 2);
}

#[test]
fn float_sub_self_is_float_zero() {
    let x = TypedExpr { kind: TypedExprKind::Ident("x".into()), ty: Ty::Float, span: s() };
    let y = TypedExpr { kind: TypedExprKind::Ident("x".into()), ty: Ty::Float, span: s() };
    let folded = fold_expr(binop(BinOp::Sub, x, y, Ty::Float));
    assert!(matches!(folded.kind, TypedExprKind::Float(bits) if f64::from_bits(bits) == 0.0));
    assert!(matches!(folded.ty, Ty::Float));
}

fn int_value(e: &TypedExpr) -> i64 {
    match &e.kind {
        TypedExprKind::Int(n) => *n,
        TypedExprKind::BinOp { op: BinOp::Add, left, right } => int_value(left).wrapping_add(int_value(right)),
        TypedExprKind::BinOp { op: BinOp::Sub, left, right } => int_value(left).wrapping_sub(int_value(right)),
        TypedExprKind::BinOp { op: BinOp::Mul, left, right } => int_value(left).wrapping_mul(int_value(right)),
        TypedExprKind::BinOp { op: BinOp::Div, left, right } => {
            let a = int_value(left);
            a.checked_div(int_value(right)).unwrap_or(a)
        },
        TypedExprKind::BinOp { op: BinOp::Mod, left, right } => int_value(left).checked_rem(int_value(right)).unwrap_or(0),
        TypedExprKind::UnOp { op: UnOp::Neg, operand } => 0i64.wrapping_sub(int_value(operand)),
        _ => panic!("not integer arithmetic"),
    }
}

#[test]
fn folding_keeps_the_value_of_integer_arithmetic() {
    let cases = vec![
        binop(BinOp::Mul, binop(BinOp::Add, int_expr(2), int_expr(3), Ty::Int), int_expr(-1), Ty::Int),
        binop(BinOp::Sub, int_expr(0), int_expr(5), Ty::Int),
        binop(BinOp::Sub, int_expr(7), unop(UnOp::Neg, int_expr(4), Ty::Int), Ty::Int),
        binop(BinOp::Add, int_expr(i64::MAX), int_expr(1), Ty::Int),
        unop(UnOp::Neg, unop(UnOp::Neg, binop(BinOp::Mul, int_expr(6), int_expr(0), Ty::Int), Ty::Int), Ty::Int),
        binop(BinOp::Div, int_expr(-7), int_expr(2), Ty::Int),
        binop(BinOp::Mod, int_expr(-7), int_expr(3), Ty::Int),
        binop(BinOp::Div, binop(BinOp::Add, int_expr(9), int_expr(1), Ty::Int), int_expr(1), Ty::Int),
        binop(BinOp::Mod, int_expr(12), binop(BinOp::Sub, int_expr(5), int_expr(4), Ty::Int), Ty::Int),
        binop(BinOp::Div, int_expr(i64::MIN), int_expr(-1), Ty::Int),
        binop(BinOp::Div, int_expr(3), binop(BinOp::Sub, int_expr(0), int_expr(2), Ty::Int), Ty::Int),
    ];
    for e in cases {
        let before = int_value(&e);
        let folded = fold_expr(e);
        assert_eq!(int_value(&folded), before);
    }
}
