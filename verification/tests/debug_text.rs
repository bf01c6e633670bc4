use kiln::ast::{Expr, HookName, TypeExpr};
use kiln::debug_text::{hook_name_debug_text, type_expr_debug_text};
use kiln::span::Span;

fn sp(a: usize, b: usize) -> Span {
    Span { start: a, end: b }
}

fn named(name: &str, generics: Vec<TypeExpr>, bindings: Vec<(String, TypeExpr)>) -> TypeExpr {
    TypeExpr::Named { name: name.to_string(), generics, bindings, span: sp(1, 2) }
}

#[test]
fn type_expr_text_matches_derived_debug() {
    let cases = vec![
        named("int", vec![], vec![]),
        named("Map", vec![named("str", vec![], vec![]), named("int", vec![], vec![])], vec![]),
        named("Iterable", vec![], vec![("Item".to_string(), named("str", vec![], vec![]))]),
        TypeExpr::Tuple(vec![], sp(0, 2)),
        TypeExpr::Tuple(vec![named("a", vec![], vec![]), named("b", vec![], vec![])], sp(3, 40)),
        TypeExpr::Callable {
            params: vec![named("int", vec![], vec![])],
            ret: Box::new(TypeExpr::Union(vec![named("x", vec![], vec![])], sp(5, 6))),
            span: sp(7, 8),
        },
        TypeExpr::Ref { inner: Box::new(named("T", vec![], vec![])), mutable: true, span: sp(9, 10) },
        TypeExpr::Projection { base: "T".to_string(), assoc: "Item".to_string(), span: sp(11, 12) },
        TypeExpr::GenSplice(Box::new(Expr::Int(-42, sp(1, 3))), sp(0, 9)),
        TypeExpr::GenSplice(Box::new(Expr::Int(i64::MIN, sp(1, 3))), sp(0, 9)),
        TypeExpr::GenSplice(Box::new(Expr::Bool(false, sp(1, 3))), sp(0, 9)),
        TypeExpr::GenSplice(Box::new(Expr::Float(4607182418800017408, sp(1, 3))), sp(0, 9)),
        TypeExpr::GenSplice(Box::new(Expr::Str("a\"b\\c\n\t\r\0\u{1}\u{1f}\u{7f}é".to_string(), sp(1, 3))), sp(0, 9)),
        TypeExpr::GenSplice(Box::new(Expr::Ident("it's".to_string(), sp(1, 3))), sp(0, 9)),
    ];
    for t in &cases {
        assert_eq!(type_expr_debug_text(t), format!("{:?}", t));
    }
}

#[test]
fn hook_name_text_matches_derived_debug() {
    for h in [HookName::Named("drop".to_string()), HookName::Op("+".to_string()), HookName::Op("\"q\"".to_string())] {
        assert_eq!(hook_name_debug_text(&h), format!("{:?}", h));
    }
}
