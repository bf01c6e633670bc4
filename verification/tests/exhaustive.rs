use kiln::ast::{Expr, MatchArm, Pattern};
use kiln::exhaustive::{check_exhaustiveness, MatchDomain};
use kiln::span::Span;

fn s() -> Span {
    Span { start: 0, end: 0 }
}

fn dummy_body() -> Expr {
    Expr::Bool(true, s())
}

fn arm(pattern: Pattern) -> MatchArm {
    MatchArm { pattern, guard: None, body: dummy_body(), span: s() }
}

fn variant(name: &str) -> Pattern {
    Pattern::Struct { variant: name.into(), fields: vec![], span: s() }
}

fn enum_domain(names: &[&str]) -> MatchDomain {
    MatchDomain::Enum { variants: names.iter().map(|n| n.to_string()).collect() }
}

#[test]
fn wildcard_covers_all() {
    let arms = vec![arm(Pattern::Wildcard(s()))];
    let mut errs = vec![];
    check_exhaustiveness(&arms, &MatchDomain::Primitive, &s(), &mut errs);
    assert!(errs.is_empty());
}

#[test]
fn bool_needs_both_cases() {
    let arms = vec![
        arm(Pattern::Literal(Expr::Bool(true, s()))),
        arm(Pattern::Literal(Expr::Bool(false, s()))),
    ];
    let mut errs = vec![];
    check_exhaustiveness(&arms, &MatchDomain::Bool, &s(), &mut errs);
    assert!(errs.is_empty());
}

#[test]
fn bool_missing_false_is_error() {
    let arms = vec![arm(Pattern::Literal(Expr::Bool(true, s())))];
    let mut errs = vec![];
    check_exhaustiveness(&arms, &MatchDomain::Bool, &s(), &mut errs);
    assert_eq!(errs.len(), 1);
}

#[test]
fn enum_all_variants_covered() {
    let arms = vec![arm(variant("North")), arm(variant("South"))];
    let mut errs = vec![];
    check_exhaustiveness(&arms, &enum_domain(&["North", "South"]), &s(), &mut errs);
    assert!(errs.is_empty());
}

#[test]
fn enum_missing_variant_is_error() {
    let arms = vec![arm(variant("North"))];
    let mut errs = vec![];
    check_exhaustiveness(&arms, &enum_domain(&["North", "South"]), &s(), &mut errs);
    assert_eq!(errs.len(), 1);
}

#[test]
fn option_some_struct_and_none_struct_exhaustive() {
    let arms = vec![arm(variant("Some")), arm(variant("None"))];
    let mut errs = vec![];
    check_exhaustiveness(&arms, &enum_domain(&["Some", "None"]), &s(), &mut errs);
    assert!(errs.is_empty(), "Some + None (both Struct) must be exhaustive");
}

#[test]
fn option_some_struct_and_bare_none_typebinding_exhaustive() {
    let arms = vec![
        arm(variant("Some")),
        arm(Pattern::TypeBinding { ty: "None".into(), name: "_".into(), span: s() }),
    ];
    let mut errs = vec![];
    check_exhaustiveness(&arms, &enum_domain(&["Some", "None"]), &s(), &mut errs);
    assert!(errs.is_empty(), "Some (Struct) + None (TypeBinding) must be exhaustive: {errs:?}");
}

#[test]
fn option_missing_none_via_enum_is_error() {
    let arms = vec![arm(variant("Some"))];
    let mut errs = vec![];
    check_exhaustiveness(&arms, &enum_domain(&["Some", "None"]), &s(), &mut errs);
    assert_eq!(errs.len(), 1, "Some-only Option match must be non-exhaustive");
}

#[test]
fn option_missing_some_via_enum_is_error() {
    let arms = vec![arm(Pattern::TypeBinding { ty: "None".into(), name: "_".into(), span: s() })];
    let mut errs = vec![];
    check_exhaustiveness(&arms, &enum_domain(&["Some", "None"]), &s(), &mut errs);
    assert_eq!(errs.len(), 1, "None-only Option match must be non-exhaustive");
}

#[test]
fn union_needs_every_member_bound() {
    let domain = MatchDomain::Union { types: vec!["int".into(), "str".into()] };
    let arms = vec![arm(Pattern::TypeBinding { ty: "int".into(), name: "i".into(), span: s() })];
    let mut errs = vec![];
    check_exhaustiveness(&arms, &domain, &s(), &mut errs);
    assert_eq!(errs.len(), 1);
    let arms = vec![
        arm(Pattern::TypeBinding { ty: "int".into(), name: "i".into(), span: s() }),
        arm(Pattern::TypeBinding { ty: "str".into(), name: "t".into(), span: s() }),
    ];
    let mut errs = vec![];
    check_exhaustiveness(&arms, &domain, &s(), &mut errs);
    assert!(errs.is_empty());
}

#[test]
fn primitive_without_wildcard_is_error() {
    let arms = vec![arm(Pattern::Literal(Expr::Int(1, s())))];
    let mut errs = vec![];
    check_exhaustiveness(&arms, &MatchDomain::Primitive, &Span::new(3, 7), &mut errs);
    assert_eq!(errs.len(), 1);
    assert_eq!(errs[0].span(), Span::new(3, 7));
}
