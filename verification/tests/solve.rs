use kiln::constrain::{Constraint, ConstraintKind, ConstraintReason};
use kiln::error::AnalysisError;
use kiln::solve::{satisfies, solve, weaker_bound_suggestion, ConformanceEntry, TypeKind, TypeRegistry};
use kiln::span::Span;
use kiln::type_compat::{check_assignable, check_assignable_with_decl_span};
use kiln::ty::ty_to_string;
use kiln::ty::{Ty, TypeId};

fn plain() -> ConformanceEntry {
    ConformanceEntry { bounds: vec![], bindings: vec![] }
}

fn make_registry() -> TypeRegistry {
    let mut r = TypeRegistry::new();
    r.register_conformance("int", "Addable", plain());
    r.register_conformance("int", "Display", plain());
    r.register_conformance("int", "Eq", plain());
    r.register_conformance("int", "Ord", plain());
    r.register_conformance("float", "Display", plain());
    r.register_conformance("float", "Addable", plain());
    r.register_conformance("str", "Display", plain());
    r.register_conformance("str", "Addable", plain());
    r.register_conformance("bool", "Display", plain());
    r.register_conformance(
        "Vec",
        "Display",
        ConformanceEntry { bounds: vec![("T".into(), "Display".into())], bindings: vec![] },
    );
    r.register_conformance(
        "Vec",
        "Eq",
        ConformanceEntry { bounds: vec![("T".into(), "Eq".into())], bindings: vec![] },
    );
    r
}

#[test]
fn int_satisfies_addable() {
    let r = make_registry();
    assert!(satisfies(&Ty::Int, "Addable", &r));
}

#[test]
fn int_does_not_satisfy_unknown_iface() {
    let r = make_registry();
    assert!(!satisfies(&Ty::Int, "Iterable", &r));
}

#[test]
fn vec_int_satisfies_display() {
    let r = make_registry();
    let ty = Ty::Named(TypeId(99), "Vec".into(), vec![Ty::Int]);
    assert!(satisfies(&ty, "Display", &r));
}

#[test]
fn vec_vec_int_satisfies_display() {
    let r = make_registry();
    let inner = Ty::Named(TypeId(99), "Vec".into(), vec![Ty::Int]);
    let outer = Ty::Named(TypeId(99), "Vec".into(), vec![inner]);
    assert!(satisfies(&outer, "Display", &r));
}

#[test]
fn float_does_not_satisfy_eq() {
    let r = make_registry();
    assert!(!satisfies(&Ty::Float, "Eq", &r));
}

#[test]
fn unknown_always_satisfies() {
    let r = make_registry();
    assert!(satisfies(&Ty::Unknown, "Eq", &r));
    assert!(satisfies(&Ty::Unknown, "SomeFakeIface", &r));
}

#[test]
fn int_satisfies_partial_ord_via_ord() {
    let mut r = TypeRegistry::new();
    r.register_conformance("int", "Ord", plain());
    r.register_interface_supers("Ord", vec!["PartialOrd".to_string()]);
    assert!(!r.get_conformances("int", "PartialOrd").is_empty() || satisfies(&Ty::Int, "PartialOrd", &r));
}

#[test]
fn int_satisfies_eq_transitively_via_ord() {
    let mut r = TypeRegistry::new();
    r.register_conformance("int", "Ord", plain());
    r.register_interface_supers("Ord", vec!["PartialOrd".to_string()]);
    r.register_interface_supers("PartialOrd", vec!["Eq".to_string()]);
    assert!(satisfies(&Ty::Int, "Eq", &r));
}

#[test]
fn int_does_not_satisfy_display_via_ord() {
    let mut r = TypeRegistry::new();
    r.register_conformance("int", "Ord", plain());
    r.register_interface_supers("Ord", vec!["PartialOrd".to_string()]);
    assert!(!satisfies(&Ty::Int, "Display", &r));
}

#[test]
fn registered_vec_of_float_fails_element_bound() {
    let mut r = make_registry();
    r.register_type("Vec", vec!["T".to_string()], TypeKind::Struct);
    let ok = Ty::Named(TypeId(1), "Vec".into(), vec![Ty::Int]);
    let bad = Ty::Named(TypeId(1), "Vec".into(), vec![Ty::Float]);
    assert!(satisfies(&ok, "Eq", &r));
    assert!(!satisfies(&bad, "Eq", &r));
    assert!(satisfies(&bad, "Display", &r));
}

#[test]
fn references_compounds_and_structural_types() {
    let r = make_registry();
    assert!(satisfies(&Ty::Ref(Box::new(Ty::Int), false), "Eq", &r));
    assert!(!satisfies(&Ty::Ref(Box::new(Ty::Float), true), "Eq", &r));
    assert!(satisfies(&Ty::Compound(vec![Ty::Float, Ty::Int]), "Eq", &r));
    assert!(!satisfies(&Ty::Tuple(vec![Ty::Int]), "Eq", &r));
    assert!(!satisfies(&Ty::Void, "Display", &r));
    assert!(satisfies(&Ty::GenericParam("T".into()), "Eq", &r));
}

#[test]
fn with_variant_satisfies_operator_interface() {
    let mut r = TypeRegistry::new();
    r.register_type("Money", vec![], TypeKind::Struct);
    r.register_conformance("Money", "AddableWith", plain());
    let money = Ty::Named(TypeId(3), "Money".into(), vec![]);
    assert!(satisfies(&money, "Addable", &r));
    assert!(!satisfies(&money, "Eq", &r));
}

#[test]
fn iface_implication_is_transitive_and_strict() {
    let mut r = TypeRegistry::new();
    r.register_interface_supers("Ord", vec!["PartialOrd".to_string()]);
    r.register_interface_supers("PartialOrd", vec!["Eq".to_string()]);
    assert!(r.iface_implies("Ord", "Eq"));
    assert!(r.iface_implies("Ord", "PartialOrd"));
    assert!(!r.iface_implies("Eq", "Ord"));
    assert!(!r.iface_implies("Eq", "Eq"));
}

#[test]
fn solve_empty_returns_no_errors() {
    let r = make_registry();
    assert!(solve(&vec![], &r).is_empty());
}

#[test]
fn weaker_bound_suggested_when_type_satisfies_superinterface() {
    let mut r = TypeRegistry::new();
    r.register_conformance("float", "PartialOrd", plain());
    r.register_interface_supers("Ord", vec!["PartialOrd".to_string()]);
    r.precompute_transitive_closures();
    let suggestion = weaker_bound_suggestion(&Ty::Float, "Ord", &r);
    assert!(suggestion.is_some(), "should suggest PartialOrd as a weaker alternative");
    let msg = suggestion.unwrap();
    assert!(msg.contains("PartialOrd"), "suggestion should mention PartialOrd: {msg}");
}

#[test]
fn no_suggestion_when_type_satisfies_nothing() {
    let mut r = TypeRegistry::new();
    r.register_interface_supers("Ord", vec!["PartialOrd".to_string()]);
    r.precompute_transitive_closures();
    let suggestion = weaker_bound_suggestion(&Ty::Float, "Ord", &r);
    assert!(suggestion.is_none());
}

#[test]
fn most_specific_superinterface_is_suggested() {
    let mut r = TypeRegistry::new();
    r.register_conformance("float", "PartialOrd", plain());
    r.register_conformance("float", "Eq", plain());
    r.register_interface_supers("Ord", vec!["PartialOrd".to_string()]);
    r.register_interface_supers("PartialOrd", vec!["Eq".to_string()]);
    r.precompute_transitive_closures();
    let suggestion = weaker_bound_suggestion(&Ty::Float, "Ord", &r);
    let msg = suggestion.expect("should have a suggestion");
    assert!(msg.contains("PartialOrd"), "should suggest PartialOrd not Eq: {msg}");
}

fn sp(a: usize, b: usize) -> Span {
    Span { start: a, end: b }
}

#[test]
fn suggestion_text_and_missing_closure() {
    let mut r = TypeRegistry::new();
    r.register_conformance("float", "PartialOrd", plain());
    r.register_interface_supers("Ord", vec!["PartialOrd".to_string()]);
    assert!(weaker_bound_suggestion(&Ty::Float, "Ord", &r).is_none());
    r.precompute_transitive_closures();
    assert_eq!(
        weaker_bound_suggestion(&Ty::Float, "Ord", &r).unwrap(),
        "`float` does implement `PartialOrd` -- consider relaxing the bound from `Ord` to `PartialOrd`"
    );
    assert_eq!(r.get_transitive_supers("Ord").unwrap(), &vec!["PartialOrd".to_string()]);
    assert!(r.get_transitive_supers("Eq").is_none());
}

#[test]
fn solve_reports_each_failing_constraint_in_order() {
    let mut r = make_registry();
    r.register_interface_supers("Ord", vec!["Eq".to_string()]);
    r.register_conformance("float", "Eq", plain());
    r.precompute_transitive_closures();
    let cs = vec![
        Constraint { kind: ConstraintKind::Bound { ty: Ty::Int, iface: "Ord".into() }, span: sp(1, 2), reason: ConstraintReason::UnaryNeg },
        Constraint {
            kind: ConstraintKind::Bound { ty: Ty::Float, iface: "Ord".into() },
            span: sp(3, 4),
            reason: ConstraintReason::GenericBoundCheck {
                param: "T".into(),
                bound: "Ord".into(),
                fn_name: "max".into(),
                is_explicit: true,
                decl_span: Some(sp(0, 1)),
                source_span: Some(sp(5, 6)),
                source_desc: "comparison".into(),
            },
        },
        Constraint { kind: ConstraintKind::Bound { ty: Ty::Bool, iface: "Addable".into() }, span: sp(7, 8), reason: ConstraintReason::Interpolation },
    ];
    let errs = solve(&cs, &r);
    assert_eq!(errs.len(), 2);
    match &errs[0] {
        AnalysisError::BoundViolation { ty, iface, context, span, notes } => {
            assert_eq!(ty, "float");
            assert_eq!(iface, "Ord");
            assert_eq!(context, " (explicit bound `T: Ord` on `max`)");
            assert_eq!(*span, sp(3, 4));
            assert_eq!(notes.len(), 3);
            assert_eq!(notes[0], ("bound required by comparison in `max`".to_string(), Some(sp(5, 6))));
            assert_eq!(notes[1], ("bound declared here".to_string(), Some(sp(0, 1))));
            assert!(notes[2].0.contains("consider relaxing the bound from `Ord` to `Eq`"));
        }
        _ => panic!("expected a bound violation"),
    }
    assert!(matches!(&errs[1], AnalysisError::BoundViolation { ty, .. } if ty == "bool"));
}

#[test]
fn solve_checks_projected_bounds_through_bindings() {
    let mut r = make_registry();
    r.register_type("Bag", vec![], TypeKind::Struct);
    r.register_conformance("Bag", "Iterable", ConformanceEntry { bounds: vec![], bindings: vec![("Item".into(), Ty::Float)] });
    let bag = Ty::Named(TypeId(5), "Bag".into(), vec![]);
    let proj = |req: &str| Constraint {
        kind: ConstraintKind::ProjectedBound {
            base_ty: Ty::Named(TypeId(5), "Bag".into(), vec![]),
            base_iface: "Iterable".into(),
            assoc_name: "Item".into(),
            required_iface: req.into(),
        },
        span: sp(2, 3),
        reason: ConstraintReason::Interpolation,
    };
    let errs = solve(&vec![proj("Display"), proj("Eq")], &r);
    assert_eq!(errs.len(), 1);
    match &errs[0] {
        AnalysisError::ProjectedBoundViolation { base_ty, assoc_ty, required_iface, .. } => {
            assert_eq!(base_ty, "Bag");
            assert_eq!(assoc_ty, "float");
            assert_eq!(required_iface, "Eq");
        }
        _ => panic!("expected a projected bound violation"),
    }
    let _ = bag;
}

#[test]
fn types_are_written_out_for_messages() {
    let m = Ty::Named(TypeId(1), "Map".into(), vec![Ty::Str, Ty::Named(TypeId(2), "Vec".into(), vec![Ty::Int])]);
    assert_eq!(ty_to_string(&m), "Map[str, Vec[int]]");
    assert_eq!(ty_to_string(&Ty::Callable(vec![Ty::Int, Ty::Bool], Box::new(Ty::Void))), "fn(int, bool) -> void");
    assert_eq!(ty_to_string(&Ty::Tuple(vec![Ty::Int, Ty::Float])), "(int, float)");
    assert_eq!(ty_to_string(&Ty::Ref(Box::new(Ty::Str), true)), "&mut str");
    assert_eq!(ty_to_string(&Ty::Projection { base: "T".into(), assoc: "Item".into() }), "T.Item");
    assert_eq!(ty_to_string(&Ty::Union(vec![Ty::Int, Ty::Str])), "int | str");
    assert_eq!(ty_to_string(&Ty::Unknown), "unknown");
}

#[test]
fn check_assignable_reports_mismatches_only() {
    let mut errors = Vec::new();
    check_assignable(&Ty::Int, &Ty::Int, &sp(0, 1), &mut errors);
    check_assignable(&Ty::Float, &Ty::Int, &sp(0, 1), &mut errors);
    assert!(errors.is_empty());
    check_assignable(&Ty::Int, &Ty::Str, &sp(2, 3), &mut errors);
    check_assignable_with_decl_span(&Ty::Bool, &Ty::Int, &sp(4, 5), Some(sp(0, 1)), &mut errors);
    assert_eq!(errors.len(), 2);
    match &errors[0] {
        AnalysisError::TypeMismatch { expected, found, span, decl_span } => {
            assert_eq!((expected.as_str(), found.as_str(), *span, *decl_span), ("int", "str", sp(2, 3), None));
        }
        _ => panic!("expected a type mismatch"),
    }
    assert!(matches!(&errors[1], AnalysisError::TypeMismatch { decl_span: Some(_), .. }));
}
