use kiln::ast::TypeExpr;
use kiln::env::{Env, Symbol};
use kiln::error::AnalysisError;
use kiln::resolve::{resolve_primitive_name, resolve_type_expr};
use kiln::span::Span;
use kiln::ty::{InterfaceId, Ty, TypeId};

fn s() -> Span {
    Span { start: 0, end: 0 }
}

fn named(name: &str, generics: Vec<TypeExpr>) -> TypeExpr {
    TypeExpr::Named { name: name.into(), generics, bindings: vec![], span: s() }
}

fn check(name: &str, expected: fn(&Ty) -> bool) {
    let env = Env::new();
    let mut errs = vec![];
    let ty = resolve_type_expr(&named(name, vec![]), &env, &mut errs);
    assert!(expected(&ty), "unexpected type {:?}", ty);
    assert!(errs.is_empty());
}

#[test]
fn resolves_int() {
    check("int", |t| matches!(t, Ty::Int));
}

#[test]
fn resolves_float() {
    check("float", |t| matches!(t, Ty::Float));
}

#[test]
fn resolves_str() {
    check("str", |t| matches!(t, Ty::Str));
}

#[test]
fn resolves_void() {
    check("void", |t| matches!(t, Ty::Void));
}

#[test]
fn resolves_registered_generic_type() {
    let mut env = Env::new();
    // TypeId(0) is reserved as the generic-param sentinel; registered types start at 1.
    let id = TypeId(1);
    env.push_scope();
    env.define("Box", Symbol::Type { id, span: s() });
    let mut errs = vec![];
    let ty = resolve_type_expr(&named("Box", vec![named("int", vec![])]), &env, &mut errs);
    match &ty {
        Ty::Named(got, name, args) => {
            assert_eq!(*got, id);
            assert_eq!(name, "Box");
            assert_eq!(args.len(), 1);
            assert!(matches!(args[0], Ty::Int));
        }
        other => panic!("expected Box[int], got {:?}", other),
    }
    assert!(errs.is_empty());
}

#[test]
fn unknown_type_emits_error() {
    let env = Env::new();
    let mut errs = vec![];
    let ty = resolve_type_expr(&named("Ghost", vec![]), &env, &mut errs);
    assert!(matches!(ty, Ty::Unknown));
    assert_eq!(errs.len(), 1);
}

#[test]
fn primitive_names_only() {
    assert!(matches!(resolve_primitive_name("bool"), Some(Ty::Bool)));
    assert!(resolve_primitive_name("Bool").is_none());
    assert!(resolve_primitive_name("Vec").is_none());
}

#[test]
fn sentinel_id_resolves_to_generic_param_and_interfaces_resolve() {
    let mut env = Env::new();
    env.push_scope();
    env.define("T", Symbol::Type { id: TypeId(0), span: s() });
    env.define("Display", Symbol::Iface { id: InterfaceId(4), assoc_types: vec![], span: s() });
    let mut errs = vec![];
    let t = resolve_type_expr(&named("T", vec![]), &env, &mut errs);
    assert!(matches!(&t, Ty::GenericParam(n) if n == "T"));
    let d = resolve_type_expr(&named("Display", vec![]), &env, &mut errs);
    assert!(matches!(&d, Ty::Interface(InterfaceId(4), n) if n == "Display"));
    assert!(errs.is_empty());
}

#[test]
fn errors_come_in_order_and_projections_are_named() {
    let env = Env::new();
    let mut errs = vec![];
    let callable = TypeExpr::Callable {
        params: vec![named("A", vec![]), named("int", vec![])],
        ret: Box::new(named("B", vec![])),
        span: s(),
    };
    let ty = resolve_type_expr(&callable, &env, &mut errs);
    assert!(matches!(&ty, Ty::Callable(ps, r) if ps.len() == 2 && matches!(**r, Ty::Unknown)));
    let names: Vec<&str> = errs
        .iter()
        .map(|e| match e {
            AnalysisError::UndefinedName { name, .. } => name.as_str(),
            _ => "?",
        })
        .collect();
    assert_eq!(names, vec!["A", "B"]);
    let proj = TypeExpr::Projection { base: "T".into(), assoc: "Item".into(), span: s() };
    let p = resolve_type_expr(&proj, &env, &mut errs);
    assert!(matches!(&p, Ty::GenericParam(n) if n == "T.Item"));
}
