use kiln::ast::{GenericParam, GenericParamKind, TypeExpr, Variance};
use kiln::env::{Env, Symbol};
use kiln::error::AnalysisError;
use kiln::signatures::{
    bound_assoc_bindings, bound_iface_name, build_generic_bounds, params_are_duplicate, register_projection_pins,
    subst_generic_params_unknown, ty_sig_eq,
};
use kiln::span::Span;
use kiln::ty::{InterfaceId, Ty, TypeId};

fn sp(start: usize) -> Span {
    Span { start, end: start + 1 }
}

fn named(n: &str, bindings: Vec<(String, TypeExpr)>) -> TypeExpr {
    TypeExpr::Named { name: n.into(), generics: vec![], bindings, span: sp(0) }
}

fn gp(name: &str, bounds: Vec<TypeExpr>, at: usize) -> GenericParam {
    GenericParam { kind: GenericParamKind::Type, name: name.into(), variance: Variance::Invariant, bounds, span: sp(at) }
}

fn env() -> Env {
    let mut env = Env::new();
    env.push_scope();
    env.define("Show", Symbol::TypeAlias(Ty::Interface(InterfaceId(2), "Display".into())));
    env
}

#[test]
fn generic_parameters_are_alike_in_signatures() {
    assert!(ty_sig_eq(&Ty::GenericParam("T".into()), &Ty::GenericParam("U".into())));
    let vt = Ty::Named(TypeId(1), "Vec".into(), vec![Ty::GenericParam("T".into())]);
    let vu = Ty::Named(TypeId(2), "Vec".into(), vec![Ty::GenericParam("U".into())]);
    assert!(ty_sig_eq(&vt, &vu));
    assert!(!ty_sig_eq(&Ty::Int, &Ty::GenericParam("T".into())));
    let a = vec![("x".to_string(), Ty::Int), ("y".to_string(), vt)];
    let b = vec![("p".to_string(), Ty::Int), ("q".to_string(), vu)];
    assert!(params_are_duplicate(&a, &b));
    assert!(!params_are_duplicate(&a, &vec![("x".to_string(), Ty::Int)]));
}

#[test]
fn listed_generic_parameters_become_unknown() {
    let t = Ty::Callable(vec![Ty::GenericParam("T".into())], Box::new(Ty::GenericParam("U".into())));
    match subst_generic_params_unknown(&t, &vec!["T".to_string()]) {
        Ty::Callable(ps, ret) => {
            assert!(matches!(ps[0], Ty::Unknown));
            assert!(matches!(&*ret, Ty::GenericParam(n) if n == "U"));
        }
        _ => panic!("expected a callable"),
    }
}

#[test]
fn bound_names_resolve_interface_aliases() {
    let env = env();
    assert_eq!(bound_iface_name(&named("Show", vec![]), &env).as_deref(), Some("Display"));
    assert_eq!(bound_iface_name(&named("Eq", vec![]), &env).as_deref(), Some("Eq"));
    assert_eq!(bound_iface_name(&TypeExpr::Tuple(vec![], sp(0)), &env), None);
}

#[test]
fn bounds_are_built_per_parameter_with_bindings() {
    let env = env();
    let mut errors: Vec<AnalysisError> = Vec::new();
    let params = vec![
        gp("T", vec![named("Show", vec![]), named("Iterable", vec![("Item".to_string(), named("int", vec![]))])], 3),
        gp("U", vec![], 9),
    ];
    let bounds = build_generic_bounds(&params, &env, &mut errors);
    assert!(errors.is_empty());
    assert_eq!(bounds.len(), 2);
    assert_eq!(bounds[0].param, "T");
    assert_eq!(bounds[0].iface, "Display");
    assert!(bounds[0].is_explicit);
    assert_eq!(bounds[0].decl_span.map(|s| s.start), Some(3));
    assert_eq!(bounds[1].iface, "Iterable");
    assert_eq!(bounds[1].assoc_bindings.len(), 1);
    assert_eq!(bounds[1].assoc_bindings[0].0, "Item");
    assert!(matches!(bounds[1].assoc_bindings[0].1, Ty::Int));
}

#[test]
fn undefined_binding_types_are_reported() {
    let env = env();
    let mut errors: Vec<AnalysisError> = Vec::new();
    let b = named("Iterable", vec![("Item".to_string(), named("Nowhere", vec![]))]);
    let r = bound_assoc_bindings(&b, &env, &mut errors);
    assert_eq!(r.len(), 1);
    assert_eq!(errors.len(), 1);
    assert!(matches!(&errors[0], AnalysisError::UndefinedName { name, .. } if name == "Nowhere"));
}

#[test]
fn bounds_pin_concrete_projections_and_register_interfaces() {
    let mut env = env();
    env.push_scope();
    let mut errors: Vec<AnalysisError> = Vec::new();
    let params = vec![gp(
        "T",
        vec![
            named("Iterable", vec![("Item".to_string(), named("int", vec![]))]),
            named("Mapping", vec![("Key".to_string(), named("Show", vec![]))]),
        ],
        1,
    )];
    register_projection_pins(&params, &mut env, &mut errors);
    assert!(errors.is_empty());
    assert!(matches!(env.resolve_projection("T", "Item"), Some(Ty::Int)));
    assert!(env.resolve_projection("T", "Key").is_none());
    assert_eq!(env.get_param_ifaces("T"), vec!["Iterable".to_string(), "Mapping".to_string()]);
}
