use kiln::env::{Env, FnOverload};
use kiln::error::AnalysisError;
use kiln::ty::ty_copy;
use kiln::type_compat::{check_assignable_normalized, normalize_ty};
use kiln::span::Span;
use kiln::ty::{InterfaceId, Ty, TypeId};
use kiln::type_compat::{
    find_best_overload, param_matches_arg, subst_generic_ty, substitute_t, type_name_of,
    types_compatible,
};
use kiln::typed_ast::{TypedExpr, TypedExprKind};

fn sp() -> Span {
    Span { start: 0, end: 0 }
}

fn vec_of(t: Ty) -> Ty {
    Ty::Named(TypeId(9), "Vec".into(), vec![t])
}

fn arg(ty: Ty) -> TypedExpr {
    TypedExpr { kind: TypedExprKind::Int(0), ty, span: sp() }
}

fn overload(name: &str, params: Vec<Ty>) -> FnOverload {
    FnOverload {
        generic_params: vec![],
        generic_bounds: vec![],
        inferred_bounds: vec![],
        params: params.into_iter().enumerate().map(|(i, t)| (format!("p{i}"), t)).collect(),
        ret: Ty::Void,
        throws: false,
        mangled_name: name.into(),
        span: sp(),
    }
}

#[test]
fn compatibility_basics() {
    assert!(types_compatible(&Ty::Int, &Ty::Int));
    assert!(types_compatible(&Ty::Float, &Ty::Int));
    assert!(!types_compatible(&Ty::Int, &Ty::Float));
    assert!(types_compatible(&Ty::Unknown, &Ty::Str));
    assert!(types_compatible(&Ty::GenericParam("T".into()), &Ty::Bool));
    assert!(types_compatible(&Ty::Interface(InterfaceId(1), "Show".into()), &Ty::Int));
    assert!(!types_compatible(&Ty::Str, &Ty::Bool));
}

#[test]
fn compatibility_through_containers_and_refs() {
    assert!(types_compatible(&vec_of(Ty::Float), &vec_of(Ty::Int)));
    assert!(!types_compatible(&vec_of(Ty::Int), &vec_of(Ty::Str)));
    assert!(types_compatible(&Ty::Ref(Box::new(Ty::Int), false), &Ty::Int));
    assert!(types_compatible(&Ty::Int, &Ty::Ref(Box::new(Ty::Int), true)));
    assert!(!types_compatible(&Ty::Tuple(vec![Ty::Int]), &Ty::Tuple(vec![Ty::Int, Ty::Int])));
    assert!(types_compatible(
        &Ty::Callable(vec![Ty::Int], Box::new(Ty::Float)),
        &Ty::Callable(vec![Ty::Int], Box::new(Ty::Int))
    ));
}

#[test]
fn exact_parameter_matching() {
    assert!(param_matches_arg(&Ty::GenericParam("T".into()), &Ty::Str));
    assert!(param_matches_arg(&vec_of(Ty::GenericParam("T".into())), &vec_of(Ty::Int)));
    assert!(!param_matches_arg(&Ty::Float, &Ty::Int));
    assert!(!param_matches_arg(&vec_of(Ty::Int), &Ty::Int));
}

#[test]
fn overload_passes_prefer_exact_then_unknown_then_compatible() {
    let os = vec![overload("f_float", vec![Ty::Float]), overload("f_int", vec![Ty::Int])];
    let exact = find_best_overload(&os, &[arg(Ty::Int)]).unwrap();
    assert_eq!(exact.mangled_name, "f_int");
    let unknown = find_best_overload(&os, &[arg(Ty::Unknown)]).unwrap();
    assert_eq!(unknown.mangled_name, "f_float");
    let only_float = vec![overload("g", vec![Ty::Float])];
    assert_eq!(find_best_overload(&only_float, &[arg(Ty::Int)]).unwrap().mangled_name, "g");
    assert!(find_best_overload(&os, &[arg(Ty::Str)]).is_none());
    assert!(find_best_overload(&os, &[]).is_none());
}

#[test]
fn substitution_of_generic_parameters() {
    let subst = vec![("T".to_string(), Ty::Int)];
    let t = Ty::Callable(vec![Ty::GenericParam("T".into())], Box::new(vec_of(Ty::GenericParam("U".into()))));
    match subst_generic_ty(&t, &subst) {
        Ty::Callable(ps, ret) => {
            assert!(matches!(ps[0], Ty::Int));
            match *ret {
                Ty::Named(_, _, args) => assert!(matches!(&args[0], Ty::GenericParam(n) if n == "U")),
                _ => panic!("expected a named type"),
            }
        }
        _ => panic!("expected a callable"),
    }
    match substitute_t(&Ty::Tuple(vec![Ty::GenericParam("A".into()), Ty::Bool]), &Ty::Str) {
        Ty::Tuple(ts) => {
            assert!(matches!(ts[0], Ty::Str));
            assert!(matches!(ts[1], Ty::Bool));
        }
        _ => panic!("expected a tuple"),
    }
}

#[test]
fn dispatch_names() {
    assert_eq!(type_name_of(&Ty::Int).as_deref(), Some("int"));
    assert_eq!(type_name_of(&vec_of(Ty::Int)).as_deref(), Some("Vec"));
    assert_eq!(type_name_of(&Ty::GenericParam("T".into())).as_deref(), Some("T"));
    assert_eq!(type_name_of(&Ty::Void), None);
}

#[test]
fn normalized_check_resolves_pinned_projections() {
    let sp = Span { start: 3, end: 4 };
    let mut env = Env::new();
    env.push_scope();
    env.pin_projection("T", "Item", Ty::Int);
    let proj = Ty::Projection { base: "T".into(), assoc: "Item".into() };
    let pins = env.get_active_pins();
    assert!(matches!(normalize_ty(&Ty::Tuple(vec![ty_copy(&proj)]), &pins), Ty::Tuple(v) if matches!(v[0], Ty::Int)));
    let mut errors = Vec::new();
    check_assignable_normalized(&proj, &Ty::Int, &env, &sp, &mut errors);
    assert!(errors.is_empty());
    check_assignable_normalized(&proj, &Ty::Str, &env, &sp, &mut errors);
    assert_eq!(errors.len(), 1);
    match &errors[0] {
        AnalysisError::TypeMismatch { expected, found, .. } => {
            assert_eq!(expected, "int");
            assert_eq!(found, "str");
        }
        _ => panic!("expected a type mismatch"),
    }
}
