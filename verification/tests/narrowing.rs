use kiln::env::{Env, Symbol};
use kiln::narrowing::detect_implements_narrowing;
use kiln::span::Span;
use kiln::ty::{InterfaceId, Ty, TypeId};
use kiln::typed_ast::{TypedExpr, TypedExprKind};

fn sp() -> Span {
    Span { start: 0, end: 0 }
}

fn implements(var: &str, iface: &str) -> TypedExpr {
    TypedExpr {
        kind: TypedExprKind::Implements {
            expr: Box::new(TypedExpr { kind: TypedExprKind::Ident(var.into()), ty: Ty::Unknown, span: sp() }),
            iface_name: iface.into(),
        },
        ty: Ty::Bool,
        span: sp(),
    }
}

fn env_with(var_ty: Ty) -> Env {
    let mut env = Env::new();
    env.push_scope();
    env.define("Show", Symbol::Iface { id: InterfaceId(7), assoc_types: vec![], span: sp() });
    env.define("x", Symbol::Var { ty: var_ty, mutable: false, span: sp() });
    env
}

#[test]
fn plain_type_becomes_compound_with_interface() {
    let env = env_with(Ty::Int);
    let (name, ty) = detect_implements_narrowing(&implements("x", "Show"), &env).unwrap();
    assert_eq!(name, "x");
    match ty {
        Ty::Compound(parts) => {
            assert_eq!(parts.len(), 2);
            assert!(matches!(parts[0], Ty::Int));
            assert!(matches!(&parts[1], Ty::Interface(InterfaceId(7), n) if n == "Show"));
        }
        _ => panic!("expected a compound type"),
    }
}

#[test]
fn compound_type_gains_interface_once() {
    let iface = Ty::Interface(InterfaceId(7), "Show".into());
    let env = env_with(Ty::Compound(vec![Ty::Named(TypeId(1), "P".into(), vec![]), iface]));
    let (_, ty) = detect_implements_narrowing(&implements("x", "Show"), &env).unwrap();
    match ty {
        Ty::Compound(parts) => assert_eq!(parts.len(), 2),
        _ => panic!("expected a compound type"),
    }
}

#[test]
fn no_narrowing_without_interface_or_variable() {
    let env = env_with(Ty::Int);
    assert!(detect_implements_narrowing(&implements("x", "Missing"), &env).is_none());
    assert!(detect_implements_narrowing(&implements("y", "Show"), &env).is_none());
    let not_test = TypedExpr { kind: TypedExprKind::Bool(true), ty: Ty::Bool, span: sp() };
    assert!(detect_implements_narrowing(&not_test, &env).is_none());
}
