use vstd::prelude::*;
use crate::env::{Env, Symbol};
use crate::ty::{Ty, TyModel, lemma_tys_model_index, ty_copy, ty_eq, ty_model, tys_copy, tys_model};
use crate::typed_ast::{TypedExpr, TypedExprKind};

verus! {

// Narrowing by `implements(x, Iface)`: in the branch where the test holds, the variable
// `x` also has the interface type.

/// The type a variable of type `orig` has once it is known to implement `iface`: a
/// compound type gains the interface unless it already holds it, and any other type
/// becomes the compound of itself and the interface.
pub open spec fn narrowed(orig: TyModel, iface: TyModel) -> TyModel {
    match orig {
        TyModel::Compound(parts) => TyModel::Compound(
            if parts.contains(iface) {
                parts
            } else {
                parts.push(iface)
            },
        ),
        _ => TyModel::Compound(seq![orig, iface]),
    }
}

/// The test is `implements(v, I)` for a plain variable `v` and a name `I`.
pub open spec fn implements_test(cond: TypedExpr) -> Option<(String, String)> {
    match cond.kind {
        TypedExprKind::Implements { expr, iface_name } => match expr.kind {
            TypedExprKind::Ident(v) => Some((v, iface_name)),
            _ => None,
        },
        _ => None,
    }
}

/// Whether `cond` narrows a variable: it is `implements(v, I)` where `v` is bound to a
/// variable and `I` to an interface.
pub open spec fn narrows(cond: TypedExpr, env: Env) -> bool {
    &&& implements_test(cond) is Some
    &&& env.binding(implements_test(cond)->Some_0.0@) matches Some(Symbol::Var { .. })
    &&& env.binding(implements_test(cond)->Some_0.1@) matches Some(Symbol::Iface { .. })
}

fn tys_contains(parts: &Vec<Ty>, t: &Ty) -> (r: bool)
    ensures
        r == tys_model(parts@).contains(ty_model(*t)),
{
    proof {
        lemma_tys_model_index(parts@);
    }
    let mut i: usize = 0;
    while i < parts.len()
        invariant
            i <= parts@.len(),
            tys_model(parts@).len() == parts@.len(),
            forall|k: int| 0 <= k < parts@.len() ==> #[trigger] tys_model(parts@)[k] == ty_model(parts@[k]),
            forall|k: int| 0 <= k < i ==> tys_model(parts@)[k] != ty_model(*t),
        decreases parts.len() - i,
    {
        if ty_eq(&parts[i], t) {
            assert(tys_model(parts@)[i as int] == ty_model(*t));
            return true;
        }
        i += 1;
    }
    false
}

/// If `cond` is `implements(v, I)` with `v` a variable and `I` an interface, the name
/// `v` and its narrowed type.
pub fn detect_implements_narrowing(cond: &TypedExpr, env: &Env) -> (r: Option<(String, Ty)>)
    requires
        env.wf(),
    ensures
        r is Some <==> narrows(*cond, *env),
        r matches Some((name, ty)) ==> {
            &&& name == implements_test(*cond)->Some_0.0
            &&& env.binding(name@) matches Some(Symbol::Var { ty: orig, .. })
            &&& env.binding(implements_test(*cond)->Some_0.1@) matches Some(Symbol::Iface { id, .. })
            &&& ty_model(ty) == narrowed(
                ty_model(orig),
                TyModel::Interface(id, implements_test(*cond)->Some_0.1@),
            )
        },
{
    if let TypedExprKind::Implements { expr, iface_name } = &cond.kind {
        if let TypedExprKind::Ident(var_name) = &expr.kind {
            if let Some(Symbol::Var { ty: original_ty, .. }) = env.lookup(var_name.as_str()) {
                if let Some(Symbol::Iface { id, .. }) = env.lookup(iface_name.as_str()) {
                    let iface_ty = Ty::Interface(*id, iface_name.clone());
                    let ghost iface_m = ty_model(iface_ty);
                    let narrowed_ty = match original_ty {
                        Ty::Compound(parts) => {
                            let mut p = tys_copy(parts);
                            let ghost p0 = p@;
                            if !tys_contains(&p, &iface_ty) {
                                p.push(iface_ty);
                                proof {
                                    assert(p@.drop_last() =~= p0);
                                    assert(tys_model(p@) == tys_model(p0).push(iface_m));
                                }
                            }
                            assert(ty_model(Ty::Compound(p)) == narrowed(ty_model(*original_ty), iface_m));
                            Ty::Compound(p)
                        },
                        other => {
                            let o = ty_copy(other);
                            let v = vec![o, iface_ty];
                            proof {
                                lemma_tys_model_index(v@);
                                assert(tys_model(v@) =~= seq![ty_model(*other), ty_model(v@[1])]);
                            }
                            assert(ty_model(Ty::Compound(v)) == narrowed(ty_model(*original_ty), iface_m));
                            Ty::Compound(v)
                        },
                    };
                    return Some((var_name.clone(), narrowed_ty));
                }
            }
        }
    }
    None
}

/// Narrowing is idempotent: narrowing a type twice by the same interface gives what
/// narrowing once gave.
pub proof fn narrowing_is_idempotent(orig: TyModel, iface: TyModel)
    ensures
        narrowed(narrowed(orig, iface), iface) == narrowed(orig, iface),
{
    match orig {
        TyModel::Compound(parts) => {
            if !parts.contains(iface) {
                assert(parts.push(iface)[parts.len() as int] == iface);
            }
        },
        _ => {
            assert(seq![orig, iface][1] == iface);
        },
    }
}

} // verus!
