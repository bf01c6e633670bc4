use vstd::prelude::*;
use crate::ast::TypeExpr;
use crate::env::{Env, Symbol};
use crate::error::AnalysisError;
use crate::span::Span;
use crate::ty::{Ty, TyModel, TypeId, ty_copy, ty_model, tys_model};

verus! {

// Resolution of written types against the names in scope.

/// The primitive type a bare name denotes.
pub open spec fn prim_ty(n: Seq<char>) -> Option<TyModel> {
    if n == "int"@ {
        Some(TyModel::Int)
    } else if n == "float"@ {
        Some(TyModel::Float)
    } else if n == "bool"@ {
        Some(TyModel::Bool)
    } else if n == "str"@ {
        Some(TyModel::Str)
    } else if n == "void"@ {
        Some(TyModel::Void)
    } else {
        None
    }
}

fn name_is(name: &String, lit: &str) -> (r: bool)
    ensures
        r == (name@ == lit@),
{
    *name == lit.to_owned()
}

/// Maps a bare primitive type name to its type; `None` for any other name.
pub fn resolve_primitive_name(name: &str) -> (r: Option<Ty>)
    ensures
        match r {
            Some(t) => prim_ty(name@) == Some(ty_model(t)),
            None => prim_ty(name@) is None,
        },
{
    let n = name.to_owned();
    if name_is(&n, "int") {
        Some(Ty::Int)
    } else if name_is(&n, "float") {
        Some(Ty::Float)
    } else if name_is(&n, "bool") {
        Some(Ty::Bool)
    } else if name_is(&n, "str") {
        Some(Ty::Str)
    } else if name_is(&n, "void") {
        Some(Ty::Void)
    } else {
        None
    }
}

/// An undefined-name error for `n` at `sp`, with no suggestion.
pub open spec fn is_undefined(e: AnalysisError, n: Seq<char>, sp: Span) -> bool {
    e matches AnalysisError::UndefinedName { name, span, did_you_mean } && name@ == n && span == sp
        && did_you_mean is None
}

/// `new` is `old` followed by one undefined-name error for each entry of `es`.
pub open spec fn errors_extend(old: Seq<AnalysisError>, new: Seq<AnalysisError>, es: Seq<(Seq<char>, Span)>) -> bool {
    &&& new.len() == old.len() + es.len()
    &&& forall|i: int| 0 <= i < old.len() ==> #[trigger] new[i] == old[i]
    &&& forall|i: int| 0 <= i < es.len() ==> is_undefined(#[trigger] new[old.len() + i], es[i].0, es[i].1)
}

/// The type a written type resolves to in `env`, and the undefined names met, in
/// order: type arguments before the name that takes them.
pub open spec fn resolve_spec(t: TypeExpr, env: Env) -> (TyModel, Seq<(Seq<char>, Span)>)
    decreases t, 1nat,
{
    match t {
        TypeExpr::Named { name, generics, span, .. } => {
            let (gs, es) = resolve_list(generics@, env);
            if prim_ty(name@) is Some {
                (prim_ty(name@)->Some_0, es)
            } else {
                match env.binding(name@) {
                    Some(Symbol::TypeAlias(ty)) => (ty_model(ty), es),
                    Some(Symbol::Type { id, .. }) => if id == TypeId(0) {
                        (TyModel::GenericParam(name@), es)
                    } else {
                        (TyModel::Named(id, name@, gs), es)
                    },
                    Some(Symbol::Iface { id, .. }) => (TyModel::Interface(id, name@), es),
                    _ => (TyModel::Unknown, es.push((name@, span))),
                }
            }
        },
        TypeExpr::Tuple(elems, _) => {
            let (ts, es) = resolve_list(elems@, env);
            (TyModel::Tuple(ts), es)
        },
        TypeExpr::Callable { params, ret, .. } => {
            let (ps, e1) = resolve_list(params@, env);
            let (r, e2) = resolve_spec(*ret, env);
            (TyModel::Callable(ps, Box::new(r)), e1 + e2)
        },
        TypeExpr::Union(variants, _) => {
            let (vs, es) = resolve_list(variants@, env);
            (TyModel::Union(vs), es)
        },
        TypeExpr::Ref { inner, mutable, .. } => {
            let (i, es) = resolve_spec(*inner, env);
            (TyModel::Ref(Box::new(i), mutable), es)
        },
        TypeExpr::Projection { base, assoc, .. } => (
            TyModel::GenericParam(base@ + "."@ + assoc@),
            Seq::empty(),
        ),
        TypeExpr::GenSplice(_, span) => (TyModel::Unknown, seq![("<gen-splice>"@, span)]),
    }
}

/// The types of a list of written types, and their undefined names in order.
pub open spec fn resolve_list(s: Seq<TypeExpr>, env: Env) -> (Seq<TyModel>, Seq<(Seq<char>, Span)>)
    decreases s, 0nat,
{
    if s.len() == 0 {
        (Seq::empty(), Seq::empty())
    } else {
        let (ts, es) = resolve_list(s.drop_last(), env);
        let (t, e) = resolve_spec(s.last(), env);
        (ts.push(t), es + e)
    }
}

/// Resolution reads the environment only through its bindings.
pub proof fn lemma_resolve_same_bindings(t: TypeExpr, e1: Env, e2: Env)
    requires
        forall|n: Seq<char>| #[trigger] e1.binding(n) == e2.binding(n),
    ensures
        resolve_spec(t, e1) == resolve_spec(t, e2),
    decreases t, 1nat,
{
    match t {
        TypeExpr::Named { name, generics, .. } => {
            lemma_resolve_list_same_bindings(generics@, e1, e2);
            assert(e1.binding(name@) == e2.binding(name@));
        },
        TypeExpr::Tuple(elems, _) => lemma_resolve_list_same_bindings(elems@, e1, e2),
        TypeExpr::Callable { params, ret, .. } => {
            lemma_resolve_list_same_bindings(params@, e1, e2);
            lemma_resolve_same_bindings(*ret, e1, e2);
        },
        TypeExpr::Union(variants, _) => lemma_resolve_list_same_bindings(variants@, e1, e2),
        TypeExpr::Ref { inner, .. } => lemma_resolve_same_bindings(*inner, e1, e2),
        _ => {},
    }
}

pub proof fn lemma_resolve_list_same_bindings(s: Seq<TypeExpr>, e1: Env, e2: Env)
    requires
        forall|n: Seq<char>| #[trigger] e1.binding(n) == e2.binding(n),
    ensures
        resolve_list(s, e1) == resolve_list(s, e2),
    decreases s, 0nat,
{
    if s.len() > 0 {
        lemma_resolve_list_same_bindings(s.drop_last(), e1, e2);
        lemma_resolve_same_bindings(s.last(), e1, e2);
    }
}

pub proof fn lemma_errors_extend_trans(
    a: Seq<AnalysisError>,
    b: Seq<AnalysisError>,
    c: Seq<AnalysisError>,
    e1: Seq<(Seq<char>, Span)>,
    e2: Seq<(Seq<char>, Span)>,
)
    requires
        errors_extend(a, b, e1),
        errors_extend(b, c, e2),
    ensures
        errors_extend(a, c, e1 + e2),
{
    assert forall|i: int| 0 <= i < (e1 + e2).len() implies is_undefined(
        #[trigger] c[a.len() + i],
        (e1 + e2)[i].0,
        (e1 + e2)[i].1,
    ) by {
        if i < e1.len() {
            assert(c[a.len() + i] == b[a.len() + i]);
        } else {
            assert(c[b.len() + (i - e1.len())] == c[a.len() + i]);
        }
    }
    assert forall|i: int| 0 <= i < a.len() implies #[trigger] c[i] == a[i] by {
        assert(c[i] == b[i]);
    }
}

pub proof fn lemma_errors_extend_refl(a: Seq<AnalysisError>)
    ensures
        errors_extend(a, a, Seq::empty()),
{
}

fn push_undefined(errors: &mut Vec<AnalysisError>, name: String, span: Span)
    ensures
        errors_extend(old(errors)@, final(errors)@, seq![(name@, span)]),
{
    let ghost n = name@;
    errors.push(AnalysisError::UndefinedName { name, span, did_you_mean: None });
    assert(errors@[old(errors)@.len() as int + 0] == errors@.last());
}

/// Resolves a written type against the names in scope, reporting each undefined name.
pub fn resolve_type_expr(expr: &TypeExpr, env: &Env, errors: &mut Vec<AnalysisError>) -> (r: Ty)
    requires
        env.wf(),
    ensures
        ty_model(r) == resolve_spec(*expr, *env).0,
        errors_extend(old(errors)@, final(errors)@, resolve_spec(*expr, *env).1),
    decreases *expr, 2nat,
{
    let ghost e0 = errors@;
    match expr {
        TypeExpr::Named { name, generics, span, .. } => {
            let gs = resolve_types(generics, env, errors);
            match resolve_primitive_name(name.as_str()) {
                Some(p) => {
                    return p;
                },
                None => {},
            }
            let ghost e1 = errors@;
            match env.lookup(name.as_str()) {
                Some(Symbol::TypeAlias(ty)) => ty_copy(ty),
                Some(Symbol::Type { id, .. }) => {
                    if id.0 == 0 {
                        Ty::GenericParam(name.clone())
                    } else {
                        Ty::Named(*id, name.clone(), gs)
                    }
                },
                Some(Symbol::Iface { id, .. }) => Ty::Interface(*id, name.clone()),
                _ => {
                    push_undefined(errors, name.clone(), *span);
                    proof {
                        lemma_errors_extend_trans(e0, e1, errors@, resolve_list(generics@, *env).1, seq![(name@, *span)]);
                    }
                    Ty::Unknown
                },
            }
        },
        TypeExpr::Tuple(elems, _) => Ty::Tuple(resolve_types(elems, env, errors)),
        TypeExpr::Callable { params, ret, .. } => {
            let ps = resolve_types(params, env, errors);
            let ghost e1 = errors@;
            let r = resolve_type_expr(ret, env, errors);
            proof {
                lemma_errors_extend_trans(e0, e1, errors@, resolve_list(params@, *env).1, resolve_spec(**ret, *env).1);
            }
            Ty::Callable(ps, Box::new(r))
        },
        TypeExpr::Union(variants, _) => Ty::Union(resolve_types(variants, env, errors)),
        TypeExpr::Ref { inner, mutable, .. } => Ty::Ref(Box::new(resolve_type_expr(inner, env, errors)), *mutable),
        TypeExpr::Projection { base, assoc, .. } => {
            let mut n = base.clone();
            n.append(".");
            n.append(assoc.as_str());
            proof {
                lemma_errors_extend_refl(errors@);
            }
            Ty::GenericParam(n)
        },
        TypeExpr::GenSplice(_, span) => {
            push_undefined(errors, "<gen-splice>".to_owned(), *span);
            Ty::Unknown
        },
    }
}

/// Resolves each written type of a list, in order.
fn resolve_types(v: &Vec<TypeExpr>, env: &Env, errors: &mut Vec<AnalysisError>) -> (r: Vec<Ty>)
    requires
        env.wf(),
    ensures
        tys_model(r@) == resolve_list(v@, *env).0,
        errors_extend(old(errors)@, final(errors)@, resolve_list(v@, *env).1),
    decreases v@, 0nat,
{
    let mut out: Vec<Ty> = Vec::new();
    let mut i: usize = 0;
    let ghost e0 = errors@;
    proof {
        lemma_errors_extend_refl(errors@);
        assert(v@.take(0) =~= Seq::<TypeExpr>::empty());
    }
    while i < v.len()
        invariant
            i <= v@.len(),
            env.wf(),
            tys_model(out@) == resolve_list(v@.take(i as int), *env).0,
            errors_extend(e0, errors@, resolve_list(v@.take(i as int), *env).1),
        decreases v.len() - i,
    {
        proof {
            assert(decreases_to!(v@ => v@[i as int]));
            assert(v@.take(i + 1).drop_last() =~= v@.take(i as int));
            assert(v@.take(i + 1).last() == v@[i as int]);
        }
        let ghost e1 = errors@;
        let ghost o1 = out@;
        let t = resolve_type_expr(&v[i], env, errors);
        out.push(t);
        proof {
            lemma_errors_extend_trans(e0, e1, errors@, resolve_list(v@.take(i as int), *env).1, resolve_spec(v@[i as int], *env).1);
            assert(out@.drop_last() =~= o1);
        }
        i += 1;
    }
    assert(v@.take(v@.len() as int) =~= v@);
    out
}

} // verus!
