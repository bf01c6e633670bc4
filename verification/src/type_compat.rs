use vstd::prelude::*;
use crate::env::{Env, FnOverload, pins_copied};
use crate::ty::{Ty, TyModel, lemma_tys_model_index, ty_copy, ty_eq, ty_model, ty_same, ty_text, ty_to_string, tys_model};
use crate::error::AnalysisError;
use crate::span::Span;
use crate::typed_ast::TypedExpr;
use crate::conformance::{first_where, lemma_first_where_bounds, lemma_first_where_prefix, lemma_first_where_step};

verus! {

// Relations between types used by inference: assignability, overload matching,
// substitution of generic parameters, and the name a type is dispatched under.

// ---------------------------------------------------------------------------
// Size of a type, for termination
// ---------------------------------------------------------------------------

/// The number of nodes of a type.
pub open spec fn ty_size(t: Ty) -> nat
    decreases t, 1nat,
{
    match t {
        Ty::Named(_, _, args) => 1 + tys_size(args@),
        Ty::Compound(v) => 1 + tys_size(v@),
        Ty::Tuple(v) => 1 + tys_size(v@),
        Ty::Union(v) => 1 + tys_size(v@),
        Ty::Callable(p, r) => 1 + tys_size(p@) + ty_size(*r),
        Ty::Ref(inner, _) => 1 + ty_size(*inner),
        _ => 1,
    }
}

/// The nodes of a list of types, counting one more for each entry.
pub open spec fn tys_size(s: Seq<Ty>) -> nat
    decreases s, 0nat,
{
    if s.len() == 0 {
        0
    } else {
        tys_size(s.drop_last()) + ty_size(s.last()) + 1
    }
}

pub proof fn lemma_tys_size_elem(s: Seq<Ty>, i: int)
    requires
        0 <= i < s.len(),
    ensures
        ty_size(s[i]) < tys_size(s),
    decreases s.len(),
{
    if i < s.len() - 1 {
        lemma_tys_size_elem(s.drop_last(), i);
        assert(s.drop_last()[i] == s[i]);
    }
}

// ---------------------------------------------------------------------------
// Assignability
// ---------------------------------------------------------------------------

/// Whether a value of type `f` may be used where `e` is expected. Unknown types,
/// generic parameters and projections fit anything; an int fits a float; interface and
/// compound types fit and are fitted by anything; references are transparent; named
/// types of one name compare their type arguments pairwise, callables and tuples their
/// parts; any other pair must be the same type.
pub open spec fn compatible(e: Ty, f: Ty) -> bool
    decreases ty_size(e) + ty_size(f), 1nat, 0nat,
{
    if e is Unknown || f is Unknown {
        true
    } else if e is GenericParam || e is Projection || f is GenericParam || f is Projection {
        true
    } else if e is Float && f is Int {
        true
    } else if e is Interface || e is Compound || f is Interface || f is Compound {
        true
    } else {
        match e {
            Ty::Ref(ei, _) => match f {
                Ty::Ref(fi, _) => compatible(*ei, *fi),
                _ => compatible(*ei, f),
            },
            _ => match f {
                Ty::Ref(fi, _) => compatible(*fi, e),
                _ => match (e, f) {
                    (Ty::Named(_, en, ea), Ty::Named(_, fname, fa)) => if en@ == fname@ {
                        compat_zip(ea@, fa@, if ea@.len() <= fa@.len() { ea@.len() } else { fa@.len() })
                    } else {
                        false
                    },
                    (Ty::Callable(ep, er), Ty::Callable(fp, fr)) => ep@.len() == fp@.len() && compat_zip(
                        ep@,
                        fp@,
                        ep@.len(),
                    ) && compatible(*er, *fr),
                    (Ty::Tuple(es), Ty::Tuple(fs)) => es@.len() == fs@.len() && compat_zip(es@, fs@, es@.len()),
                    _ => ty_same(e, f),
                },
            },
        }
    }
}

/// The first `k` pairs of two type lists are each compatible.
pub open spec fn compat_zip(es: Seq<Ty>, fs: Seq<Ty>, k: nat) -> bool
    decreases tys_size(es) + tys_size(fs), 0nat, k,
{
    if k == 0 {
        true
    } else if k > es.len() || k > fs.len() {
        false
    } else {
        proof {
            lemma_tys_size_elem(es, k - 1);
            lemma_tys_size_elem(fs, k - 1);
        }
        compat_zip(es, fs, (k - 1) as nat) && compatible(es[k - 1], fs[k - 1])
    }
}

/// Whether a value of type `found` may be used where `expected` is expected.
pub fn types_compatible(expected: &Ty, found: &Ty) -> (r: bool)
    ensures
        r == compatible(*expected, *found),
    decreases ty_size(*expected) + ty_size(*found), 1nat,
{
    if matches!(expected, Ty::Unknown) || matches!(found, Ty::Unknown) {
        return true;
    }
    if matches!(expected, Ty::GenericParam(_) | Ty::Projection { .. }) || matches!(
        found,
        Ty::GenericParam(_) | Ty::Projection { .. }
    ) {
        return true;
    }
    if matches!(expected, Ty::Float) && matches!(found, Ty::Int) {
        return true;
    }
    if matches!(expected, Ty::Interface(..) | Ty::Compound(_)) || matches!(
        found,
        Ty::Interface(..) | Ty::Compound(_)
    ) {
        return true;
    }
    match (expected, found) {
        (Ty::Ref(ei, _), Ty::Ref(fi, _)) => types_compatible(ei, fi),
        (Ty::Ref(ei, _), _) => types_compatible(ei, found),
        (_, Ty::Ref(fi, _)) => types_compatible(fi, expected),
        (Ty::Named(_, en, ea), Ty::Named(_, fname, fa)) => {
            if *en == *fname {
                let n = if ea.len() <= fa.len() {
                    ea.len()
                } else {
                    fa.len()
                };
                zip_compatible(ea, fa, n)
            } else {
                false
            }
        },
        (Ty::Callable(ep, er), Ty::Callable(fp, fr)) => {
            ep.len() == fp.len() && zip_compatible(ep, fp, ep.len()) && types_compatible(er, fr)
        },
        (Ty::Tuple(es), Ty::Tuple(fs)) => es.len() == fs.len() && zip_compatible(es, fs, es.len()),
        _ => ty_eq(expected, found),
    }
}

/// Whether the first `n` pairs of two type lists are each compatible.
fn zip_compatible(es: &Vec<Ty>, fs: &Vec<Ty>, n: usize) -> (r: bool)
    requires
        n <= es@.len(),
        n <= fs@.len(),
    ensures
        r == compat_zip(es@, fs@, n as nat),
    decreases tys_size(es@) + tys_size(fs@), 0nat,
{
    let mut ok = true;
    let mut i: usize = 0;
    while i < n
        invariant
            i <= n,
            n <= es@.len(),
            n <= fs@.len(),
            ok == compat_zip(es@, fs@, i as nat),
        decreases n - i,
    {
        proof {
            lemma_tys_size_elem(es@, i as int);
            lemma_tys_size_elem(fs@, i as int);
        }
        ok = ok && types_compatible(&es[i], &fs[i]);
        i += 1;
    }
    ok
}

// ---------------------------------------------------------------------------
// Overload matching
// ---------------------------------------------------------------------------

/// Whether an argument of type `at` matches a parameter of type `pt` exactly: unknown
/// and generic parameters match anything, named types match by name and, pairwise, by
/// arguments of equal number, and any other type must be the same type.
pub open spec fn arg_matches(pt: Ty, at: Ty) -> bool
    decreases pt, 1nat, 0nat,
{
    match pt {
        Ty::Unknown => true,
        Ty::GenericParam(_) => true,
        Ty::Named(_, pn, pargs) => match at {
            Ty::Named(_, an, aargs) => pn@ == an@ && pargs@.len() == aargs@.len() && args_match(
                pargs@,
                aargs@,
                pargs@.len(),
            ),
            _ => false,
        },
        _ => ty_same(pt, at),
    }
}

/// The first `k` parameter and argument types each match.
pub open spec fn args_match(ps: Seq<Ty>, args: Seq<Ty>, k: nat) -> bool
    decreases ps, 0nat, k,
{
    if k == 0 {
        true
    } else if k > ps.len() || k > args.len() {
        false
    } else {
        args_match(ps, args, (k - 1) as nat) && arg_matches(ps[k - 1], args[k - 1])
    }
}

/// Whether a parameter of type `pt` accepts an argument of type `at` in matching pass
/// `pass`: an exact match first, then also an unknown argument, then any compatible
/// argument.
pub open spec fn param_fits(pt: Ty, at: Ty, pass: int) -> bool {
    if pass == 0 {
        arg_matches(pt, at)
    } else if pass == 1 {
        arg_matches(pt, at) || at is Unknown
    } else {
        compatible(pt, at)
    }
}

/// Whether an overload takes the arguments in matching pass `pass`.
pub open spec fn overload_fits(args: Seq<TypedExpr>, pass: int) -> spec_fn(FnOverload) -> bool {
    |o: FnOverload| o.params@.len() == args.len() && forall|i: int|
        0 <= i < args.len() ==> #[trigger] param_fits(o.params@[i].1, args[i].ty, pass)
}

/// The overload chosen for the arguments: the first that fits in the first pass that
/// any fits in.
pub open spec fn best_overload(os: Seq<FnOverload>, args: Seq<TypedExpr>) -> Option<int> {
    match first_where(os, overload_fits(args, 0)) {
        Some(i) => Some(i),
        None => match first_where(os, overload_fits(args, 1)) {
            Some(i) => Some(i),
            None => first_where(os, overload_fits(args, 2)),
        },
    }
}

/// Whether an argument of type `arg_ty` matches a parameter of type `pt` exactly.
pub fn param_matches_arg(pt: &Ty, arg_ty: &Ty) -> (r: bool)
    ensures
        r == arg_matches(*pt, *arg_ty),
    decreases ty_size(*pt),
{
    match pt {
        Ty::Unknown => true,
        Ty::GenericParam(_) => true,
        Ty::Named(_, pname, pargs) => match arg_ty {
            Ty::Named(_, aname, aargs) => {
                if *pname != *aname || pargs.len() != aargs.len() {
                    return false;
                }
                let mut ok = true;
                let mut i: usize = 0;
                while i < pargs.len()
                    invariant
                        i <= pargs@.len(),
                        pargs@.len() == aargs@.len(),
                        ok == args_match(pargs@, aargs@, i as nat),
                        ty_size(*pt) > tys_size(pargs@),
                    decreases pargs.len() - i,
                {
                    proof {
                        lemma_tys_size_elem(pargs@, i as int);
                    }
                    ok = ok && param_matches_arg(&pargs[i], &aargs[i]);
                    i += 1;
                }
                ok
            },
            _ => false,
        },
        _ => ty_eq(pt, arg_ty),
    }
}

fn param_fits_exec(pt: &Ty, at: &Ty, pass: u8) -> (r: bool)
    ensures
        r == param_fits(*pt, *at, pass as int),
{
    if pass == 0 {
        param_matches_arg(pt, at)
    } else if pass == 1 {
        param_matches_arg(pt, at) || matches!(at, Ty::Unknown)
    } else {
        types_compatible(pt, at)
    }
}

fn overload_fits_exec(o: &FnOverload, args: &[TypedExpr], pass: u8) -> (r: bool)
    ensures
        r == overload_fits(args@, pass as int)(*o),
{
    if o.params.len() != args.len() {
        return false;
    }
    let mut i: usize = 0;
    while i < args.len()
        invariant
            i <= args@.len(),
            o.params@.len() == args@.len(),
            forall|k: int| 0 <= k < i ==> #[trigger] param_fits(o.params@[k].1, args@[k].ty, pass as int),
        decreases args.len() - i,
    {
        if !param_fits_exec(&o.params[i].1, &args[i].ty, pass) {
            return false;
        }
        i += 1;
    }
    true
}

fn first_fitting(overloads: &[FnOverload], args: &[TypedExpr], pass: u8) -> (r: Option<usize>)
    ensures
        match r {
            Some(i) => first_where(overloads@, overload_fits(args@, pass as int)) == Some(i as int),
            None => first_where(overloads@, overload_fits(args@, pass as int)) is None,
        },
{
    let ghost p = overload_fits(args@, pass as int);
    let mut i: usize = 0;
    while i < overloads.len()
        invariant
            i <= overloads@.len(),
            p == overload_fits(args@, pass as int),
            first_where(overloads@.take(i as int), p) is None,
        decreases overloads.len() - i,
    {
        proof {
            lemma_first_where_step(overloads@, p, i as int);
        }
        if overload_fits_exec(&overloads[i], args, pass) {
            proof {
                lemma_first_where_prefix(overloads@, p, i + 1);
            }
            return Some(i);
        }
        i += 1;
    }
    proof {
        assert(overloads@.take(i as int) =~= overloads@);
    }
    None
}

/// The overload to call with `args`: the first whose parameters match exactly
/// (unknown and generic parameters matching anything); failing that, the first that
/// also lets unknown arguments through; failing that, the first whose parameters are
/// all compatible with the arguments.
pub fn find_best_overload<'a>(overloads: &'a [FnOverload], args: &[TypedExpr]) -> (r: Option<&'a FnOverload>)
    ensures
        match best_overload(overloads@, args@) {
            Some(i) => r == Some(&overloads@[i]),
            None => r is None,
        },
{
    let mut pass: u8 = 0;
    while pass < 3
        invariant
            pass <= 3,
            forall|q: int| 0 <= q < pass ==> first_where(overloads@, #[trigger] overload_fits(args@, q)) is None,
        decreases 3 - pass,
    {
        match first_fitting(overloads, args, pass) {
            Some(i) => {
                proof {
                    lemma_first_where_bounds(overloads@, overload_fits(args@, pass as int));
                    if pass >= 1 {
                        assert(first_where(overloads@, overload_fits(args@, 0)) is None);
                    }
                    if pass >= 2 {
                        assert(first_where(overloads@, overload_fits(args@, 1)) is None);
                    }
                }
                return Some(&overloads[i]);
            },
            None => {},
        }
        pass += 1;
    }
    proof {
        assert(first_where(overloads@, overload_fits(args@, 0)) is None);
        assert(first_where(overloads@, overload_fits(args@, 1)) is None);
        assert(first_where(overloads@, overload_fits(args@, 2)) is None);
    }
    None
}

// ---------------------------------------------------------------------------
// Substitution
// ---------------------------------------------------------------------------

/// No parameter name is bound twice.
pub open spec fn keys_distinct(s: Seq<(String, Ty)>) -> bool {
    forall|i: int, j: int| 0 <= i < j < s.len() ==> (#[trigger] s[i]).0@ != (#[trigger] s[j]).0@
}

/// The type bound to the parameter `name`.
pub open spec fn bound_to(s: Seq<(String, Ty)>, name: Seq<char>) -> Option<Ty> {
    match first_where(s, |e: (String, Ty)| e.0@ == name) {
        Some(i) => Some(s[i].1),
        None => None,
    }
}

/// `t` with each generic parameter bound in `s` replaced by its type, inside named
/// types, callables and tuples.
pub open spec fn subst_model(t: Ty, s: Seq<(String, Ty)>) -> TyModel
    decreases t, 1nat,
{
    match t {
        Ty::GenericParam(p) => match bound_to(s, p@) {
            Some(c) => ty_model(c),
            None => ty_model(t),
        },
        Ty::Named(id, n, args) => TyModel::Named(id, n@, subst_models(args@, s)),
        Ty::Callable(ps, r) => TyModel::Callable(subst_models(ps@, s), Box::new(subst_model(*r, s))),
        Ty::Tuple(ts) => TyModel::Tuple(subst_models(ts@, s)),
        _ => ty_model(t),
    }
}

pub open spec fn subst_models(v: Seq<Ty>, s: Seq<(String, Ty)>) -> Seq<TyModel>
    decreases v, 0nat,
{
    if v.len() == 0 {
        Seq::empty()
    } else {
        subst_models(v.drop_last(), s).push(subst_model(v.last(), s))
    }
}

fn lookup_binding<'a>(s: &'a Vec<(String, Ty)>, name: &String) -> (r: Option<&'a Ty>)
    ensures
        match bound_to(s@, name@) {
            Some(t) => r == Some(&t),
            None => r is None,
        },
{
    let ghost p = |e: (String, Ty)| e.0@ == name@;
    let mut i: usize = 0;
    while i < s.len()
        invariant
            i <= s@.len(),
            p == (|e: (String, Ty)| e.0@ == name@),
            first_where(s@.take(i as int), p) is None,
        decreases s.len() - i,
    {
        proof {
            lemma_first_where_step(s@, p, i as int);
        }
        if s[i].0 == *name {
            proof {
                lemma_first_where_prefix(s@, p, i + 1);
            }
            return Some(&s[i].1);
        }
        i += 1;
    }
    proof {
        assert(s@.take(i as int) =~= s@);
    }
    None
}

fn subst_list(v: &Vec<Ty>, subst: &Vec<(String, Ty)>) -> (r: Vec<Ty>)
    requires
        keys_distinct(subst@),
    ensures
        tys_model(r@) == subst_models(v@, subst@),
    decreases v@, 0nat,
{
    let mut out: Vec<Ty> = Vec::new();
    let mut i: usize = 0;
    assert(v@.take(0) =~= Seq::<Ty>::empty());
    while i < v.len()
        invariant
            i <= v@.len(),
            tys_model(out@) == subst_models(v@.take(i as int), subst@),
            keys_distinct(subst@),
        decreases v.len() - i,
    {
        proof {
            assert(decreases_to!(v@ => v@[i as int]));
        }
        let t = subst_generic_ty(&v[i], subst);
        let ghost before = out@;
        out.push(t);
        proof {
            assert(out@.drop_last() =~= before);
            assert(v@.take(i + 1).drop_last() =~= v@.take(i as int));
        }
        i += 1;
    }
    assert(v@.take(i as int) =~= v@);
    out
}

/// `ty` with each generic parameter that `subst` binds replaced by its type, inside
/// named types, callables and tuples. `subst` binds each name at most once.
pub fn subst_generic_ty(ty: &Ty, subst: &Vec<(String, Ty)>) -> (r: Ty)
    requires
        keys_distinct(subst@),
    ensures
        ty_model(r) == subst_model(*ty, subst@),
    decreases *ty, 1nat,
{
    match ty {
        Ty::GenericParam(p) => match lookup_binding(subst, p) {
            Some(c) => ty_copy(c),
            None => ty_copy(ty),
        },
        Ty::Named(id, name, args) => Ty::Named(*id, name.clone(), subst_list(args, subst)),
        Ty::Callable(params, ret) => Ty::Callable(subst_list(params, subst), Box::new(subst_generic_ty(ret, subst))),
        Ty::Tuple(ts) => Ty::Tuple(subst_list(ts, subst)),
        _ => ty_copy(ty),
    }
}

/// `t` with every generic parameter replaced by `c`, inside named types, callables and
/// tuples.
pub open spec fn replaced_model(t: Ty, c: Ty) -> TyModel
    decreases t, 1nat,
{
    match t {
        Ty::GenericParam(_) => ty_model(c),
        Ty::Named(id, n, args) => TyModel::Named(id, n@, replaced_models(args@, c)),
        Ty::Callable(ps, r) => TyModel::Callable(replaced_models(ps@, c), Box::new(replaced_model(*r, c))),
        Ty::Tuple(ts) => TyModel::Tuple(replaced_models(ts@, c)),
        _ => ty_model(t),
    }
}

pub open spec fn replaced_models(v: Seq<Ty>, c: Ty) -> Seq<TyModel>
    decreases v, 0nat,
{
    if v.len() == 0 {
        Seq::empty()
    } else {
        replaced_models(v.drop_last(), c).push(replaced_model(v.last(), c))
    }
}

fn substitute_list(v: &Vec<Ty>, concrete: &Ty) -> (r: Vec<Ty>)
    ensures
        tys_model(r@) == replaced_models(v@, *concrete),
    decreases v@, 0nat,
{
    let mut out: Vec<Ty> = Vec::new();
    let mut i: usize = 0;
    assert(v@.take(0) =~= Seq::<Ty>::empty());
    while i < v.len()
        invariant
            i <= v@.len(),
            tys_model(out@) == replaced_models(v@.take(i as int), *concrete),
        decreases v.len() - i,
    {
        proof {
            assert(decreases_to!(v@ => v@[i as int]));
        }
        let t = substitute_t(&v[i], concrete);
        let ghost before = out@;
        out.push(t);
        proof {
            assert(out@.drop_last() =~= before);
            assert(v@.take(i + 1).drop_last() =~= v@.take(i as int));
        }
        i += 1;
    }
    assert(v@.take(i as int) =~= v@);
    out
}

/// `ty` with every generic parameter replaced by `concrete`, inside named types,
/// callables and tuples.
pub fn substitute_t(ty: &Ty, concrete: &Ty) -> (r: Ty)
    ensures
        ty_model(r) == replaced_model(*ty, *concrete),
    decreases *ty, 1nat,
{
    match ty {
        Ty::GenericParam(_) => ty_copy(concrete),
        Ty::Named(id, name, args) => Ty::Named(*id, name.clone(), substitute_list(args, concrete)),
        Ty::Callable(params, ret) => Ty::Callable(
            substitute_list(params, concrete),
            Box::new(substitute_t(ret, concrete)),
        ),
        Ty::Tuple(ts) => Ty::Tuple(substitute_list(ts, concrete)),
        _ => ty_copy(ty),
    }
}

// ---------------------------------------------------------------------------
// Dispatch names
// ---------------------------------------------------------------------------

/// The name methods of a type are found under: the primitive's name, or the name of a
/// named type or generic parameter; other types have none.
pub open spec fn dispatch_name(t: Ty) -> Option<Seq<char>> {
    match t {
        Ty::Int => Some("int"@),
        Ty::Float => Some("float"@),
        Ty::Bool => Some("bool"@),
        Ty::Str => Some("str"@),
        Ty::Named(_, n, _) => Some(n@),
        Ty::GenericParam(n) => Some(n@),
        _ => None,
    }
}

/// The name methods of a type are found under, if it has one.
pub fn type_name_of(ty: &Ty) -> (r: Option<String>)
    ensures
        match dispatch_name(*ty) {
            Some(n) => r matches Some(s) && s@ == n,
            None => r is None,
        },
{
    match ty {
        Ty::Int => Some(String::from_str("int")),
        Ty::Float => Some(String::from_str("float")),
        Ty::Bool => Some(String::from_str("bool")),
        Ty::Str => Some(String::from_str("str")),
        Ty::Named(_, name, _) => Some(name.clone()),
        Ty::GenericParam(name) => Some(name.clone()),
        _ => None,
    }
}

// ---------------------------------------------------------------------------
// Laws
// ---------------------------------------------------------------------------

/// Every type is assignable to itself.
pub proof fn compatible_is_reflexive(t: Ty)
    ensures
        compatible(t, t),
    decreases ty_size(t), 1nat, 0nat,
{
    match t {
        Ty::Ref(inner, _) => {
            compatible_is_reflexive(*inner);
        },
        Ty::Named(_, _, args) => {
            lemma_compat_zip_refl(args@, args@.len());
        },
        Ty::Callable(ps, r) => {
            lemma_compat_zip_refl(ps@, ps@.len());
            compatible_is_reflexive(*r);
        },
        Ty::Tuple(ts) => {
            lemma_compat_zip_refl(ts@, ts@.len());
        },
        _ => {},
    }
}

proof fn lemma_compat_zip_refl(s: Seq<Ty>, k: nat)
    requires
        k <= s.len(),
    ensures
        compat_zip(s, s, k),
    decreases tys_size(s), 0nat, k,
{
    if k > 0 {
        lemma_compat_zip_refl(s, (k - 1) as nat);
        lemma_tys_size_elem(s, k - 1);
        compatible_is_reflexive(s[k - 1]);
    }
}

/// When some overload matches the arguments exactly, the overload chosen matches them
/// exactly: looser matches never win over an exact one.
pub proof fn exact_match_wins(os: Seq<FnOverload>, args: Seq<TypedExpr>, k: int)
    requires
        0 <= k < os.len(),
        overload_fits(args, 0)(os[k]),
    ensures
        best_overload(os, args) matches Some(i) && overload_fits(args, 0)(os[i]),
{
    lemma_first_where_complete(os, overload_fits(args, 0), k);
    lemma_first_where_bounds(os, overload_fits(args, 0));
}

proof fn lemma_first_where_complete<T>(s: Seq<T>, p: spec_fn(T) -> bool, k: int)
    requires
        0 <= k < s.len(),
        p(s[k]),
    ensures
        first_where(s, p) is Some,
    decreases s.len(),
{
    if k < s.len() - 1 {
        lemma_first_where_complete(s.drop_last(), p, k);
    }
}

/// `e` is a type mismatch between `expected` and `found` at `span`, with `decl_span`.
pub open spec fn is_mismatch(e: AnalysisError, expected: Ty, found: Ty, span: Span, decl_span: Option<Span>) -> bool {
    &&& e is TypeMismatch
    &&& e->TypeMismatch_expected@ == ty_text(ty_model(expected))
    &&& e->TypeMismatch_found@ == ty_text(ty_model(found))
    &&& e->TypeMismatch_span == span
    &&& e->TypeMismatch_decl_span == decl_span
}

/// Reports a type mismatch, pointing at `decl_span` as where the expected type was
/// declared, unless `found` may be used where `expected` is expected.
pub fn check_assignable_with_decl_span(
    expected: &Ty,
    found: &Ty,
    span: &Span,
    decl_span: Option<Span>,
    errors: &mut Vec<AnalysisError>,
)
    ensures
        compatible(*expected, *found) ==> final(errors)@ == old(errors)@,
        !compatible(*expected, *found) ==> {
            &&& final(errors)@.len() == old(errors)@.len() + 1
            &&& final(errors)@.drop_last() == old(errors)@
            &&& is_mismatch(final(errors)@.last(), *expected, *found, *span, decl_span)
        },
{
    if !types_compatible(expected, found) {
        errors.push(
            AnalysisError::TypeMismatch {
                expected: ty_to_string(expected),
                found: ty_to_string(found),
                span: *span,
                decl_span,
            },
        );
        assert(errors@.drop_last() =~= old(errors)@);
    }
}

/// Reports a type mismatch unless `found` may be used where `expected` is expected.
pub fn check_assignable(expected: &Ty, found: &Ty, span: &Span, errors: &mut Vec<AnalysisError>)
    ensures
        compatible(*expected, *found) ==> final(errors)@ == old(errors)@,
        !compatible(*expected, *found) ==> {
            &&& final(errors)@.len() == old(errors)@.len() + 1
            &&& final(errors)@.drop_last() == old(errors)@
            &&& is_mismatch(final(errors)@.last(), *expected, *found, *span, None)
        },
{
    check_assignable_with_decl_span(expected, found, span, None, errors);
}

// ---------------------------------------------------------------------------
// Assignability depends on the models of the types alone
// ---------------------------------------------------------------------------

proof fn lemma_tys_model_eq(a: Seq<Ty>, b: Seq<Ty>)
    requires
        tys_model(a) == tys_model(b),
    ensures
        a.len() == b.len(),
        forall|i: int| 0 <= i < a.len() ==> #[trigger] ty_model(a[i]) == ty_model(b[i]),
{
    lemma_tys_model_index(a);
    lemma_tys_model_index(b);
    assert forall|i: int| 0 <= i < a.len() implies #[trigger] ty_model(a[i]) == ty_model(b[i]) by {
        assert(tys_model(a)[i] == ty_model(a[i]));
        assert(tys_model(b)[i] == ty_model(b[i]));
        assert(tys_model(a)[i] == tys_model(b)[i]);
    }
}

/// Whether `f` may be used where `e` is expected depends on what the two types are, not
/// on how they are held.
pub proof fn lemma_compatible_model(e: Ty, f: Ty, e2: Ty, f2: Ty)
    requires
        ty_model(e) == ty_model(e2),
        ty_model(f) == ty_model(f2),
    ensures
        compatible(e, f) == compatible(e2, f2),
    decreases ty_size(e) + ty_size(f), 1nat, 0nat,
{
    match (e, e2) {
        (Ty::Ref(ei, _), Ty::Ref(ei2, _)) => {
            match (f, f2) {
                (Ty::Ref(fi, _), Ty::Ref(fi2, _)) => lemma_compatible_model(*ei, *fi, *ei2, *fi2),
                _ => lemma_compatible_model(*ei, f, *ei2, f2),
            }
        },
        _ => {
            match (f, f2) {
                (Ty::Ref(fi, _), Ty::Ref(fi2, _)) => lemma_compatible_model(*fi, e, *fi2, e2),
                _ => match (e, f, e2, f2) {
                    (Ty::Named(_, _, ea), Ty::Named(_, _, fa), Ty::Named(_, _, ea2), Ty::Named(_, _, fa2)) => {
                        lemma_tys_model_eq(ea@, ea2@);
                        lemma_tys_model_eq(fa@, fa2@);
                        let k = if ea@.len() <= fa@.len() { ea@.len() } else { fa@.len() };
                        lemma_zip_model(ea@, fa@, ea2@, fa2@, k);
                    },
                    (Ty::Callable(ep, er), Ty::Callable(fp, fr), Ty::Callable(ep2, er2), Ty::Callable(fp2, fr2)) => {
                        lemma_tys_model_eq(ep@, ep2@);
                        lemma_tys_model_eq(fp@, fp2@);
                        if ep@.len() == fp@.len() {
                            lemma_zip_model(ep@, fp@, ep2@, fp2@, ep@.len());
                        }
                        lemma_compatible_model(*er, *fr, *er2, *fr2);
                    },
                    (Ty::Tuple(es), Ty::Tuple(fs), Ty::Tuple(es2), Ty::Tuple(fs2)) => {
                        lemma_tys_model_eq(es@, es2@);
                        lemma_tys_model_eq(fs@, fs2@);
                        if es@.len() == fs@.len() {
                            lemma_zip_model(es@, fs@, es2@, fs2@, es@.len());
                        }
                    },
                    _ => {},
                },
            }
        },
    }
}

proof fn lemma_zip_model(es: Seq<Ty>, fs: Seq<Ty>, es2: Seq<Ty>, fs2: Seq<Ty>, k: nat)
    requires
        es.len() == es2.len(),
        fs.len() == fs2.len(),
        forall|i: int| 0 <= i < es.len() ==> #[trigger] ty_model(es[i]) == ty_model(es2[i]),
        forall|i: int| 0 <= i < fs.len() ==> #[trigger] ty_model(fs[i]) == ty_model(fs2[i]),
    ensures
        compat_zip(es, fs, k) == compat_zip(es2, fs2, k),
    decreases tys_size(es) + tys_size(fs), 0nat, k,
{
    if k > 0 && k <= es.len() && k <= fs.len() {
        lemma_zip_model(es, fs, es2, fs2, (k - 1) as nat);
        lemma_tys_size_elem(es, k - 1);
        lemma_tys_size_elem(fs, k - 1);
        lemma_compatible_model(es[k - 1], fs[k - 1], es2[k - 1], fs2[k - 1]);
    }
}

// ---------------------------------------------------------------------------
// Normalizing projections through pinned associated types
// ---------------------------------------------------------------------------

/// The type pinned for `base.assoc`: the last matching pin, so that an inner scope's
/// pin overrides an outer one.
pub open spec fn pin_for(pins: Seq<((String, String), Ty)>, base: Seq<char>, assoc: Seq<char>) -> Option<TyModel>
    decreases pins.len(),
{
    if pins.len() == 0 {
        None
    } else if pins.last().0.0@ == base && pins.last().0.1@ == assoc {
        Some(ty_model(pins.last().1))
    } else {
        pin_for(pins.drop_last(), base, assoc)
    }
}

/// A type with every projection `Base.Assoc` that has a pin replaced by the pinned type,
/// inside type arguments, tuples, callables, unions, compounds and references too.
pub open spec fn normalize_spec(t: TyModel, pins: Seq<((String, String), Ty)>) -> TyModel
    decreases t, 0nat, 0int,
{
    match t {
        TyModel::Projection(b, a) => match pin_for(pins, b, a) {
            Some(x) => x,
            None => t,
        },
        TyModel::Named(id, n, args) => TyModel::Named(id, n, norm_list(args, pins, args.len() as int)),
        TyModel::Compound(v) => TyModel::Compound(norm_list(v, pins, v.len() as int)),
        TyModel::Tuple(v) => TyModel::Tuple(norm_list(v, pins, v.len() as int)),
        TyModel::Union(v) => TyModel::Union(norm_list(v, pins, v.len() as int)),
        TyModel::Callable(p, r) => TyModel::Callable(norm_list(p, pins, p.len() as int), Box::new(normalize_spec(*r, pins))),
        TyModel::Ref(inner, m) => TyModel::Ref(Box::new(normalize_spec(*inner, pins)), m),
        _ => t,
    }
}

/// The first `n` types, normalized.
pub open spec fn norm_list(v: Seq<TyModel>, pins: Seq<((String, String), Ty)>, n: int) -> Seq<TyModel>
    decreases v, 0nat, n,
{
    if n <= 0 || n > v.len() {
        Seq::empty()
    } else {
        norm_list(v, pins, n - 1).push(normalize_spec(v[n - 1], pins))
    }
}

proof fn lemma_pin_for_copied(r: Seq<((String, String), Ty)>, s: Seq<((String, String), Ty)>, b: Seq<char>, a: Seq<char>)
    requires
        pins_copied(r, s),
    ensures
        pin_for(r, b, a) == pin_for(s, b, a),
    decreases r.len(),
{
    if r.len() > 0 {
        assert(r[r.len() - 1].0.0@ == s[s.len() - 1].0.0@);
        assert(pins_copied(r.drop_last(), s.drop_last()));
        lemma_pin_for_copied(r.drop_last(), s.drop_last(), b, a);
    }
}

proof fn lemma_norm_copied(t: TyModel, r: Seq<((String, String), Ty)>, s: Seq<((String, String), Ty)>)
    requires
        pins_copied(r, s),
    ensures
        normalize_spec(t, r) == normalize_spec(t, s),
    decreases t, 0nat, 0int,
{
    match t {
        TyModel::Projection(b, a) => lemma_pin_for_copied(r, s, b, a),
        TyModel::Named(_, _, v) => lemma_norm_list_copied(v, r, s, v.len() as int),
        TyModel::Compound(v) => lemma_norm_list_copied(v, r, s, v.len() as int),
        TyModel::Tuple(v) => lemma_norm_list_copied(v, r, s, v.len() as int),
        TyModel::Union(v) => lemma_norm_list_copied(v, r, s, v.len() as int),
        TyModel::Callable(p, ret) => {
            lemma_norm_list_copied(p, r, s, p.len() as int);
            lemma_norm_copied(*ret, r, s);
        },
        TyModel::Ref(inner, _) => lemma_norm_copied(*inner, r, s),
        _ => {},
    }
}

proof fn lemma_norm_list_copied(v: Seq<TyModel>, r: Seq<((String, String), Ty)>, s: Seq<((String, String), Ty)>, n: int)
    requires
        pins_copied(r, s),
    ensures
        norm_list(v, r, n) == norm_list(v, s, n),
    decreases v, 0nat, n,
{
    if n > 0 && n <= v.len() {
        lemma_norm_list_copied(v, r, s, n - 1);
        lemma_norm_copied(v[n - 1], r, s);
    }
}

/// The type pinned for `base.assoc`, copied.
fn find_pin(pins: &Vec<((String, String), Ty)>, base: &String, assoc: &String) -> (r: Option<Ty>)
    ensures
        match pin_for(pins@, base@, assoc@) {
            Some(x) => r matches Some(t) && ty_model(t) == x,
            None => r is None,
        },
{
    let mut k = pins.len();
    proof {
        assert(pins@.take(k as int) =~= pins@);
    }
    while k > 0
        invariant
            k <= pins@.len(),
            pin_for(pins@, base@, assoc@) == pin_for(pins@.take(k as int), base@, assoc@),
        decreases k,
    {
        proof {
            assert(pins@.take(k as int).drop_last() =~= pins@.take(k as int - 1));
            assert(pins@.take(k as int).last() == pins@[k - 1]);
        }
        if pins[k - 1].0.0 == *base && pins[k - 1].0.1 == *assoc {
            return Some(ty_copy(&pins[k - 1].1));
        }
        k -= 1;
    }
    proof {
        assert(pins@.take(0) =~= Seq::<((String, String), Ty)>::empty());
    }
    None
}

/// Normalizes each type of `v`.
fn normalize_tys(v: &Vec<Ty>, pins: &Vec<((String, String), Ty)>, Ghost(outer): Ghost<Ty>) -> (r: Vec<Ty>)
    requires
        decreases_to!(outer => *v),
    ensures
        tys_model(r@) == norm_list(tys_model(v@), pins@, v@.len() as int),
    decreases outer, 0nat,
{
    proof {
        lemma_tys_model_index(v@);
    }
    let ghost m = tys_model(v@);
    let mut out: Vec<Ty> = Vec::new();
    let mut i: usize = 0;
    while i < v.len()
        invariant
            i <= v@.len(),
            m == tys_model(v@),
            m.len() == v@.len(),
            forall|j: int| 0 <= j < v@.len() ==> #[trigger] m[j] == ty_model(v@[j]),
            decreases_to!(outer => *v),
            tys_model(out@) == norm_list(m, pins@, i as int),
        decreases v@.len() - i,
    {
        proof {
            assert(decreases_to!(*v => v@));
            assert(decreases_to!(v@ => v@[i as int]));
            assert(decreases_to!(outer => v@[i as int]));
        }
        let x = normalize_ty(&v[i], pins);
        let ghost before = out@;
        out.push(x);
        proof {
            assert(out@.drop_last() =~= before);
            assert(m[i as int] == ty_model(v@[i as int]));
            assert(tys_model(out@) == tys_model(out@.drop_last()).push(ty_model(out@.last())));
        }
        i += 1;
    }
    out
}

/// The type with its pinned projections replaced; see [`normalize_spec`].
pub fn normalize_ty(t: &Ty, pins: &Vec<((String, String), Ty)>) -> (r: Ty)
    ensures
        ty_model(r) == normalize_spec(ty_model(*t), pins@),
    decreases *t, 1nat,
{
    match t {
        Ty::Projection { base, assoc } => match find_pin(pins, base, assoc) {
            Some(x) => x,
            None => ty_copy(t),
        },
        Ty::Named(id, n, args) => {
            proof {
                lemma_tys_model_index(args@);
            }
            Ty::Named(*id, n.clone(), normalize_tys(args, pins, Ghost(*t)))
        },
        Ty::Compound(v) => {
            proof {
                lemma_tys_model_index(v@);
            }
            Ty::Compound(normalize_tys(v, pins, Ghost(*t)))
        },
        Ty::Tuple(v) => {
            proof {
                lemma_tys_model_index(v@);
            }
            Ty::Tuple(normalize_tys(v, pins, Ghost(*t)))
        },
        Ty::Union(v) => {
            proof {
                lemma_tys_model_index(v@);
            }
            Ty::Union(normalize_tys(v, pins, Ghost(*t)))
        },
        Ty::Callable(p, r) => {
            proof {
                lemma_tys_model_index(p@);
            }
            let np = normalize_tys(p, pins, Ghost(*t));
            let nr = normalize_ty(r, pins);
            Ty::Callable(np, Box::new(nr))
        },
        Ty::Ref(inner, m) => {
            let ni = normalize_ty(inner, pins);
            Ty::Ref(Box::new(ni), *m)
        },
        _ => ty_copy(t),
    }
}

/// Like `check_assignable`, but both types are first normalized through the pins active
/// in `env`; the mismatch shows the normalized types.
pub fn check_assignable_normalized(
    expected: &Ty,
    found: &Ty,
    env: &Env,
    span: &Span,
    errors: &mut Vec<AnalysisError>,
)
    requires
        env.wf(),
    ensures
        forall|ne: Ty, nf: Ty|
            ty_model(ne) == normalize_spec(ty_model(*expected), env.all_pins()) && ty_model(nf) == normalize_spec(
                ty_model(*found),
                env.all_pins(),
            ) ==> {
                &&& #[trigger] compatible(ne, nf) ==> final(errors)@ == old(errors)@
                &&& !compatible(ne, nf) ==> {
                    &&& final(errors)@.len() == old(errors)@.len() + 1
                    &&& final(errors)@.drop_last() == old(errors)@
                    &&& is_mismatch(final(errors)@.last(), ne, nf, *span, None)
                }
            },
{
    let pins = env.get_active_pins();
    let ne = normalize_ty(expected, &pins);
    let nf = normalize_ty(found, &pins);
    proof {
        lemma_norm_copied(ty_model(*expected), pins@, env.all_pins());
        lemma_norm_copied(ty_model(*found), pins@, env.all_pins());
        assert forall|x: Ty, y: Ty|
            ty_model(x) == normalize_spec(ty_model(*expected), env.all_pins()) && ty_model(y) == normalize_spec(
                ty_model(*found),
                env.all_pins(),
            ) implies #[trigger] compatible(x, y) == compatible(ne, nf) by {
            lemma_compatible_model(x, y, ne, nf);
        }
    }
    check_assignable_with_decl_span(&ne, &nf, span, None, errors);
}

} // verus!
