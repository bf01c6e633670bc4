use vstd::prelude::*;
use crate::ast::{GenericParam, TypeExpr};
use crate::env::{Env, GenericBound, Symbol};
use crate::error::AnalysisError;
use crate::resolve::{
    errors_extend, lemma_errors_extend_refl, lemma_errors_extend_trans, lemma_resolve_same_bindings, resolve_spec,
    resolve_type_expr,
};
use crate::span::Span;
use crate::ty::{Ty, TyModel, ty_copy, ty_eq, ty_model, ty_same, tys_model};

verus! {

// Function signatures: when two overloads have the same parameter types, generic
// parameters left unconstrained, and the bounds written on generic parameters.

// ---------------------------------------------------------------------------
// Signature equality
// ---------------------------------------------------------------------------

/// Two types are the same in a signature, where any two generic parameters are alike.
pub open spec fn sig_eq(a: Ty, b: Ty) -> bool
    decreases a, 1nat, 0nat,
{
    match (a, b) {
        (Ty::GenericParam(_), Ty::GenericParam(_)) => true,
        (Ty::Named(_, na, aa), Ty::Named(_, nb, ab)) => na@ == nb@ && aa@.len() == ab@.len() && sig_zip(
            aa@,
            ab@,
            aa@.len(),
        ),
        (Ty::Callable(pa, ra), Ty::Callable(pb, rb)) => pa@.len() == pb@.len() && sig_zip(pa@, pb@, pa@.len())
            && sig_eq(*ra, *rb),
        _ => ty_same(a, b),
    }
}

/// The first `k` pairs of two type lists are the same in a signature.
pub open spec fn sig_zip(xs: Seq<Ty>, ys: Seq<Ty>, k: nat) -> bool
    decreases xs, 0nat, k,
{
    if k == 0 {
        true
    } else if k > xs.len() || k > ys.len() {
        false
    } else {
        sig_zip(xs, ys, (k - 1) as nat) && sig_eq(xs[k - 1], ys[k - 1])
    }
}

/// Whether two types are the same in a signature, generic parameters all alike.
pub fn ty_sig_eq(a: &Ty, b: &Ty) -> (r: bool)
    ensures
        r == sig_eq(*a, *b),
    decreases *a, 1nat,
{
    match (a, b) {
        (Ty::GenericParam(_), Ty::GenericParam(_)) => true,
        (Ty::Named(_, na, aa), Ty::Named(_, nb, ab)) => {
            *na == *nb && aa.len() == ab.len() && sig_zip_exec(aa, ab)
        },
        (Ty::Callable(pa, ra), Ty::Callable(pb, rb)) => {
            pa.len() == pb.len() && sig_zip_exec(pa, pb) && ty_sig_eq(ra, rb)
        },
        _ => ty_eq(a, b),
    }
}

fn sig_zip_exec(xs: &Vec<Ty>, ys: &Vec<Ty>) -> (r: bool)
    requires
        xs@.len() == ys@.len(),
    ensures
        r == sig_zip(xs@, ys@, xs@.len()),
    decreases xs@, 0nat,
{
    let mut ok = true;
    let mut i: usize = 0;
    while i < xs.len()
        invariant
            i <= xs@.len(),
            xs@.len() == ys@.len(),
            ok == sig_zip(xs@, ys@, i as nat),
        decreases xs.len() - i,
    {
        proof {
            assert(decreases_to!(xs@ => xs@[i as int]));
        }
        ok = ok && ty_sig_eq(&xs[i], &ys[i]);
        i += 1;
    }
    ok
}

/// Two parameter lists are duplicates: equally long, with types pairwise the same in a
/// signature; parameter names do not matter.
pub open spec fn params_duplicate(a: Seq<(String, Ty)>, b: Seq<(String, Ty)>) -> bool {
    a.len() == b.len() && forall|i: int| 0 <= i < a.len() ==> #[trigger] sig_eq(a[i].1, b[i].1)
}

/// Whether two parameter lists are duplicates of each other.
pub fn params_are_duplicate(a: &Vec<(String, Ty)>, b: &Vec<(String, Ty)>) -> (r: bool)
    ensures
        r == params_duplicate(a@, b@),
{
    if a.len() != b.len() {
        return false;
    }
    let mut i: usize = 0;
    while i < a.len()
        invariant
            i <= a@.len(),
            a@.len() == b@.len(),
            forall|k: int| 0 <= k < i ==> #[trigger] sig_eq(a@[k].1, b@[k].1),
        decreases a.len() - i,
    {
        if !ty_sig_eq(&a[i].1, &b[i].1) {
            return false;
        }
        i += 1;
    }
    true
}

// ---------------------------------------------------------------------------
// Unconstrained generic parameters
// ---------------------------------------------------------------------------

/// The characters of each string of a list.
pub open spec fn names_of(s: Seq<String>) -> Seq<Seq<char>> {
    s.map_values(|x: String| x@)
}

/// `t` with each generic parameter named in `params` made unknown, inside named types
/// and callables.
pub open spec fn unknown_model(t: Ty, params: Seq<String>) -> TyModel
    decreases t, 1nat,
{
    match t {
        Ty::GenericParam(p) => if names_of(params).contains(p@) {
            TyModel::Unknown
        } else {
            ty_model(t)
        },
        Ty::Named(id, n, args) => TyModel::Named(id, n@, unknown_models(args@, params)),
        Ty::Callable(ps, r) => TyModel::Callable(unknown_models(ps@, params), Box::new(unknown_model(*r, params))),
        _ => ty_model(t),
    }
}

pub open spec fn unknown_models(v: Seq<Ty>, params: Seq<String>) -> Seq<TyModel>
    decreases v, 0nat,
{
    if v.len() == 0 {
        Seq::empty()
    } else {
        unknown_models(v.drop_last(), params).push(unknown_model(v.last(), params))
    }
}

fn names_contain(params: &Vec<String>, p: &String) -> (r: bool)
    ensures
        r == names_of(params@).contains(p@),
{
    let mut i: usize = 0;
    while i < params.len()
        invariant
            i <= params@.len(),
            forall|k: int| 0 <= k < i ==> params@[k]@ != p@,
        decreases params.len() - i,
    {
        if params[i] == *p {
            assert(names_of(params@)[i as int] == p@);
            return true;
        }
        i += 1;
    }
    proof {
        if names_of(params@).contains(p@) {
            let k = choose|k: int| 0 <= k < names_of(params@).len() && names_of(params@)[k] == p@;
            assert(params@[k]@ == p@);
        }
    }
    false
}

fn unknown_list(v: &Vec<Ty>, params: &Vec<String>) -> (r: Vec<Ty>)
    ensures
        tys_model(r@) == unknown_models(v@, params@),
    decreases v@, 0nat,
{
    let mut out: Vec<Ty> = Vec::new();
    let mut i: usize = 0;
    assert(v@.take(0) =~= Seq::<Ty>::empty());
    while i < v.len()
        invariant
            i <= v@.len(),
            tys_model(out@) == unknown_models(v@.take(i as int), params@),
        decreases v.len() - i,
    {
        proof {
            assert(decreases_to!(v@ => v@[i as int]));
        }
        let t = subst_generic_params_unknown(&v[i], params);
        let ghost before = out@;
        out.push(t);
        proof {
            assert(out@.drop_last() =~= before);
            assert(v@.take(i + 1).drop_last() =~= v@.take(i as int));
        }
        i += 1;
    }
    assert(v@.take(i as int) =~= v@);
    out
}

/// `ty` with each generic parameter named in `params` made unknown, inside named types
/// and callables.
pub fn subst_generic_params_unknown(ty: &Ty, params: &Vec<String>) -> (r: Ty)
    ensures
        ty_model(r) == unknown_model(*ty, params@),
    decreases *ty, 1nat,
{
    match ty {
        Ty::GenericParam(p) => {
            if names_contain(params, p) {
                Ty::Unknown
            } else {
                ty_copy(ty)
            }
        },
        Ty::Named(id, name, args) => Ty::Named(*id, name.clone(), unknown_list(args, params)),
        Ty::Callable(ps, ret) => Ty::Callable(
            unknown_list(ps, params),
            Box::new(subst_generic_params_unknown(ret, params)),
        ),
        _ => ty_copy(ty),
    }
}

// ---------------------------------------------------------------------------
// Bounds on generic parameters
// ---------------------------------------------------------------------------

/// The interface a written bound names: the name itself, or, when the name is an alias
/// of an interface type, that interface's name. A bound that is not a plain name names
/// none.
pub open spec fn iface_of(tex: TypeExpr, env: Env) -> Option<Seq<char>> {
    match tex {
        TypeExpr::Named { name, .. } => match env.binding(name@) {
            Some(Symbol::TypeAlias(Ty::Interface(_, real_name))) => Some(real_name@),
            _ => Some(name@),
        },
        _ => None,
    }
}

/// The interface a written bound names.
pub fn bound_iface_name(tex: &TypeExpr, env: &Env) -> (r: Option<String>)
    requires
        env.wf(),
    ensures
        match iface_of(*tex, *env) {
            Some(n) => r matches Some(s) && s@ == n,
            None => r is None,
        },
{
    if let TypeExpr::Named { name, .. } = tex {
        if let Some(Symbol::TypeAlias(Ty::Interface(_, real_name))) = env.lookup(name.as_str()) {
            return Some(real_name.clone());
        }
        Some(name.clone())
    } else {
        None
    }
}

/// The associated-type bindings of a written bound, each resolved, and the undefined
/// names met while resolving them, in order.
pub open spec fn bindings_res(bs: Seq<(String, TypeExpr)>, env: Env) -> (Seq<(Seq<char>, TyModel)>, Seq<(Seq<char>, Span)>)
    decreases bs.len(),
{
    if bs.len() == 0 {
        (Seq::empty(), Seq::empty())
    } else {
        let prev = bindings_res(bs.drop_last(), env);
        let r = resolve_spec(bs.last().1, env);
        (prev.0.push((bs.last().0@, r.0)), prev.1 + r.1)
    }
}

pub open spec fn assoc_res(tex: TypeExpr, env: Env) -> (Seq<(Seq<char>, TyModel)>, Seq<(Seq<char>, Span)>) {
    match tex {
        TypeExpr::Named { bindings, .. } => bindings_res(bindings@, env),
        _ => (Seq::empty(), Seq::empty()),
    }
}

/// The characters and models of a list of resolved bindings.
pub open spec fn bindings_view(s: Seq<(String, Ty)>) -> Seq<(Seq<char>, TyModel)> {
    s.map_values(|p: (String, Ty)| (p.0@, ty_model(p.1)))
}

/// The associated-type bindings written on a bound, such as `Item=int` in
/// `Iterator[Item=int]`, with their types resolved; undefined names are reported.
pub fn bound_assoc_bindings(tex: &TypeExpr, env: &Env, errors: &mut Vec<AnalysisError>) -> (r: Vec<(String, Ty)>)
    requires
        env.wf(),
    ensures
        bindings_view(r@) == assoc_res(*tex, *env).0,
        errors_extend(old(errors)@, final(errors)@, assoc_res(*tex, *env).1),
{
    let ghost e0 = errors@;
    let mut out: Vec<(String, Ty)> = Vec::new();
    proof {
        lemma_errors_extend_refl(e0);
    }
    if let TypeExpr::Named { bindings, .. } = tex {
        let mut i: usize = 0;
        assert(bindings@.take(0) =~= Seq::<(String, TypeExpr)>::empty());
        assert(bindings_view(out@) =~= Seq::empty());
        while i < bindings.len()
            invariant
                i <= bindings@.len(),
                env.wf(),
                bindings_view(out@) == bindings_res(bindings@.take(i as int), *env).0,
                errors_extend(e0, errors@, bindings_res(bindings@.take(i as int), *env).1),
            decreases bindings.len() - i,
        {
            let ghost e1 = errors@;
            let t = resolve_type_expr(&bindings[i].1, env, errors);
            let ghost before = out@;
            out.push((bindings[i].0.clone(), t));
            proof {
                assert(bindings@.take(i + 1).drop_last() =~= bindings@.take(i as int));
                assert(bindings_view(out@) =~= bindings_view(before).push((bindings@[i as int].0@, ty_model(t))));
                lemma_errors_extend_trans(
                    e0,
                    e1,
                    errors@,
                    bindings_res(bindings@.take(i as int), *env).1,
                    resolve_spec(bindings@[i as int].1, *env).1,
                );
            }
            i += 1;
        }
        assert(bindings@.take(i as int) =~= bindings@);
    } else {
        assert(bindings_view(out@) =~= Seq::empty());
    }
    out
}

/// A bound on a generic parameter as values.
pub struct BoundModel {
    pub param: Seq<char>,
    pub iface: Seq<char>,
    pub bindings: Seq<(Seq<char>, TyModel)>,
    pub is_explicit: bool,
    pub decl_span: Option<Span>,
    pub source_span: Option<Span>,
    pub source_desc: Seq<char>,
}

pub open spec fn bound_view(b: GenericBound) -> BoundModel {
    BoundModel {
        param: b.param@,
        iface: b.iface@,
        bindings: bindings_view(b.assoc_bindings@),
        is_explicit: b.is_explicit,
        decl_span: b.decl_span,
        source_span: b.source_span,
        source_desc: b.source_desc@,
    }
}

pub open spec fn bounds_view(s: Seq<GenericBound>) -> Seq<BoundModel> {
    s.map_values(|b: GenericBound| bound_view(b))
}

/// The explicit bounds written on one generic parameter, for its first `bs` bounds, and
/// the undefined names met.
pub open spec fn param_bounds(g: GenericParam, bs: Seq<TypeExpr>, env: Env) -> (Seq<BoundModel>, Seq<(Seq<char>, Span)>)
    decreases bs.len(),
{
    if bs.len() == 0 {
        (Seq::empty(), Seq::empty())
    } else {
        let prev = param_bounds(g, bs.drop_last(), env);
        let b = bs.last();
        match iface_of(b, env) {
            Some(iface) => (
                prev.0.push(
                    BoundModel {
                        param: g.name@,
                        iface,
                        bindings: assoc_res(b, env).0,
                        is_explicit: true,
                        decl_span: Some(g.span),
                        source_span: None,
                        source_desc: Seq::empty(),
                    },
                ),
                prev.1 + assoc_res(b, env).1,
            ),
            None => prev,
        }
    }
}

/// The explicit bounds written on a list of generic parameters, in order, and the
/// undefined names met.
pub open spec fn generic_bounds(gs: Seq<GenericParam>, env: Env) -> (Seq<BoundModel>, Seq<(Seq<char>, Span)>)
    decreases gs.len(),
{
    if gs.len() == 0 {
        (Seq::empty(), Seq::empty())
    } else {
        let prev = generic_bounds(gs.drop_last(), env);
        let mine = param_bounds(gs.last(), gs.last().bounds@, env);
        (prev.0 + mine.0, prev.1 + mine.1)
    }
}

/// The bounds written on the generic parameters, each as an explicit bound declared at
/// its parameter, with its interface and its associated-type bindings resolved.
pub fn build_generic_bounds(generic_params: &Vec<GenericParam>, env: &Env, errors: &mut Vec<AnalysisError>) -> (r: Vec<GenericBound>)
    requires
        env.wf(),
    ensures
        bounds_view(r@) == generic_bounds(generic_params@, *env).0,
        errors_extend(old(errors)@, final(errors)@, generic_bounds(generic_params@, *env).1),
{
    let ghost e0 = errors@;
    let mut bounds: Vec<GenericBound> = Vec::new();
    proof {
        lemma_errors_extend_refl(e0);
    }
    let mut gi: usize = 0;
    assert(generic_params@.take(0) =~= Seq::<GenericParam>::empty());
    assert(bounds_view(bounds@) =~= Seq::empty());
    while gi < generic_params.len()
        invariant
            gi <= generic_params@.len(),
            env.wf(),
            bounds_view(bounds@) == generic_bounds(generic_params@.take(gi as int), *env).0,
            errors_extend(e0, errors@, generic_bounds(generic_params@.take(gi as int), *env).1),
        decreases generic_params.len() - gi,
    {
        let g = &generic_params[gi];
        let ghost e1 = errors@;
        let ghost b1 = bounds_view(bounds@);
        let mut bi: usize = 0;
        assert(g.bounds@.take(0) =~= Seq::<TypeExpr>::empty());
        assert(b1 + param_bounds(*g, g.bounds@.take(0), *env).0 =~= b1);
        proof {
            lemma_errors_extend_refl(e1);
        }
        while bi < g.bounds.len()
            invariant
                bi <= g.bounds@.len(),
                env.wf(),
                bounds_view(bounds@) == b1 + param_bounds(*g, g.bounds@.take(bi as int), *env).0,
                errors_extend(e1, errors@, param_bounds(*g, g.bounds@.take(bi as int), *env).1),
            decreases g.bounds.len() - bi,
        {
            let b = &g.bounds[bi];
            let ghost e2 = errors@;
            let ghost before = bounds@;
            proof {
                assert(g.bounds@.take(bi + 1).drop_last() =~= g.bounds@.take(bi as int));
                assert(g.bounds@.take(bi + 1).last() == *b);
            }
            if let Some(iface) = bound_iface_name(b, env) {
                let assoc_bindings = bound_assoc_bindings(b, env, errors);
                bounds.push(
                    GenericBound {
                        param: g.name.clone(),
                        iface,
                        assoc_bindings,
                        is_explicit: true,
                        decl_span: Some(g.span),
                        source_span: None,
                        source_desc: String::new(),
                    },
                );
                proof {
                    assert(bounds_view(bounds@) =~= bounds_view(before).push(bound_view(bounds@.last())));
                    lemma_errors_extend_trans(
                        e1,
                        e2,
                        errors@,
                        param_bounds(*g, g.bounds@.take(bi as int), *env).1,
                        assoc_res(*b, *env).1,
                    );
                }
            }
            bi += 1;
        }
        proof {
            assert(g.bounds@.take(bi as int) =~= g.bounds@);
            assert(generic_params@.take(gi + 1).drop_last() =~= generic_params@.take(gi as int));
            lemma_errors_extend_trans(
                e0,
                e1,
                errors@,
                generic_bounds(generic_params@.take(gi as int), *env).1,
                param_bounds(*g, g.bounds@, *env).1,
            );
        }
        gi += 1;
    }
    assert(generic_params@.take(gi as int) =~= generic_params@);
    bounds
}

// ---------------------------------------------------------------------------
// Projection pins from bounds
// ---------------------------------------------------------------------------

/// The pins a bound's bindings make for `param`: each binding whose type does not
/// resolve to an interface, with its resolved type.
pub open spec fn binding_pins(param: Seq<char>, bs: Seq<(String, TypeExpr)>, env: Env) -> Seq<(Seq<char>, Seq<char>, TyModel)>
    decreases bs.len(),
{
    if bs.len() == 0 {
        Seq::empty()
    } else {
        let m = resolve_spec(bs.last().1, env).0;
        binding_pins(param, bs.drop_last(), env) + if m is Interface {
            Seq::empty()
        } else {
            seq![(param, bs.last().0@, m)]
        }
    }
}

/// The pins the bounds of `param` make, in order.
pub open spec fn bound_pins(param: Seq<char>, bounds: Seq<TypeExpr>, env: Env) -> Seq<(Seq<char>, Seq<char>, TyModel)>
    decreases bounds.len(),
{
    if bounds.len() == 0 {
        Seq::empty()
    } else {
        bound_pins(param, bounds.drop_last(), env) + match bounds.last() {
            TypeExpr::Named { bindings, .. } => binding_pins(param, bindings@, env),
            _ => Seq::empty(),
        }
    }
}

/// The interfaces the bounds of `param` register for it, in order.
pub open spec fn bound_regs(param: Seq<char>, bounds: Seq<TypeExpr>) -> Seq<(Seq<char>, Seq<char>)>
    decreases bounds.len(),
{
    if bounds.len() == 0 {
        Seq::empty()
    } else {
        bound_regs(param, bounds.drop_last()) + match bounds.last() {
            TypeExpr::Named { name, .. } => seq![(param, name@)],
            _ => Seq::empty(),
        }
    }
}

/// The undefined names met resolving the bindings of the bounds, in order.
pub open spec fn bound_errs(bounds: Seq<TypeExpr>, env: Env) -> Seq<(Seq<char>, Span)>
    decreases bounds.len(),
{
    if bounds.len() == 0 {
        Seq::empty()
    } else {
        bound_errs(bounds.drop_last(), env) + assoc_res(bounds.last(), env).1
    }
}

pub open spec fn pins_of(gs: Seq<GenericParam>, env: Env) -> Seq<(Seq<char>, Seq<char>, TyModel)>
    decreases gs.len(),
{
    if gs.len() == 0 {
        Seq::empty()
    } else {
        pins_of(gs.drop_last(), env) + bound_pins(gs.last().name@, gs.last().bounds@, env)
    }
}

pub open spec fn regs_of(gs: Seq<GenericParam>) -> Seq<(Seq<char>, Seq<char>)>
    decreases gs.len(),
{
    if gs.len() == 0 {
        Seq::empty()
    } else {
        regs_of(gs.drop_last()) + bound_regs(gs.last().name@, gs.last().bounds@)
    }
}

pub open spec fn pin_errs(gs: Seq<GenericParam>, env: Env) -> Seq<(Seq<char>, Span)>
    decreases gs.len(),
{
    if gs.len() == 0 {
        Seq::empty()
    } else {
        pin_errs(gs.drop_last(), env) + bound_errs(gs.last().bounds@, env)
    }
}

/// The type last pinned for `param.assoc` among `ops`.
pub open spec fn last_pin(ops: Seq<(Seq<char>, Seq<char>, TyModel)>, p: Seq<char>, a: Seq<char>) -> Option<TyModel>
    decreases ops.len(),
{
    if ops.len() == 0 {
        None
    } else if ops.last().0 == p && ops.last().1 == a {
        Some(ops.last().2)
    } else {
        last_pin(ops.drop_last(), p, a)
    }
}

/// The interfaces registered for `p` among `regs`, in order.
pub open spec fn regs_for(regs: Seq<(Seq<char>, Seq<char>)>, p: Seq<char>) -> Seq<Seq<char>>
    decreases regs.len(),
{
    if regs.len() == 0 {
        Seq::empty()
    } else {
        regs_for(regs.drop_last(), p) + if regs.last().0 == p {
            seq![regs.last().1]
        } else {
            Seq::empty()
        }
    }
}

/// The model of what `param.assoc` is pinned to.
pub open spec fn pinned_model(e: Env, p: Seq<char>, a: Seq<char>) -> Option<TyModel> {
    match e.pinned(p, a) {
        Some(t) => Some(ty_model(t)),
        None => None,
    }
}

/// `e` is `e0` after pinning `ops` and registering `regs` in its innermost scope, with
/// its bindings untouched; with no scope open nothing is recorded.
pub open spec fn pins_applied(e0: Env, e: Env, ops: Seq<(Seq<char>, Seq<char>, TyModel)>, regs: Seq<(Seq<char>, Seq<char>)>) -> bool {
    &&& e.wf()
    &&& e.depth() == e0.depth()
    &&& e.in_throws_context() == e0.in_throws_context()
    &&& forall|n: Seq<char>| #[trigger] e.binding(n) == e0.binding(n)
    &&& forall|p: Seq<char>, a: Seq<char>| #[trigger] pinned_model(e, p, a) == if e0.depth() > 0 {
        match last_pin(ops, p, a) {
            Some(m) => Some(m),
            None => pinned_model(e0, p, a),
        }
    } else {
        pinned_model(e0, p, a)
    }
    &&& e0.depth() > 0 ==> forall|p: Seq<char>| #[trigger] e.ifaces_at(e0.depth() - 1, p) == e0.ifaces_at(
        e0.depth() - 1,
        p,
    ) + regs_for(regs, p)
    &&& forall|k: int, p: Seq<char>| 0 <= k < e0.depth() - 1 ==> #[trigger] e.ifaces_at(k, p) == e0.ifaces_at(k, p)
}

/// Records, for each generic parameter and each of its bounds `I[A=T, ...]`, that the
/// parameter is bounded by `I`, and pins `param.A` to the resolved `T` unless `T` is an
/// interface; undefined names in the bindings are reported.
pub fn register_projection_pins(generic_params: &Vec<GenericParam>, env: &mut Env, errors: &mut Vec<AnalysisError>)
    requires
        old(env).wf(),
    ensures
        pins_applied(*old(env), *final(env), pins_of(generic_params@, *old(env)), regs_of(generic_params@)),
        errors_extend(old(errors)@, final(errors)@, pin_errs(generic_params@, *old(env))),
{
    let ghost env0: Env = *env;
    let ghost e0 = errors@;
    proof {
        lemma_errors_extend_refl(e0);
        assert(generic_params@.take(0) =~= Seq::<GenericParam>::empty());
    }
    let mut gi: usize = 0;
    while gi < generic_params.len()
        invariant
            gi <= generic_params@.len(),
            pins_applied(env0, *env, pins_of(generic_params@.take(gi as int), env0), regs_of(generic_params@.take(gi as int))),
            errors_extend(e0, errors@, pin_errs(generic_params@.take(gi as int), env0)),
        decreases generic_params.len() - gi,
    {
        let gp = &generic_params[gi];
        let ghost ops_g = pins_of(generic_params@.take(gi as int), env0);
        let ghost regs_g = regs_of(generic_params@.take(gi as int));
        let ghost errs_g = pin_errs(generic_params@.take(gi as int), env0);
        let mut bi: usize = 0;
        proof {
            assert(gp.bounds@.take(0) =~= Seq::<TypeExpr>::empty());
            assert(ops_g + bound_pins(gp.name@, gp.bounds@.take(0), env0) =~= ops_g);
            assert(regs_g + bound_regs(gp.name@, gp.bounds@.take(0)) =~= regs_g);
            assert(errs_g + bound_errs(gp.bounds@.take(0), env0) =~= errs_g);
        }
        while bi < gp.bounds.len()
            invariant
                bi <= gp.bounds@.len(),
                pins_applied(
                    env0,
                    *env,
                    ops_g + bound_pins(gp.name@, gp.bounds@.take(bi as int), env0),
                    regs_g + bound_regs(gp.name@, gp.bounds@.take(bi as int)),
                ),
                errors_extend(e0, errors@, errs_g + bound_errs(gp.bounds@.take(bi as int), env0)),
            decreases gp.bounds.len() - bi,
        {
            let b = &gp.bounds[bi];
            proof {
                assert(gp.bounds@.take(bi + 1).drop_last() =~= gp.bounds@.take(bi as int));
                assert(gp.bounds@.take(bi + 1).last() == *b);
            }
            if let TypeExpr::Named { name: iface_name, bindings, .. } = b {
                let ghost ops_b = ops_g + bound_pins(gp.name@, gp.bounds@.take(bi as int), env0);
                let ghost regs_b = regs_g + bound_regs(gp.name@, gp.bounds@.take(bi as int));
                let ghost errs_b = errs_g + bound_errs(gp.bounds@.take(bi as int), env0);
                let ghost before = *env;
                env.register_param_iface(gp.name.as_str(), iface_name.as_str());
                proof {
                    let regs1 = regs_b.push((gp.name@, iface_name@));
                    if env0.depth() > 0 {
                        assert forall|p: Seq<char>| #[trigger] env.ifaces_at(env0.depth() - 1, p) == env0.ifaces_at(
                            env0.depth() - 1,
                            p,
                        ) + regs_for(regs1, p) by {
                            assert(regs1.drop_last() =~= regs_b);
                            assert(before.ifaces_at(env0.depth() - 1, p) == env0.ifaces_at(env0.depth() - 1, p) + regs_for(
                                regs_b,
                                p,
                            ));
                            if p == gp.name@ {
                                assert(regs_for(regs1, p) =~= regs_for(regs_b, p).push(iface_name@));
                            } else {
                                assert(env.ifaces_at(env0.depth() - 1, p) == before.ifaces_at(env0.depth() - 1, p));
                                assert(regs_for(regs1, p) =~= regs_for(regs_b, p));
                            }
                        }
                    }
                    assert forall|k: int, p: Seq<char>| 0 <= k < env0.depth() - 1 implies #[trigger] env.ifaces_at(k, p)
                        == env0.ifaces_at(k, p) by {
                        assert(before.ifaces_at(k, p) == env0.ifaces_at(k, p));
                    }
                    assert forall|p: Seq<char>, a: Seq<char>| #[trigger] pinned_model(*env, p, a) == if env0.depth() > 0 {
                        match last_pin(ops_b, p, a) {
                            Some(mm) => Some(mm),
                            None => pinned_model(env0, p, a),
                        }
                    } else {
                        pinned_model(env0, p, a)
                    } by {
                        assert(env.pinned(p, a) == before.pinned(p, a));
                        assert(pinned_model(before, p, a) == pinned_model(*env, p, a));
                    }
                    assert(pins_applied(env0, *env, ops_b, regs1));
                    assert(bindings@.take(0) =~= Seq::<(String, TypeExpr)>::empty());
                    assert(ops_b + binding_pins(gp.name@, bindings@.take(0), env0) =~= ops_b);
                    assert(errs_b + bindings_res(bindings@.take(0), env0).1 =~= errs_b);
                }
                let ghost regs1 = regs_b.push((gp.name@, iface_name@));
                let mut ki: usize = 0;
                while ki < bindings.len()
                    invariant
                        ki <= bindings@.len(),
                        pins_applied(env0, *env, ops_b + binding_pins(gp.name@, bindings@.take(ki as int), env0), regs1),
                        errors_extend(e0, errors@, errs_b + bindings_res(bindings@.take(ki as int), env0).1),
                    decreases bindings.len() - ki,
                {
                    let ghost e1 = errors@;
                    let ghost env1 = *env;
                    let binding_ty = resolve_type_expr(&bindings[ki].1, env, errors);
                    let ghost m = ty_model(binding_ty);
                    proof {
                        lemma_resolve_same_bindings(bindings@[ki as int].1, *env, env0);
                        assert(bindings@.take(ki + 1).drop_last() =~= bindings@.take(ki as int));
                        lemma_errors_extend_trans(
                            e0,
                            e1,
                            errors@,
                            errs_b + bindings_res(bindings@.take(ki as int), env0).1,
                            resolve_spec(bindings@[ki as int].1, env0).1,
                        );
                        assert(errs_b + bindings_res(bindings@.take(ki + 1), env0).1 =~= errs_b + bindings_res(
                            bindings@.take(ki as int),
                            env0,
                        ).1 + resolve_spec(bindings@[ki as int].1, env0).1);
                    }
                    let ghost ops_k = ops_b + binding_pins(gp.name@, bindings@.take(ki as int), env0);
                    if !matches!(binding_ty, Ty::Interface(_, _)) {
                        env.pin_projection(gp.name.as_str(), bindings[ki].0.as_str(), binding_ty);
                        proof {
                            let ops1 = ops_k.push((gp.name@, bindings@[ki as int].0@, m));
                            assert forall|p: Seq<char>, a: Seq<char>| #[trigger] pinned_model(*env, p, a) == if env0.depth() > 0 {
                                match last_pin(ops1, p, a) {
                                    Some(mm) => Some(mm),
                                    None => pinned_model(env0, p, a),
                                }
                            } else {
                                pinned_model(env0, p, a)
                            } by {
                                assert(ops1.drop_last() =~= ops_k);
                                assert(pinned_model(env1, p, a) == if env0.depth() > 0 {
                                    match last_pin(ops_k, p, a) {
                                        Some(mm) => Some(mm),
                                        None => pinned_model(env0, p, a),
                                    }
                                } else {
                                    pinned_model(env0, p, a)
                                });
                            }
                            assert(ops_b + binding_pins(gp.name@, bindings@.take(ki + 1), env0) =~= ops1);
                            if env0.depth() > 0 {
                                assert forall|p: Seq<char>| #[trigger] env.ifaces_at(env0.depth() - 1, p) == env0.ifaces_at(
                                    env0.depth() - 1,
                                    p,
                                ) + regs_for(regs1, p) by {
                                    assert(env1.ifaces_at(env0.depth() - 1, p) == env0.ifaces_at(env0.depth() - 1, p)
                                        + regs_for(regs1, p));
                                }
                            }
                            assert forall|k: int, p: Seq<char>| 0 <= k < env0.depth() - 1 implies #[trigger] env.ifaces_at(
                                k,
                                p,
                            ) == env0.ifaces_at(k, p) by {
                                assert(env1.ifaces_at(k, p) == env0.ifaces_at(k, p));
                            }
                        }
                    } else {
                        proof {
                            assert(ops_b + binding_pins(gp.name@, bindings@.take(ki + 1), env0) =~= ops_k);
                        }
                    }
                    ki += 1;
                }
                proof {
                    assert(bindings@.take(ki as int) =~= bindings@);
                    assert(ops_g + bound_pins(gp.name@, gp.bounds@.take(bi + 1), env0) =~= ops_b + binding_pins(
                        gp.name@,
                        bindings@,
                        env0,
                    ));
                    assert(regs_g + bound_regs(gp.name@, gp.bounds@.take(bi + 1)) =~= regs1);
                    assert(errs_g + bound_errs(gp.bounds@.take(bi + 1), env0) =~= errs_b + bindings_res(bindings@, env0).1);
                }
            } else {
                proof {
                    assert(ops_g + bound_pins(gp.name@, gp.bounds@.take(bi + 1), env0) =~= ops_g + bound_pins(
                        gp.name@,
                        gp.bounds@.take(bi as int),
                        env0,
                    ));
                    assert(regs_g + bound_regs(gp.name@, gp.bounds@.take(bi + 1)) =~= regs_g + bound_regs(
                        gp.name@,
                        gp.bounds@.take(bi as int),
                    ));
                    assert(errs_g + bound_errs(gp.bounds@.take(bi + 1), env0) =~= errs_g + bound_errs(
                        gp.bounds@.take(bi as int),
                        env0,
                    ));
                }
            }
            bi += 1;
        }
        proof {
            assert(gp.bounds@.take(bi as int) =~= gp.bounds@);
            assert(generic_params@.take(gi + 1).drop_last() =~= generic_params@.take(gi as int));
            assert(pins_of(generic_params@.take(gi + 1), env0) =~= ops_g + bound_pins(gp.name@, gp.bounds@, env0));
            assert(regs_of(generic_params@.take(gi + 1)) =~= regs_g + bound_regs(gp.name@, gp.bounds@));
            assert(pin_errs(generic_params@.take(gi + 1), env0) =~= errs_g + bound_errs(gp.bounds@, env0));
        }
        gi += 1;
    }
    proof {
        assert(generic_params@.take(gi as int) =~= generic_params@);
    }
}

} // verus!
