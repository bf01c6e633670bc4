use vstd::prelude::*;
use crate::ast::{BinOp, UnOp};
use crate::env::GenericBound;
use crate::op_hierarchy::{compound_assign_iface, hierarchy_names};
use crate::span::Span;
use crate::ty::{Ty, TyModel, lemma_tys_model_index, ty_copy, ty_model, tys_model};
use crate::typed_ast::{
    TypedBlock, TypedCatchHandler, TypedClosureBody, TypedExpr, TypedExprKind, TypedFile,
    TypedItem, TypedMatchArm, TypedStmt, TypedStringSegment,
};

verus! {

// Interface constraints implied by the operations of a typed program: operators,
// compound assignments, string interpolation and calls of generic functions.

/// Why a constraint was emitted.
#[derive(Debug)]
pub enum ConstraintReason {
    Operator(BinOp),
    CompoundAssign(BinOp),
    UnaryNeg,
    UnaryPos,
    Interpolation,
    GenericBoundCheck {
        param: String,
        bound: String,
        fn_name: String,
        /// `true` when written explicitly in the function signature.
        is_explicit: bool,
        /// Span of the generic param in the declaration where this bound was written.
        decl_span: Option<Span>,
        /// Where in the function body this bound is used.
        source_span: Option<Span>,
        /// Human-readable description of the usage site.
        source_desc: String,
    },
}

/// The kind of constraint being checked.
#[derive(Debug)]
pub enum ConstraintKind {
    /// Simple interface bound: `ty` must satisfy `iface`.
    Bound { ty: Ty, iface: String },
    /// Projected bound: `base_ty` implements `base_iface`, and its associated type
    /// `assoc_name` must satisfy `required_iface`.
    ProjectedBound { base_ty: Ty, base_iface: String, assoc_name: String, required_iface: String },
}

/// A constraint with the place that requires it.
#[derive(Debug)]
pub struct Constraint {
    pub kind: ConstraintKind,
    pub span: Span,
    pub reason: ConstraintReason,
}

// ---------------------------------------------------------------------------
// Models
// ---------------------------------------------------------------------------

pub enum ReasonModel {
    Operator(BinOp),
    CompoundAssign(BinOp),
    UnaryNeg,
    UnaryPos,
    Interpolation,
    GenericBoundCheck {
        param: Seq<char>,
        bound: Seq<char>,
        fn_name: Seq<char>,
        is_explicit: bool,
        decl_span: Option<Span>,
        source_span: Option<Span>,
        source_desc: Seq<char>,
    },
}

pub enum CKindModel {
    Bound { ty: TyModel, iface: Seq<char> },
    ProjectedBound { base_ty: TyModel, base_iface: Seq<char>, assoc_name: Seq<char>, required_iface: Seq<char> },
}

pub struct ConstraintModel {
    pub kind: CKindModel,
    pub span: Span,
    pub reason: ReasonModel,
}

pub open spec fn reason_model(r: ConstraintReason) -> ReasonModel {
    match r {
        ConstraintReason::Operator(op) => ReasonModel::Operator(op),
        ConstraintReason::CompoundAssign(op) => ReasonModel::CompoundAssign(op),
        ConstraintReason::UnaryNeg => ReasonModel::UnaryNeg,
        ConstraintReason::UnaryPos => ReasonModel::UnaryPos,
        ConstraintReason::Interpolation => ReasonModel::Interpolation,
        ConstraintReason::GenericBoundCheck {
            param,
            bound,
            fn_name,
            is_explicit,
            decl_span,
            source_span,
            source_desc,
        } => ReasonModel::GenericBoundCheck {
            param: param@,
            bound: bound@,
            fn_name: fn_name@,
            is_explicit,
            decl_span,
            source_span,
            source_desc: source_desc@,
        },
    }
}

pub open spec fn ckind_model(k: ConstraintKind) -> CKindModel {
    match k {
        ConstraintKind::Bound { ty, iface } => CKindModel::Bound { ty: ty_model(ty), iface: iface@ },
        ConstraintKind::ProjectedBound { base_ty, base_iface, assoc_name, required_iface } => {
            CKindModel::ProjectedBound {
                base_ty: ty_model(base_ty),
                base_iface: base_iface@,
                assoc_name: assoc_name@,
                required_iface: required_iface@,
            }
        },
    }
}

pub open spec fn constraint_model(c: Constraint) -> ConstraintModel {
    ConstraintModel { kind: ckind_model(c.kind), span: c.span, reason: reason_model(c.reason) }
}

pub open spec fn constraints_model(s: Seq<Constraint>) -> Seq<ConstraintModel> {
    s.map_values(|c: Constraint| constraint_model(c))
}

/// A simple bound constraint.
pub open spec fn bound_c(ty: Ty, iface: Seq<char>, span: Span, reason: ReasonModel) -> ConstraintModel {
    ConstraintModel { kind: CKindModel::Bound { ty: ty_model(ty), iface }, span, reason }
}

fn push_constraint(out: &mut Vec<Constraint>, c: Constraint)
    ensures
        constraints_model(final(out)@) == constraints_model(old(out)@).push(constraint_model(c)),
{
    let ghost c0 = c;
    out.push(c);
    assert(constraints_model(out@) =~= constraints_model(old(out)@).push(constraint_model(c0)));
}

// ---------------------------------------------------------------------------
// Operator interfaces
// ---------------------------------------------------------------------------

/// The interface a binary operator requires of its left operand's type; `&&`, `||`
/// and `|` require none.
pub open spec fn binop_iface(op: BinOp) -> Option<Seq<char>> {
    match op {
        BinOp::Add => Some("Addable"@),
        BinOp::Sub => Some("Subtractable"@),
        BinOp::Mul => Some("Multiplicable"@),
        BinOp::Div => Some("Divisible"@),
        BinOp::Mod => Some("Remainder"@),
        BinOp::Eq => Some("PartialEq"@),
        BinOp::Ne => Some("PartialEq"@),
        BinOp::Lt => Some("PartialOrd"@),
        BinOp::Gt => Some("PartialOrd"@),
        BinOp::LtEq => Some("PartialOrd"@),
        BinOp::GtEq => Some("PartialOrd"@),
        BinOp::Spaceship => Some("Ord"@),
        BinOp::And => None,
        BinOp::Or => None,
        BinOp::Pipe => None,
    }
}

/// Returns the interface required to use this binary operator, if any.
/// `PartialEq`/`PartialOrd` for `==`/`<` so floats work; `<=>` requires `Ord`.
pub fn binop_required_iface(op: &BinOp) -> (r: Option<&'static str>)
    ensures
        r is None <==> binop_iface(*op) is None,
        r matches Some(s) ==> binop_iface(*op) == Some(s@),
{
    match op {
        BinOp::Add => Some("Addable"),
        BinOp::Sub => Some("Subtractable"),
        BinOp::Mul => Some("Multiplicable"),
        BinOp::Div => Some("Divisible"),
        BinOp::Mod => Some("Remainder"),
        BinOp::Eq => Some("PartialEq"),
        BinOp::Ne => Some("PartialEq"),
        BinOp::Lt => Some("PartialOrd"),
        BinOp::Gt => Some("PartialOrd"),
        BinOp::LtEq => Some("PartialOrd"),
        BinOp::GtEq => Some("PartialOrd"),
        BinOp::Spaceship => Some("Ord"),
        BinOp::And => None,
        BinOp::Or => None,
        BinOp::Pipe => None,
    }
}

/// The interface a compound assignment requires of its target's type.
pub open spec fn assign_iface(op: BinOp) -> Option<Seq<char>> {
    if hierarchy_names(op).len() > 0 {
        Some(hierarchy_names(op).last())
    } else {
        None
    }
}

// ---------------------------------------------------------------------------
// Describing a reason
// ---------------------------------------------------------------------------

/// The name of a binary operator as it is printed in a reason.
pub open spec fn binop_name(op: BinOp) -> Seq<char> {
    match op {
        BinOp::Add => "Add"@,
        BinOp::Sub => "Sub"@,
        BinOp::Mul => "Mul"@,
        BinOp::Div => "Div"@,
        BinOp::Mod => "Mod"@,
        BinOp::Eq => "Eq"@,
        BinOp::Ne => "Ne"@,
        BinOp::Lt => "Lt"@,
        BinOp::Gt => "Gt"@,
        BinOp::LtEq => "LtEq"@,
        BinOp::GtEq => "GtEq"@,
        BinOp::Spaceship => "Spaceship"@,
        BinOp::And => "And"@,
        BinOp::Or => "Or"@,
        BinOp::Pipe => "Pipe"@,
    }
}

fn binop_name_str(op: BinOp) -> (r: &'static str)
    ensures
        r@ == binop_name(op),
{
    match op {
        BinOp::Add => "Add",
        BinOp::Sub => "Sub",
        BinOp::Mul => "Mul",
        BinOp::Div => "Div",
        BinOp::Mod => "Mod",
        BinOp::Eq => "Eq",
        BinOp::Ne => "Ne",
        BinOp::Lt => "Lt",
        BinOp::Gt => "Gt",
        BinOp::LtEq => "LtEq",
        BinOp::GtEq => "GtEq",
        BinOp::Spaceship => "Spaceship",
        BinOp::And => "And",
        BinOp::Or => "Or",
        BinOp::Pipe => "Pipe",
    }
}

/// The parenthesised explanation appended to a bound violation.
pub open spec fn context_text(r: ReasonModel) -> Seq<char> {
    match r {
        ReasonModel::Operator(op) => " (required by operator `"@ + binop_name(op) + "`)"@,
        ReasonModel::CompoundAssign(op) => " (required by compound-assign operator `"@ + binop_name(op)
            + "=`)"@,
        ReasonModel::UnaryNeg => " (required by unary `-`)"@,
        ReasonModel::UnaryPos => " (required by unary `+`)"@,
        ReasonModel::Interpolation => " (required by string interpolation)"@,
        ReasonModel::GenericBoundCheck { param, bound, fn_name, is_explicit, .. } => if is_explicit {
            " (explicit bound `"@ + param + ": "@ + bound + "` on `"@ + fn_name + "`)"@
        } else {
            " (inferred bound `"@ + param + ": "@ + bound + "` on `"@ + fn_name + "`)"@
        },
    }
}

impl ConstraintReason {
    /// The parenthesised explanation of this reason, starting with a space.
    pub fn context_string(&self) -> (r: String)
        ensures
            r@ == context_text(reason_model(*self)),
    {
        let mut s = String::new();
        match self {
            ConstraintReason::Operator(op) => {
                s.append(" (required by operator `");
                s.append(binop_name_str(*op));
                s.append("`)");
            },
            ConstraintReason::CompoundAssign(op) => {
                s.append(" (required by compound-assign operator `");
                s.append(binop_name_str(*op));
                s.append("=`)");
            },
            ConstraintReason::UnaryNeg => s.append(" (required by unary `-`)"),
            ConstraintReason::UnaryPos => s.append(" (required by unary `+`)"),
            ConstraintReason::Interpolation => s.append(" (required by string interpolation)"),
            ConstraintReason::GenericBoundCheck { param, bound, fn_name, is_explicit, .. } => {
                if *is_explicit {
                    s.append(" (explicit bound `");
                } else {
                    s.append(" (inferred bound `");
                }
                s.append(param.as_str());
                s.append(": ");
                s.append(bound.as_str());
                s.append("` on `");
                s.append(fn_name.as_str());
                s.append("`)");
            },
        }
        s
    }
}

// ---------------------------------------------------------------------------
// Generic calls
// ---------------------------------------------------------------------------

/// A binding of a generic parameter to the type and span of an argument.
pub type Binding = (Seq<char>, TyModel, Span);

pub open spec fn names_view(s: Seq<String>) -> Seq<Seq<char>> {
    s.map_values(|g: String| g@)
}

/// The bindings found by matching a declared type against an argument type: a
/// declared generic parameter binds to the whole argument type, and a named type
/// matches its type arguments pairwise against those of a named argument type of the
/// same name.
pub open spec fn unify_spec(p: TyModel, a: TyModel, span: Span, gps: Seq<Seq<char>>) -> Seq<Binding>
    decreases p, 0nat,
{
    match p {
        TyModel::GenericParam(n) => if gps.contains(n) {
            seq![(n, a, span)]
        } else {
            Seq::empty()
        },
        TyModel::Named(_, pn, pargs) => match a {
            TyModel::Named(_, an, aargs) => if pn == an {
                unify_pairs(
                    pargs,
                    aargs,
                    if pargs.len() < aargs.len() {
                        pargs.len()
                    } else {
                        aargs.len()
                    },
                    span,
                    gps,
                )
            } else {
                Seq::empty()
            },
            _ => Seq::empty(),
        },
        _ => Seq::empty(),
    }
}

/// The bindings of the first `n` pairs of two type lists.
pub open spec fn unify_pairs(ps: Seq<TyModel>, qs: Seq<TyModel>, n: nat, span: Span, gps: Seq<Seq<char>>) -> Seq<Binding>
    decreases ps, n,
{
    if n == 0 || n > ps.len() || n > qs.len() {
        Seq::empty()
    } else {
        unify_pairs(ps, qs, (n - 1) as nat, span, gps) + unify_spec(ps[n - 1], qs[n - 1], span, gps)
    }
}

/// The bindings of the first `n` declared parameters against the arguments present.
pub open spec fn call_bindings(ps: Seq<TyModel>, args: Seq<(TyModel, Span)>, gps: Seq<Seq<char>>, n: nat) -> Seq<Binding>
    decreases n,
{
    if n == 0 {
        Seq::empty()
    } else {
        call_bindings(ps, args, gps, (n - 1) as nat) + if n - 1 < ps.len() && n - 1 < args.len() {
            unify_spec(ps[n - 1], args[n - 1].0, args[n - 1].1, gps)
        } else {
            Seq::empty()
        }
    }
}

/// The first binding of a name: the first argument that determined it wins.
pub open spec fn first_binding(s: Seq<Binding>, k: Seq<char>) -> Option<(TyModel, Span)>
    decreases s.len(),
{
    if s.len() == 0 {
        None
    } else if s[0].0 == k {
        Some((s[0].1, s[0].2))
    } else {
        first_binding(s.skip(1), k)
    }
}

pub open spec fn subst_model(v: Seq<(String, Ty, Span)>) -> Seq<Binding> {
    v.map_values(|b: (String, Ty, Span)| (b.0@, ty_model(b.1), b.2))
}

pub open spec fn arg_tys_model(v: Seq<(Ty, Span)>) -> Seq<(TyModel, Span)> {
    v.map_values(|a: (Ty, Span)| (ty_model(a.0), a.1))
}

/// The reason recorded for a bound of the called function.
pub open spec fn bound_reason(fn_name: Seq<char>, b: GenericBound) -> ReasonModel {
    ReasonModel::GenericBoundCheck {
        param: b.param@,
        bound: b.iface@,
        fn_name,
        is_explicit: b.is_explicit,
        decl_span: b.decl_span,
        source_span: b.source_span,
        source_desc: b.source_desc@,
    }
}

/// Projected bounds for the associated-type bindings of a bound that name an interface.
pub open spec fn assoc_cons(t: TyModel, sp: Span, iface: Seq<char>, reason: ReasonModel, s: Seq<(String, Ty)>) -> Seq<ConstraintModel>
    decreases s.len(),
{
    if s.len() == 0 {
        Seq::empty()
    } else {
        assoc_cons(t, sp, iface, reason, s.drop_last()) + match s.last().1 {
            Ty::Interface(_, n) => seq![
                ConstraintModel {
                    kind: CKindModel::ProjectedBound {
                        base_ty: t,
                        base_iface: iface,
                        assoc_name: s.last().0@,
                        required_iface: n@,
                    },
                    span: sp,
                    reason,
                },
            ],
            _ => Seq::empty(),
        }
    }
}

/// The constraints of each bound whose parameter was bound by an argument.
pub open spec fn bounds_cons(fn_name: Seq<char>, bounds: Seq<GenericBound>, subst: Seq<Binding>) -> Seq<ConstraintModel>
    decreases bounds.len(),
{
    if bounds.len() == 0 {
        Seq::empty()
    } else {
        let b = bounds.last();
        bounds_cons(fn_name, bounds.drop_last(), subst) + match first_binding(subst, b.param@) {
            Some((t, sp)) => seq![
                ConstraintModel {
                    kind: CKindModel::Bound { ty: t, iface: b.iface@ },
                    span: sp,
                    reason: bound_reason(fn_name, b),
                },
            ] + assoc_cons(t, sp, b.iface@, bound_reason(fn_name, b), b.assoc_bindings@),
            None => Seq::empty(),
        }
    }
}

/// The constraints of a direct call of a function with generic bounds.
pub open spec fn call_cons(fn_name: Seq<char>, bounds: Seq<GenericBound>, gps: Seq<Seq<char>>, ps: Seq<TyModel>, args: Seq<(TyModel, Span)>) -> Seq<ConstraintModel> {
    bounds_cons(fn_name, bounds, call_bindings(ps, args, gps, ps.len()))
}

fn names_contain(gps: &[String], p: &String) -> (r: bool)
    ensures
        r == names_view(gps@).contains(p@),
{
    let mut i: usize = 0;
    while i < gps.len()
        invariant
            i <= gps@.len(),
            forall|j: int| 0 <= j < i ==> (#[trigger] gps@[j])@ != p@,
        decreases gps.len() - i,
    {
        if gps[i] == *p {
            assert(names_view(gps@)[i as int] == p@);
            return true;
        }
        i += 1;
    }
    assert(!names_view(gps@).contains(p@)) by {
        if names_view(gps@).contains(p@) {
            let j = choose|j: int| 0 <= j < names_view(gps@).len() && names_view(gps@)[j] == p@;
            assert(gps@[j]@ == p@);
        }
    }
    false
}

fn push_binding(subst: &mut Vec<(String, Ty, Span)>, b: (String, Ty, Span))
    ensures
        subst_model(final(subst)@) == subst_model(old(subst)@).push((b.0@, ty_model(b.1), b.2)),
{
    let ghost b0 = b;
    subst.push(b);
    assert(subst_model(subst@) =~= subst_model(old(subst)@).push((b0.0@, ty_model(b0.1), b0.2)));
}

/// Matches a declared type against an argument type and records the bindings of
/// generic parameters, in order.
fn unify_param(param_ty: &Ty, arg_ty: &Ty, span: Span, generic_params: &[String], subst: &mut Vec<(String, Ty, Span)>)
    ensures
        subst_model(final(subst)@) == subst_model(old(subst)@) + unify_spec(
            ty_model(*param_ty),
            ty_model(*arg_ty),
            span,
            names_view(generic_params@),
        ),
    decreases *param_ty, 1nat,
{
    let ghost s0 = subst_model(subst@);
    match param_ty {
        Ty::GenericParam(p) => {
            if names_contain(generic_params, p) {
                push_binding(subst, (p.clone(), ty_copy(arg_ty), span));
            }
        },
        Ty::Named(_, pname, pargs) => match arg_ty {
            Ty::Named(_, aname, aargs) => {
                proof {
                    lemma_tys_model_index(pargs@);
                    lemma_tys_model_index(aargs@);
                }
                if *pname == *aname {
                    unify_list(pargs, aargs, span, generic_params, subst);
                }
            },
            _ => {},
        },
        _ => {},
    }
    assert(subst_model(subst@) =~= s0 + unify_spec(
        ty_model(*param_ty),
        ty_model(*arg_ty),
        span,
        names_view(generic_params@),
    ));
}

fn unify_list(ps: &Vec<Ty>, qs: &Vec<Ty>, span: Span, generic_params: &[String], subst: &mut Vec<(String, Ty, Span)>)
    ensures
        subst_model(final(subst)@) == subst_model(old(subst)@) + unify_pairs(
            tys_model(ps@),
            tys_model(qs@),
            if ps@.len() < qs@.len() {
                ps@.len()
            } else {
                qs@.len()
            },
            span,
            names_view(generic_params@),
        ),
    decreases ps@, 0nat,
{
    proof {
        lemma_tys_model_index(ps@);
        lemma_tys_model_index(qs@);
    }
    let n: usize = if ps.len() < qs.len() {
        ps.len()
    } else {
        qs.len()
    };
    let mut i: usize = 0;
    while i < n
        invariant
            i <= n,
            n <= ps@.len(),
            n <= qs@.len(),
            n == (if ps@.len() < qs@.len() { ps@.len() } else { qs@.len() }),
            tys_model(ps@).len() == ps@.len(),
            tys_model(qs@).len() == qs@.len(),
            forall|j: int| 0 <= j < ps@.len() ==> #[trigger] tys_model(ps@)[j] == ty_model(ps@[j]),
            forall|j: int| 0 <= j < qs@.len() ==> #[trigger] tys_model(qs@)[j] == ty_model(qs@[j]),
            subst_model(subst@) == subst_model(old(subst)@) + unify_pairs(
                tys_model(ps@),
                tys_model(qs@),
                i as nat,
                span,
                names_view(generic_params@),
            ),
        decreases n - i,
    {
        proof {
            assert(decreases_to!(ps@ => ps@[i as int]));
        }
        let ghost before = subst_model(subst@);
        unify_param(&ps[i], &qs[i], span, generic_params, subst);
        proof {
            assert(tys_model(ps@)[i as int] == ty_model(ps@[i as int]));
            assert(tys_model(qs@)[i as int] == ty_model(qs@[i as int]));
            assert(subst_model(subst@) =~= subst_model(old(subst)@) + unify_pairs(
                tys_model(ps@),
                tys_model(qs@),
                (i + 1) as nat,
                span,
                names_view(generic_params@),
            ));
        }
        i += 1;
    }
}

/// The index of the first binding of `k`, if any.
fn subst_get(subst: &Vec<(String, Ty, Span)>, k: &String) -> (r: Option<usize>)
    ensures
        r is None ==> first_binding(subst_model(subst@), k@) is None,
        r matches Some(i) ==> i < subst@.len() && first_binding(subst_model(subst@), k@) == Some(
            (ty_model(subst@[i as int].1), subst@[i as int].2),
        ),
{
    let ghost sm = subst_model(subst@);
    let mut i: usize = 0;
    assert(sm.skip(0) =~= sm);
    while i < subst.len()
        invariant
            i <= subst@.len(),
            sm == subst_model(subst@),
            sm.len() == subst@.len(),
            first_binding(sm, k@) == first_binding(sm.skip(i as int), k@),
        decreases subst.len() - i,
    {
        proof {
            assert(sm.skip(i as int)[0] == sm[i as int]);
            assert(sm.skip(i as int).skip(1) =~= sm.skip(i + 1));
        }
        if subst[i].0 == *k {
            return Some(i);
        }
        i += 1;
    }
    assert(sm.skip(i as int).len() == 0);
    None
}

fn make_reason(fn_name: &str, b: &GenericBound) -> (r: ConstraintReason)
    ensures
        reason_model(r) == bound_reason(fn_name@, *b),
{
    ConstraintReason::GenericBoundCheck {
        param: b.param.clone(),
        bound: b.iface.clone(),
        fn_name: fn_name.to_owned(),
        is_explicit: b.is_explicit,
        decl_span: b.decl_span,
        source_span: b.source_span,
        source_desc: b.source_desc.clone(),
    }
}

/// Emits the constraints of a direct call with generic bounds: declared parameter
/// types are matched against the argument types, and each bound whose parameter got a
/// type is checked on that type, together with the projected bounds of its
/// associated-type bindings that name an interface.
pub fn emit_call_bound_constraints(
    fn_name: &str,
    bounds: &[GenericBound],
    generic_params: &[String],
    param_tys: &[Ty],
    arg_tys: &[(Ty, Span)],
    out: &mut Vec<Constraint>,
)
    ensures
        constraints_model(final(out)@) == constraints_model(old(out)@) + call_cons(
            fn_name@,
            bounds@,
            names_view(generic_params@),
            tys_model(param_tys@),
            arg_tys_model(arg_tys@),
        ),
{
    let ghost ps = tys_model(param_tys@);
    let ghost args = arg_tys_model(arg_tys@);
    let ghost gps = names_view(generic_params@);
    proof {
        lemma_tys_model_index(param_tys@);
    }
    let mut subst: Vec<(String, Ty, Span)> = Vec::new();
    let mut i: usize = 0;
    assert(subst_model(subst@) =~= call_bindings(ps, args, gps, 0));
    while i < param_tys.len()
        invariant
            i <= param_tys@.len(),
            ps == tys_model(param_tys@),
            args == arg_tys_model(arg_tys@),
            gps == names_view(generic_params@),
            ps.len() == param_tys@.len(),
            forall|j: int| 0 <= j < param_tys@.len() ==> #[trigger] ps[j] == ty_model(param_tys@[j]),
            subst_model(subst@) == call_bindings(ps, args, gps, i as nat),
        decreases param_tys.len() - i,
    {
        let ghost before = subst_model(subst@);
        if i < arg_tys.len() {
            unify_param(&param_tys[i], &arg_tys[i].0, arg_tys[i].1, generic_params, &mut subst);
        }
        assert(subst_model(subst@) =~= call_bindings(ps, args, gps, (i + 1) as nat));
        i += 1;
    }
    let ghost sm = subst_model(subst@);
    let ghost out0 = constraints_model(out@);
    let mut j: usize = 0;
    assert(bounds_cons(fn_name@, bounds@.take(0), sm) =~= Seq::<ConstraintModel>::empty());
    assert(out0 + Seq::<ConstraintModel>::empty() =~= out0);
    while j < bounds.len()
        invariant
            j <= bounds@.len(),
            sm == subst_model(subst@),
            constraints_model(out@) == out0 + bounds_cons(fn_name@, bounds@.take(j as int), sm),
        decreases bounds.len() - j,
    {
        let b = &bounds[j];
        let ghost before = constraints_model(out@);
        proof {
            assert(bounds@.take(j + 1).drop_last() =~= bounds@.take(j as int));
            assert(bounds@.take(j + 1).last() == *b);
        }
        match subst_get(&subst, &b.param) {
            Some(k) => {
                let sp = subst[k].2;
                let ghost t = ty_model(subst@[k as int].1);
                let ghost reason = bound_reason(fn_name@, *b);
                push_constraint(
                    out,
                    Constraint {
                        kind: ConstraintKind::Bound { ty: ty_copy(&subst[k].1), iface: b.iface.clone() },
                        span: sp,
                        reason: make_reason(fn_name, b),
                    },
                );
                let ghost head = constraints_model(out@);
                let mut a: usize = 0;
                assert(assoc_cons(t, sp, b.iface@, reason, b.assoc_bindings@.take(0)) =~= Seq::<ConstraintModel>::empty());
                assert(head + Seq::<ConstraintModel>::empty() =~= head);
                while a < b.assoc_bindings.len()
                    invariant
                        a <= b.assoc_bindings@.len(),
                        k < subst@.len(),
                        t == ty_model(subst@[k as int].1),
                        sp == subst@[k as int].2,
                        reason == bound_reason(fn_name@, *b),
                        constraints_model(out@) == head + assoc_cons(
                            t,
                            sp,
                            b.iface@,
                            reason,
                            b.assoc_bindings@.take(a as int),
                        ),
                    decreases b.assoc_bindings.len() - a,
                {
                    proof {
                        assert(b.assoc_bindings@.take(a + 1).drop_last() =~= b.assoc_bindings@.take(a as int));
                        assert(b.assoc_bindings@.take(a + 1).last() == b.assoc_bindings@[a as int]);
                    }
                    let ghost mid = constraints_model(out@);
                    match &b.assoc_bindings[a].1 {
                        Ty::Interface(_, name) => {
                            push_constraint(
                                out,
                                Constraint {
                                    kind: ConstraintKind::ProjectedBound {
                                        base_ty: ty_copy(&subst[k].1),
                                        base_iface: b.iface.clone(),
                                        assoc_name: b.assoc_bindings[a].0.clone(),
                                        required_iface: name.clone(),
                                    },
                                    span: sp,
                                    reason: make_reason(fn_name, b),
                                },
                            );
                        },
                        _ => {},
                    }
                    assert(constraints_model(out@) =~= head + assoc_cons(
                        t,
                        sp,
                        b.iface@,
                        reason,
                        b.assoc_bindings@.take(a + 1),
                    ));
                    a += 1;
                }
                assert(b.assoc_bindings@.take(b.assoc_bindings@.len() as int) =~= b.assoc_bindings@);
            },
            None => {},
        }
        assert(constraints_model(out@) =~= out0 + bounds_cons(fn_name@, bounds@.take(j + 1), sm));
        j += 1;
    }
    assert(bounds@.take(bounds@.len() as int) =~= bounds@);
}

// ---------------------------------------------------------------------------
// The constraints of a program
// ---------------------------------------------------------------------------

pub open spec fn neg_cons(op: UnOp, operand: TypedExpr, span: Span) -> Seq<ConstraintModel> {
    if op == UnOp::Neg {
        seq![bound_c(operand.ty, "Negatable"@, span, ReasonModel::UnaryNeg)]
    } else {
        Seq::empty()
    }
}

pub open spec fn pos_cons(op: UnOp, operand: TypedExpr, span: Span) -> Seq<ConstraintModel> {
    if op == UnOp::Pos {
        seq![bound_c(operand.ty, "Normalizeable"@, span, ReasonModel::UnaryPos)]
    } else {
        Seq::empty()
    }
}

/// The constraints of an expression, sub-expressions first.
pub open spec fn cons_expr(e: TypedExpr) -> Seq<ConstraintModel>
    decreases e, 1nat,
{
    match e.kind {
        TypedExprKind::BinOp { op, left, right } => cons_expr(*left) + cons_expr(*right) + match binop_iface(op) {
            Some(i) => seq![bound_c(left.ty, i, e.span, ReasonModel::Operator(op))],
            None => Seq::empty(),
        },
        TypedExprKind::UnOp { op, operand } => cons_expr(*operand) + neg_cons(op, *operand, e.span)
            + pos_cons(op, *operand, e.span),
        TypedExprKind::Str(segs) => cons_segs(segs@),
        TypedExprKind::Call { args, fn_name, generic_bounds, generic_params, param_tys, .. } => (if generic_bounds@.len() > 0 {
            call_cons(
                fn_name@,
                generic_bounds@,
                names_view(generic_params@),
                tys_model(param_tys@),
                args@.map_values(|a: TypedExpr| (ty_model(a.ty), a.span)),
            )
        } else {
            Seq::empty()
        }) + cons_exprs(args@),
        TypedExprKind::MethodCall { object, args, .. } => cons_expr(*object) + cons_exprs(args@),
        TypedExprKind::StaticCall { args, .. } => cons_exprs(args@),
        TypedExprKind::IndirectCall { fat_ptr, args } => cons_expr(*fat_ptr) + cons_exprs(args@),
        TypedExprKind::Field { object, .. } => cons_expr(*object),
        TypedExprKind::Index { object, index } => cons_expr(*object) + cons_expr(*index),
        TypedExprKind::StructLiteral { fields, .. } => cons_fields(fields@),
        TypedExprKind::Tuple(es) => cons_exprs(es@),
        TypedExprKind::Match { scrutinee, arms } => cons_expr(*scrutinee) + cons_arms(arms@),
        TypedExprKind::Closure { body, .. } => match body {
            TypedClosureBody::Expr(x) => cons_expr(*x),
            TypedClosureBody::Block(b) => cons_stmts(b.stmts@),
        },
        TypedExprKind::Unwrap(x) => cons_expr(*x),
        TypedExprKind::As { expr, .. } => cons_expr(*expr),
        TypedExprKind::Spawn(x) => cons_expr(*x),
        TypedExprKind::Try(x) => cons_expr(*x),
        TypedExprKind::Ignore(x) => cons_expr(*x),
        TypedExprKind::Implements { expr, .. } => cons_expr(*expr),
        TypedExprKind::TypeName { expr } => cons_expr(*expr),
        TypedExprKind::Ref { expr, .. } => cons_expr(*expr),
        TypedExprKind::Array(es) => cons_exprs(es@),
        TypedExprKind::Gen { body } => cons_stmts(body.stmts@),
        TypedExprKind::GenSplice(x) => cons_expr(*x),
        TypedExprKind::Block(stmts) => cons_stmts(stmts@),
        TypedExprKind::BoundMethod { object, .. } => cons_expr(*object),
        _ => Seq::empty(),
    }
}

pub open spec fn cons_exprs(s: Seq<TypedExpr>) -> Seq<ConstraintModel>
    decreases s, 0nat,
{
    if s.len() == 0 {
        Seq::empty()
    } else {
        cons_exprs(s.drop_last()) + cons_expr(s.last())
    }
}

pub open spec fn cons_fields(s: Seq<(String, TypedExpr)>) -> Seq<ConstraintModel>
    decreases s, 0nat,
{
    if s.len() == 0 {
        Seq::empty()
    } else {
        cons_fields(s.drop_last()) + cons_expr(s.last().1)
    }
}

/// An arm's body comes before its guard.
pub open spec fn cons_arm(a: TypedMatchArm) -> Seq<ConstraintModel>
    decreases a, 0nat,
{
    cons_expr(a.body) + match a.guard {
        Some(g) => cons_expr(g),
        None => Seq::empty(),
    }
}

pub open spec fn cons_arms(s: Seq<TypedMatchArm>) -> Seq<ConstraintModel>
    decreases s, 0nat,
{
    if s.len() == 0 {
        Seq::empty()
    } else {
        cons_arms(s.drop_last()) + cons_arm(s.last())
    }
}

/// Each interpolated expression must be displayable.
pub open spec fn cons_seg(g: TypedStringSegment) -> Seq<ConstraintModel>
    decreases g, 0nat,
{
    match g {
        TypedStringSegment::Interp(e) => cons_expr(e) + seq![
            bound_c(e.ty, "Display"@, e.span, ReasonModel::Interpolation),
        ],
        TypedStringSegment::Text(_) => Seq::empty(),
    }
}

pub open spec fn cons_segs(s: Seq<TypedStringSegment>) -> Seq<ConstraintModel>
    decreases s, 0nat,
{
    if s.len() == 0 {
        Seq::empty()
    } else {
        cons_segs(s.drop_last()) + cons_seg(s.last())
    }
}

pub open spec fn cons_opt(o: Option<TypedExpr>) -> Seq<ConstraintModel>
    decreases o, 0nat,
{
    match o {
        Some(e) => cons_expr(e),
        None => Seq::empty(),
    }
}

pub open spec fn cons_opt_block(o: Option<TypedBlock>) -> Seq<ConstraintModel>
    decreases o, 0nat,
{
    match o {
        Some(b) => cons_stmts(b.stmts@),
        None => Seq::empty(),
    }
}

pub open spec fn cons_branches(s: Seq<(TypedExpr, TypedBlock)>) -> Seq<ConstraintModel>
    decreases s, 0nat,
{
    if s.len() == 0 {
        Seq::empty()
    } else {
        cons_branches(s.drop_last()) + cons_expr(s.last().0) + cons_stmts(s.last().1.stmts@)
    }
}

pub open spec fn cons_handlers(s: Seq<TypedCatchHandler>) -> Seq<ConstraintModel>
    decreases s, 0nat,
{
    if s.len() == 0 {
        Seq::empty()
    } else {
        cons_handlers(s.drop_last()) + cons_stmts(s.last().body.stmts@)
    }
}

/// The constraints of a statement, in source order.
pub open spec fn cons_stmt(st: TypedStmt) -> Seq<ConstraintModel>
    decreases st, 0nat,
{
    match st {
        TypedStmt::Expr(e) => cons_expr(e),
        TypedStmt::Return { value, .. } => cons_opt(value),
        TypedStmt::VarDecl { value, .. } => cons_expr(value),
        TypedStmt::Assign { target, value, .. } => cons_expr(target) + cons_expr(value),
        TypedStmt::CompoundAssign { target, op, rhs, span } => cons_expr(target) + cons_expr(rhs)
            + match assign_iface(op) {
            Some(i) => seq![bound_c(target.ty, i, span, ReasonModel::CompoundAssign(op))],
            None => Seq::empty(),
        },
        TypedStmt::If { branches, else_branch, .. } => cons_branches(branches@) + cons_opt_block(
            else_branch,
        ),
        TypedStmt::While { cond, body, .. } => cons_expr(cond) + cons_stmts(body.stmts@),
        TypedStmt::DoWhile { body, cond, .. } => cons_stmts(body.stmts@) + cons_expr(cond),
        TypedStmt::For { iterable, body, .. } => cons_expr(iterable) + cons_stmts(body.stmts@),
        TypedStmt::Raise { value, .. } => cons_opt(value),
        TypedStmt::Abandon { message, .. } => cons_opt(message),
        TypedStmt::TryCatch { body, handlers, finally, .. } => cons_stmts(body.stmts@)
            + cons_handlers(handlers@) + cons_opt_block(finally),
        TypedStmt::FnDef(f) => cons_stmts(f.body.stmts@),
        TypedStmt::Break(_) => Seq::empty(),
        TypedStmt::Continue(_) => Seq::empty(),
    }
}

pub open spec fn cons_stmts(s: Seq<TypedStmt>) -> Seq<ConstraintModel>
    decreases s, 0nat,
{
    if s.len() == 0 {
        Seq::empty()
    } else {
        cons_stmts(s.drop_last()) + cons_stmt(s.last())
    }
}

fn arg_types(args: &Vec<TypedExpr>) -> (r: Vec<(Ty, Span)>)
    ensures
        arg_tys_model(r@) == args@.map_values(|a: TypedExpr| (ty_model(a.ty), a.span)),
{
    let mut r: Vec<(Ty, Span)> = Vec::new();
    let mut i: usize = 0;
    while i < args.len()
        invariant
            i <= args@.len(),
            r@.len() == i,
            forall|j: int|
                0 <= j < i ==> ty_model((#[trigger] r@[j]).0) == ty_model(args@[j].ty) && r@[j].1
                    == args@[j].span,
        decreases args.len() - i,
    {
        let t = ty_copy(&args[i].ty);
        r.push((t, args[i].span));
        i += 1;
    }
    assert(arg_tys_model(r@) =~= args@.map_values(|a: TypedExpr| (ty_model(a.ty), a.span)));
    r
}

fn bound_constraint(ty: &Ty, iface: &str, span: Span, reason: ConstraintReason) -> (r: Constraint)
    ensures
        constraint_model(r) == bound_c(*ty, iface@, span, reason_model(reason)),
{
    Constraint { kind: ConstraintKind::Bound { ty: ty_copy(ty), iface: iface.to_owned() }, span, reason }
}

/// Appends the constraints of an expression to `out`, sub-expressions first.
pub fn collect_expr(expr: &TypedExpr, out: &mut Vec<Constraint>)
    ensures
        constraints_model(final(out)@) == constraints_model(old(out)@) + cons_expr(*expr),
    decreases *expr, 2nat,
{
    let ghost o0 = constraints_model(out@);
    match &expr.kind {
        TypedExprKind::BinOp { op, left, right } => {
            collect_expr(left, out);
            collect_expr(right, out);
            match binop_required_iface(op) {
                Some(iface) => push_constraint(
                    out,
                    bound_constraint(&left.ty, iface, expr.span, ConstraintReason::Operator(*op)),
                ),
                None => {},
            }
        },
        TypedExprKind::UnOp { op, operand } => {
            collect_expr(operand, out);
            if *op == UnOp::Neg {
                push_constraint(
                    out,
                    bound_constraint(&operand.ty, "Negatable", expr.span, ConstraintReason::UnaryNeg),
                );
            }
            if *op == UnOp::Pos {
                push_constraint(
                    out,
                    bound_constraint(&operand.ty, "Normalizeable", expr.span, ConstraintReason::UnaryPos),
                );
            }
        },
        TypedExprKind::Str(segs) => collect_segs(segs, out),
        TypedExprKind::Call { args, fn_name, generic_bounds, generic_params, param_tys, .. } => {
            if generic_bounds.len() > 0 {
                let arg_tys = arg_types(args);
                emit_call_bound_constraints(
                    fn_name.as_str(),
                    generic_bounds.as_slice(),
                    generic_params.as_slice(),
                    param_tys.as_slice(),
                    arg_tys.as_slice(),
                    out,
                );
            }
            collect_exprs(args, out);
        },
        TypedExprKind::MethodCall { object, args, .. } => {
            collect_expr(object, out);
            collect_exprs(args, out);
        },
        TypedExprKind::StaticCall { args, .. } => collect_exprs(args, out),
        TypedExprKind::IndirectCall { fat_ptr, args } => {
            collect_expr(fat_ptr, out);
            collect_exprs(args, out);
        },
        TypedExprKind::Field { object, .. } => collect_expr(object, out),
        TypedExprKind::Index { object, index } => {
            collect_expr(object, out);
            collect_expr(index, out);
        },
        TypedExprKind::StructLiteral { fields, .. } => collect_fields(fields, out),
        TypedExprKind::Tuple(es) => collect_exprs(es, out),
        TypedExprKind::Match { scrutinee, arms } => {
            collect_expr(scrutinee, out);
            collect_arms(arms, out);
        },
        TypedExprKind::Closure { body, .. } => match body {
            TypedClosureBody::Expr(x) => collect_expr(x, out),
            TypedClosureBody::Block(b) => collect_stmts(&b.stmts, out),
        },
        TypedExprKind::Unwrap(x) => collect_expr(x, out),
        TypedExprKind::As { expr: x, .. } => collect_expr(x, out),
        TypedExprKind::Spawn(x) => collect_expr(x, out),
        TypedExprKind::Try(x) => collect_expr(x, out),
        TypedExprKind::Ignore(x) => collect_expr(x, out),
        TypedExprKind::Implements { expr: x, .. } => collect_expr(x, out),
        TypedExprKind::TypeName { expr: x } => collect_expr(x, out),
        TypedExprKind::Ref { expr: x, .. } => collect_expr(x, out),
        TypedExprKind::Array(es) => collect_exprs(es, out),
        TypedExprKind::Gen { body } => collect_stmts(&body.stmts, out),
        TypedExprKind::GenSplice(x) => collect_expr(x, out),
        TypedExprKind::Block(stmts) => collect_stmts(stmts, out),
        TypedExprKind::BoundMethod { object, .. } => collect_expr(object, out),
        _ => {},
    }
    assert(constraints_model(out@) =~= o0 + cons_expr(*expr));
}

fn collect_arm(arm: &TypedMatchArm, out: &mut Vec<Constraint>)
    ensures
        constraints_model(final(out)@) == constraints_model(old(out)@) + cons_arm(*arm),
    decreases *arm, 1nat,
{
    let ghost o0 = constraints_model(out@);
    collect_expr(&arm.body, out);
    match &arm.guard {
        Some(g) => collect_expr(g, out),
        None => {},
    }
    assert(constraints_model(out@) =~= o0 + cons_arm(*arm));
}

fn collect_seg(seg: &TypedStringSegment, out: &mut Vec<Constraint>)
    ensures
        constraints_model(final(out)@) == constraints_model(old(out)@) + cons_seg(*seg),
    decreases *seg, 1nat,
{
    let ghost o0 = constraints_model(out@);
    match seg {
        TypedStringSegment::Interp(e) => {
            collect_expr(e, out);
            push_constraint(out, bound_constraint(&e.ty, "Display", e.span, ConstraintReason::Interpolation));
        },
        TypedStringSegment::Text(_) => {},
    }
    assert(constraints_model(out@) =~= o0 + cons_seg(*seg));
}

fn collect_opt_block(b: &Option<TypedBlock>, out: &mut Vec<Constraint>)
    ensures
        constraints_model(final(out)@) == constraints_model(old(out)@) + cons_opt_block(*b),
    decreases *b, 1nat,
{
    let ghost o0 = constraints_model(out@);
    match b {
        Some(bl) => collect_stmts(&bl.stmts, out),
        None => {},
    }
    assert(constraints_model(out@) =~= o0 + cons_opt_block(*b));
}

fn collect_opt(e: &Option<TypedExpr>, out: &mut Vec<Constraint>)
    ensures
        constraints_model(final(out)@) == constraints_model(old(out)@) + cons_opt(*e),
    decreases *e, 1nat,
{
    let ghost o0 = constraints_model(out@);
    match e {
        Some(x) => collect_expr(x, out),
        None => {},
    }
    assert(constraints_model(out@) =~= o0 + cons_opt(*e));
}

fn collect_stmt(stmt: &TypedStmt, out: &mut Vec<Constraint>)
    ensures
        constraints_model(final(out)@) == constraints_model(old(out)@) + cons_stmt(*stmt),
    decreases *stmt, 1nat,
{
    let ghost o0 = constraints_model(out@);
    match stmt {
        TypedStmt::Expr(e) => collect_expr(e, out),
        TypedStmt::Return { value, .. } => collect_opt(value, out),
        TypedStmt::VarDecl { value, .. } => collect_expr(value, out),
        TypedStmt::Assign { target, value, .. } => {
            collect_expr(target, out);
            collect_expr(value, out);
        },
        TypedStmt::CompoundAssign { target, op, rhs, span } => {
            collect_expr(target, out);
            collect_expr(rhs, out);
            match compound_assign_iface(op) {
                Some(iface) => push_constraint(
                    out,
                    bound_constraint(&target.ty, iface, *span, ConstraintReason::CompoundAssign(*op)),
                ),
                None => {},
            }
        },
        TypedStmt::If { branches, else_branch, .. } => {
            collect_branches(branches, out);
            collect_opt_block(else_branch, out);
        },
        TypedStmt::While { cond, body, .. } => {
            collect_expr(cond, out);
            collect_stmts(&body.stmts, out);
        },
        TypedStmt::DoWhile { body, cond, .. } => {
            collect_stmts(&body.stmts, out);
            collect_expr(cond, out);
        },
        TypedStmt::For { iterable, body, .. } => {
            collect_expr(iterable, out);
            collect_stmts(&body.stmts, out);
        },
        TypedStmt::Raise { value, .. } => collect_opt(value, out),
        TypedStmt::Abandon { message, .. } => collect_opt(message, out),
        TypedStmt::TryCatch { body, handlers, finally, .. } => {
            collect_stmts(&body.stmts, out);
            collect_handlers(handlers, out);
            collect_opt_block(finally, out);
        },
        TypedStmt::FnDef(f) => collect_stmts(&f.body.stmts, out),
        TypedStmt::Break(_) => {},
        TypedStmt::Continue(_) => {},
    }
    assert(constraints_model(out@) =~= o0 + cons_stmt(*stmt));
}

fn collect_exprs(v: &Vec<TypedExpr>, out: &mut Vec<Constraint>)
    ensures
        constraints_model(final(out)@) == constraints_model(old(out)@) + cons_exprs(v@),
    decreases v@, 0nat,
{
    let ghost out0 = constraints_model(out@);
    let mut i: usize = 0;
    assert(v@.take(0) =~= Seq::<TypedExpr>::empty());
    assert(out0 + cons_exprs(Seq::<TypedExpr>::empty()) =~= out0);
    while i < v.len()
        invariant
            i <= v@.len(),
            constraints_model(out@) == out0 + cons_exprs(v@.take(i as int)),
        decreases v.len() - i,
    {
        proof {
            assert(decreases_to!(v@ => v@[i as int]));
            assert(v@.take(i + 1).drop_last() =~= v@.take(i as int));
            assert(v@.take(i + 1).last() == v@[i as int]);
        }
        collect_expr(&v[i], out);
        assert(constraints_model(out@) =~= out0 + cons_exprs(v@.take(i + 1)));
        i += 1;
    }
    assert(v@.take(v@.len() as int) =~= v@);
}

fn collect_fields(v: &Vec<(String, TypedExpr)>, out: &mut Vec<Constraint>)
    ensures
        constraints_model(final(out)@) == constraints_model(old(out)@) + cons_fields(v@),
    decreases v@, 0nat,
{
    let ghost out0 = constraints_model(out@);
    let mut i: usize = 0;
    assert(v@.take(0) =~= Seq::<(String, TypedExpr)>::empty());
    assert(out0 + cons_fields(Seq::<(String, TypedExpr)>::empty()) =~= out0);
    while i < v.len()
        invariant
            i <= v@.len(),
            constraints_model(out@) == out0 + cons_fields(v@.take(i as int)),
        decreases v.len() - i,
    {
        proof {
            assert(decreases_to!(v@ => v@[i as int]));
            assert(v@.take(i + 1).drop_last() =~= v@.take(i as int));
            assert(v@.take(i + 1).last() == v@[i as int]);
        }
        collect_expr(&v[i].1, out);
        assert(constraints_model(out@) =~= out0 + cons_fields(v@.take(i + 1)));
        i += 1;
    }
    assert(v@.take(v@.len() as int) =~= v@);
}

fn collect_arms(v: &Vec<TypedMatchArm>, out: &mut Vec<Constraint>)
    ensures
        constraints_model(final(out)@) == constraints_model(old(out)@) + cons_arms(v@),
    decreases v@, 0nat,
{
    let ghost out0 = constraints_model(out@);
    let mut i: usize = 0;
    assert(v@.take(0) =~= Seq::<TypedMatchArm>::empty());
    assert(out0 + cons_arms(Seq::<TypedMatchArm>::empty()) =~= out0);
    while i < v.len()
        invariant
            i <= v@.len(),
            constraints_model(out@) == out0 + cons_arms(v@.take(i as int)),
        decreases v.len() - i,
    {
        proof {
            assert(decreases_to!(v@ => v@[i as int]));
            assert(v@.take(i + 1).drop_last() =~= v@.take(i as int));
            assert(v@.take(i + 1).last() == v@[i as int]);
        }
        collect_arm(&v[i], out);
        assert(constraints_model(out@) =~= out0 + cons_arms(v@.take(i + 1)));
        i += 1;
    }
    assert(v@.take(v@.len() as int) =~= v@);
}

fn collect_segs(v: &Vec<TypedStringSegment>, out: &mut Vec<Constraint>)
    ensures
        constraints_model(final(out)@) == constraints_model(old(out)@) + cons_segs(v@),
    decreases v@, 0nat,
{
    let ghost out0 = constraints_model(out@);
    let mut i: usize = 0;
    assert(v@.take(0) =~= Seq::<TypedStringSegment>::empty());
    assert(out0 + cons_segs(Seq::<TypedStringSegment>::empty()) =~= out0);
    while i < v.len()
        invariant
            i <= v@.len(),
            constraints_model(out@) == out0 + cons_segs(v@.take(i as int)),
        decreases v.len() - i,
    {
        proof {
            assert(decreases_to!(v@ => v@[i as int]));
            assert(v@.take(i + 1).drop_last() =~= v@.take(i as int));
            assert(v@.take(i + 1).last() == v@[i as int]);
        }
        collect_seg(&v[i], out);
        assert(constraints_model(out@) =~= out0 + cons_segs(v@.take(i + 1)));
        i += 1;
    }
    assert(v@.take(v@.len() as int) =~= v@);
}

fn collect_stmts(v: &Vec<TypedStmt>, out: &mut Vec<Constraint>)
    ensures
        constraints_model(final(out)@) == constraints_model(old(out)@) + cons_stmts(v@),
    decreases v@, 0nat,
{
    let ghost out0 = constraints_model(out@);
    let mut i: usize = 0;
    assert(v@.take(0) =~= Seq::<TypedStmt>::empty());
    assert(out0 + cons_stmts(Seq::<TypedStmt>::empty()) =~= out0);
    while i < v.len()
        invariant
            i <= v@.len(),
            constraints_model(out@) == out0 + cons_stmts(v@.take(i as int)),
        decreases v.len() - i,
    {
        proof {
            assert(decreases_to!(v@ => v@[i as int]));
            assert(v@.take(i + 1).drop_last() =~= v@.take(i as int));
            assert(v@.take(i + 1).last() == v@[i as int]);
        }
        collect_stmt(&v[i], out);
        assert(constraints_model(out@) =~= out0 + cons_stmts(v@.take(i + 1)));
        i += 1;
    }
    assert(v@.take(v@.len() as int) =~= v@);
}

fn collect_branches(v: &Vec<(TypedExpr, TypedBlock)>, out: &mut Vec<Constraint>)
    ensures
        constraints_model(final(out)@) == constraints_model(old(out)@) + cons_branches(v@),
    decreases v@, 0nat,
{
    let ghost out0 = constraints_model(out@);
    let mut i: usize = 0;
    assert(v@.take(0) =~= Seq::<(TypedExpr, TypedBlock)>::empty());
    assert(out0 + cons_branches(Seq::<(TypedExpr, TypedBlock)>::empty()) =~= out0);
    while i < v.len()
        invariant
            i <= v@.len(),
            constraints_model(out@) == out0 + cons_branches(v@.take(i as int)),
        decreases v.len() - i,
    {
        proof {
            assert(decreases_to!(v@ => v@[i as int]));
            assert(v@.take(i + 1).drop_last() =~= v@.take(i as int));
            assert(v@.take(i + 1).last() == v@[i as int]);
        }
        collect_expr(&v[i].0, out);
        collect_stmts(&v[i].1.stmts, out);
        assert(constraints_model(out@) =~= out0 + cons_branches(v@.take(i + 1)));
        i += 1;
    }
    assert(v@.take(v@.len() as int) =~= v@);
}

fn collect_handlers(v: &Vec<TypedCatchHandler>, out: &mut Vec<Constraint>)
    ensures
        constraints_model(final(out)@) == constraints_model(old(out)@) + cons_handlers(v@),
    decreases v@, 0nat,
{
    let ghost out0 = constraints_model(out@);
    let mut i: usize = 0;
    assert(v@.take(0) =~= Seq::<TypedCatchHandler>::empty());
    assert(out0 + cons_handlers(Seq::<TypedCatchHandler>::empty()) =~= out0);
    while i < v.len()
        invariant
            i <= v@.len(),
            constraints_model(out@) == out0 + cons_handlers(v@.take(i as int)),
        decreases v.len() - i,
    {
        proof {
            assert(decreases_to!(v@ => v@[i as int]));
            assert(v@.take(i + 1).drop_last() =~= v@.take(i as int));
            assert(v@.take(i + 1).last() == v@[i as int]);
        }
        collect_stmts(&v[i].body.stmts, out);
        assert(constraints_model(out@) =~= out0 + cons_handlers(v@.take(i + 1)));
        i += 1;
    }
    assert(v@.take(v@.len() as int) =~= v@);
}

pub open spec fn cons_methods(s: Seq<crate::typed_ast::TypedFnDef>) -> Seq<ConstraintModel>
    decreases s.len(),
{
    if s.len() == 0 {
        Seq::empty()
    } else {
        cons_methods(s.drop_last()) + cons_stmts(s.last().body.stmts@)
    }
}

pub open spec fn cons_hooks(s: Seq<crate::typed_ast::TypedHookDef>) -> Seq<ConstraintModel>
    decreases s.len(),
{
    if s.len() == 0 {
        Seq::empty()
    } else {
        cons_hooks(s.drop_last()) + cons_stmts(s.last().body.stmts@)
    }
}

/// The constraints of a top-level item: function, method and hook bodies.
pub open spec fn cons_item(item: TypedItem) -> Seq<ConstraintModel> {
    match item {
        TypedItem::Function(f) => cons_stmts(f.body.stmts@),
        TypedItem::ImplBlock(ib) => cons_methods(ib.methods@) + cons_hooks(ib.hooks@),
        _ => Seq::empty(),
    }
}

pub open spec fn cons_items(s: Seq<TypedItem>) -> Seq<ConstraintModel>
    decreases s.len(),
{
    if s.len() == 0 {
        Seq::empty()
    } else {
        cons_items(s.drop_last()) + cons_item(s.last())
    }
}

fn collect_item(item: &TypedItem, out: &mut Vec<Constraint>)
    ensures
        constraints_model(final(out)@) == constraints_model(old(out)@) + cons_item(*item),
{
    let ghost o0 = constraints_model(out@);
    match item {
        TypedItem::Function(f) => collect_stmts(&f.body.stmts, out),
        TypedItem::ImplBlock(ib) => {
            let mut j: usize = 0;
            assert(ib.methods@.take(0) =~= Seq::<crate::typed_ast::TypedFnDef>::empty());
            assert(o0 + cons_methods(Seq::<crate::typed_ast::TypedFnDef>::empty()) =~= o0);
            while j < ib.methods.len()
                invariant
                    j <= ib.methods@.len(),
                    constraints_model(out@) == o0 + cons_methods(ib.methods@.take(j as int)),
                decreases ib.methods.len() - j,
            {
                proof {
                    assert(ib.methods@.take(j + 1).drop_last() =~= ib.methods@.take(j as int));
                }
                collect_stmts(&ib.methods[j].body.stmts, out);
                assert(constraints_model(out@) =~= o0 + cons_methods(ib.methods@.take(j + 1)));
                j += 1;
            }
            assert(ib.methods@.take(ib.methods@.len() as int) =~= ib.methods@);
            let ghost o1 = constraints_model(out@);
            let mut k: usize = 0;
            assert(ib.hooks@.take(0) =~= Seq::<crate::typed_ast::TypedHookDef>::empty());
            assert(o1 + cons_hooks(Seq::<crate::typed_ast::TypedHookDef>::empty()) =~= o1);
            while k < ib.hooks.len()
                invariant
                    k <= ib.hooks@.len(),
                    constraints_model(out@) == o1 + cons_hooks(ib.hooks@.take(k as int)),
                decreases ib.hooks.len() - k,
            {
                proof {
                    assert(ib.hooks@.take(k + 1).drop_last() =~= ib.hooks@.take(k as int));
                }
                collect_stmts(&ib.hooks[k].body.stmts, out);
                assert(constraints_model(out@) =~= o1 + cons_hooks(ib.hooks@.take(k + 1)));
                k += 1;
            }
            assert(ib.hooks@.take(ib.hooks@.len() as int) =~= ib.hooks@);
        },
        _ => {},
    }
    assert(constraints_model(out@) =~= o0 + cons_item(*item));
}

/// Collects the constraints of every function, method and hook body of a file, in
/// source order.
pub fn collect_constraints(file: &TypedFile) -> (r: Vec<Constraint>)
    ensures
        constraints_model(r@) == cons_items(file.items@),
{
    let mut out: Vec<Constraint> = Vec::new();
    let mut i: usize = 0;
    assert(constraints_model(out@) =~= cons_items(file.items@.take(0)));
    while i < file.items.len()
        invariant
            i <= file.items@.len(),
            constraints_model(out@) == cons_items(file.items@.take(i as int)),
        decreases file.items.len() - i,
    {
        proof {
            assert(file.items@.take(i + 1).drop_last() =~= file.items@.take(i as int));
        }
        collect_item(&file.items[i], &mut out);
        i += 1;
    }
    assert(file.items@.take(file.items@.len() as int) =~= file.items@);
    out
}

} // verus!
