use vstd::prelude::*;
use crate::span::Span;
use crate::ast::{BinOp, UnOp};
use crate::ty::{Ty, TyModel, ty_model, ty_copy, ty_eq};
use crate::typed_ast::{
    TypedBlock, TypedCatchHandler, TypedClosureBody, TypedExpr, TypedExprKind, TypedFile,
    TypedFnDef, TypedHookDef, TypedImplBlock, TypedItem, TypedMatchArm, TypedStmt,
    TypedStringSegment,
};
pub use crate::dbz::check_division_by_zero;
use crate::fold_model::{
    BodyModel, ExprModel, KindModel, SegModel, StmtModel, arm_model, arms_model, block_model,
    branches_model, expr_model, exprs_model, fields_model, fn_model, handlers_model, kind_model,
    opt_block_model, opt_expr_model, seg_model, segs_model, stmt_model, stmts_model,
};
use crate::fold_spec::{
    all_text, arm_bodies_have_effects, exprs_have_effects, fields_have_effects,
    fold_arms_spec, fold_binop_spec, fold_block_spec, fold_branches_spec, fold_expr_spec,
    fold_exprs_spec, fold_fields_spec, fold_fn_spec, fold_handlers_spec, fold_segs_spec,
    fold_stmt_spec, fold_stmts_spec, fold_unop_spec, has_effects, h_arm, h_arms, h_block,
    h_branches, h_expr, h_exprs, h_fields, h_handlers, h_opt, h_opt_block, h_seg, h_segs,
    h_stmt, h_stmts, h_body, ends_in_terminator, is_bool, is_float_one, is_float_zero, is_ident, is_int,
    nmax, prune_step, same_ident, stmt_has_effects, stmts_have_effects, text_bytes, text_of,
};

verus! {

// ---------------------------------------------------------------------------
// Literal shapes
// ---------------------------------------------------------------------------

fn is_int_lit(e: &TypedExpr, n: i64) -> (r: bool)
    ensures
        r == is_int(expr_model(*e), n),
{
    match &e.kind {
        TypedExprKind::Int(v) => *v == n,
        _ => false,
    }
}

fn is_bool_lit(e: &TypedExpr, b: bool) -> (r: bool)
    ensures
        r == is_bool(expr_model(*e), b),
{
    match &e.kind {
        TypedExprKind::Bool(v) => *v == b,
        _ => false,
    }
}

fn is_float_zero_lit(e: &TypedExpr) -> (r: bool)
    ensures
        r == is_float_zero(expr_model(*e)),
{
    match &e.kind {
        TypedExprKind::Float(f) => *f & 0x7fff_ffff_ffff_ffffu64 == 0,
        _ => false,
    }
}

fn is_float_one_lit(e: &TypedExpr) -> (r: bool)
    ensures
        r == is_float_one(expr_model(*e)),
{
    match &e.kind {
        TypedExprKind::Float(f) => *f == 0x3ff0_0000_0000_0000u64,
        _ => false,
    }
}

fn is_ident_expr(e: &TypedExpr) -> (r: bool)
    ensures
        r == is_ident(expr_model(*e)),
{
    match &e.kind {
        TypedExprKind::Ident(_) => true,
        _ => false,
    }
}

fn same_ident_exprs(l: &TypedExpr, r: &TypedExpr) -> (res: bool)
    ensures
        res == same_ident(expr_model(*l), expr_model(*r)),
{
    match (&l.kind, &r.kind) {
        (TypedExprKind::Ident(a), TypedExprKind::Ident(b)) => *a == *b,
        _ => false,
    }
}

// ---------------------------------------------------------------------------
// Side effects
// ---------------------------------------------------------------------------

/// Returns true if the expression might have observable side effects (calls, spawns,
/// or effectful statements inside a generator body).
pub fn expr_has_side_effects(expr: &TypedExpr) -> (r: bool)
    ensures
        r == has_effects(expr_model(*expr)),
    decreases *expr, 2nat,
{
    match &expr.kind {
        TypedExprKind::Call { .. } => true,
        TypedExprKind::MethodCall { .. } => true,
        TypedExprKind::StaticCall { .. } => true,
        TypedExprKind::IndirectCall { .. } => true,
        TypedExprKind::Spawn(_) => true,
        TypedExprKind::BinOp { left, right, .. } => {
            expr_has_side_effects(left) || expr_has_side_effects(right)
        },
        TypedExprKind::UnOp { operand, .. } => {
            assert(kind_model(expr.kind) is UnOp);
            expr_has_side_effects(operand)
        },
        TypedExprKind::Field { object, .. } => expr_has_side_effects(object),
        TypedExprKind::Index { object, index } => {
            expr_has_side_effects(object) || expr_has_side_effects(index)
        },
        TypedExprKind::Tuple(es) => exprs_have_side_effects(es),
        TypedExprKind::StructLiteral { fields, .. } => fields_have_side_effects(fields),
        TypedExprKind::Unwrap(e) => expr_has_side_effects(e),
        TypedExprKind::As { expr, .. } => expr_has_side_effects(expr),
        TypedExprKind::Match { scrutinee, arms } => {
            expr_has_side_effects(scrutinee) || arm_bodies_have_side_effects(arms)
        },
        TypedExprKind::Array(es) => exprs_have_side_effects(es),
        TypedExprKind::Gen { body } => stmts_have_side_effects(&body.stmts),
        _ => false,
    }
}

fn exprs_have_side_effects(v: &Vec<TypedExpr>) -> (r: bool)
    ensures
        r == exprs_have_effects(exprs_model(v@)),
    decreases v@, 0nat,
{
    let mut i: usize = 0;
    let mut acc = false;
    while i < v.len()
        invariant
            i <= v.len(),
            acc == exprs_have_effects(exprs_model(v@.take(i as int))),
        decreases v.len() - i,
    {
        proof {
            assert(decreases_to!(v@ => v@[i as int]));
            let t0 = v@.take(i as int);
            let t1 = v@.take(i as int + 1);
            assert(t1.drop_last() =~= t0);
            assert(exprs_model(t1) == exprs_model(t0).push(expr_model(v@[i as int])));
            assert(exprs_model(t0).push(expr_model(v@[i as int])).drop_last() =~= exprs_model(t0));
        }
        let e = expr_has_side_effects(&v[i]);
        acc = acc || e;
        i += 1;
    }
    assert(v@.take(v.len() as int) =~= v@);
    acc
}

fn fields_have_side_effects(v: &Vec<(String, TypedExpr)>) -> (r: bool)
    ensures
        r == fields_have_effects(fields_model(v@)),
    decreases v@, 0nat,
{
    let mut i: usize = 0;
    let mut acc = false;
    while i < v.len()
        invariant
            i <= v.len(),
            acc == fields_have_effects(fields_model(v@.take(i as int))),
        decreases v.len() - i,
    {
        proof {
            assert(decreases_to!(v@ => v@[i as int]));
            let t0 = v@.take(i as int);
            let t1 = v@.take(i as int + 1);
            assert(t1.drop_last() =~= t0);
            assert(fields_model(t1) == fields_model(t0).push((v@[i as int].0, expr_model(v@[i as int].1))));
            assert(fields_model(t0).push((v@[i as int].0, expr_model(v@[i as int].1))).drop_last() =~= fields_model(t0));
        }
        let e = expr_has_side_effects(&v[i].1);
        acc = acc || e;
        i += 1;
    }
    assert(v@.take(v.len() as int) =~= v@);
    acc
}

fn arm_bodies_have_side_effects(v: &Vec<TypedMatchArm>) -> (r: bool)
    ensures
        r == arm_bodies_have_effects(arms_model(v@)),
    decreases v@, 0nat,
{
    let mut i: usize = 0;
    let mut acc = false;
    while i < v.len()
        invariant
            i <= v.len(),
            acc == arm_bodies_have_effects(arms_model(v@.take(i as int))),
        decreases v.len() - i,
    {
        proof {
            assert(decreases_to!(v@ => v@[i as int]));
            let t0 = v@.take(i as int);
            let t1 = v@.take(i as int + 1);
            assert(t1.drop_last() =~= t0);
            assert(arms_model(t1) == arms_model(t0).push(arm_model(v@[i as int])));
            assert(arms_model(t0).push(arm_model(v@[i as int])).drop_last() =~= arms_model(t0));
        }
        let e = expr_has_side_effects(&v[i].body);
        acc = acc || e;
        i += 1;
    }
    assert(v@.take(v.len() as int) =~= v@);
    acc
}

fn stmts_have_side_effects(v: &Vec<TypedStmt>) -> (r: bool)
    ensures
        r == stmts_have_effects(stmts_model(v@)),
    decreases v@, 0nat,
{
    let mut i: usize = 0;
    let mut acc = false;
    while i < v.len()
        invariant
            i <= v.len(),
            acc == stmts_have_effects(stmts_model(v@.take(i as int))),
        decreases v.len() - i,
    {
        proof {
            assert(decreases_to!(v@ => v@[i as int]));
            let t0 = v@.take(i as int);
            let t1 = v@.take(i as int + 1);
            assert(t1.drop_last() =~= t0);
            assert(stmts_model(t1) == stmts_model(t0).push(stmt_model(v@[i as int])));
            assert(stmts_model(t0).push(stmt_model(v@[i as int])).drop_last() =~= stmts_model(t0));
        }
        let e = stmt_has_side_effects(&v[i]);
        acc = acc || e;
        i += 1;
    }
    assert(v@.take(v.len() as int) =~= v@);
    acc
}

fn stmt_has_side_effects(stmt: &TypedStmt) -> (r: bool)
    ensures
        r == stmt_has_effects(stmt_model(*stmt)),
    decreases *stmt, 1nat,
{
    match stmt {
        TypedStmt::Expr(e) => expr_has_side_effects(e),
        TypedStmt::VarDecl { value, .. } => expr_has_side_effects(value),
        TypedStmt::Assign { value, .. } => expr_has_side_effects(value),
        TypedStmt::Return { value, .. } => match value {
            Some(v) => expr_has_side_effects(v),
            None => false,
        },
        _ => true,
    }
}

// ---------------------------------------------------------------------------
// String literal text
// ---------------------------------------------------------------------------

fn segs_all_text(v: &Vec<TypedStringSegment>) -> (r: bool)
    ensures
        r == all_text(segs_model(v@)),
{
    let mut i: usize = 0;
    let mut acc = true;
    while i < v.len()
        invariant
            i <= v.len(),
            acc == all_text(segs_model(v@.take(i as int))),
        decreases v.len() - i,
    {
        proof {
            let t0 = v@.take(i as int);
            let t1 = v@.take(i as int + 1);
            assert(t1.drop_last() =~= t0);
            assert(segs_model(t1) == segs_model(t0).push(seg_model(v@[i as int])));
            assert(segs_model(t0).push(seg_model(v@[i as int])).drop_last() =~= segs_model(t0));
        }
        let is_text = match &v[i] {
            TypedStringSegment::Text(_) => true,
            TypedStringSegment::Interp(_) => false,
        };
        acc = acc && is_text;
        i += 1;
    }
    assert(v@.take(v.len() as int) =~= v@);
    acc
}

/// The concatenated literal text of a string literal's segments.
fn segs_text(v: &Vec<TypedStringSegment>) -> (r: String)
    ensures
        r@ == text_of(segs_model(v@)),
{
    let mut i: usize = 0;
    let mut acc = String::new();
    while i < v.len()
        invariant
            i <= v.len(),
            acc@ == text_of(segs_model(v@.take(i as int))),
        decreases v.len() - i,
    {
        proof {
            let t0 = v@.take(i as int);
            let t1 = v@.take(i as int + 1);
            assert(t1.drop_last() =~= t0);
            assert(segs_model(t1) == segs_model(t0).push(seg_model(v@[i as int])));
            assert(segs_model(t0).push(seg_model(v@[i as int])).drop_last() =~= segs_model(t0));
        }
        match &v[i] {
            TypedStringSegment::Text(t) => {
                acc.append(t.as_str());
            },
            TypedStringSegment::Interp(_) => {
                assert(acc@ + Seq::<char>::empty() =~= acc@);
            },
        }
        i += 1;
    }
    assert(v@.take(v.len() as int) =~= v@);
    acc
}

/// The UTF-8 length of a string literal's text, when it fits in 64 bits.
fn segs_text_bytes(v: &Vec<TypedStringSegment>) -> (r: Option<u64>)
    ensures
        r matches Some(n) ==> n == text_bytes(segs_model(v@)),
        r is None ==> text_bytes(segs_model(v@)) > u64::MAX,
{
    let mut i: usize = 0;
    let mut acc: u64 = 0;
    let mut over = false;
    while i < v.len()
        invariant
            i <= v.len(),
            !over ==> acc == text_bytes(segs_model(v@.take(i as int))),
            over ==> text_bytes(segs_model(v@.take(i as int))) > u64::MAX,
        decreases v.len() - i,
    {
        proof {
            let t0 = v@.take(i as int);
            let t1 = v@.take(i as int + 1);
            assert(t1.drop_last() =~= t0);
            assert(segs_model(t1) == segs_model(t0).push(seg_model(v@[i as int])));
            assert(segs_model(t0).push(seg_model(v@[i as int])).drop_last() =~= segs_model(t0));
        }
        let n: usize = match &v[i] {
            TypedStringSegment::Text(t) => t.as_str().len(),
            TypedStringSegment::Interp(_) => 0,
        };
        if !over {
            match acc.checked_add(n as u64) {
                Some(s) => {
                    acc = s;
                },
                None => {
                    over = true;
                },
            }
        }
        i += 1;
    }
    assert(v@.take(v.len() as int) =~= v@);
    if over {
        None
    } else {
        Some(acc)
    }
}

// ---------------------------------------------------------------------------
// Binary operations
// ---------------------------------------------------------------------------

fn mk_expr(kind: TypedExprKind, ty: Ty, span: Span) -> (r: TypedExpr)
    ensures
        r.kind == kind,
        r.ty == ty,
        r.span == span,
{
    TypedExpr { kind, ty, span }
}

/// A fresh copy of an identifier expression.
fn copy_ident(e: &TypedExpr) -> (r: TypedExpr)
    requires
        e.kind is Ident,
    ensures
        expr_model(r) == expr_model(*e),
{
    let name = match &e.kind {
        TypedExprKind::Ident(n) => n.clone(),
        _ => String::new(),
    };
    TypedExpr { kind: TypedExprKind::Ident(name), ty: ty_copy(&e.ty), span: e.span }
}

fn is_neg_of_something(e: &TypedExpr) -> (r: bool)
    ensures
        r == (expr_model(*e).kind is UnOp && expr_model(*e).kind->UnOp_op == UnOp::Neg),
{
    match &e.kind {
        TypedExprKind::UnOp { op, .. } => *op == UnOp::Neg,
        _ => false,
    }
}

/// Folding of a binary operation on two literals.
fn fold_literals(op: BinOp, left: TypedExpr, right: TypedExpr, ty: Ty, span: Span) -> (r: TypedExpr)
    ensures
        expr_model(r) == crate::fold_spec::fold_literals_spec(
            op,
            expr_model(left),
            expr_model(right),
            ty_model(ty),
            span,
        ),
        h_expr(expr_model(r)) <= 1 + nmax(h_expr(expr_model(left)), h_expr(expr_model(right))),
{
    let folded: Option<TypedExprKind> = match (&left.kind, &right.kind) {
        (TypedExprKind::Int(a), TypedExprKind::Int(b)) => {
            let a = *a;
            let b = *b;
            if op == BinOp::Add {
                Some(TypedExprKind::Int(a.wrapping_add(b)))
            } else if op == BinOp::Sub {
                Some(TypedExprKind::Int(a.wrapping_sub(b)))
            } else if op == BinOp::Mul {
                Some(TypedExprKind::Int(a.wrapping_mul(b)))
            } else if op == BinOp::Div && b != 0 {
                let q = match a.checked_div(b) {
                    Some(q) => q,
                    None => a,
                };
                Some(TypedExprKind::Int(q))
            } else if op == BinOp::Mod && b != 0 {
                let q = match a.checked_rem(b) {
                    Some(q) => q,
                    None => 0,
                };
                Some(TypedExprKind::Int(q))
            } else if op == BinOp::Eq {
                Some(TypedExprKind::Bool(a == b))
            } else if op == BinOp::Ne {
                Some(TypedExprKind::Bool(a != b))
            } else if op == BinOp::Lt {
                Some(TypedExprKind::Bool(a < b))
            } else if op == BinOp::LtEq {
                Some(TypedExprKind::Bool(a <= b))
            } else if op == BinOp::Gt {
                Some(TypedExprKind::Bool(a > b))
            } else if op == BinOp::GtEq {
                Some(TypedExprKind::Bool(a >= b))
            } else {
                None
            }
        },
        (TypedExprKind::Bool(a), TypedExprKind::Bool(b)) => {
            if op == BinOp::And {
                Some(TypedExprKind::Bool(*a && *b))
            } else if op == BinOp::Or {
                Some(TypedExprKind::Bool(*a || *b))
            } else {
                None
            }
        },
        (TypedExprKind::Str(a), TypedExprKind::Str(b)) => {
            if op == BinOp::Pipe && segs_all_text(a) && segs_all_text(b) {
                let mut combined = segs_text(a);
                let tail = segs_text(b);
                combined.append(tail.as_str());
                let ghost text = combined@;
                let mut segs: Vec<TypedStringSegment> = Vec::new();
                segs.push(TypedStringSegment::Text(combined));
                proof {
                    assert(segs@.len() == 1);
                    assert(seg_model(segs@.last()) == SegModel::Text(text));
                    assert(segs@.drop_last() =~= Seq::<TypedStringSegment>::empty());
                    assert(segs_model(Seq::<TypedStringSegment>::empty()) =~= Seq::<SegModel>::empty());
                    assert(segs_model(segs@) =~= seq![SegModel::Text(text)]);
                    assert(seq![SegModel::Text(text)].drop_last() =~= Seq::<SegModel>::empty());
                    assert(h_segs(Seq::<SegModel>::empty()) == 0);
                    assert(h_seg(SegModel::Text(text)) == 0);
                    assert(h_segs(seq![SegModel::Text(text)]) == 0);
                }
                Some(TypedExprKind::Str(segs))
            } else {
                None
            }
        },
        _ => None,
    };
    match folded {
        Some(kind) => TypedExpr { kind, ty, span },
        None => TypedExpr {
            kind: TypedExprKind::BinOp { op, left: Box::new(left), right: Box::new(right) },
            ty,
            span,
        },
    }
}

/// Constant folding of a binary operation whose operands are already folded.
fn try_fold_binop(op: BinOp, left: TypedExpr, right: TypedExpr, ty: Ty, span: Span) -> (r: TypedExpr)
    ensures
        expr_model(r) == fold_binop_spec(op, expr_model(left), expr_model(right), ty_model(ty), span),
        h_expr(expr_model(r)) <= 1 + nmax(h_expr(expr_model(left)), h_expr(expr_model(right))),
{
    if op == BinOp::Add && is_int_lit(&right, 0) {
        return left;
    }
    if op == BinOp::Add && is_int_lit(&left, 0) {
        return right;
    }
    if op == BinOp::Sub && is_int_lit(&right, 0) {
        return left;
    }
    if op == BinOp::Sub && same_ident_exprs(&left, &right) {
        if matches!(ty, Ty::Float) {
            return mk_expr(TypedExprKind::Float(0), ty, span);
        }
        return mk_expr(TypedExprKind::Int(0), ty, span);
    }
    if op == BinOp::Mul && is_int_lit(&right, 1) {
        return left;
    }
    if op == BinOp::Mul && is_int_lit(&left, 1) {
        return right;
    }
    if op == BinOp::Mul && (is_int_lit(&right, 0) || is_int_lit(&left, 0)) {
        return mk_expr(TypedExprKind::Int(0), ty, span);
    }
    if op == BinOp::Div && is_int_lit(&right, 1) {
        return left;
    }
    if op == BinOp::Eq && is_bool_lit(&right, true) {
        return left;
    }
    if op == BinOp::Eq && is_bool_lit(&left, true) {
        return right;
    }
    if op == BinOp::Eq && is_bool_lit(&right, false) {
        return mk_expr(TypedExprKind::UnOp { op: UnOp::Not, operand: Box::new(left) }, ty, span);
    }
    if op == BinOp::Eq && is_bool_lit(&left, false) {
        return mk_expr(TypedExprKind::UnOp { op: UnOp::Not, operand: Box::new(right) }, ty, span);
    }
    if op == BinOp::And && is_bool_lit(&left, false) && !expr_has_side_effects(&right) {
        return mk_expr(TypedExprKind::Bool(false), ty, span);
    }
    if op == BinOp::And && is_bool_lit(&left, true) {
        return right;
    }
    if op == BinOp::Or && is_bool_lit(&left, true) && !expr_has_side_effects(&right) {
        return mk_expr(TypedExprKind::Bool(true), ty, span);
    }
    if op == BinOp::Or && is_bool_lit(&left, false) {
        return right;
    }
    if op == BinOp::Sub && is_int_lit(&left, 0) {
        return mk_expr(TypedExprKind::UnOp { op: UnOp::Neg, operand: Box::new(right) }, ty, span);
    }
    if op == BinOp::Mul && is_int_lit(&right, -1) {
        return mk_expr(TypedExprKind::UnOp { op: UnOp::Neg, operand: Box::new(left) }, ty, span);
    }
    if op == BinOp::Mul && is_int_lit(&left, -1) {
        return mk_expr(TypedExprKind::UnOp { op: UnOp::Neg, operand: Box::new(right) }, ty, span);
    }
    if op == BinOp::Mod && is_int_lit(&right, 1) {
        return mk_expr(TypedExprKind::Int(0), ty, span);
    }
    if op == BinOp::Eq && same_ident_exprs(&left, &right) {
        return mk_expr(TypedExprKind::Bool(true), ty, span);
    }
    if op == BinOp::Ne && same_ident_exprs(&left, &right) {
        return mk_expr(TypedExprKind::Bool(false), ty, span);
    }
    if op == BinOp::Lt && same_ident_exprs(&left, &right) {
        return mk_expr(TypedExprKind::Bool(false), ty, span);
    }
    if op == BinOp::Gt && same_ident_exprs(&left, &right) {
        return mk_expr(TypedExprKind::Bool(false), ty, span);
    }
    if op == BinOp::LtEq && same_ident_exprs(&left, &right) {
        return mk_expr(TypedExprKind::Bool(true), ty, span);
    }
    if op == BinOp::GtEq && same_ident_exprs(&left, &right) {
        return mk_expr(TypedExprKind::Bool(true), ty, span);
    }
    if op == BinOp::Add && is_float_zero_lit(&right) {
        return left;
    }
    if op == BinOp::Add && is_float_zero_lit(&left) {
        return right;
    }
    if op == BinOp::Sub && is_float_zero_lit(&right) {
        return left;
    }
    if op == BinOp::Mul && is_float_one_lit(&right) {
        return left;
    }
    if op == BinOp::Mul && is_float_one_lit(&left) {
        return right;
    }
    if op == BinOp::Div && is_float_one_lit(&right) {
        return left;
    }
    if op == BinOp::Sub && is_neg_of_something(&right) {
        let TypedExpr { kind: rkind, ty: rty, span: rspan } = right;
        match rkind {
            TypedExprKind::UnOp { operand: inner, .. } => {
                return mk_expr(
                    TypedExprKind::BinOp { op: BinOp::Add, left: Box::new(left), right: inner },
                    ty,
                    span,
                );
            },
            other => {
                proof {
                    assert(false);
                }
                return mk_expr(other, rty, rspan);
            },
        }
    }
    if op == BinOp::Ne && is_bool_lit(&right, true) {
        return mk_expr(TypedExprKind::UnOp { op: UnOp::Not, operand: Box::new(left) }, ty, span);
    }
    if op == BinOp::Ne && is_bool_lit(&left, true) {
        return mk_expr(TypedExprKind::UnOp { op: UnOp::Not, operand: Box::new(right) }, ty, span);
    }
    if op == BinOp::Ne && is_bool_lit(&right, false) {
        return left;
    }
    if op == BinOp::Ne && is_bool_lit(&left, false) {
        return right;
    }
    if op == BinOp::Mod && same_ident_exprs(&left, &right) {
        return mk_expr(TypedExprKind::Int(0), ty, span);
    }
    if op == BinOp::And && same_ident_exprs(&left, &right) {
        return left;
    }
    if op == BinOp::Or && same_ident_exprs(&left, &right) {
        return left;
    }
    if op == BinOp::Or && is_bool_lit(&right, true) && !expr_has_side_effects(&left) {
        return mk_expr(TypedExprKind::Bool(true), ty, span);
    }
    if op == BinOp::And && is_bool_lit(&right, false) && !expr_has_side_effects(&left) {
        return mk_expr(TypedExprKind::Bool(false), ty, span);
    }
    if op == BinOp::Mul && is_ident_expr(&left) && is_int_lit(&right, 2) {
        let copy = copy_ident(&left);
        return mk_expr(
            TypedExprKind::BinOp { op: BinOp::Add, left: Box::new(copy), right: Box::new(left) },
            ty,
            span,
        );
    }
    if op == BinOp::Mul && is_int_lit(&left, 2) && is_ident_expr(&right) {
        let copy = copy_ident(&right);
        return mk_expr(
            TypedExprKind::BinOp { op: BinOp::Add, left: Box::new(copy), right: Box::new(right) },
            ty,
            span,
        );
    }
    fold_literals(op, left, right, ty, span)
}

// ---------------------------------------------------------------------------
// Facts about the models of statement lists
// ---------------------------------------------------------------------------

proof fn lemma_stmts_model_concat(a: Seq<TypedStmt>, b: Seq<TypedStmt>)
    ensures
        stmts_model(a + b) == stmts_model(a) + stmts_model(b),
    decreases b.len(),
{
    if b.len() == 0 {
        assert(a + b =~= a);
        assert(stmts_model(a) + stmts_model(b) =~= stmts_model(a));
    } else {
        lemma_stmts_model_concat(a, b.drop_last());
        assert((a + b).drop_last() =~= a + b.drop_last());
        assert((a + b).last() == b.last());
        assert(stmts_model(a) + stmts_model(b) =~= (stmts_model(a) + stmts_model(
            b.drop_last(),
        )).push(stmt_model(b.last())));
    }
}

proof fn lemma_h_stmts_concat(a: Seq<StmtModel>, b: Seq<StmtModel>)
    ensures
        h_stmts(a + b) == nmax(h_stmts(a), h_stmts(b)),
    decreases b.len(),
{
    if b.len() == 0 {
        assert(a + b =~= a);
    } else {
        lemma_h_stmts_concat(a, b.drop_last());
        assert((a + b).drop_last() =~= a + b.drop_last());
        assert((a + b).last() == b.last());
    }
}

proof fn lemma_h_branches_first(s: Seq<(crate::fold_model::ExprModel, crate::fold_model::BlockModel)>)
    requires
        s.len() > 0,
    ensures
        nmax(h_expr(s[0].0), h_block(s[0].1)) <= h_branches(s),
    decreases s.len(),
{
    if s.len() > 1 {
        lemma_h_branches_first(s.drop_last());
        assert(s.drop_last()[0] == s[0]);
    }
}

proof fn lemma_branches_model_index(s: Seq<(TypedExpr, TypedBlock)>)
    ensures
        branches_model(s).len() == s.len(),
        forall|i: int|
            0 <= i < s.len() ==> #[trigger] branches_model(s)[i] == (
                expr_model(s[i].0),
                block_model(s[i].1),
            ),
    decreases s.len(),
{
    if s.len() > 0 {
        lemma_branches_model_index(s.drop_last());
    }
}

/// The statement list ends in `return`, `raise`, `break` or `continue`.
fn block_terminated(v: &Vec<TypedStmt>) -> (r: bool)
    ensures
        r == ends_in_terminator(stmts_model(v@)),
{
    if v.len() == 0 {
        return false;
    }
    proof {
        assert(stmts_model(v@) == stmts_model(v@.drop_last()).push(stmt_model(v@.last())));
    }
    match &v[v.len() - 1] {
        TypedStmt::Return { .. } => true,
        TypedStmt::Raise { .. } => true,
        TypedStmt::Break(_) => true,
        TypedStmt::Continue(_) => true,
        _ => false,
    }
}

/// Appends one folded statement to an already folded prefix, replacing an `if` on a
/// literal condition by the branch taken and dropping a `while false`.
fn prune_push(p: Vec<TypedStmt>, f: TypedStmt) -> (r: Vec<TypedStmt>)
    ensures
        stmts_model(r@) == prune_step(stmts_model(p@), stmt_model(f)),
        h_stmts(stmts_model(r@)) <= nmax(h_stmts(stmts_model(p@)), h_stmt(stmt_model(f))),
{
    let mut p = p;
    let ghost p0 = p@;
    let ghost fm = stmt_model(f);
    match f {
        TypedStmt::If { mut branches, else_branch, span } => {
            proof {
                lemma_branches_model_index(branches@);
            }
            let choice: u8 = if branches.len() > 0 {
                if is_bool_lit(&branches[0].0, true) {
                    1
                } else if is_bool_lit(&branches[0].0, false) {
                    2
                } else {
                    0
                }
            } else {
                0
            };
            let ghost bm = branches_model(branches@);
            let ghost em = opt_block_model(else_branch);
            proof {
                assert(fm == StmtModel::If { branches: bm, else_branch: em, span });
                assert(h_stmt(fm) == 1 + nmax(h_branches(bm), h_opt_block(em)));
            }
            if choice == 1 {
                proof {
                    lemma_h_branches_first(bm);
                    assert(bm[0] == (expr_model(branches@[0].0), block_model(branches@[0].1)));
                }
                let (_cond, mut body) = branches.remove(0);
                let ghost body_stmts = body.stmts@;
                proof {
                    assert(h_block(block_model(body)) == 1 + h_stmts(stmts_model(body_stmts)));
                    assert(bm[0].1 == block_model(body));
                    assert(h_block(bm[0].1) <= h_branches(bm));
                }
                p.append(&mut body.stmts);
                proof {
                    lemma_stmts_model_concat(p0, body_stmts);
                    lemma_h_stmts_concat(stmts_model(p0), stmts_model(body_stmts));
                    assert(h_stmts(stmts_model(body_stmts)) < h_stmt(fm));
                    assert(stmts_model(p@) == stmts_model(p0) + stmts_model(body_stmts));
                    assert(h_stmts(stmts_model(p@)) <= nmax(h_stmts(stmts_model(p0)), h_stmt(fm)));
                }
                return p;
            } else if choice == 2 {
                match else_branch {
                    Some(mut eb) => {
                        let ghost eb_stmts = eb.stmts@;
                        proof {
                            assert(em == Some(block_model(eb)));
                            assert(h_opt_block(em) == 1 + h_stmts(stmts_model(eb_stmts)));
                        }
                        p.append(&mut eb.stmts);
                        proof {
                            lemma_stmts_model_concat(p0, eb_stmts);
                            lemma_h_stmts_concat(stmts_model(p0), stmts_model(eb_stmts));
                            assert(h_stmts(stmts_model(eb_stmts)) < h_stmt(fm));
                            assert(h_stmts(stmts_model(p@)) <= nmax(h_stmts(stmts_model(p0)), h_stmt(fm)));
                        }
                    },
                    None => {},
                }
                return p;
            }
            let st = TypedStmt::If { branches, else_branch, span };
            proof {
                assert(stmt_model(st) == fm);
            }
            p.push(st);
            proof {
                assert(p@.drop_last() =~= p0);
                let mp = stmts_model(p@);
                assert(mp == stmts_model(p0).push(fm));
                assert(mp.drop_last() =~= stmts_model(p0));
            }
            p
        },
        TypedStmt::While { cond, body, span } => {
            if is_bool_lit(&cond, false) {
                p
            } else {
                let st = TypedStmt::While { cond, body, span };
                proof {
                    assert(stmt_model(st) == fm);
                }
                p.push(st);
                proof {
                    assert(p@.drop_last() =~= p0);
                    let mp = stmts_model(p@);
                    assert(mp == stmts_model(p0).push(fm));
                    assert(mp.drop_last() =~= stmts_model(p0));
                }
                p
            }
        },
        other => {
            proof {
                assert(stmt_model(other) == fm);
            }
            p.push(other);
            proof {
                assert(p@.drop_last() =~= p0);
                let mp = stmts_model(p@);
                assert(mp == stmts_model(p0).push(fm));
                assert(mp.drop_last() =~= stmts_model(p0));
            }
            p
        },
    }
}

// ---------------------------------------------------------------------------
// Folding
// ---------------------------------------------------------------------------

/// Recursively folds constant expressions.
#[verifier::spinoff_prover]
#[verifier::rlimit(80)]
pub fn fold_expr(expr: TypedExpr) -> (r: TypedExpr)
    ensures
        expr_model(r) == fold_expr_spec(expr_model(expr)),
        h_expr(expr_model(r)) <= h_expr(expr_model(expr)),
    decreases h_expr(expr_model(expr)), 3nat,
{
    let ghost em = expr_model(expr);
    let TypedExpr { kind, ty, span } = expr;
    match kind {
        TypedExprKind::BinOp { op, left, right } => {
            proof {
                assert(h_expr(em) == 1 + nmax(h_expr(expr_model(*left)), h_expr(expr_model(*right))));
            }
            let l = fold_expr(*left);
            let r = fold_expr(*right);
            let res = try_fold_binop(op, l, r, ty, span);
            proof {
                assert(h_expr(expr_model(res)) <= 1 + nmax(h_expr(expr_model(l)), h_expr(expr_model(r))));
                assert(nmax(h_expr(expr_model(l)), h_expr(expr_model(r))) <= nmax(h_expr(expr_model(*left)), h_expr(expr_model(*right))));
            }
            res
        },
        TypedExprKind::UnOp { op, operand } => {
            let x = fold_expr(*operand);
            try_fold_unop(op, x, ty, span)
        },
        TypedExprKind::Call { callee, args, fn_name, generic_bounds, generic_params, param_tys } => {
            let c = fold_expr(*callee);
            let a = fold_exprs(args);
            TypedExpr {
                kind: TypedExprKind::Call {
                    callee: Box::new(c),
                    args: a,
                    fn_name,
                    generic_bounds,
                    generic_params,
                    param_tys,
                },
                ty,
                span,
            }
        },
        TypedExprKind::MethodCall { object, method_fn, args } => {
            let o = fold_expr(*object);
            let a = fold_exprs(args);
            let len_name = String::from_str("len");
            if method_fn == len_name && a.len() == 0 {
                let folded: Option<i64> = match &o.kind {
                    TypedExprKind::Str(segs) => {
                        if segs_all_text(segs) {
                            match segs_text_bytes(segs) {
                                Some(n) => {
                                    if n <= 0x7fff_ffff_ffff_ffffu64 {
                                        Some(n as i64)
                                    } else {
                                        None
                                    }
                                },
                                None => None,
                            }
                        } else {
                            None
                        }
                    },
                    _ => None,
                };
                match folded {
                    Some(n) => {
                        return TypedExpr { kind: TypedExprKind::Int(n), ty: Ty::Int, span };
                    },
                    None => {},
                }
            }
            TypedExpr {
                kind: TypedExprKind::MethodCall { object: Box::new(o), method_fn, args: a },
                ty,
                span,
            }
        },
        TypedExprKind::StaticCall { method_fn, args } => {
            let a = fold_exprs(args);
            TypedExpr { kind: TypedExprKind::StaticCall { method_fn, args: a }, ty, span }
        },
        TypedExprKind::IndirectCall { fat_ptr, args } => {
            let f = fold_expr(*fat_ptr);
            let a = fold_exprs(args);
            TypedExpr {
                kind: TypedExprKind::IndirectCall { fat_ptr: Box::new(f), args: a },
                ty,
                span,
            }
        },
        TypedExprKind::Field { object, field } => {
            let o = fold_expr(*object);
            TypedExpr { kind: TypedExprKind::Field { object: Box::new(o), field }, ty, span }
        },
        TypedExprKind::Index { object, index } => {
            let o = fold_expr(*object);
            let i = fold_expr(*index);
            TypedExpr {
                kind: TypedExprKind::Index { object: Box::new(o), index: Box::new(i) },
                ty,
                span,
            }
        },
        TypedExprKind::Tuple(es) => {
            let a = fold_exprs(es);
            TypedExpr { kind: TypedExprKind::Tuple(a), ty, span }
        },
        TypedExprKind::StructLiteral { ty_name, fields } => {
            let f = fold_fields(fields);
            TypedExpr { kind: TypedExprKind::StructLiteral { ty_name, fields: f }, ty, span }
        },
        TypedExprKind::Unwrap(inner) => {
            let x = fold_expr(*inner);
            TypedExpr { kind: TypedExprKind::Unwrap(Box::new(x)), ty, span }
        },
        TypedExprKind::As { expr: inner, ty: cast_ty } => {
            let x = fold_expr(*inner);
            if ty_eq(&x.ty, &cast_ty) {
                x
            } else {
                TypedExpr { kind: TypedExprKind::As { expr: Box::new(x), ty: cast_ty }, ty, span }
            }
        },
        TypedExprKind::Match { scrutinee, arms } => {
            let sc = fold_expr(*scrutinee);
            let a = fold_arms(arms);
            TypedExpr {
                kind: TypedExprKind::Match { scrutinee: Box::new(sc), arms: a },
                ty,
                span,
            }
        },
        TypedExprKind::Closure { params, body } => {
            let b = match body {
                TypedClosureBody::Expr(e) => {
                    proof {
                        assert(h_body(BodyModel::Expr(Box::new(expr_model(*e)))) == h_expr(expr_model(*e)));
                    }
                    TypedClosureBody::Expr(Box::new(fold_expr(*e)))
                },
                TypedClosureBody::Block(bl) => {
                    proof {
                        assert(h_body(BodyModel::Block(block_model(bl))) == h_block(block_model(bl)));
                    }
                    TypedClosureBody::Block(fold_block(bl))
                },
            };
            let ghost b0 = b;
            let res = TypedExpr { kind: TypedExprKind::Closure { params, body: b }, ty, span };
            proof {
                match b0 {
                    TypedClosureBody::Expr(x) => {
                        assert(h_body(BodyModel::Expr(Box::new(expr_model(*x)))) == h_expr(expr_model(*x)));
                    },
                    TypedClosureBody::Block(bl) => {
                        assert(h_body(BodyModel::Block(block_model(bl))) == h_block(block_model(bl)));
                    },
                }
            }
            res
        },
        TypedExprKind::Spawn(inner) => {
            let x = fold_expr(*inner);
            TypedExpr { kind: TypedExprKind::Spawn(Box::new(x)), ty, span }
        },
        TypedExprKind::Ref { mutable, expr: inner } => {
            let x = fold_expr(*inner);
            TypedExpr { kind: TypedExprKind::Ref { mutable, expr: Box::new(x) }, ty, span }
        },
        TypedExprKind::Array(es) => {
            let a = fold_exprs(es);
            TypedExpr { kind: TypedExprKind::Array(a), ty, span }
        },
        TypedExprKind::Gen { body } => {
            let b = fold_block(body);
            TypedExpr { kind: TypedExprKind::Gen { body: b }, ty, span }
        },
        TypedExprKind::GenSplice(inner) => {
            let x = fold_expr(*inner);
            TypedExpr { kind: TypedExprKind::GenSplice(Box::new(x)), ty, span }
        },
        TypedExprKind::Str(segs) => {
            let m = fold_segs(segs);
            TypedExpr { kind: TypedExprKind::Str(m), ty, span }
        },
        other => TypedExpr { kind: other, ty, span },
    }
}

/// Folding of a unary operation whose operand is already folded.
fn try_fold_unop(op: UnOp, operand: TypedExpr, ty: Ty, span: Span) -> (r: TypedExpr)
    ensures
        expr_model(r) == fold_unop_spec(op, expr_model(operand), ty_model(ty), span),
        h_expr(expr_model(r)) <= 1 + h_expr(expr_model(operand)),
    decreases 1 + h_expr(expr_model(operand)), 2nat,
{
    let ghost om = expr_model(operand);
    let TypedExpr { kind, ty: oty, span: ospan } = operand;
    match kind {
        TypedExprKind::UnOp { op: iop, operand: inner } => {
            if (op == UnOp::Neg && iop == UnOp::Neg) || (op == UnOp::Not && iop == UnOp::Not) {
                return *inner;
            }
            let x = TypedExpr { kind: TypedExprKind::UnOp { op: iop, operand: inner }, ty: oty, span: ospan };
            TypedExpr { kind: TypedExprKind::UnOp { op, operand: Box::new(x) }, ty, span }
        },
        TypedExprKind::Int(n) => {
            if op == UnOp::Neg {
                if n == 0 {
                    TypedExpr { kind: TypedExprKind::Int(0), ty, span }
                } else {
                    TypedExpr { kind: TypedExprKind::Int(0i64.wrapping_sub(n)), ty, span }
                }
            } else {
                let x = TypedExpr { kind: TypedExprKind::Int(n), ty: oty, span: ospan };
                TypedExpr { kind: TypedExprKind::UnOp { op, operand: Box::new(x) }, ty, span }
            }
        },
        TypedExprKind::Float(f) => {
            if op == UnOp::Neg {
                if f & 0x7fff_ffff_ffff_ffffu64 == 0 {
                    TypedExpr { kind: TypedExprKind::Float(0), ty, span }
                } else {
                    TypedExpr { kind: TypedExprKind::Float(f ^ 0x8000_0000_0000_0000u64), ty, span }
                }
            } else {
                let x = TypedExpr { kind: TypedExprKind::Float(f), ty: oty, span: ospan };
                TypedExpr { kind: TypedExprKind::UnOp { op, operand: Box::new(x) }, ty, span }
            }
        },
        TypedExprKind::Bool(b) => {
            if op == UnOp::Not {
                TypedExpr { kind: TypedExprKind::Bool(!b), ty, span }
            } else {
                let x = TypedExpr { kind: TypedExprKind::Bool(b), ty: oty, span: ospan };
                TypedExpr { kind: TypedExprKind::UnOp { op, operand: Box::new(x) }, ty, span }
            }
        },
        TypedExprKind::BinOp { op: bop, left: a, right: b } => {
            if op == UnOp::Not && (bop == BinOp::And || bop == BinOp::Or) {
                let not_a = TypedExpr {
                    kind: TypedExprKind::UnOp { op: UnOp::Not, operand: a },
                    ty: Ty::Bool,
                    span,
                };
                let not_b = TypedExpr {
                    kind: TypedExprKind::UnOp { op: UnOp::Not, operand: b },
                    ty: Ty::Bool,
                    span,
                };
                let fa = fold_expr(not_a);
                let fb = fold_expr(not_b);
                let new_op = if bop == BinOp::And {
                    BinOp::Or
                } else {
                    BinOp::And
                };
                TypedExpr {
                    kind: TypedExprKind::BinOp { op: new_op, left: Box::new(fa), right: Box::new(fb) },
                    ty,
                    span,
                }
            } else {
                let x = TypedExpr { kind: TypedExprKind::BinOp { op: bop, left: a, right: b }, ty: oty, span: ospan };
                TypedExpr { kind: TypedExprKind::UnOp { op, operand: Box::new(x) }, ty, span }
            }
        },
        other => {
            let x = TypedExpr { kind: other, ty: oty, span: ospan };
            TypedExpr { kind: TypedExprKind::UnOp { op, operand: Box::new(x) }, ty, span }
        },
    }
}

fn fold_exprs(v: Vec<TypedExpr>) -> (r: Vec<TypedExpr>)
    ensures
        exprs_model(r@) == fold_exprs_spec(exprs_model(v@)),
        h_exprs(exprs_model(r@)) <= h_exprs(exprs_model(v@)),
    decreases h_exprs(exprs_model(v@)), v@.len() + 4,
{
    let mut v = v;
    if v.len() == 0 {
        return v;
    }
    let ghost v0 = v@;
    let x = v.pop().unwrap();
    proof {
        assert(v@ =~= v0.drop_last());
        let m0 = exprs_model(v0);
        assert(m0 == exprs_model(v@).push(m0.last()));
        assert(m0.drop_last() =~= exprs_model(v@));
        assert(h_exprs(exprs_model(v@)) <= h_exprs(m0));
    }
    let mut rest = fold_exprs(v);
    let ghost rest0 = rest@;
    let fx = fold_expr(x);
    rest.push(fx);
    proof {
        assert(rest@.drop_last() =~= rest0);
        let mr = exprs_model(rest@);
        assert(mr == exprs_model(rest0).push(expr_model(fx)));
        assert(mr.drop_last() =~= exprs_model(rest0));
    }
    rest
}

fn fold_fields(v: Vec<(String, TypedExpr)>) -> (r: Vec<(String, TypedExpr)>)
    ensures
        fields_model(r@) == fold_fields_spec(fields_model(v@)),
        h_fields(fields_model(r@)) <= h_fields(fields_model(v@)),
    decreases h_fields(fields_model(v@)), v@.len() + 4,
{
    let mut v = v;
    if v.len() == 0 {
        return v;
    }
    let ghost v0 = v@;
    let (name, x) = v.pop().unwrap();
    proof {
        assert(v@ =~= v0.drop_last());
        let m0 = fields_model(v0);
        assert(m0 == fields_model(v@).push(m0.last()));
        assert(m0.drop_last() =~= fields_model(v@));
        assert(h_fields(fields_model(v@)) <= h_fields(m0));
    }
    let mut rest = fold_fields(v);
    let ghost rest0 = rest@;
    let fx = fold_expr(x);
    rest.push((name, fx));
    proof {
        assert(rest@.drop_last() =~= rest0);
        let mr = fields_model(rest@);
        assert(mr == fields_model(rest0).push((name, expr_model(fx))));
        assert(mr.drop_last() =~= fields_model(rest0));
    }
    rest
}

#[verifier::spinoff_prover]
fn fold_arms(v: Vec<TypedMatchArm>) -> (r: Vec<TypedMatchArm>)
    ensures
        arms_model(r@) == fold_arms_spec(arms_model(v@)),
        h_arms(arms_model(r@)) <= h_arms(arms_model(v@)),
    decreases h_arms(arms_model(v@)), v@.len() + 4,
{
    let mut v = v;
    if v.len() == 0 {
        return v;
    }
    let ghost v0 = v@;
    let arm = v.pop().unwrap();
    proof {
        assert(v@ =~= v0.drop_last());
        let m0 = arms_model(v0);
        assert(m0 == arms_model(v@).push(m0.last()));
        assert(m0.drop_last() =~= arms_model(v@));
        assert(h_arms(arms_model(v@)) <= h_arms(m0));
        assert(h_arm(arm_model(arm)) == nmax(h_opt(opt_expr_model(arm.guard)), h_expr(expr_model(arm.body))));
    }
    let mut rest = fold_arms(v);
    let ghost rest0 = rest@;
    let ghost am = arm_model(arm);
    let ghost g0 = arm.guard;
    let TypedMatchArm { pattern, guard, body, narrowed_discriminant, span } = arm;
    let g = match guard {
        Some(gx) => Some(fold_expr(gx)),
        None => None,
    };
    let b = fold_expr(body);
    let new_arm = TypedMatchArm { pattern, guard: g, body: b, narrowed_discriminant, span };
    proof {
        match g0 {
            Some(gx) => {
                assert(am.guard == Some(expr_model(gx)));
            },
            None => {
                assert(am.guard is None);
            },
        }
        assert(arm_model(new_arm).guard == match am.guard {
            Some(x) => Some(fold_expr_spec(x)),
            None => None,
        });
        assert(arm_model(new_arm).body == fold_expr_spec(am.body));
        assert(h_arm(arm_model(new_arm)) <= h_arm(am));
    }
    rest.push(new_arm);
    proof {
        assert(rest@.drop_last() =~= rest0);
        let mr = arms_model(rest@);
        assert(mr == arms_model(rest0).push(arm_model(new_arm)));
        assert(mr.drop_last() =~= arms_model(rest0));
    }
    rest
}

fn fold_segs(v: Vec<TypedStringSegment>) -> (r: Vec<TypedStringSegment>)
    ensures
        segs_model(r@) == fold_segs_spec(segs_model(v@)),
        h_segs(segs_model(r@)) <= h_segs(segs_model(v@)),
    decreases h_segs(segs_model(v@)), v@.len() + 4,
{
    let mut v = v;
    if v.len() == 0 {
        return v;
    }
    let ghost v0 = v@;
    let seg = v.pop().unwrap();
    proof {
        assert(v@ =~= v0.drop_last());
        let m0 = segs_model(v0);
        assert(m0 == segs_model(v@).push(m0.last()));
        assert(m0.drop_last() =~= segs_model(v@));
        assert(h_segs(segs_model(v@)) <= h_segs(m0));
    }
    let ghost last_model = seg_model(seg);
    proof {
        assert(h_segs(segs_model(v0)) == nmax(h_segs(segs_model(v@)), h_seg(last_model)));
    }
    let mut p = fold_segs(v);
    let ghost p0 = p@;
    let ghost mp = segs_model(p0);
    match seg {
        TypedStringSegment::Text(t) => {
            if p.len() > 0 {
                let last = p.pop().unwrap();
                let ghost p1 = p@;
                proof {
                    assert(p1 =~= p0.drop_last());
                    assert(mp == segs_model(p1).push(seg_model(last)));
                    assert(mp.drop_last() =~= segs_model(p1));
                }
                match last {
                    TypedStringSegment::Text(mut pt) => {
                        let ghost pt0 = pt@;
                        pt.append(t.as_str());
                        p.push(TypedStringSegment::Text(pt));
                        proof {
                            assert(p@.drop_last() =~= p1);
                            let mr = segs_model(p@);
                            assert(mr == segs_model(p1).push(seg_model(p@.last())));
                            assert(p@.last() == TypedStringSegment::Text(pt));
                            assert(seg_model(TypedStringSegment::Text(pt)) == SegModel::Text(pt@));
                            assert(mr == segs_model(p1).push(SegModel::Text(pt0 + t@)));
                            assert(mr.drop_last() =~= segs_model(p1));
                            assert(mr.last() == SegModel::Text(pt0 + t@));
                            assert(h_seg(SegModel::Text(pt0 + t@)) == 0);
                            assert(h_segs(mr) == nmax(h_segs(mr.drop_last()), h_seg(mr.last())));
                            assert(h_segs(mr) == h_segs(segs_model(p1)));
                            assert(h_segs(mp) >= h_segs(segs_model(p1)));
                        }
                    },
                    TypedStringSegment::Interp(e) => {
                        p.push(TypedStringSegment::Interp(e));
                        proof {
                            assert(p@ =~= p0);
                        }
                        p.push(TypedStringSegment::Text(t));
                        proof {
                            assert(p@.drop_last() =~= p0);
                            let mr = segs_model(p@);
                            assert(mr == mp.push(SegModel::Text(t@)));
                            assert(mr.drop_last() =~= mp);
                            assert(h_segs(mr) == h_segs(mp));
                        }
                    },
                }
            } else {
                p.push(TypedStringSegment::Text(t));
                proof {
                    assert(p@.drop_last() =~= p0);
                    let mr = segs_model(p@);
                    assert(mr == mp.push(SegModel::Text(t@)));
                    assert(mr.drop_last() =~= mp);
                    assert(h_segs(mr) == h_segs(mp));
                }
            }
        },
        TypedStringSegment::Interp(e) => {
            proof {
                assert(h_seg(seg_model(TypedStringSegment::Interp(e))) == h_expr(expr_model(e)));
            }
            let fe = fold_expr(e);
            p.push(TypedStringSegment::Interp(fe));
            proof {
                assert(p@.drop_last() =~= p0);
                let mr = segs_model(p@);
                assert(mr == mp.push(seg_model(p@.last())));
                assert(seg_model(TypedStringSegment::Interp(fe)) == SegModel::Interp(expr_model(fe)));
                assert(mr == mp.push(SegModel::Interp(expr_model(fe))));
                assert(mr.drop_last() =~= mp);
                assert(mr.last() == SegModel::Interp(expr_model(fe)));
                assert(h_seg(SegModel::Interp(expr_model(fe))) == h_expr(expr_model(fe)));
                assert(h_segs(mr) == nmax(h_segs(mr.drop_last()), h_seg(mr.last())));
                assert(h_segs(mr) == nmax(h_segs(mp), h_expr(expr_model(fe))));
            }
        },
    }
    p
}

/// Folds every statement of a block, pruning constant `if` branches, `while false`
/// loops and statements after a terminator.
pub fn fold_block(block: TypedBlock) -> (r: TypedBlock)
    ensures
        block_model(r) == fold_block_spec(block_model(block)),
        h_block(block_model(r)) <= h_block(block_model(block)),
    decreases h_block(block_model(block)), 3nat,
{
    let TypedBlock { stmts, span } = block;
    let s = fold_stmts(stmts);
    TypedBlock { stmts: s, span }
}

fn fold_stmts(v: Vec<TypedStmt>) -> (r: Vec<TypedStmt>)
    ensures
        stmts_model(r@) == fold_stmts_spec(stmts_model(v@)),
        h_stmts(stmts_model(r@)) <= h_stmts(stmts_model(v@)),
    decreases h_stmts(stmts_model(v@)), v@.len() + 4,
{
    let mut v = v;
    if v.len() == 0 {
        return v;
    }
    let ghost v0 = v@;
    let x = v.pop().unwrap();
    proof {
        assert(v@ =~= v0.drop_last());
        let m0 = stmts_model(v0);
        assert(m0 == stmts_model(v@).push(m0.last()));
        assert(m0.drop_last() =~= stmts_model(v@));
        assert(h_stmts(stmts_model(v@)) <= h_stmts(m0));
    }
    let p = fold_stmts(v);
    if block_terminated(&p) {
        return p;
    }
    let f = fold_stmt(x);
    prune_push(p, f)
}

fn fold_branches(v: Vec<(TypedExpr, TypedBlock)>) -> (r: Vec<(TypedExpr, TypedBlock)>)
    ensures
        branches_model(r@) == fold_branches_spec(branches_model(v@)),
        h_branches(branches_model(r@)) <= h_branches(branches_model(v@)),
    decreases h_branches(branches_model(v@)), v@.len() + 4,
{
    let mut v = v;
    if v.len() == 0 {
        return v;
    }
    let ghost v0 = v@;
    let (c, b) = v.pop().unwrap();
    proof {
        assert(v@ =~= v0.drop_last());
        let m0 = branches_model(v0);
        assert(m0 == branches_model(v@).push(m0.last()));
        assert(m0.drop_last() =~= branches_model(v@));
        assert(h_branches(branches_model(v@)) <= h_branches(m0));
    }
    let mut rest = fold_branches(v);
    let ghost rest0 = rest@;
    let fc = fold_expr(c);
    let fb = fold_block(b);
    rest.push((fc, fb));
    proof {
        assert(rest@.drop_last() =~= rest0);
        let mr = branches_model(rest@);
        assert(mr == branches_model(rest0).push((expr_model(fc), block_model(fb))));
        assert(mr.drop_last() =~= branches_model(rest0));
    }
    rest
}

fn fold_handlers(v: Vec<TypedCatchHandler>) -> (r: Vec<TypedCatchHandler>)
    ensures
        handlers_model(r@) == fold_handlers_spec(handlers_model(v@)),
        h_handlers(handlers_model(r@)) <= h_handlers(handlers_model(v@)),
    decreases h_handlers(handlers_model(v@)), v@.len() + 4,
{
    let mut v = v;
    if v.len() == 0 {
        return v;
    }
    let ghost v0 = v@;
    let h = v.pop().unwrap();
    proof {
        assert(v@ =~= v0.drop_last());
        let m0 = handlers_model(v0);
        assert(m0 == handlers_model(v@).push(m0.last()));
        assert(m0.drop_last() =~= handlers_model(v@));
        assert(h_handlers(handlers_model(v@)) <= h_handlers(m0));
    }
    let mut rest = fold_handlers(v);
    let ghost rest0 = rest@;
    let TypedCatchHandler { ty, binding, body, span } = h;
    let fb = fold_block(body);
    rest.push(TypedCatchHandler { ty, binding, body: fb, span });
    proof {
        assert(rest@.drop_last() =~= rest0);
        let mr = handlers_model(rest@);
        assert(mr == handlers_model(rest0).push(mr.last()));
        assert(mr.drop_last() =~= handlers_model(rest0));
    }
    rest
}

fn fold_fn(f: TypedFnDef) -> (r: TypedFnDef)
    ensures
        fn_model(r) == fold_fn_spec(fn_model(f)),
        h_block(block_model(r.body)) <= h_block(block_model(f.body)),
    decreases 1 + h_block(block_model(f.body)), 2nat,
{
    let TypedFnDef {
        name,
        params,
        variadic,
        return_type,
        body,
        is_builtin,
        is_inline,
        is_declaration,
        is_entry,
        is_impure,
        span,
    } = f;
    let b = fold_block(body);
    TypedFnDef {
        name,
        params,
        variadic,
        return_type,
        body: b,
        is_builtin,
        is_inline,
        is_declaration,
        is_entry,
        is_impure,
        span,
    }
}

fn fold_stmt(stmt: TypedStmt) -> (r: TypedStmt)
    ensures
        stmt_model(r) == fold_stmt_spec(stmt_model(stmt)),
        h_stmt(stmt_model(r)) <= h_stmt(stmt_model(stmt)),
    decreases h_stmt(stmt_model(stmt)), 3nat,
{
    match stmt {
        TypedStmt::VarDecl { name, ty, value, mutable, span } => {
            let v = fold_expr(value);
            TypedStmt::VarDecl { name, ty, value: v, mutable, span }
        },
        TypedStmt::Assign { target, value, span } => {
            let t = fold_expr(target);
            let v = fold_expr(value);
            TypedStmt::Assign { target: t, value: v, span }
        },
        TypedStmt::CompoundAssign { target, op, rhs, span } => {
            let t = fold_expr(target);
            let v = fold_expr(rhs);
            TypedStmt::CompoundAssign { target: t, op, rhs: v, span }
        },
        TypedStmt::Return { value, span } => {
            let v = match value {
                Some(e) => Some(fold_expr(e)),
                None => None,
            };
            TypedStmt::Return { value: v, span }
        },
        TypedStmt::Raise { value, span } => {
            let v = match value {
                Some(e) => Some(fold_expr(e)),
                None => None,
            };
            TypedStmt::Raise { value: v, span }
        },
        TypedStmt::If { branches, else_branch, span } => {
            let b = fold_branches(branches);
            let e = match else_branch {
                Some(eb) => Some(fold_block(eb)),
                None => None,
            };
            TypedStmt::If { branches: b, else_branch: e, span }
        },
        TypedStmt::While { cond, body, span } => {
            let c = fold_expr(cond);
            let b = fold_block(body);
            TypedStmt::While { cond: c, body: b, span }
        },
        TypedStmt::DoWhile { body, cond, span } => {
            let b = fold_block(body);
            let c = fold_expr(cond);
            TypedStmt::DoWhile { body: b, cond: c, span }
        },
        TypedStmt::For { binding, binding_ty, iterable, body, iter_ty, span } => {
            let it = fold_expr(iterable);
            let b = fold_block(body);
            TypedStmt::For { binding, binding_ty, iterable: it, body: b, iter_ty, span }
        },
        TypedStmt::TryCatch { body, handlers, finally, span } => {
            let b = fold_block(body);
            let h = fold_handlers(handlers);
            let f = match finally {
                Some(fb) => Some(fold_block(fb)),
                None => None,
            };
            TypedStmt::TryCatch { body: b, handlers: h, finally: f, span }
        },
        TypedStmt::FnDef(f) => TypedStmt::FnDef(fold_fn(f)),
        TypedStmt::Expr(e) => TypedStmt::Expr(fold_expr(e)),
        other => other,
    }
}

// ---------------------------------------------------------------------------
// Files
// ---------------------------------------------------------------------------

/// A hook with its body folded and everything else unchanged.
pub open spec fn hook_folded(a: TypedHookDef, b: TypedHookDef) -> bool {
    &&& b.is_static == a.is_static
    &&& b.is_impure == a.is_impure
    &&& b.name == a.name
    &&& b.params == a.params
    &&& b.return_type == a.return_type
    &&& b.span == a.span
    &&& block_model(b.body) == fold_block_spec(block_model(a.body))
}

/// An impl block with its methods and hooks folded and everything else unchanged.
pub open spec fn impl_folded(a: TypedImplBlock, b: TypedImplBlock) -> bool {
    &&& b.interface == a.interface
    &&& b.for_type == a.for_type
    &&& b.for_type_ty == a.for_type_ty
    &&& b.span == a.span
    &&& b.methods@.len() == a.methods@.len()
    &&& forall|i: int|
        0 <= i < a.methods@.len() ==> #[trigger] fn_model(b.methods@[i]) == fold_fn_spec(
            fn_model(a.methods@[i]),
        )
    &&& b.hooks@.len() == a.hooks@.len()
    &&& forall|i: int| 0 <= i < a.hooks@.len() ==> #[trigger] hook_folded(a.hooks@[i], b.hooks@[i])
}

/// A top-level item after folding: function and method bodies, hook bodies and
/// global initializers are folded; other items are unchanged.
pub open spec fn item_folded(a: TypedItem, b: TypedItem) -> bool {
    match a {
        TypedItem::Function(f) => b is Function && fn_model(b->Function_0) == fold_fn_spec(fn_model(f)),
        TypedItem::ImplBlock(ib) => b is ImplBlock && impl_folded(ib, b->ImplBlock_0),
        TypedItem::Global(g) => {
            &&& b is Global
            &&& b->Global_0.name == g.name
            &&& b->Global_0.ty == g.ty
            &&& b->Global_0.mutable == g.mutable
            &&& b->Global_0.span == g.span
            &&& expr_model(b->Global_0.init) == fold_expr_spec(expr_model(g.init))
        },
        _ => b == a,
    }
}

fn fold_hook(h: TypedHookDef) -> (r: TypedHookDef)
    ensures
        hook_folded(h, r),
{
    let TypedHookDef { is_static, is_impure, name, params, return_type, body, span } = h;
    let b = fold_block(body);
    TypedHookDef { is_static, is_impure, name, params, return_type, body: b, span }
}

fn fold_methods(v: Vec<TypedFnDef>) -> (r: Vec<TypedFnDef>)
    ensures
        r@.len() == v@.len(),
        forall|i: int| 0 <= i < v@.len() ==> #[trigger] fn_model(r@[i]) == fold_fn_spec(fn_model(v@[i])),
    decreases v@.len(),
{
    let mut v = v;
    if v.len() == 0 {
        return v;
    }
    let ghost v0 = v@;
    let x = v.pop().unwrap();
    let mut rest = fold_methods(v);
    let fx = fold_fn(x);
    rest.push(fx);
    rest
}

fn fold_hooks(v: Vec<TypedHookDef>) -> (r: Vec<TypedHookDef>)
    ensures
        r@.len() == v@.len(),
        forall|i: int| 0 <= i < v@.len() ==> #[trigger] hook_folded(v@[i], r@[i]),
    decreases v@.len(),
{
    let mut v = v;
    if v.len() == 0 {
        return v;
    }
    let ghost v0 = v@;
    let x = v.pop().unwrap();
    let ghost vp = v@;
    let mut rest = fold_hooks(v);
    let fx = fold_hook(x);
    rest.push(fx);
    proof {
        assert forall|i: int| 0 <= i < v0.len() implies #[trigger] hook_folded(v0[i], rest@[i]) by {
            if i < v0.len() - 1 {
                assert(v0[i] == vp[i]);
            }
        }
    }
    rest
}

fn fold_item(item: TypedItem) -> (r: TypedItem)
    ensures
        item_folded(item, r),
{
    match item {
        TypedItem::Function(f) => TypedItem::Function(fold_fn(f)),
        TypedItem::ImplBlock(ib) => {
            let TypedImplBlock { interface, for_type, for_type_ty, methods, hooks, span } = ib;
            let m = fold_methods(methods);
            let h = fold_hooks(hooks);
            TypedItem::ImplBlock(TypedImplBlock { interface, for_type, for_type_ty, methods: m, hooks: h, span })
        },
        TypedItem::Global(g) => {
            let crate::typed_ast::TypedGlobalVar { name, ty, init, mutable, span } = g;
            let i = fold_expr(init);
            TypedItem::Global(crate::typed_ast::TypedGlobalVar { name, ty, init: i, mutable, span })
        },
        other => other,
    }
}

fn fold_items(v: Vec<TypedItem>) -> (r: Vec<TypedItem>)
    ensures
        r@.len() == v@.len(),
        forall|i: int| 0 <= i < v@.len() ==> #[trigger] item_folded(v@[i], r@[i]),
    decreases v@.len(),
{
    let mut v = v;
    if v.len() == 0 {
        return v;
    }
    let ghost v0 = v@;
    let x = v.pop().unwrap();
    let ghost vp = v@;
    let mut rest = fold_items(v);
    let fx = fold_item(x);
    rest.push(fx);
    proof {
        assert forall|i: int| 0 <= i < v0.len() implies #[trigger] item_folded(v0[i], rest@[i]) by {
            if i < v0.len() - 1 {
                assert(v0[i] == vp[i]);
            }
        }
    }
    rest
}

/// Folds every function body, method body, hook body and global initializer of a file.
pub fn fold_file(file: TypedFile) -> (r: TypedFile)
    ensures
        r.span == file.span,
        r.items@.len() == file.items@.len(),
        forall|i: int|
            0 <= i < file.items@.len() ==> #[trigger] item_folded(file.items@[i], r.items@[i]),
{
    let TypedFile { items, span } = file;
    let folded = fold_items(items);
    TypedFile { items: folded, span }
}

// ---------------------------------------------------------------------------
// Powers of two
// ---------------------------------------------------------------------------

/// `Some(n)` when `v == 2^n` (so `0 <= n <= 62`), `None` otherwise.
pub fn is_power_of_two(v: i64) -> (r: Option<i64>)
    ensures
        r matches Some(n) ==> 0 <= n < 63 && v as int == vstd::arithmetic::power2::pow2(n as nat),
        r is None ==> forall|n: nat| n < 63 ==> v as int != #[trigger] vstd::arithmetic::power2::pow2(n),
{
    let mut n: i64 = 0;
    let mut p: i64 = 1;
    proof {
        vstd::arithmetic::power2::lemma2_to64();
    }
    while n < 63
        invariant
            0 <= n <= 63,
            n < 63 ==> p as int == vstd::arithmetic::power2::pow2(n as nat),
            forall|k: nat| k < n ==> v as int != #[trigger] vstd::arithmetic::power2::pow2(k),
        decreases 63 - n,
    {
        if v == p {
            return Some(n);
        }
        if n < 62 {
            proof {
                vstd::arithmetic::power2::lemma_pow2_unfold((n + 1) as nat);
                if n + 1 < 62 {
                    vstd::arithmetic::power2::lemma_pow2_strictly_increases((n + 1) as nat, 62);
                }
                vstd::arithmetic::power2::lemma2_to64();
                assert(vstd::arithmetic::power2::pow2((n + 1) as nat) <= vstd::arithmetic::power2::pow2(62));
                vstd::arithmetic::power2::lemma2_to64_rest();
                assert(vstd::arithmetic::power2::pow2(62) == 0x4000_0000_0000_0000);
                assert(p * 2 == vstd::arithmetic::power2::pow2((n + 1) as nat));
            }
            p = p * 2;
        }
        n += 1;
    }
    None
}


// ---------------------------------------------------------------------------
// No dead code after folding
// ---------------------------------------------------------------------------

/// `return`, `raise`, `break` or `continue`.
pub open spec fn is_terminator(st: StmtModel) -> bool {
    ||| st is Return
    ||| st is Raise
    ||| st matches StmtModel::Opaque(TypedStmt::Break(_))
    ||| st matches StmtModel::Opaque(TypedStmt::Continue(_))
}

/// Only the last statement of the list may be a terminator.
pub open spec fn no_dead_tail(s: Seq<StmtModel>) -> bool {
    forall|i: int| 0 <= i < s.len() - 1 ==> !is_terminator(#[trigger] s[i])
}

proof fn lemma_fold_branches_first(s: Seq<(crate::fold_model::ExprModel, crate::fold_model::BlockModel)>)
    requires
        s.len() > 0,
    ensures
        fold_branches_spec(s).len() == s.len(),
        fold_branches_spec(s)[0] == (fold_expr_spec(s[0].0), fold_block_spec(s[0].1)),
    decreases s.len(),
{
    if s.len() > 1 {
        lemma_fold_branches_first(s.drop_last());
        assert(s.drop_last()[0] == s[0]);
    } else {
        assert(s.drop_last().len() == 0);
        assert(fold_branches_spec(s.drop_last()) == Seq::<(crate::fold_model::ExprModel, crate::fold_model::BlockModel)>::empty());
    }
    assert(fold_branches_spec(s) == fold_branches_spec(s.drop_last()).push(
        (fold_expr_spec(s.last().0), fold_block_spec(s.last().1)),
    ));
}

/// Appending a list without a dead tail to one that has none and does not end in a
/// terminator leaves no dead tail.
proof fn lemma_no_dead_tail_concat(p: Seq<StmtModel>, q: Seq<StmtModel>)
    requires
        no_dead_tail(p),
        !ends_in_terminator(p),
        no_dead_tail(q),
    ensures
        no_dead_tail(p + q),
{
    assert forall|i: int| 0 <= i < (p + q).len() - 1 implies !is_terminator(#[trigger] (p + q)[i]) by {
        if i < p.len() {
            assert((p + q)[i] == p[i]);
            if i == p.len() - 1 {
                assert(p.last() == p[i]);
            }
        } else {
            assert((p + q)[i] == q[i - p.len()]);
        }
    }
}

/// Folding leaves no statement after a terminator in a block: whatever followed a
/// `return`, `raise`, `break` or `continue` is dead and is dropped, also where a
/// constant branch is inlined.
pub proof fn folded_blocks_have_no_dead_code(s: Seq<StmtModel>)
    ensures
        no_dead_tail(fold_stmts_spec(s)),
    decreases h_stmts(s), s.len(),
{
    if s.len() > 0 {
        let p = fold_stmts_spec(s.drop_last());
        assert(h_stmts(s.drop_last()) <= h_stmts(s));
        folded_blocks_have_no_dead_code(s.drop_last());
        if !ends_in_terminator(p) {
            let last = s.last();
            let f = fold_stmt_spec(last);
            assert(h_stmt(last) <= h_stmts(s));
            match last {
                StmtModel::If { branches, else_branch, .. } => {
                    let fb = fold_branches_spec(branches);
                    if fb.len() > 0 && is_bool(fb[0].0, true) {
                        lemma_fold_branches_first(branches);
                        lemma_h_branches_first(branches);
                        folded_blocks_have_no_dead_code(branches[0].1.stmts);
                        lemma_no_dead_tail_concat(p, fb[0].1.stmts);
                    } else if fb.len() > 0 && is_bool(fb[0].0, false) {
                        match else_branch {
                            Some(eb) => {
                                folded_blocks_have_no_dead_code(eb.stmts);
                                lemma_no_dead_tail_concat(p, fold_block_spec(eb).stmts);
                            },
                            None => {},
                        }
                    } else {
                        assert(no_dead_tail(p.push(f))) by {
                            assert forall|i: int| 0 <= i < p.push(f).len() - 1 implies !is_terminator(#[trigger] p.push(f)[i]) by {
                                assert(p.push(f)[i] == p[i]);
                                if i == p.len() - 1 {
                                    assert(p.last() == p[i]);
                                }
                            }
                        }
                    }
                },
                _ => {
                    assert(no_dead_tail(p.push(f))) by {
                        assert forall|i: int| 0 <= i < p.push(f).len() - 1 implies !is_terminator(#[trigger] p.push(f)[i]) by {
                            assert(p.push(f)[i] == p[i]);
                            if i == p.len() - 1 {
                                assert(p.last() == p[i]);
                            }
                        }
                    }
                },
            }
        }
    }
}

} // verus!
