use vstd::prelude::*;
use crate::env::{Env, scope_vars};
use crate::error::AnalysisError;
use crate::names::{has_name, listed};
use crate::span::Span;
use crate::typed_ast::{
    TypedBlock, TypedCatchHandler, TypedClosureBody, TypedExpr, TypedExprKind, TypedMatchArm,
    TypedStmt, TypedStringSegment,
};

verus! {

// Unused-variable and needless-`mut` warnings for the variables of a scope: a variable
// that nothing reads is unused, and a mutable one that is read but never reassigned
// did not need `mut`.

// ---------------------------------------------------------------------------
// Names read
// ---------------------------------------------------------------------------

/// The identifiers an expression reads, in traversal order.
pub open spec fn ident_reads(e: TypedExpr) -> Seq<String>
    decreases e, 1nat,
{
    match e.kind {
        TypedExprKind::Ident(n) => seq![n],
        TypedExprKind::Call { callee, args, .. } => ident_reads(*callee) + ident_reads_exprs(args@),
        TypedExprKind::MethodCall { object, args, .. } => ident_reads(*object) + ident_reads_exprs(args@),
        TypedExprKind::StaticCall { args, .. } => ident_reads_exprs(args@),
        TypedExprKind::IndirectCall { fat_ptr, args } => ident_reads(*fat_ptr) + ident_reads_exprs(args@),
        TypedExprKind::Field { object, .. } => ident_reads(*object),
        TypedExprKind::Index { object, index } => ident_reads(*object) + ident_reads(*index),
        TypedExprKind::BinOp { left, right, .. } => ident_reads(*left) + ident_reads(*right),
        TypedExprKind::UnOp { operand, .. } => ident_reads(*operand),
        TypedExprKind::Unwrap(x) => ident_reads(*x),
        TypedExprKind::As { expr, .. } => ident_reads(*expr),
        TypedExprKind::Tuple(es) => ident_reads_exprs(es@),
        TypedExprKind::Array(es) => ident_reads_exprs(es@),
        TypedExprKind::StructLiteral { fields, .. } => ident_reads_fields(fields@),
        TypedExprKind::Match { scrutinee, arms } => ident_reads(*scrutinee) + ident_reads_arms(arms@),
        TypedExprKind::Closure { body, .. } => match body {
            TypedClosureBody::Expr(x) => ident_reads(*x),
            TypedClosureBody::Block(b) => ident_reads_stmts(b.stmts@),
        },
        TypedExprKind::Spawn(x) => ident_reads(*x),
        TypedExprKind::Try(x) => ident_reads(*x),
        TypedExprKind::Ignore(x) => ident_reads(*x),
        TypedExprKind::Implements { expr, .. } => ident_reads(*expr),
        TypedExprKind::TypeName { expr } => ident_reads(*expr),
        TypedExprKind::Ref { expr, .. } => ident_reads(*expr),
        TypedExprKind::Gen { body } => ident_reads_stmts(body.stmts@),
        TypedExprKind::GenSplice(x) => ident_reads(*x),
        TypedExprKind::Block(stmts) => ident_reads_stmts(stmts@),
        TypedExprKind::Str(segs) => ident_reads_segs(segs@),
        TypedExprKind::BoundMethod { object, .. } => ident_reads(*object),
        _ => Seq::empty(),
    }
}

pub open spec fn ident_reads_exprs(s: Seq<TypedExpr>) -> Seq<String>
    decreases s, 0nat,
{
    if s.len() == 0 {
        Seq::empty()
    } else {
        ident_reads_exprs(s.drop_last()) + ident_reads(s.last())
    }
}

pub open spec fn ident_reads_fields(s: Seq<(String, TypedExpr)>) -> Seq<String>
    decreases s, 0nat,
{
    if s.len() == 0 {
        Seq::empty()
    } else {
        ident_reads_fields(s.drop_last()) + ident_reads(s.last().1)
    }
}

/// An arm's guard is read before its body.
pub open spec fn ident_reads_arm(a: TypedMatchArm) -> Seq<String>
    decreases a, 0nat,
{
    match a.guard {
        Some(g) => ident_reads(g) + ident_reads(a.body),
        None => ident_reads(a.body),
    }
}

pub open spec fn ident_reads_arms(s: Seq<TypedMatchArm>) -> Seq<String>
    decreases s, 0nat,
{
    if s.len() == 0 {
        Seq::empty()
    } else {
        ident_reads_arms(s.drop_last()) + ident_reads_arm(s.last())
    }
}

pub open spec fn ident_reads_seg(g: TypedStringSegment) -> Seq<String>
    decreases g, 0nat,
{
    match g {
        TypedStringSegment::Interp(e) => ident_reads(e),
        TypedStringSegment::Text(_) => Seq::empty(),
    }
}

pub open spec fn ident_reads_segs(s: Seq<TypedStringSegment>) -> Seq<String>
    decreases s, 0nat,
{
    if s.len() == 0 {
        Seq::empty()
    } else {
        ident_reads_segs(s.drop_last()) + ident_reads_seg(s.last())
    }
}

pub open spec fn ident_reads_opt(o: Option<TypedExpr>) -> Seq<String>
    decreases o, 0nat,
{
    match o {
        Some(e) => ident_reads(e),
        None => Seq::empty(),
    }
}

pub open spec fn ident_reads_opt_block(o: Option<TypedBlock>) -> Seq<String>
    decreases o, 0nat,
{
    match o {
        Some(b) => ident_reads_stmts(b.stmts@),
        None => Seq::empty(),
    }
}

pub open spec fn ident_reads_branches(s: Seq<(TypedExpr, TypedBlock)>) -> Seq<String>
    decreases s, 0nat,
{
    if s.len() == 0 {
        Seq::empty()
    } else {
        ident_reads_branches(s.drop_last()) + ident_reads(s.last().0) + ident_reads_stmts(s.last().1.stmts@)
    }
}

pub open spec fn ident_reads_handlers(s: Seq<TypedCatchHandler>) -> Seq<String>
    decreases s, 0nat,
{
    if s.len() == 0 {
        Seq::empty()
    } else {
        ident_reads_handlers(s.drop_last()) + ident_reads_stmts(s.last().body.stmts@)
    }
}

/// The identifiers a statement reads. A plain variable that is assigned is written, not
/// read; a nested function definition is not looked into.
pub open spec fn ident_reads_stmt(st: TypedStmt) -> Seq<String>
    decreases st, 0nat,
{
    match st {
        TypedStmt::VarDecl { value, .. } => ident_reads(value),
        TypedStmt::Assign { target, value, .. } => (if target.kind is Ident {
            Seq::empty()
        } else {
            ident_reads(target)
        }) + ident_reads(value),
        TypedStmt::CompoundAssign { target, rhs, .. } => ident_reads(target) + ident_reads(rhs),
        TypedStmt::Return { value, .. } => ident_reads_opt(value),
        TypedStmt::Raise { value, .. } => ident_reads_opt(value),
        TypedStmt::Abandon { message, .. } => ident_reads_opt(message),
        TypedStmt::If { branches, else_branch, .. } => ident_reads_branches(branches@)
            + ident_reads_opt_block(else_branch),
        TypedStmt::While { cond, body, .. } => ident_reads(cond) + ident_reads_stmts(body.stmts@),
        TypedStmt::DoWhile { body, cond, .. } => ident_reads_stmts(body.stmts@) + ident_reads(cond),
        TypedStmt::For { iterable, body, .. } => ident_reads(iterable) + ident_reads_stmts(body.stmts@),
        TypedStmt::TryCatch { body, handlers, finally, .. } => ident_reads_stmts(body.stmts@)
            + ident_reads_handlers(handlers@) + ident_reads_opt_block(finally),
        TypedStmt::FnDef(_) => Seq::empty(),
        TypedStmt::Expr(e) => ident_reads(e),
        TypedStmt::Break(_) => Seq::empty(),
        TypedStmt::Continue(_) => Seq::empty(),
    }
}

pub open spec fn ident_reads_stmts(s: Seq<TypedStmt>) -> Seq<String>
    decreases s, 0nat,
{
    if s.len() == 0 {
        Seq::empty()
    } else {
        ident_reads_stmts(s.drop_last()) + ident_reads_stmt(s.last())
    }
}

// ---------------------------------------------------------------------------
// Names reassigned
// ---------------------------------------------------------------------------

/// The variable an assignment target names, if it is a plain variable.
pub open spec fn assigned_name(target: TypedExpr) -> Seq<String> {
    match target.kind {
        TypedExprKind::Ident(n) => seq![n],
        _ => Seq::empty(),
    }
}

/// The plain variables a statement assigns to, looking into nested statement blocks
/// but not into expressions or nested functions.
pub open spec fn reassigned_stmt(st: TypedStmt) -> Seq<String>
    decreases st, 0nat,
{
    match st {
        TypedStmt::Assign { target, .. } => assigned_name(target),
        TypedStmt::CompoundAssign { target, .. } => assigned_name(target),
        TypedStmt::If { branches, else_branch, .. } => reassigned_branches(branches@) + match else_branch {
            Some(b) => reassigned_stmts(b.stmts@),
            None => Seq::empty(),
        },
        TypedStmt::While { body, .. } => reassigned_stmts(body.stmts@),
        TypedStmt::DoWhile { body, .. } => reassigned_stmts(body.stmts@),
        TypedStmt::For { body, .. } => reassigned_stmts(body.stmts@),
        TypedStmt::TryCatch { body, handlers, finally, .. } => reassigned_stmts(body.stmts@)
            + reassigned_handlers(handlers@) + match finally {
            Some(b) => reassigned_stmts(b.stmts@),
            None => Seq::empty(),
        },
        _ => Seq::empty(),
    }
}

pub open spec fn reassigned_stmts(s: Seq<TypedStmt>) -> Seq<String>
    decreases s, 0nat,
{
    if s.len() == 0 {
        Seq::empty()
    } else {
        reassigned_stmts(s.drop_last()) + reassigned_stmt(s.last())
    }
}

pub open spec fn reassigned_branches(s: Seq<(TypedExpr, TypedBlock)>) -> Seq<String>
    decreases s, 0nat,
{
    if s.len() == 0 {
        Seq::empty()
    } else {
        reassigned_branches(s.drop_last()) + reassigned_stmts(s.last().1.stmts@)
    }
}

pub open spec fn reassigned_handlers(s: Seq<TypedCatchHandler>) -> Seq<String>
    decreases s, 0nat,
{
    if s.len() == 0 {
        Seq::empty()
    } else {
        reassigned_handlers(s.drop_last()) + reassigned_stmts(s.last().body.stmts@)
    }
}

// ---------------------------------------------------------------------------
// Warnings
// ---------------------------------------------------------------------------

/// The warning for one scope variable `(name, is_mutable, span)`, if any.
pub open spec fn var_warning(v: (String, bool, Span), reads: Seq<String>, writes: Seq<String>) -> Seq<
    AnalysisError,
> {
    if !listed(reads, v.0@) {
        seq![AnalysisError::UnusedVariable { name: v.0, span: v.2 }]
    } else if v.1 && !listed(writes, v.0@) {
        seq![AnalysisError::NeedlessMut { name: v.0, span: v.2 }]
    } else {
        Seq::empty()
    }
}

/// The warnings for the scope variables, in their order.
pub open spec fn var_warnings(vars: Seq<(String, bool, Span)>, reads: Seq<String>, writes: Seq<String>) -> Seq<
    AnalysisError,
>
    decreases vars.len(),
{
    if vars.len() == 0 {
        Seq::empty()
    } else {
        var_warnings(vars.drop_last(), reads, writes) + var_warning(vars.last(), reads, writes)
    }
}

// ---------------------------------------------------------------------------
// Collecting
// ---------------------------------------------------------------------------

/// Appends the identifiers `expr` reads to `reads`.
pub fn read_expr(expr: &TypedExpr, reads: &mut Vec<String>)
    ensures
        final(reads)@ == old(reads)@ + ident_reads(*expr),
    decreases *expr, 2nat,
{
    let ghost r0 = reads@;
    match &expr.kind {
        TypedExprKind::Ident(n) => reads.push(n.clone()),
        TypedExprKind::Call { callee, args, .. } => {
            read_expr(callee, reads);
            read_exprs(args, reads);
        },
        TypedExprKind::MethodCall { object, args, .. } => {
            read_expr(object, reads);
            read_exprs(args, reads);
        },
        TypedExprKind::StaticCall { args, .. } => read_exprs(args, reads),
        TypedExprKind::IndirectCall { fat_ptr, args } => {
            read_expr(fat_ptr, reads);
            read_exprs(args, reads);
        },
        TypedExprKind::Field { object, .. } => read_expr(object, reads),
        TypedExprKind::Index { object, index } => {
            read_expr(object, reads);
            read_expr(index, reads);
        },
        TypedExprKind::BinOp { left, right, .. } => {
            read_expr(left, reads);
            read_expr(right, reads);
        },
        TypedExprKind::UnOp { operand, .. } => read_expr(operand, reads),
        TypedExprKind::Unwrap(x) => read_expr(x, reads),
        TypedExprKind::As { expr: x, .. } => read_expr(x, reads),
        TypedExprKind::Tuple(es) => read_exprs(es, reads),
        TypedExprKind::Array(es) => read_exprs(es, reads),
        TypedExprKind::StructLiteral { fields, .. } => read_fields(fields, reads),
        TypedExprKind::Match { scrutinee, arms } => {
            read_expr(scrutinee, reads);
            read_arms(arms, reads);
        },
        TypedExprKind::Closure { body, .. } => match body {
            TypedClosureBody::Expr(x) => read_expr(x, reads),
            TypedClosureBody::Block(b) => read_block(b, reads),
        },
        TypedExprKind::Spawn(x) => read_expr(x, reads),
        TypedExprKind::Try(x) => read_expr(x, reads),
        TypedExprKind::Ignore(x) => read_expr(x, reads),
        TypedExprKind::Implements { expr: x, .. } => read_expr(x, reads),
        TypedExprKind::TypeName { expr: x } => read_expr(x, reads),
        TypedExprKind::Ref { expr: x, .. } => read_expr(x, reads),
        TypedExprKind::Gen { body } => read_block(body, reads),
        TypedExprKind::GenSplice(x) => read_expr(x, reads),
        TypedExprKind::Block(stmts) => read_stmts(stmts, reads),
        TypedExprKind::Str(segs) => read_segs(segs, reads),
        TypedExprKind::BoundMethod { object, .. } => read_expr(object, reads),
        _ => {},
    }
    assert(reads@ =~= r0 + ident_reads(*expr));
}

fn read_arm(arm: &TypedMatchArm, reads: &mut Vec<String>)
    ensures
        final(reads)@ == old(reads)@ + ident_reads_arm(*arm),
    decreases *arm, 1nat,
{
    let ghost r0 = reads@;
    match &arm.guard {
        Some(g) => read_expr(g, reads),
        None => {},
    }
    read_expr(&arm.body, reads);
    assert(reads@ =~= r0 + ident_reads_arm(*arm));
}

fn read_seg(seg: &TypedStringSegment, reads: &mut Vec<String>)
    ensures
        final(reads)@ == old(reads)@ + ident_reads_seg(*seg),
    decreases *seg, 1nat,
{
    let ghost r0 = reads@;
    match seg {
        TypedStringSegment::Interp(e) => read_expr(e, reads),
        TypedStringSegment::Text(_) => {},
    }
    assert(reads@ =~= r0 + ident_reads_seg(*seg));
}

fn read_opt(e: &Option<TypedExpr>, reads: &mut Vec<String>)
    ensures
        final(reads)@ == old(reads)@ + ident_reads_opt(*e),
    decreases *e, 1nat,
{
    let ghost r0 = reads@;
    match e {
        Some(x) => read_expr(x, reads),
        None => {},
    }
    assert(reads@ =~= r0 + ident_reads_opt(*e));
}

/// Appends the identifiers the statements of `block` read to `reads`.
fn read_block(block: &TypedBlock, reads: &mut Vec<String>)
    ensures
        final(reads)@ == old(reads)@ + ident_reads_stmts(block.stmts@),
    decreases *block, 1nat,
{
    read_stmts(&block.stmts, reads);
}

fn read_opt_block(b: &Option<TypedBlock>, reads: &mut Vec<String>)
    ensures
        final(reads)@ == old(reads)@ + ident_reads_opt_block(*b),
    decreases *b, 1nat,
{
    let ghost r0 = reads@;
    match b {
        Some(bl) => read_stmts(&bl.stmts, reads),
        None => {},
    }
    assert(reads@ =~= r0 + ident_reads_opt_block(*b));
}

/// Appends the identifiers `stmt` reads to `reads`.
pub fn read_stmt(stmt: &TypedStmt, reads: &mut Vec<String>)
    ensures
        final(reads)@ == old(reads)@ + ident_reads_stmt(*stmt),
    decreases *stmt, 1nat,
{
    let ghost r0 = reads@;
    match stmt {
        TypedStmt::VarDecl { value, .. } => read_expr(value, reads),
        TypedStmt::Assign { target, value, .. } => {
            match &target.kind {
                TypedExprKind::Ident(_) => {},
                _ => read_expr(target, reads),
            }
            read_expr(value, reads);
        },
        TypedStmt::CompoundAssign { target, rhs, .. } => {
            read_expr(target, reads);
            read_expr(rhs, reads);
        },
        TypedStmt::Return { value, .. } => read_opt(value, reads),
        TypedStmt::Raise { value, .. } => read_opt(value, reads),
        TypedStmt::Abandon { message, .. } => read_opt(message, reads),
        TypedStmt::If { branches, else_branch, .. } => {
            read_branches(branches, reads);
            read_opt_block(else_branch, reads);
        },
        TypedStmt::While { cond, body, .. } => {
            read_expr(cond, reads);
            read_stmts(&body.stmts, reads);
        },
        TypedStmt::DoWhile { body, cond, .. } => {
            read_stmts(&body.stmts, reads);
            read_expr(cond, reads);
        },
        TypedStmt::For { iterable, body, .. } => {
            read_expr(iterable, reads);
            read_stmts(&body.stmts, reads);
        },
        TypedStmt::TryCatch { body, handlers, finally, .. } => {
            read_stmts(&body.stmts, reads);
            read_handlers(handlers, reads);
            read_opt_block(finally, reads);
        },
        TypedStmt::FnDef(_) => {},
        TypedStmt::Expr(e) => read_expr(e, reads),
        TypedStmt::Break(_) => {},
        TypedStmt::Continue(_) => {},
    }
    assert(reads@ =~= r0 + ident_reads_stmt(*stmt));
}

fn read_exprs(v: &Vec<TypedExpr>, reads: &mut Vec<String>)
    ensures
        final(reads)@ == old(reads)@ + ident_reads_exprs(v@),
    decreases v@, 0nat,
{
    let ghost r0 = reads@;
    let mut i: usize = 0;
    assert(r0 + ident_reads_exprs(v@.take(0)) =~= r0);
    while i < v.len()
        invariant
            i <= v@.len(),
            reads@ == r0 + ident_reads_exprs(v@.take(i as int)),
        decreases v.len() - i,
    {
        proof {
            assert(decreases_to!(v@ => v@[i as int]));
            assert(v@.take(i + 1).drop_last() =~= v@.take(i as int));
            assert(v@.take(i + 1).last() == v@[i as int]);
        }
        read_expr(&v[i], reads);
        assert(reads@ =~= r0 + ident_reads_exprs(v@.take(i + 1)));
        i += 1;
    }
    assert(v@.take(v@.len() as int) =~= v@);
}

fn read_fields(v: &Vec<(String, TypedExpr)>, reads: &mut Vec<String>)
    ensures
        final(reads)@ == old(reads)@ + ident_reads_fields(v@),
    decreases v@, 0nat,
{
    let ghost r0 = reads@;
    let mut i: usize = 0;
    assert(r0 + ident_reads_fields(v@.take(0)) =~= r0);
    while i < v.len()
        invariant
            i <= v@.len(),
            reads@ == r0 + ident_reads_fields(v@.take(i as int)),
        decreases v.len() - i,
    {
        proof {
            assert(decreases_to!(v@ => v@[i as int]));
            assert(v@.take(i + 1).drop_last() =~= v@.take(i as int));
            assert(v@.take(i + 1).last() == v@[i as int]);
        }
        read_expr(&v[i].1, reads);
        assert(reads@ =~= r0 + ident_reads_fields(v@.take(i + 1)));
        i += 1;
    }
    assert(v@.take(v@.len() as int) =~= v@);
}

fn read_arms(v: &Vec<TypedMatchArm>, reads: &mut Vec<String>)
    ensures
        final(reads)@ == old(reads)@ + ident_reads_arms(v@),
    decreases v@, 0nat,
{
    let ghost r0 = reads@;
    let mut i: usize = 0;
    assert(r0 + ident_reads_arms(v@.take(0)) =~= r0);
    while i < v.len()
        invariant
            i <= v@.len(),
            reads@ == r0 + ident_reads_arms(v@.take(i as int)),
        decreases v.len() - i,
    {
        proof {
            assert(decreases_to!(v@ => v@[i as int]));
            assert(v@.take(i + 1).drop_last() =~= v@.take(i as int));
            assert(v@.take(i + 1).last() == v@[i as int]);
        }
        read_arm(&v[i], reads);
        assert(reads@ =~= r0 + ident_reads_arms(v@.take(i + 1)));
        i += 1;
    }
    assert(v@.take(v@.len() as int) =~= v@);
}

fn read_segs(v: &Vec<TypedStringSegment>, reads: &mut Vec<String>)
    ensures
        final(reads)@ == old(reads)@ + ident_reads_segs(v@),
    decreases v@, 0nat,
{
    let ghost r0 = reads@;
    let mut i: usize = 0;
    assert(r0 + ident_reads_segs(v@.take(0)) =~= r0);
    while i < v.len()
        invariant
            i <= v@.len(),
            reads@ == r0 + ident_reads_segs(v@.take(i as int)),
        decreases v.len() - i,
    {
        proof {
            assert(decreases_to!(v@ => v@[i as int]));
            assert(v@.take(i + 1).drop_last() =~= v@.take(i as int));
            assert(v@.take(i + 1).last() == v@[i as int]);
        }
        read_seg(&v[i], reads);
        assert(reads@ =~= r0 + ident_reads_segs(v@.take(i + 1)));
        i += 1;
    }
    assert(v@.take(v@.len() as int) =~= v@);
}

fn read_stmts(v: &Vec<TypedStmt>, reads: &mut Vec<String>)
    ensures
        final(reads)@ == old(reads)@ + ident_reads_stmts(v@),
    decreases v@, 0nat,
{
    let ghost r0 = reads@;
    let mut i: usize = 0;
    assert(r0 + ident_reads_stmts(v@.take(0)) =~= r0);
    while i < v.len()
        invariant
            i <= v@.len(),
            reads@ == r0 + ident_reads_stmts(v@.take(i as int)),
        decreases v.len() - i,
    {
        proof {
            assert(decreases_to!(v@ => v@[i as int]));
            assert(v@.take(i + 1).drop_last() =~= v@.take(i as int));
            assert(v@.take(i + 1).last() == v@[i as int]);
        }
        read_stmt(&v[i], reads);
        assert(reads@ =~= r0 + ident_reads_stmts(v@.take(i + 1)));
        i += 1;
    }
    assert(v@.take(v@.len() as int) =~= v@);
}

fn read_branches(v: &Vec<(TypedExpr, TypedBlock)>, reads: &mut Vec<String>)
    ensures
        final(reads)@ == old(reads)@ + ident_reads_branches(v@),
    decreases v@, 0nat,
{
    let ghost r0 = reads@;
    let mut i: usize = 0;
    assert(r0 + ident_reads_branches(v@.take(0)) =~= r0);
    while i < v.len()
        invariant
            i <= v@.len(),
            reads@ == r0 + ident_reads_branches(v@.take(i as int)),
        decreases v.len() - i,
    {
        proof {
            assert(decreases_to!(v@ => v@[i as int]));
            assert(v@.take(i + 1).drop_last() =~= v@.take(i as int));
            assert(v@.take(i + 1).last() == v@[i as int]);
        }
        read_expr(&v[i].0, reads);
        read_stmts(&v[i].1.stmts, reads);
        assert(reads@ =~= r0 + ident_reads_branches(v@.take(i + 1)));
        i += 1;
    }
    assert(v@.take(v@.len() as int) =~= v@);
}

fn read_handlers(v: &Vec<TypedCatchHandler>, reads: &mut Vec<String>)
    ensures
        final(reads)@ == old(reads)@ + ident_reads_handlers(v@),
    decreases v@, 0nat,
{
    let ghost r0 = reads@;
    let mut i: usize = 0;
    assert(r0 + ident_reads_handlers(v@.take(0)) =~= r0);
    while i < v.len()
        invariant
            i <= v@.len(),
            reads@ == r0 + ident_reads_handlers(v@.take(i as int)),
        decreases v.len() - i,
    {
        proof {
            assert(decreases_to!(v@ => v@[i as int]));
            assert(v@.take(i + 1).drop_last() =~= v@.take(i as int));
            assert(v@.take(i + 1).last() == v@[i as int]);
        }
        read_stmts(&v[i].body.stmts, reads);
        assert(reads@ =~= r0 + ident_reads_handlers(v@.take(i + 1)));
        i += 1;
    }
    assert(v@.take(v@.len() as int) =~= v@);
}

fn write_target(target: &TypedExpr, writes: &mut Vec<String>)
    ensures
        final(writes)@ == old(writes)@ + assigned_name(*target),
{
    match &target.kind {
        TypedExprKind::Ident(n) => writes.push(n.clone()),
        _ => {
            assert(writes@ =~= old(writes)@ + assigned_name(*target));
        },
    }
}

/// Appends the plain variables `stmt` assigns to `writes`.
pub fn write_stmt(stmt: &TypedStmt, writes: &mut Vec<String>)
    ensures
        final(writes)@ == old(writes)@ + reassigned_stmt(*stmt),
    decreases *stmt, 1nat,
{
    let ghost w0 = writes@;
    match stmt {
        TypedStmt::Assign { target, .. } => write_target(target, writes),
        TypedStmt::CompoundAssign { target, .. } => write_target(target, writes),
        TypedStmt::If { branches, else_branch, .. } => {
            write_branches(branches, writes);
            match else_branch {
                Some(b) => write_stmts(&b.stmts, writes),
                None => {},
            }
        },
        TypedStmt::While { body, .. } => write_stmts(&body.stmts, writes),
        TypedStmt::DoWhile { body, .. } => write_stmts(&body.stmts, writes),
        TypedStmt::For { body, .. } => write_stmts(&body.stmts, writes),
        TypedStmt::TryCatch { body, handlers, finally, .. } => {
            write_stmts(&body.stmts, writes);
            write_handlers(handlers, writes);
            match finally {
                Some(b) => write_stmts(&b.stmts, writes),
                None => {},
            }
        },
        _ => {},
    }
    assert(writes@ =~= w0 + reassigned_stmt(*stmt));
}

fn write_stmts(v: &Vec<TypedStmt>, writes: &mut Vec<String>)
    ensures
        final(writes)@ == old(writes)@ + reassigned_stmts(v@),
    decreases v@, 0nat,
{
    let ghost w0 = writes@;
    let mut i: usize = 0;
    assert(w0 + reassigned_stmts(v@.take(0)) =~= w0);
    while i < v.len()
        invariant
            i <= v@.len(),
            writes@ == w0 + reassigned_stmts(v@.take(i as int)),
        decreases v.len() - i,
    {
        proof {
            assert(decreases_to!(v@ => v@[i as int]));
            assert(v@.take(i + 1).drop_last() =~= v@.take(i as int));
            assert(v@.take(i + 1).last() == v@[i as int]);
        }
        write_stmt(&v[i], writes);
        assert(writes@ =~= w0 + reassigned_stmts(v@.take(i + 1)));
        i += 1;
    }
    assert(v@.take(v@.len() as int) =~= v@);
}

fn write_branches(v: &Vec<(TypedExpr, TypedBlock)>, writes: &mut Vec<String>)
    ensures
        final(writes)@ == old(writes)@ + reassigned_branches(v@),
    decreases v@, 0nat,
{
    let ghost w0 = writes@;
    let mut i: usize = 0;
    assert(w0 + reassigned_branches(v@.take(0)) =~= w0);
    while i < v.len()
        invariant
            i <= v@.len(),
            writes@ == w0 + reassigned_branches(v@.take(i as int)),
        decreases v.len() - i,
    {
        proof {
            assert(decreases_to!(v@ => v@[i as int]));
            assert(v@.take(i + 1).drop_last() =~= v@.take(i as int));
            assert(v@.take(i + 1).last() == v@[i as int]);
        }
        write_stmts(&v[i].1.stmts, writes);
        assert(writes@ =~= w0 + reassigned_branches(v@.take(i + 1)));
        i += 1;
    }
    assert(v@.take(v@.len() as int) =~= v@);
}

fn write_handlers(v: &Vec<TypedCatchHandler>, writes: &mut Vec<String>)
    ensures
        final(writes)@ == old(writes)@ + reassigned_handlers(v@),
    decreases v@, 0nat,
{
    let ghost w0 = writes@;
    let mut i: usize = 0;
    assert(w0 + reassigned_handlers(v@.take(0)) =~= w0);
    while i < v.len()
        invariant
            i <= v@.len(),
            writes@ == w0 + reassigned_handlers(v@.take(i as int)),
        decreases v.len() - i,
    {
        proof {
            assert(decreases_to!(v@ => v@[i as int]));
            assert(v@.take(i + 1).drop_last() =~= v@.take(i as int));
            assert(v@.take(i + 1).last() == v@[i as int]);
        }
        write_stmts(&v[i].body.stmts, writes);
        assert(writes@ =~= w0 + reassigned_handlers(v@.take(i + 1)));
        i += 1;
    }
    assert(v@.take(v@.len() as int) =~= v@);
}

/// The identifiers read anywhere in `stmts`, in traversal order.
pub fn collect_ident_reads(stmts: &Vec<TypedStmt>) -> (r: Vec<String>)
    ensures
        r@ == ident_reads_stmts(stmts@),
{
    let mut reads: Vec<String> = Vec::new();
    read_stmts(stmts, &mut reads);
    assert(reads@ =~= ident_reads_stmts(stmts@));
    reads
}

/// The plain variables assigned anywhere in `stmts`, in traversal order.
pub fn collect_reassigned_names(stmts: &Vec<TypedStmt>) -> (r: Vec<String>)
    ensures
        r@ == reassigned_stmts(stmts@),
{
    let mut writes: Vec<String> = Vec::new();
    write_stmts(stmts, &mut writes);
    assert(writes@ =~= reassigned_stmts(stmts@));
    writes
}

/// Appends a warning for each variable of the innermost scope that `stmts` never read
/// (unused), or that is mutable and read but never reassigned (needless `mut`).
pub fn emit_unused_var_warnings(env: &Env, stmts: &Vec<TypedStmt>, errors: &mut Vec<AnalysisError>)
    requires
        env.wf(),
    ensures
        final(errors)@ == old(errors)@ + var_warnings(
            scope_vars(env.current_entries()),
            ident_reads_stmts(stmts@),
            reassigned_stmts(stmts@),
        ),
{
    let scope_vars = env.current_scope_vars();
    let ghost e0 = errors@;
    if scope_vars.len() == 0 {
        assert(errors@ =~= e0 + var_warnings(scope_vars@, ident_reads_stmts(stmts@), reassigned_stmts(stmts@)));
        return;
    }
    let reads = collect_ident_reads(stmts);
    let writes = collect_reassigned_names(stmts);
    let mut i: usize = 0;
    while i < scope_vars.len()
        invariant
            i <= scope_vars@.len(),
            errors@ == e0 + var_warnings(scope_vars@.take(i as int), reads@, writes@),
        decreases scope_vars.len() - i,
    {
        proof {
            assert(scope_vars@.take(i + 1).drop_last() =~= scope_vars@.take(i as int));
            assert(scope_vars@.take(i + 1).last() == scope_vars@[i as int]);
        }
        let name = &scope_vars[i].0;
        let is_mut = scope_vars[i].1;
        let span = scope_vars[i].2;
        if !has_name(&reads, name) {
            errors.push(AnalysisError::UnusedVariable { name: name.clone(), span });
        } else if is_mut && !has_name(&writes, name) {
            errors.push(AnalysisError::NeedlessMut { name: name.clone(), span });
        }
        assert(errors@ =~= e0 + var_warnings(scope_vars@.take(i + 1), reads@, writes@));
        i += 1;
    }
    assert(scope_vars@.take(scope_vars@.len() as int) =~= scope_vars@);
}

/// Whether a statement always leaves its block: return, break, continue, raise or
/// abandon.
pub fn is_definite_terminator(ts: &TypedStmt) -> (r: bool)
    ensures
        r == (ts is Return || ts is Break || ts is Continue || ts is Raise || ts is Abandon),
{
    match ts {
        TypedStmt::Return { .. } => true,
        TypedStmt::Break(_) => true,
        TypedStmt::Continue(_) => true,
        TypedStmt::Raise { .. } => true,
        TypedStmt::Abandon { .. } => true,
        _ => false,
    }
}

/// The source span of a statement.
pub open spec fn stmt_span(ts: TypedStmt) -> Span {
    match ts {
        TypedStmt::VarDecl { span, .. } => span,
        TypedStmt::Assign { span, .. } => span,
        TypedStmt::CompoundAssign { span, .. } => span,
        TypedStmt::Return { span, .. } => span,
        TypedStmt::Raise { span, .. } => span,
        TypedStmt::Abandon { span, .. } => span,
        TypedStmt::If { span, .. } => span,
        TypedStmt::While { span, .. } => span,
        TypedStmt::DoWhile { span, .. } => span,
        TypedStmt::For { span, .. } => span,
        TypedStmt::TryCatch { span, .. } => span,
        TypedStmt::Break(s) => s,
        TypedStmt::Continue(s) => s,
        TypedStmt::FnDef(f) => f.span,
        TypedStmt::Expr(e) => e.span,
    }
}

/// The source span of a statement.
pub fn typed_stmt_span(ts: &TypedStmt) -> (r: Span)
    ensures
        r == stmt_span(*ts),
{
    match ts {
        TypedStmt::VarDecl { span, .. } => *span,
        TypedStmt::Assign { span, .. } => *span,
        TypedStmt::CompoundAssign { span, .. } => *span,
        TypedStmt::Return { span, .. } => *span,
        TypedStmt::Raise { span, .. } => *span,
        TypedStmt::Abandon { span, .. } => *span,
        TypedStmt::If { span, .. } => *span,
        TypedStmt::While { span, .. } => *span,
        TypedStmt::DoWhile { span, .. } => *span,
        TypedStmt::For { span, .. } => *span,
        TypedStmt::TryCatch { span, .. } => *span,
        TypedStmt::Break(s) => *s,
        TypedStmt::Continue(s) => *s,
        TypedStmt::FnDef(f) => f.span,
        TypedStmt::Expr(e) => e.span,
    }
}

} // verus!
