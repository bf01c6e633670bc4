use vstd::prelude::*;
use crate::ast::HookName;
use crate::names::{distinct_names, has_name, lemma_distinct_push, lemma_listed_push, listed, name_set};
use crate::typed_ast::{
    TypedBlock, TypedCatchHandler, TypedClosureBody, TypedExpr, TypedExprKind, TypedFile,
    TypedFnDef, TypedHookDef, TypedImplBlock, TypedItem, TypedMatchArm, TypedStmt,
    TypedStringSegment,
};

verus! {

// Impurity: a function is impure when it is declared so, or when its body calls an
// impure function, calls through a function pointer or spawns.

/// The key under which a hook is known: its name, or `__hook_op_` and its operator.
pub open spec fn hook_key_spec(n: HookName) -> Seq<char> {
    match n {
        HookName::Named(s) => s@,
        HookName::Op(s) => "__hook_op_"@ + s@,
    }
}

// ---------------------------------------------------------------------------
// Touching an impure function
// ---------------------------------------------------------------------------

/// Whether evaluating an expression may reach an impure function in `s`.
pub open spec fn touch_expr(e: TypedExpr, s: Set<Seq<char>>) -> bool
    decreases e, 1nat,
{
    match e.kind {
        TypedExprKind::Call { fn_name, callee, args, .. } => s.contains(fn_name@) || touch_expr(
            *callee,
            s,
        ) || touch_exprs(args@, s),
        TypedExprKind::MethodCall { object, method_fn, args } => s.contains(method_fn@) || touch_expr(
            *object,
            s,
        ) || touch_exprs(args@, s),
        TypedExprKind::StaticCall { method_fn, args } => s.contains(method_fn@) || touch_exprs(args@, s),
        TypedExprKind::IndirectCall { .. } => true,
        TypedExprKind::Spawn(_) => true,
        TypedExprKind::BinOp { left, right, .. } => touch_expr(*left, s) || touch_expr(*right, s),
        TypedExprKind::UnOp { operand, .. } => touch_expr(*operand, s),
        TypedExprKind::Field { object, .. } => touch_expr(*object, s),
        TypedExprKind::Index { object, index } => touch_expr(*object, s) || touch_expr(*index, s),
        TypedExprKind::Tuple(es) => touch_exprs(es@, s),
        TypedExprKind::Array(es) => touch_exprs(es@, s),
        TypedExprKind::StructLiteral { fields, .. } => touch_fields(fields@, s),
        TypedExprKind::Unwrap(x) => touch_expr(*x, s),
        TypedExprKind::GenSplice(x) => touch_expr(*x, s),
        TypedExprKind::As { expr, .. } => touch_expr(*expr, s),
        TypedExprKind::Ref { expr, .. } => touch_expr(*expr, s),
        TypedExprKind::Try(x) => touch_expr(*x, s),
        TypedExprKind::Ignore(x) => touch_expr(*x, s),
        TypedExprKind::Implements { expr, .. } => touch_expr(*expr, s),
        TypedExprKind::TypeName { expr } => touch_expr(*expr, s),
        TypedExprKind::Match { scrutinee, arms } => touch_expr(*scrutinee, s) || touch_arms(arms@, s),
        TypedExprKind::Str(segs) => touch_segs(segs@, s),
        TypedExprKind::Closure { body, .. } => match body {
            TypedClosureBody::Expr(x) => touch_expr(*x, s),
            TypedClosureBody::Block(b) => touch_stmts(b.stmts@, s),
        },
        TypedExprKind::Gen { body } => touch_stmts(body.stmts@, s),
        TypedExprKind::Block(stmts) => touch_stmts(stmts@, s),
        TypedExprKind::BoundMethod { object, .. } => touch_expr(*object, s),
        _ => false,
    }
}

pub open spec fn touch_exprs(v: Seq<TypedExpr>, s: Set<Seq<char>>) -> bool
    decreases v, 0nat,
{
    if v.len() == 0 {
        false
    } else {
        touch_exprs(v.drop_last(), s) || touch_expr(v.last(), s)
    }
}

pub open spec fn touch_fields(v: Seq<(String, TypedExpr)>, s: Set<Seq<char>>) -> bool
    decreases v, 0nat,
{
    if v.len() == 0 {
        false
    } else {
        touch_fields(v.drop_last(), s) || touch_expr(v.last().1, s)
    }
}

pub open spec fn touch_arm(a: TypedMatchArm, s: Set<Seq<char>>) -> bool
    decreases a, 0nat,
{
    (match a.guard {
        Some(g) => touch_expr(g, s),
        None => false,
    }) || touch_expr(a.body, s)
}

pub open spec fn touch_arms(v: Seq<TypedMatchArm>, s: Set<Seq<char>>) -> bool
    decreases v, 0nat,
{
    if v.len() == 0 {
        false
    } else {
        touch_arms(v.drop_last(), s) || touch_arm(v.last(), s)
    }
}

pub open spec fn touch_seg(g: TypedStringSegment, s: Set<Seq<char>>) -> bool
    decreases g, 0nat,
{
    match g {
        TypedStringSegment::Interp(e) => touch_expr(e, s),
        TypedStringSegment::Text(_) => false,
    }
}

pub open spec fn touch_segs(v: Seq<TypedStringSegment>, s: Set<Seq<char>>) -> bool
    decreases v, 0nat,
{
    if v.len() == 0 {
        false
    } else {
        touch_segs(v.drop_last(), s) || touch_seg(v.last(), s)
    }
}

pub open spec fn touch_opt(o: Option<TypedExpr>, s: Set<Seq<char>>) -> bool
    decreases o, 0nat,
{
    match o {
        Some(e) => touch_expr(e, s),
        None => false,
    }
}

pub open spec fn touch_opt_block(o: Option<TypedBlock>, s: Set<Seq<char>>) -> bool
    decreases o, 0nat,
{
    match o {
        Some(b) => touch_stmts(b.stmts@, s),
        None => false,
    }
}

pub open spec fn touch_branches(v: Seq<(TypedExpr, TypedBlock)>, s: Set<Seq<char>>) -> bool
    decreases v, 0nat,
{
    if v.len() == 0 {
        false
    } else {
        touch_branches(v.drop_last(), s) || touch_expr(v.last().0, s) || touch_stmts(
            v.last().1.stmts@,
            s,
        )
    }
}

pub open spec fn touch_handlers(v: Seq<TypedCatchHandler>, s: Set<Seq<char>>) -> bool
    decreases v, 0nat,
{
    if v.len() == 0 {
        false
    } else {
        touch_handlers(v.drop_last(), s) || touch_stmts(v.last().body.stmts@, s)
    }
}

/// Whether executing a statement may reach an impure function in `s`.
pub open spec fn touch_stmt(st: TypedStmt, s: Set<Seq<char>>) -> bool
    decreases st, 0nat,
{
    match st {
        TypedStmt::VarDecl { value, .. } => touch_expr(value, s),
        TypedStmt::Assign { target, value, .. } => touch_expr(value, s) || touch_expr(target, s),
        TypedStmt::CompoundAssign { target, rhs, .. } => touch_expr(rhs, s) || touch_expr(target, s),
        TypedStmt::Return { value, .. } => touch_opt(value, s),
        TypedStmt::Raise { value, .. } => touch_opt(value, s),
        TypedStmt::Abandon { message, .. } => touch_opt(message, s),
        TypedStmt::Expr(e) => touch_expr(e, s),
        TypedStmt::If { branches, else_branch, .. } => touch_branches(branches@, s) || touch_opt_block(
            else_branch,
            s,
        ),
        TypedStmt::While { cond, body, .. } => touch_expr(cond, s) || touch_stmts(body.stmts@, s),
        TypedStmt::DoWhile { body, cond, .. } => touch_stmts(body.stmts@, s) || touch_expr(cond, s),
        TypedStmt::For { iterable, body, .. } => touch_expr(iterable, s) || touch_stmts(body.stmts@, s),
        TypedStmt::TryCatch { body, handlers, finally, .. } => touch_stmts(body.stmts@, s)
            || touch_handlers(handlers@, s) || touch_opt_block(finally, s),
        TypedStmt::FnDef(f) => touch_stmts(f.body.stmts@, s),
        TypedStmt::Break(_) => false,
        TypedStmt::Continue(_) => false,
    }
}

pub open spec fn touch_stmts(v: Seq<TypedStmt>, s: Set<Seq<char>>) -> bool
    decreases v, 0nat,
{
    if v.len() == 0 {
        false
    } else {
        touch_stmts(v.drop_last(), s) || touch_stmt(v.last(), s)
    }
}

// ---------------------------------------------------------------------------
// Executable tests
// ---------------------------------------------------------------------------

fn is_impure_name(impure: &Vec<String>, n: &String) -> (r: bool)
    ensures
        r == name_set(impure@).contains(n@),
{
    has_name(impure, n)
}

fn expr_touches_impure(expr: &TypedExpr, impure: &Vec<String>) -> (r: bool)
    ensures
        r == touch_expr(*expr, name_set(impure@)),
    decreases *expr, 2nat,
{
    match &expr.kind {
        TypedExprKind::Call { fn_name, callee, args, .. } => {
            is_impure_name(impure, fn_name) || expr_touches_impure(callee, impure)
                || exprs_touch_impure(args, impure)
        },
        TypedExprKind::MethodCall { object, method_fn, args } => {
            is_impure_name(impure, method_fn) || expr_touches_impure(object, impure)
                || exprs_touch_impure(args, impure)
        },
        TypedExprKind::StaticCall { method_fn, args } => {
            is_impure_name(impure, method_fn) || exprs_touch_impure(args, impure)
        },
        TypedExprKind::IndirectCall { .. } => true,
        TypedExprKind::Spawn(_) => true,
        TypedExprKind::BinOp { left, right, .. } => {
            expr_touches_impure(left, impure) || expr_touches_impure(right, impure)
        },
        TypedExprKind::UnOp { operand, .. } => expr_touches_impure(operand, impure),
        TypedExprKind::Field { object, .. } => expr_touches_impure(object, impure),
        TypedExprKind::Index { object, index } => {
            expr_touches_impure(object, impure) || expr_touches_impure(index, impure)
        },
        TypedExprKind::Tuple(es) => exprs_touch_impure(es, impure),
        TypedExprKind::Array(es) => exprs_touch_impure(es, impure),
        TypedExprKind::StructLiteral { fields, .. } => fields_touch_impure(fields, impure),
        TypedExprKind::Unwrap(x) => expr_touches_impure(x, impure),
        TypedExprKind::GenSplice(x) => expr_touches_impure(x, impure),
        TypedExprKind::As { expr: x, .. } => expr_touches_impure(x, impure),
        TypedExprKind::Ref { expr: x, .. } => expr_touches_impure(x, impure),
        TypedExprKind::Try(x) => expr_touches_impure(x, impure),
        TypedExprKind::Ignore(x) => expr_touches_impure(x, impure),
        TypedExprKind::Implements { expr: x, .. } => expr_touches_impure(x, impure),
        TypedExprKind::TypeName { expr: x } => expr_touches_impure(x, impure),
        TypedExprKind::Match { scrutinee, arms } => {
            expr_touches_impure(scrutinee, impure) || arms_touch_impure(arms, impure)
        },
        TypedExprKind::Str(segs) => segs_touch_impure(segs, impure),
        TypedExprKind::Closure { body, .. } => match body {
            TypedClosureBody::Expr(x) => expr_touches_impure(x, impure),
            TypedClosureBody::Block(b) => stmts_touch_impure(&b.stmts, impure),
        },
        TypedExprKind::Gen { body } => stmts_touch_impure(&body.stmts, impure),
        TypedExprKind::Block(stmts) => stmts_touch_impure(stmts, impure),
        TypedExprKind::BoundMethod { object, .. } => expr_touches_impure(object, impure),
        _ => false,
    }
}

fn arm_touches_impure(arm: &TypedMatchArm, impure: &Vec<String>) -> (r: bool)
    ensures
        r == touch_arm(*arm, name_set(impure@)),
    decreases *arm, 1nat,
{
    let g = match &arm.guard {
        Some(g) => expr_touches_impure(g, impure),
        None => false,
    };
    g || expr_touches_impure(&arm.body, impure)
}

fn seg_touches_impure(seg: &TypedStringSegment, impure: &Vec<String>) -> (r: bool)
    ensures
        r == touch_seg(*seg, name_set(impure@)),
    decreases *seg, 1nat,
{
    match seg {
        TypedStringSegment::Interp(e) => expr_touches_impure(e, impure),
        TypedStringSegment::Text(_) => false,
    }
}

fn opt_touches_impure(o: &Option<TypedExpr>, impure: &Vec<String>) -> (r: bool)
    ensures
        r == touch_opt(*o, name_set(impure@)),
    decreases *o, 1nat,
{
    match o {
        Some(e) => expr_touches_impure(e, impure),
        None => false,
    }
}

fn opt_block_touches_impure(o: &Option<TypedBlock>, impure: &Vec<String>) -> (r: bool)
    ensures
        r == touch_opt_block(*o, name_set(impure@)),
    decreases *o, 1nat,
{
    match o {
        Some(b) => stmts_touch_impure(&b.stmts, impure),
        None => false,
    }
}

fn stmt_touches_impure(stmt: &TypedStmt, impure: &Vec<String>) -> (r: bool)
    ensures
        r == touch_stmt(*stmt, name_set(impure@)),
    decreases *stmt, 1nat,
{
    match stmt {
        TypedStmt::VarDecl { value, .. } => expr_touches_impure(value, impure),
        TypedStmt::Assign { target, value, .. } => {
            expr_touches_impure(value, impure) || expr_touches_impure(target, impure)
        },
        TypedStmt::CompoundAssign { target, rhs, .. } => {
            expr_touches_impure(rhs, impure) || expr_touches_impure(target, impure)
        },
        TypedStmt::Return { value, .. } => opt_touches_impure(value, impure),
        TypedStmt::Raise { value, .. } => opt_touches_impure(value, impure),
        TypedStmt::Abandon { message, .. } => opt_touches_impure(message, impure),
        TypedStmt::Expr(e) => expr_touches_impure(e, impure),
        TypedStmt::If { branches, else_branch, .. } => {
            branches_touch_impure(branches, impure) || opt_block_touches_impure(else_branch, impure)
        },
        TypedStmt::While { cond, body, .. } => {
            expr_touches_impure(cond, impure) || stmts_touch_impure(&body.stmts, impure)
        },
        TypedStmt::DoWhile { body, cond, .. } => {
            stmts_touch_impure(&body.stmts, impure) || expr_touches_impure(cond, impure)
        },
        TypedStmt::For { iterable, body, .. } => {
            expr_touches_impure(iterable, impure) || stmts_touch_impure(&body.stmts, impure)
        },
        TypedStmt::TryCatch { body, handlers, finally, .. } => {
            stmts_touch_impure(&body.stmts, impure) || handlers_touch_impure(handlers, impure)
                || opt_block_touches_impure(finally, impure)
        },
        TypedStmt::FnDef(f) => stmts_touch_impure(&f.body.stmts, impure),
        TypedStmt::Break(_) => false,
        TypedStmt::Continue(_) => false,
    }
}

fn exprs_touch_impure(v: &Vec<TypedExpr>, impure: &Vec<String>) -> (r: bool)
    ensures
        r == touch_exprs(v@, name_set(impure@)),
    decreases v@, 0nat,
{
    let mut i: usize = 0;
    let mut acc = false;
    assert(v@.take(0) =~= Seq::<TypedExpr>::empty());
    while i < v.len()
        invariant
            i <= v@.len(),
            acc == touch_exprs(v@.take(i as int), name_set(impure@)),
        decreases v.len() - i,
    {
        proof {
            assert(decreases_to!(v@ => v@[i as int]));
            assert(v@.take(i + 1).drop_last() =~= v@.take(i as int));
            assert(v@.take(i + 1).last() == v@[i as int]);
        }
        let t = expr_touches_impure(&v[i], impure);
        acc = acc || t;
        i += 1;
    }
    assert(v@.take(v@.len() as int) =~= v@);
    acc
}

fn fields_touch_impure(v: &Vec<(String, TypedExpr)>, impure: &Vec<String>) -> (r: bool)
    ensures
        r == touch_fields(v@, name_set(impure@)),
    decreases v@, 0nat,
{
    let mut i: usize = 0;
    let mut acc = false;
    assert(v@.take(0) =~= Seq::<(String, TypedExpr)>::empty());
    while i < v.len()
        invariant
            i <= v@.len(),
            acc == touch_fields(v@.take(i as int), name_set(impure@)),
        decreases v.len() - i,
    {
        proof {
            assert(decreases_to!(v@ => v@[i as int]));
            assert(v@.take(i + 1).drop_last() =~= v@.take(i as int));
            assert(v@.take(i + 1).last() == v@[i as int]);
        }
        let t = expr_touches_impure(&v[i].1, impure);
        acc = acc || t;
        i += 1;
    }
    assert(v@.take(v@.len() as int) =~= v@);
    acc
}

fn arms_touch_impure(v: &Vec<TypedMatchArm>, impure: &Vec<String>) -> (r: bool)
    ensures
        r == touch_arms(v@, name_set(impure@)),
    decreases v@, 0nat,
{
    let mut i: usize = 0;
    let mut acc = false;
    assert(v@.take(0) =~= Seq::<TypedMatchArm>::empty());
    while i < v.len()
        invariant
            i <= v@.len(),
            acc == touch_arms(v@.take(i as int), name_set(impure@)),
        decreases v.len() - i,
    {
        proof {
            assert(decreases_to!(v@ => v@[i as int]));
            assert(v@.take(i + 1).drop_last() =~= v@.take(i as int));
            assert(v@.take(i + 1).last() == v@[i as int]);
        }
        let t = arm_touches_impure(&v[i], impure);
        acc = acc || t;
        i += 1;
    }
    assert(v@.take(v@.len() as int) =~= v@);
    acc
}

fn segs_touch_impure(v: &Vec<TypedStringSegment>, impure: &Vec<String>) -> (r: bool)
    ensures
        r == touch_segs(v@, name_set(impure@)),
    decreases v@, 0nat,
{
    let mut i: usize = 0;
    let mut acc = false;
    assert(v@.take(0) =~= Seq::<TypedStringSegment>::empty());
    while i < v.len()
        invariant
            i <= v@.len(),
            acc == touch_segs(v@.take(i as int), name_set(impure@)),
        decreases v.len() - i,
    {
        proof {
            assert(decreases_to!(v@ => v@[i as int]));
            assert(v@.take(i + 1).drop_last() =~= v@.take(i as int));
            assert(v@.take(i + 1).last() == v@[i as int]);
        }
        let t = seg_touches_impure(&v[i], impure);
        acc = acc || t;
        i += 1;
    }
    assert(v@.take(v@.len() as int) =~= v@);
    acc
}

fn stmts_touch_impure(v: &Vec<TypedStmt>, impure: &Vec<String>) -> (r: bool)
    ensures
        r == touch_stmts(v@, name_set(impure@)),
    decreases v@, 0nat,
{
    let mut i: usize = 0;
    let mut acc = false;
    assert(v@.take(0) =~= Seq::<TypedStmt>::empty());
    while i < v.len()
        invariant
            i <= v@.len(),
            acc == touch_stmts(v@.take(i as int), name_set(impure@)),
        decreases v.len() - i,
    {
        proof {
            assert(decreases_to!(v@ => v@[i as int]));
            assert(v@.take(i + 1).drop_last() =~= v@.take(i as int));
            assert(v@.take(i + 1).last() == v@[i as int]);
        }
        let t = stmt_touches_impure(&v[i], impure);
        acc = acc || t;
        i += 1;
    }
    assert(v@.take(v@.len() as int) =~= v@);
    acc
}

fn branches_touch_impure(v: &Vec<(TypedExpr, TypedBlock)>, impure: &Vec<String>) -> (r: bool)
    ensures
        r == touch_branches(v@, name_set(impure@)),
    decreases v@, 0nat,
{
    let mut i: usize = 0;
    let mut acc = false;
    assert(v@.take(0) =~= Seq::<(TypedExpr, TypedBlock)>::empty());
    while i < v.len()
        invariant
            i <= v@.len(),
            acc == touch_branches(v@.take(i as int), name_set(impure@)),
        decreases v.len() - i,
    {
        proof {
            assert(decreases_to!(v@ => v@[i as int]));
            assert(v@.take(i + 1).drop_last() =~= v@.take(i as int));
            assert(v@.take(i + 1).last() == v@[i as int]);
        }
        let t = expr_touches_impure(&v[i].0, impure) || stmts_touch_impure(&v[i].1.stmts, impure);
        acc = acc || t;
        i += 1;
    }
    assert(v@.take(v@.len() as int) =~= v@);
    acc
}

fn handlers_touch_impure(v: &Vec<TypedCatchHandler>, impure: &Vec<String>) -> (r: bool)
    ensures
        r == touch_handlers(v@, name_set(impure@)),
    decreases v@, 0nat,
{
    let mut i: usize = 0;
    let mut acc = false;
    assert(v@.take(0) =~= Seq::<TypedCatchHandler>::empty());
    while i < v.len()
        invariant
            i <= v@.len(),
            acc == touch_handlers(v@.take(i as int), name_set(impure@)),
        decreases v.len() - i,
    {
        proof {
            assert(decreases_to!(v@ => v@[i as int]));
            assert(v@.take(i + 1).drop_last() =~= v@.take(i as int));
            assert(v@.take(i + 1).last() == v@[i as int]);
        }
        let t = stmts_touch_impure(&v[i].body.stmts, impure);
        acc = acc || t;
        i += 1;
    }
    assert(v@.take(v@.len() as int) =~= v@);
    acc
}

// ---------------------------------------------------------------------------
// The transitive impure set
// ---------------------------------------------------------------------------

/// A function-like definition: its key, its body and whether it is declared impure.
pub type Entry = (Seq<char>, Seq<TypedStmt>, bool);

pub open spec fn method_entries(s: Seq<TypedFnDef>) -> Seq<Entry>
    decreases s.len(),
{
    if s.len() == 0 {
        Seq::empty()
    } else {
        method_entries(s.drop_last()).push((s.last().name@, s.last().body.stmts@, s.last().is_impure))
    }
}

pub open spec fn hook_entries(s: Seq<TypedHookDef>) -> Seq<Entry>
    decreases s.len(),
{
    if s.len() == 0 {
        Seq::empty()
    } else {
        hook_entries(s.drop_last()).push(
            (hook_key_spec(s.last().name), s.last().body.stmts@, s.last().is_impure),
        )
    }
}

pub open spec fn item_entries(item: TypedItem) -> Seq<Entry> {
    match item {
        TypedItem::Function(f) => seq![(f.name@, f.body.stmts@, f.is_impure)],
        TypedItem::ImplBlock(ib) => method_entries(ib.methods@) + hook_entries(ib.hooks@),
        _ => Seq::empty(),
    }
}

/// The functions, methods and hooks of a file, in order.
pub open spec fn entries_of(items: Seq<TypedItem>) -> Seq<Entry>
    decreases items.len(),
{
    if items.len() == 0 {
        Seq::empty()
    } else {
        entries_of(items.drop_last()) + item_entries(items.last())
    }
}

/// No later definition has the same key: this is the body the key stands for.
pub open spec fn is_last(e: Seq<Entry>, i: int) -> bool {
    forall|j: int| i < j < e.len() ==> #[trigger] e[j].0 != e[i].0
}

/// Definition `i` becomes impure in the next round.
pub open spec fn candidate(e: Seq<Entry>, s: Set<Seq<char>>, i: int) -> bool {
    &&& 0 <= i < e.len()
    &&& is_last(e, i)
    &&& !s.contains(e[i].0)
    &&& touch_stmts(e[i].1, s)
}

/// One round: add every key whose body reaches a known impure function.
pub open spec fn step(e: Seq<Entry>, s: Set<Seq<char>>) -> Set<Seq<char>> {
    s.union(Set::new(|n: Seq<char>| exists|i: int| #[trigger] candidate(e, s, i) && e[i].0 == n))
}

/// The keys declared impure.
pub open spec fn seeds(e: Seq<Entry>) -> Set<Seq<char>> {
    Set::new(|n: Seq<char>| exists|i: int| 0 <= i < e.len() && #[trigger] e[i].2 && e[i].0 == n)
}

/// The impure keys after `k` rounds.
pub open spec fn rounds(e: Seq<Entry>, k: nat) -> Set<Seq<char>>
    decreases k,
{
    if k == 0 {
        seeds(e)
    } else {
        step(e, rounds(e, (k - 1) as nat))
    }
}

/// The number of definitions whose key is not yet known to be impure.
pub open spec fn count_out(e: Seq<Entry>, s: Set<Seq<char>>) -> nat
    decreases e.len(),
{
    if e.len() == 0 {
        0
    } else {
        count_out(e.drop_last(), s) + if s.contains(e.last().0) {
            0nat
        } else {
            1nat
        }
    }
}

proof fn lemma_count_out_shrinks(e: Seq<Entry>, s: Set<Seq<char>>, t: Set<Seq<char>>)
    requires
        s.subset_of(t),
    ensures
        count_out(e, t) <= count_out(e, s),
        (exists|i: int| 0 <= i < e.len() && !s.contains(#[trigger] e[i].0) && t.contains(e[i].0))
            ==> count_out(e, t) < count_out(e, s),
    decreases e.len(),
{
    if e.len() > 0 {
        lemma_count_out_shrinks(e.drop_last(), s, t);
        if exists|i: int| 0 <= i < e.len() && !s.contains(#[trigger] e[i].0) && t.contains(e[i].0) {
            let i = choose|i: int| 0 <= i < e.len() && !s.contains(#[trigger] e[i].0) && t.contains(e[i].0);
            if i < e.len() - 1 {
                assert(e.drop_last()[i] == e[i]);
            }
        }
    }
}

fn hook_key(name: &HookName) -> (r: String)
    ensures
        r@ == hook_key_spec(*name),
{
    match name {
        HookName::Named(s) => s.clone(),
        HookName::Op(s) => {
            let mut r = String::new();
            r.append("__hook_op_");
            r.append(s.as_str());
            r
        },
    }
}

pub open spec fn entries_view<'a>(v: Seq<(String, &'a Vec<TypedStmt>, bool)>) -> Seq<Entry> {
    v.map_values(|x: (String, &'a Vec<TypedStmt>, bool)| (x.0@, x.1@, x.2))
}

fn push_entry<'a>(out: &mut Vec<(String, &'a Vec<TypedStmt>, bool)>, x: (String, &'a Vec<TypedStmt>, bool))
    ensures
        entries_view(final(out)@) == entries_view(old(out)@).push((x.0@, x.1@, x.2)),
{
    let ghost x0 = x;
    out.push(x);
    assert(entries_view(out@) =~= entries_view(old(out)@).push((x0.0@, x0.1@, x0.2)));
}

fn fn_entries<'a>(file: &'a TypedFile) -> (r: Vec<(String, &'a Vec<TypedStmt>, bool)>)
    ensures
        entries_view(r@) == entries_of(file.items@),
{
    let mut out: Vec<(String, &'a Vec<TypedStmt>, bool)> = Vec::new();
    let mut i: usize = 0;
    assert(entries_view(out@) =~= entries_of(file.items@.take(0)));
    while i < file.items.len()
        invariant
            i <= file.items@.len(),
            entries_view(out@) == entries_of(file.items@.take(i as int)),
        decreases file.items.len() - i,
    {
        proof {
            assert(file.items@.take(i + 1).drop_last() =~= file.items@.take(i as int));
        }
        let ghost before = entries_view(out@);
        match &file.items[i] {
            TypedItem::Function(f) => {
                push_entry(&mut out, (f.name.clone(), &f.body.stmts, f.is_impure));
            },
            TypedItem::ImplBlock(ib) => {
                let mut j: usize = 0;
                assert(method_entries(ib.methods@.take(0)) =~= Seq::<Entry>::empty());
                assert(before + Seq::<Entry>::empty() =~= before);
                while j < ib.methods.len()
                    invariant
                        j <= ib.methods@.len(),
                        entries_view(out@) == before + method_entries(ib.methods@.take(j as int)),
                    decreases ib.methods.len() - j,
                {
                    proof {
                        assert(ib.methods@.take(j + 1).drop_last() =~= ib.methods@.take(j as int));
                    }
                    let m = &ib.methods[j];
                    push_entry(&mut out, (m.name.clone(), &m.body.stmts, m.is_impure));
                    assert(entries_view(out@) =~= before + method_entries(ib.methods@.take(j + 1)));
                    j += 1;
                }
                assert(ib.methods@.take(ib.methods@.len() as int) =~= ib.methods@);
                let ghost mid = entries_view(out@);
                let mut k: usize = 0;
                assert(hook_entries(ib.hooks@.take(0)) =~= Seq::<Entry>::empty());
                assert(mid + Seq::<Entry>::empty() =~= mid);
                while k < ib.hooks.len()
                    invariant
                        k <= ib.hooks@.len(),
                        entries_view(out@) == mid + hook_entries(ib.hooks@.take(k as int)),
                    decreases ib.hooks.len() - k,
                {
                    proof {
                        assert(ib.hooks@.take(k + 1).drop_last() =~= ib.hooks@.take(k as int));
                    }
                    let h = &ib.hooks[k];
                    let key = hook_key(&h.name);
                    push_entry(&mut out, (key, &h.body.stmts, h.is_impure));
                    assert(entries_view(out@) =~= mid + hook_entries(ib.hooks@.take(k + 1)));
                    k += 1;
                }
                assert(ib.hooks@.take(ib.hooks@.len() as int) =~= ib.hooks@);
            },
            _ => {},
        }
        assert(entries_view(out@) =~= entries_of(file.items@.take(i + 1)));
        i += 1;
    }
    assert(file.items@.take(file.items@.len() as int) =~= file.items@);
    out
}

fn is_last_entry(entries: &Vec<(String, &Vec<TypedStmt>, bool)>, i: usize) -> (r: bool)
    requires
        i < entries@.len(),
    ensures
        r == is_last(entries_view(entries@), i as int),
{
    let ghost e = entries_view(entries@);
    let n = entries.len();
    let mut j: usize = i + 1;
    while j < n
        invariant
            i < j <= n,
            n == entries@.len(),
            e == entries_view(entries@),
            forall|m: int| i < m < j ==> #[trigger] e[m].0 != e[i as int].0,
        decreases n - j,
    {
        if entries[j].0 == entries[i].0 {
            assert(e[j as int].0 == e[i as int].0);
            return false;
        }
        j += 1;
    }
    true
}

/// The transitive set of impure function keys: the functions, methods and hooks
/// declared impure, then every one whose body reaches an impure one, until nothing
/// changes. Each key is listed once.
pub fn build_impure_set(file: &TypedFile) -> (r: Vec<String>)
    ensures
        distinct_names(r@),
        exists|k: nat| name_set(r@) == #[trigger] rounds(entries_of(file.items@), k),
        step(entries_of(file.items@), name_set(r@)) == name_set(r@),
{
    let entries = fn_entries(file);
    let ghost e = entries_of(file.items@);
    let mut impure: Vec<String> = Vec::new();
    let mut i: usize = 0;
    while i < entries.len()
        invariant
            i <= entries@.len(),
            e == entries_view(entries@),
            distinct_names(impure@),
            forall|n: Seq<char>|
                #![trigger listed(impure@, n)]
                listed(impure@, n) <==> exists|j: int| 0 <= j < i && #[trigger] e[j].2 && e[j].0 == n,
        decreases entries.len() - i,
    {
        let ghost before = impure@;
        if entries[i].2 && !has_name(&impure, &entries[i].0) {
            let n = entries[i].0.clone();
            proof {
                lemma_distinct_push(before, n);
            }
            impure.push(n);
        }
        proof {
            assert forall|n: Seq<char>|
                #![trigger listed(impure@, n)]
                listed(impure@, n) <==> exists|j: int| 0 <= j < i + 1 && #[trigger] e[j].2 && e[j].0 == n by {
                if impure@.len() > before.len() {
                    lemma_listed_push(before, impure@.last(), n);
                    assert(impure@ == before.push(impure@.last()));
                }
                if e[i as int].2 && e[i as int].0 == n {
                    assert(e[i as int].0 == entries@[i as int].0@);
                    if !listed(before, n) {
                        assert(impure@.last()@ == n);
                    }
                }
            }
        }
        i += 1;
    }
    assert(name_set(impure@) =~= seeds(e));
    let ghost mut rounds_done: nat = 0;
    loop
        invariant
            e == entries_view(entries@),
            distinct_names(impure@),
            name_set(impure@) == rounds(e, rounds_done),
        ensures
            distinct_names(impure@),
            name_set(impure@) == rounds(e, rounds_done),
            step(e, name_set(impure@)) == name_set(impure@),
        decreases count_out(e, name_set(impure@)),
    {
        let ghost s0 = name_set(impure@);
        let mut newly: Vec<String> = Vec::new();
        let mut i: usize = 0;
        while i < entries.len()
            invariant
                i <= entries@.len(),
                e == entries_view(entries@),
                s0 == name_set(impure@),
                forall|n: Seq<char>|
                    #![trigger listed(newly@, n)]
                    listed(newly@, n) <==> exists|j: int| 0 <= j < i && #[trigger] candidate(e, s0, j) && e[j].0 == n,
            decreases entries.len() - i,
        {
            let ghost before = newly@;
            let fresh = !has_name(&impure, &entries[i].0);
            let chosen = fresh && is_last_entry(&entries, i) && stmts_touch_impure(entries[i].1, &impure);
            proof {
                assert(e[i as int] == (entries@[i as int].0@, entries@[i as int].1@, entries@[i as int].2));
                assert(chosen == candidate(e, s0, i as int));
            }
            if chosen {
                newly.push(entries[i].0.clone());
            }
            proof {
                assert forall|n: Seq<char>|
                    #![trigger listed(newly@, n)]
                    listed(newly@, n) <==> exists|j: int| 0 <= j < i + 1 && #[trigger] candidate(e, s0, j) && e[j].0 == n by {
                    if chosen {
                        assert(newly@ == before.push(newly@.last()));
                        lemma_listed_push(before, newly@.last(), n);
                    }
                }
            }
            i += 1;
        }
        if newly.len() == 0 {
            assert(step(e, s0) =~= s0) by {
                assert forall|n: Seq<char>| step(e, s0).contains(n) implies s0.contains(n) by {
                    if !s0.contains(n) {
                        let j = choose|j: int| #[trigger] candidate(e, s0, j) && e[j].0 == n;
                        assert(!listed(newly@, n));
                    }
                }
            }
            break;
        }
        proof {
            assert(listed(newly@, newly@[0]@));
        }
        let ghost first = newly@[0]@;
        let ghost imp0 = impure@;
        let mut j: usize = 0;
        while j < newly.len()
            invariant
                j <= newly@.len(),
                distinct_names(impure@),
                forall|n: Seq<char>|
                    #![trigger listed(impure@, n)]
                    listed(impure@, n) <==> (listed(imp0, n) || listed(newly@.take(j as int), n)),
            decreases newly.len() - j,
        {
            let ghost before = impure@;
            proof {
                assert(newly@.take(j + 1) =~= newly@.take(j as int).push(newly@[j as int]));
            }
            if !has_name(&impure, &newly[j]) {
                let n = newly[j].clone();
                proof {
                    lemma_distinct_push(before, n);
                }
                impure.push(n);
            }
            proof {
                assert forall|n: Seq<char>|
                    #![trigger listed(impure@, n)]
                    listed(impure@, n) <==> (listed(imp0, n) || listed(newly@.take(j + 1), n)) by {
                    lemma_listed_push(newly@.take(j as int), newly@[j as int], n);
                    if impure@.len() > before.len() {
                        assert(impure@ == before.push(impure@.last()));
                        lemma_listed_push(before, impure@.last(), n);
                    }
                }
            }
            j += 1;
        }
        assert(newly@.take(newly@.len() as int) =~= newly@);
        proof {
            assert(name_set(impure@) =~= step(e, s0)) by {
                assert forall|n: Seq<char>| name_set(impure@).contains(n) <==> step(e, s0).contains(n) by {
                    if listed(newly@, n) {
                        let jj = choose|jj: int| 0 <= jj < entries@.len() && #[trigger] candidate(e, s0, jj) && e[jj].0 == n;
                        assert(Set::new(|m: Seq<char>| exists|i: int| #[trigger] candidate(e, s0, i) && e[i].0 == m).contains(n));
                    }
                    if step(e, s0).contains(n) && !s0.contains(n) {
                        let jj = choose|jj: int| #[trigger] candidate(e, s0, jj) && e[jj].0 == n;
                        assert(listed(newly@, n));
                    }
                }
            }
            let jj = choose|jj: int| 0 <= jj < entries@.len() && #[trigger] candidate(e, s0, jj) && e[jj].0 == first;
            lemma_count_out_shrinks(e, s0, name_set(impure@));
            assert(!s0.contains(e[jj].0) && name_set(impure@).contains(e[jj].0));
            rounds_done = rounds_done + 1;
        }
    }
    impure
}

// ---------------------------------------------------------------------------
// Recording impurity in the file
// ---------------------------------------------------------------------------

/// A function marked impure when its name is in `s`, otherwise unchanged.
pub open spec fn fn_tagged(f: TypedFnDef, s: Set<Seq<char>>) -> TypedFnDef {
    if s.contains(f.name@) {
        TypedFnDef { is_impure: true, ..f }
    } else {
        f
    }
}

/// A hook marked impure when its key is in `s`, otherwise unchanged.
pub open spec fn hook_tagged(h: TypedHookDef, s: Set<Seq<char>>) -> TypedHookDef {
    if s.contains(hook_key_spec(h.name)) {
        TypedHookDef { is_impure: true, ..h }
    } else {
        h
    }
}

/// An item after tagging: functions, methods and hooks whose key is in `s` are marked
/// impure; everything else is unchanged.
pub open spec fn item_tagged(a: TypedItem, b: TypedItem, s: Set<Seq<char>>) -> bool {
    match a {
        TypedItem::Function(f) => b == TypedItem::Function(fn_tagged(f, s)),
        TypedItem::ImplBlock(ib) => {
            &&& b is ImplBlock
            &&& b->ImplBlock_0.interface == ib.interface
            &&& b->ImplBlock_0.for_type == ib.for_type
            &&& b->ImplBlock_0.for_type_ty == ib.for_type_ty
            &&& b->ImplBlock_0.span == ib.span
            &&& b->ImplBlock_0.methods@ == ib.methods@.map_values(|m: TypedFnDef| fn_tagged(m, s))
            &&& b->ImplBlock_0.hooks@ == ib.hooks@.map_values(|h: TypedHookDef| hook_tagged(h, s))
        },
        _ => b == a,
    }
}

fn tag_fn(f: TypedFnDef, impure: &Vec<String>) -> (r: TypedFnDef)
    ensures
        r == fn_tagged(f, name_set(impure@)),
{
    let mut f = f;
    if has_name(impure, &f.name) {
        f.is_impure = true;
    }
    f
}

fn tag_hook(h: TypedHookDef, impure: &Vec<String>) -> (r: TypedHookDef)
    ensures
        r == hook_tagged(h, name_set(impure@)),
{
    let mut h = h;
    let key = hook_key(&h.name);
    if has_name(impure, &key) {
        h.is_impure = true;
    }
    h
}

fn tag_methods(v: Vec<TypedFnDef>, impure: &Vec<String>) -> (r: Vec<TypedFnDef>)
    ensures
        r@ == v@.map_values(|m: TypedFnDef| fn_tagged(m, name_set(impure@))),
    decreases v@.len(),
{
    let mut v = v;
    if v.len() == 0 {
        assert(v@ =~= v@.map_values(|m: TypedFnDef| fn_tagged(m, name_set(impure@))));
        return v;
    }
    let ghost v0 = v@;
    let x = v.pop().unwrap();
    let mut rest = tag_methods(v, impure);
    rest.push(tag_fn(x, impure));
    assert(rest@ =~= v0.map_values(|m: TypedFnDef| fn_tagged(m, name_set(impure@))));
    rest
}

fn tag_hooks(v: Vec<TypedHookDef>, impure: &Vec<String>) -> (r: Vec<TypedHookDef>)
    ensures
        r@ == v@.map_values(|h: TypedHookDef| hook_tagged(h, name_set(impure@))),
    decreases v@.len(),
{
    let mut v = v;
    if v.len() == 0 {
        assert(v@ =~= v@.map_values(|h: TypedHookDef| hook_tagged(h, name_set(impure@))));
        return v;
    }
    let ghost v0 = v@;
    let x = v.pop().unwrap();
    let mut rest = tag_hooks(v, impure);
    rest.push(tag_hook(x, impure));
    assert(rest@ =~= v0.map_values(|h: TypedHookDef| hook_tagged(h, name_set(impure@))));
    rest
}

fn tag_item(item: TypedItem, impure: &Vec<String>) -> (r: TypedItem)
    ensures
        item_tagged(item, r, name_set(impure@)),
{
    match item {
        TypedItem::Function(f) => TypedItem::Function(tag_fn(f, impure)),
        TypedItem::ImplBlock(ib) => {
            let TypedImplBlock { interface, for_type, for_type_ty, methods, hooks, span } = ib;
            let m = tag_methods(methods, impure);
            let h = tag_hooks(hooks, impure);
            TypedItem::ImplBlock(TypedImplBlock { interface, for_type, for_type_ty, methods: m, hooks: h, span })
        },
        other => other,
    }
}

fn tag_items(v: Vec<TypedItem>, impure: &Vec<String>) -> (r: Vec<TypedItem>)
    ensures
        r@.len() == v@.len(),
        forall|i: int| 0 <= i < v@.len() ==> #[trigger] item_tagged(v@[i], r@[i], name_set(impure@)),
    decreases v@.len(),
{
    let mut v = v;
    if v.len() == 0 {
        return v;
    }
    let ghost v0 = v@;
    let x = v.pop().unwrap();
    let ghost vp = v@;
    let mut rest = tag_items(v, impure);
    rest.push(tag_item(x, impure));
    proof {
        assert forall|i: int| 0 <= i < v0.len() implies #[trigger] item_tagged(v0[i], rest@[i], name_set(impure@)) by {
            if i < v0.len() - 1 {
                assert(v0[i] == vp[i]);
            }
        }
    }
    rest
}

/// Marks the functions, methods and hooks whose key is in `impure` as impure.
pub fn tag_impure_functions(file: TypedFile, impure: &Vec<String>) -> (r: TypedFile)
    ensures
        r.span == file.span,
        r.items@.len() == file.items@.len(),
        forall|i: int|
            0 <= i < file.items@.len() ==> #[trigger] item_tagged(
                file.items@[i],
                r.items@[i],
                name_set(impure@),
            ),
{
    let TypedFile { items, span } = file;
    let tagged = tag_items(items, impure);
    TypedFile { items: tagged, span }
}


/// Each round only adds keys.
pub proof fn rounds_only_grow(e: Seq<Entry>, k: nat)
    ensures
        rounds(e, k).subset_of(rounds(e, k + 1)),
{
}

/// A function declared impure stays impure: the declared keys are in the set after any
/// number of rounds, and so in the result of `build_impure_set`.
pub proof fn declared_impure_stays_impure(e: Seq<Entry>, k: nat)
    ensures
        seeds(e).subset_of(rounds(e, k)),
    decreases k,
{
    if k > 0 {
        declared_impure_stays_impure(e, (k - 1) as nat);
        rounds_only_grow(e, (k - 1) as nat);
    }
}

} // verus!
