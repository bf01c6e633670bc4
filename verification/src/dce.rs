use vstd::prelude::*;
use crate::typed_ast::{
    TypedBlock, TypedCatchHandler, TypedClosureBody, TypedExpr, TypedExprKind, TypedFile,
    TypedFnDef, TypedHookDef, TypedImplBlock, TypedItem, TypedMatchArm, TypedStmt,
};
use crate::fold_model::{
    ArmModel, BlockModel, BodyModel, ExprModel, FnModel, HandlerModel, KindModel, StmtModel,
    arm_model, arms_model, block_model, branches_model, expr_model, exprs_model, fields_model,
    fn_model, handlers_model, stmt_model, stmts_model,
};

verus! {

// Dead binding elimination: an immutable `let` whose name is never read in its block and
// whose initializer has no side effects is dropped, and so is a self-assignment `x = x`.

// ---------------------------------------------------------------------------
// Side effects
// ---------------------------------------------------------------------------

/// Whether evaluating an expression may have an observable effect: a call of any kind
/// or a spawn, anywhere but inside a closure or generator body.
pub open spec fn side_effects(e: ExprModel) -> bool
    decreases e, 1nat,
{
    match e.kind {
        KindModel::Call { .. } => true,
        KindModel::MethodCall { .. } => true,
        KindModel::StaticCall { .. } => true,
        KindModel::IndirectCall { .. } => true,
        KindModel::Spawn(_) => true,
        KindModel::BinOp { left, right, .. } => side_effects(*left) || side_effects(*right),
        KindModel::UnOp { operand, .. } => side_effects(*operand),
        KindModel::Field { object, .. } => side_effects(*object),
        KindModel::Index { object, index } => side_effects(*object) || side_effects(*index),
        KindModel::Tuple(es) => exprs_side_effects(es),
        KindModel::StructLiteral { fields, .. } => fields_side_effects(fields),
        KindModel::Unwrap(x) => side_effects(*x),
        KindModel::As { expr, .. } => side_effects(*expr),
        KindModel::Match { scrutinee, arms } => side_effects(*scrutinee) || arms_side_effects(arms),
        KindModel::Ref { expr, .. } => side_effects(*expr),
        KindModel::Array(es) => exprs_side_effects(es),
        _ => false,
    }
}

pub open spec fn exprs_side_effects(s: Seq<ExprModel>) -> bool
    decreases s, 0nat,
{
    if s.len() == 0 {
        false
    } else {
        exprs_side_effects(s.drop_last()) || side_effects(s.last())
    }
}

pub open spec fn fields_side_effects(s: Seq<(String, ExprModel)>) -> bool
    decreases s, 0nat,
{
    if s.len() == 0 {
        false
    } else {
        fields_side_effects(s.drop_last()) || side_effects(s.last().1)
    }
}

pub open spec fn arm_side_effects(a: ArmModel) -> bool
    decreases a, 0nat,
{
    match a.guard {
        Some(g) => side_effects(g) || side_effects(a.body),
        None => side_effects(a.body),
    }
}

pub open spec fn arms_side_effects(s: Seq<ArmModel>) -> bool
    decreases s, 0nat,
{
    if s.len() == 0 {
        false
    } else {
        arms_side_effects(s.drop_last()) || arm_side_effects(s.last())
    }
}

// ---------------------------------------------------------------------------
// Names read
// ---------------------------------------------------------------------------

/// The identifiers an expression reads, in traversal order. String literals and
/// enum variants read nothing.
pub open spec fn reads_expr(e: ExprModel) -> Seq<String>
    decreases e, 1nat,
{
    match e.kind {
        KindModel::Ident(n) => seq![n],
        KindModel::Call { callee, args, .. } => reads_expr(*callee) + reads_exprs(args),
        KindModel::MethodCall { object, args, .. } => reads_expr(*object) + reads_exprs(args),
        KindModel::StaticCall { args, .. } => reads_exprs(args),
        KindModel::IndirectCall { fat_ptr, args } => reads_expr(*fat_ptr) + reads_exprs(args),
        KindModel::BinOp { left, right, .. } => reads_expr(*left) + reads_expr(*right),
        KindModel::UnOp { operand, .. } => reads_expr(*operand),
        KindModel::Field { object, .. } => reads_expr(*object),
        KindModel::Index { object, index } => reads_expr(*object) + reads_expr(*index),
        KindModel::Tuple(es) => reads_exprs(es),
        KindModel::StructLiteral { fields, .. } => reads_fields(fields),
        KindModel::Unwrap(x) => reads_expr(*x),
        KindModel::As { expr, .. } => reads_expr(*expr),
        KindModel::Match { scrutinee, arms } => reads_expr(*scrutinee) + reads_arms(arms),
        KindModel::Closure { body, .. } => match body {
            BodyModel::Expr(x) => reads_expr(*x),
            BodyModel::Block(b) => reads_stmts(b.stmts),
        },
        KindModel::Spawn(x) => reads_expr(*x),
        KindModel::Ref { expr, .. } => reads_expr(*expr),
        KindModel::Array(es) => reads_exprs(es),
        KindModel::Gen { body } => reads_stmts(body.stmts),
        KindModel::GenSplice(x) => reads_expr(*x),
        _ => Seq::empty(),
    }
}

pub open spec fn reads_exprs(s: Seq<ExprModel>) -> Seq<String>
    decreases s, 0nat,
{
    if s.len() == 0 {
        Seq::empty()
    } else {
        reads_exprs(s.drop_last()) + reads_expr(s.last())
    }
}

pub open spec fn reads_fields(s: Seq<(String, ExprModel)>) -> Seq<String>
    decreases s, 0nat,
{
    if s.len() == 0 {
        Seq::empty()
    } else {
        reads_fields(s.drop_last()) + reads_expr(s.last().1)
    }
}

pub open spec fn reads_arm(a: ArmModel) -> Seq<String>
    decreases a, 0nat,
{
    match a.guard {
        Some(g) => reads_expr(g) + reads_expr(a.body),
        None => reads_expr(a.body),
    }
}

pub open spec fn reads_arms(s: Seq<ArmModel>) -> Seq<String>
    decreases s, 0nat,
{
    if s.len() == 0 {
        Seq::empty()
    } else {
        reads_arms(s.drop_last()) + reads_arm(s.last())
    }
}

/// What an assignment target reads: the base object and index of a field or element
/// target, but not a plain variable being written.
pub open spec fn reads_target(e: ExprModel) -> Seq<String>
    decreases e, 2nat,
{
    match e.kind {
        KindModel::Ident(_) => Seq::empty(),
        KindModel::Field { object, .. } => reads_expr(*object),
        KindModel::Index { object, index } => reads_expr(*object) + reads_expr(*index),
        _ => reads_expr(e),
    }
}

pub open spec fn reads_stmts(s: Seq<StmtModel>) -> Seq<String>
    decreases s, 0nat,
{
    if s.len() == 0 {
        Seq::empty()
    } else {
        reads_stmts(s.drop_last()) + reads_stmt(s.last())
    }
}

pub open spec fn reads_opt_block(b: Option<BlockModel>) -> Seq<String>
    decreases b, 0nat,
{
    match b {
        Some(bl) => reads_stmts(bl.stmts),
        None => Seq::empty(),
    }
}

pub open spec fn reads_branches(s: Seq<(ExprModel, BlockModel)>) -> Seq<String>
    decreases s, 0nat,
{
    if s.len() == 0 {
        Seq::empty()
    } else {
        reads_branches(s.drop_last()) + reads_expr(s.last().0) + reads_stmts(s.last().1.stmts)
    }
}

pub open spec fn reads_handlers(s: Seq<HandlerModel>) -> Seq<String>
    decreases s, 0nat,
{
    if s.len() == 0 {
        Seq::empty()
    } else {
        reads_handlers(s.drop_last()) + reads_stmts(s.last().body.stmts)
    }
}

/// The identifiers a statement reads, in traversal order.
pub open spec fn reads_stmt(st: StmtModel) -> Seq<String>
    decreases st, 0nat,
{
    match st {
        StmtModel::VarDecl { value, .. } => reads_expr(value),
        StmtModel::Assign { target, value, .. } => reads_expr(value) + reads_target(target),
        StmtModel::CompoundAssign { target, rhs, .. } => reads_expr(rhs) + reads_expr(target),
        StmtModel::Return { value, .. } => match value {
            Some(v) => reads_expr(v),
            None => Seq::empty(),
        },
        StmtModel::Raise { value, .. } => match value {
            Some(v) => reads_expr(v),
            None => Seq::empty(),
        },
        StmtModel::If { branches, else_branch, .. } => reads_branches(branches) + reads_opt_block(
            else_branch,
        ),
        StmtModel::While { cond, body, .. } => reads_expr(cond) + reads_stmts(body.stmts),
        StmtModel::DoWhile { body, cond, .. } => reads_stmts(body.stmts) + reads_expr(cond),
        StmtModel::For { iterable, body, .. } => reads_expr(iterable) + reads_stmts(body.stmts),
        StmtModel::TryCatch { body, handlers, finally, .. } => reads_stmts(body.stmts)
            + reads_handlers(handlers) + reads_opt_block(finally),
        StmtModel::FnDef(f) => reads_stmts(f.body.stmts),
        StmtModel::Expr(e) => reads_expr(e),
        StmtModel::Opaque(_) => Seq::empty(),
    }
}

/// Whether `n` is among the names read.
pub open spec fn name_in(reads: Seq<String>, n: String) -> bool {
    exists|i: int| 0 <= i < reads.len() && (#[trigger] reads[i])@ == n@
}

// ---------------------------------------------------------------------------
// The transformation
// ---------------------------------------------------------------------------

/// Whether a statement is dropped from a block whose reads are `live`.
pub open spec fn dropped(st: StmtModel, live: Seq<String>) -> bool {
    match st {
        StmtModel::VarDecl { name, value, mutable, .. } => !mutable && !name_in(live, name)
            && !side_effects(value),
        StmtModel::Assign { target, value, .. } => {
            &&& target.kind is Ident
            &&& value.kind is Ident
            &&& target.kind->Ident_0@ == value.kind->Ident_0@
        },
        _ => false,
    }
}

/// The statements kept from `s`, each with its nested blocks cleaned.
pub open spec fn dce_stmts_with(s: Seq<StmtModel>, live: Seq<String>) -> Seq<StmtModel>
    decreases s, 0nat,
{
    if s.len() == 0 {
        Seq::empty()
    } else if dropped(s.last(), live) {
        dce_stmts_with(s.drop_last(), live)
    } else {
        dce_stmts_with(s.drop_last(), live).push(dce_stmt_spec(s.last()))
    }
}

/// A block with its dead bindings dropped, judged by the names read anywhere in it.
pub open spec fn dce_block_spec(b: BlockModel) -> BlockModel
    decreases b, 1nat,
{
    BlockModel { stmts: dce_stmts_with(b.stmts, reads_stmts(b.stmts)), span: b.span }
}

pub open spec fn dce_opt_block_spec(b: Option<BlockModel>) -> Option<BlockModel>
    decreases b, 0nat,
{
    match b {
        Some(x) => Some(dce_block_spec(x)),
        None => None,
    }
}

pub open spec fn dce_branches_spec(s: Seq<(ExprModel, BlockModel)>) -> Seq<(ExprModel, BlockModel)>
    decreases s, 0nat,
{
    if s.len() == 0 {
        Seq::empty()
    } else {
        dce_branches_spec(s.drop_last()).push((s.last().0, dce_block_spec(s.last().1)))
    }
}

pub open spec fn dce_handlers_spec(s: Seq<HandlerModel>) -> Seq<HandlerModel>
    decreases s, 0nat,
{
    if s.len() == 0 {
        Seq::empty()
    } else {
        let h = s.last();
        dce_handlers_spec(s.drop_last()).push(
            HandlerModel { ty: h.ty, binding: h.binding, body: dce_block_spec(h.body), span: h.span },
        )
    }
}

pub open spec fn dce_fn_spec(f: FnModel) -> FnModel
    decreases f, 0nat,
{
    FnModel {
        name: f.name,
        params: f.params,
        variadic: f.variadic,
        return_type: f.return_type,
        body: dce_block_spec(f.body),
        is_builtin: f.is_builtin,
        is_inline: f.is_inline,
        is_declaration: f.is_declaration,
        is_entry: f.is_entry,
        is_impure: f.is_impure,
        span: f.span,
    }
}

/// A kept statement: the blocks nested in it are cleaned; its expressions are untouched.
pub open spec fn dce_stmt_spec(st: StmtModel) -> StmtModel
    decreases st, 0nat,
{
    match st {
        StmtModel::If { branches, else_branch, span } => StmtModel::If {
            branches: dce_branches_spec(branches),
            else_branch: dce_opt_block_spec(else_branch),
            span,
        },
        StmtModel::While { cond, body, span } => StmtModel::While {
            cond,
            body: dce_block_spec(body),
            span,
        },
        StmtModel::DoWhile { body, cond, span } => StmtModel::DoWhile {
            body: dce_block_spec(body),
            cond,
            span,
        },
        StmtModel::For { binding, binding_ty, iterable, body, iter_ty, span } => StmtModel::For {
            binding,
            binding_ty,
            iterable,
            body: dce_block_spec(body),
            iter_ty,
            span,
        },
        StmtModel::TryCatch { body, handlers, finally, span } => StmtModel::TryCatch {
            body: dce_block_spec(body),
            handlers: dce_handlers_spec(handlers),
            finally: dce_opt_block_spec(finally),
            span,
        },
        StmtModel::FnDef(f) => StmtModel::FnDef(dce_fn_spec(f)),
        other => other,
    }
}

// ---------------------------------------------------------------------------
// Executable side-effect test
// ---------------------------------------------------------------------------

/// Returns true if the expression has observable side effects (calls, spawns).
pub fn expr_has_side_effects(expr: &TypedExpr) -> (r: bool)
    ensures
        r == side_effects(expr_model(*expr)),
    decreases *expr, 2nat,
{
    match &expr.kind {
        TypedExprKind::Call { .. } => true,
        TypedExprKind::MethodCall { .. } => true,
        TypedExprKind::StaticCall { .. } => true,
        TypedExprKind::IndirectCall { .. } => true,
        TypedExprKind::Spawn(_) => true,
        TypedExprKind::BinOp { left, right, .. } => {
            expr_has_side_effects(left) || expr_has_side_effects(right)
        },
        TypedExprKind::UnOp { operand, .. } => expr_has_side_effects(operand),
        TypedExprKind::Field { object, .. } => expr_has_side_effects(object),
        TypedExprKind::Index { object, index } => {
            expr_has_side_effects(object) || expr_has_side_effects(index)
        },
        TypedExprKind::Tuple(es) => exprs_have_side_effects(es),
        TypedExprKind::StructLiteral { fields, .. } => fields_have_side_effects(fields),
        TypedExprKind::Unwrap(x) => expr_has_side_effects(x),
        TypedExprKind::As { expr: x, .. } => expr_has_side_effects(x),
        TypedExprKind::Match { scrutinee, arms } => {
            expr_has_side_effects(scrutinee) || arms_have_side_effects(arms)
        },
        TypedExprKind::Ref { expr: x, .. } => expr_has_side_effects(x),
        TypedExprKind::Array(es) => exprs_have_side_effects(es),
        _ => false,
    }
}

fn exprs_have_side_effects(v: &Vec<TypedExpr>) -> (r: bool)
    ensures
        r == exprs_side_effects(exprs_model(v@)),
    decreases v@, 0nat,
{
    let mut i: usize = 0;
    let mut acc = false;
    while i < v.len()
        invariant
            i <= v.len(),
            acc == exprs_side_effects(exprs_model(v@.take(i as int))),
        decreases v.len() - i,
    {
        proof {
            assert(decreases_to!(v@ => v@[i as int]));
            let t0 = v@.take(i as int);
            let t1 = v@.take(i as int + 1);
            assert(t1.drop_last() =~= t0);
            assert(exprs_model(t1) == exprs_model(t0).push(expr_model(v@[i as int])));
            assert(exprs_model(t0).push(expr_model(v@[i as int])).drop_last() =~= exprs_model(t0));
        }
        let e = expr_has_side_effects(&v[i]);
        acc = acc || e;
        i += 1;
    }
    assert(v@.take(v.len() as int) =~= v@);
    acc
}

fn fields_have_side_effects(v: &Vec<(String, TypedExpr)>) -> (r: bool)
    ensures
        r == fields_side_effects(fields_model(v@)),
    decreases v@, 0nat,
{
    let mut i: usize = 0;
    let mut acc = false;
    while i < v.len()
        invariant
            i <= v.len(),
            acc == fields_side_effects(fields_model(v@.take(i as int))),
        decreases v.len() - i,
    {
        proof {
            assert(decreases_to!(v@ => v@[i as int]));
            let t0 = v@.take(i as int);
            let t1 = v@.take(i as int + 1);
            assert(t1.drop_last() =~= t0);
            assert(fields_model(t1) == fields_model(t0).push((v@[i as int].0, expr_model(v@[i as int].1))));
            assert(fields_model(t0).push((v@[i as int].0, expr_model(v@[i as int].1))).drop_last() =~= fields_model(t0));
        }
        let e = expr_has_side_effects(&v[i].1);
        acc = acc || e;
        i += 1;
    }
    assert(v@.take(v.len() as int) =~= v@);
    acc
}

fn arm_has_side_effects(arm: &TypedMatchArm) -> (r: bool)
    ensures
        r == arm_side_effects(arm_model(*arm)),
    decreases *arm, 1nat,
{
    let g = match &arm.guard {
        Some(g) => expr_has_side_effects(g),
        None => false,
    };
    g || expr_has_side_effects(&arm.body)
}

fn arms_have_side_effects(v: &Vec<TypedMatchArm>) -> (r: bool)
    ensures
        r == arms_side_effects(arms_model(v@)),
    decreases v@, 0nat,
{
    let mut i: usize = 0;
    let mut acc = false;
    while i < v.len()
        invariant
            i <= v.len(),
            acc == arms_side_effects(arms_model(v@.take(i as int))),
        decreases v.len() - i,
    {
        proof {
            assert(decreases_to!(v@ => v@[i as int]));
            let t0 = v@.take(i as int);
            let t1 = v@.take(i as int + 1);
            assert(t1.drop_last() =~= t0);
            assert(arms_model(t1) == arms_model(t0).push(arm_model(v@[i as int])));
            assert(arms_model(t0).push(arm_model(v@[i as int])).drop_last() =~= arms_model(t0));
        }
        let e = arm_has_side_effects(&v[i]);
        acc = acc || e;
        i += 1;
    }
    assert(v@.take(v.len() as int) =~= v@);
    acc
}

// ---------------------------------------------------------------------------
// Collecting the names read
// ---------------------------------------------------------------------------

fn collect_reads_expr(expr: &TypedExpr, out: &mut Vec<String>)
    ensures
        final(out)@ == old(out)@ + reads_expr(expr_model(*expr)),
    decreases *expr, 2nat,
{
    let ghost e0 = out@;
    match &expr.kind {
        TypedExprKind::Ident(n) => {
            out.push(n.clone());
        },
        TypedExprKind::BinOp { left, right, .. } => {
            collect_reads_expr(left, out);
            collect_reads_expr(right, out);
        },
        TypedExprKind::Call { callee, args, .. } => {
            collect_reads_expr(callee, out);
            collect_reads_exprs(args, out);
        },
        TypedExprKind::MethodCall { object, args, .. } => {
            collect_reads_expr(object, out);
            collect_reads_exprs(args, out);
        },
        TypedExprKind::StaticCall { args, .. } => {
            collect_reads_exprs(args, out);
        },
        TypedExprKind::IndirectCall { fat_ptr, args } => {
            collect_reads_expr(fat_ptr, out);
            collect_reads_exprs(args, out);
        },
        TypedExprKind::UnOp { operand, .. } => collect_reads_expr(operand, out),
        TypedExprKind::Field { object, .. } => collect_reads_expr(object, out),
        TypedExprKind::Index { object, index } => {
            collect_reads_expr(object, out);
            collect_reads_expr(index, out);
        },
        TypedExprKind::Tuple(es) => collect_reads_exprs(es, out),
        TypedExprKind::StructLiteral { fields, .. } => collect_reads_fields(fields, out),
        TypedExprKind::Unwrap(x) => collect_reads_expr(x, out),
        TypedExprKind::As { expr: x, .. } => collect_reads_expr(x, out),
        TypedExprKind::Match { scrutinee, arms } => {
            collect_reads_expr(scrutinee, out);
            collect_reads_arms(arms, out);
        },
        TypedExprKind::Spawn(x) => collect_reads_expr(x, out),
        TypedExprKind::Ref { expr: x, .. } => collect_reads_expr(x, out),
        TypedExprKind::Array(es) => collect_reads_exprs(es, out),
        TypedExprKind::Gen { body } => collect_reads_block(body, out),
        TypedExprKind::GenSplice(x) => collect_reads_expr(x, out),
        TypedExprKind::Closure { body, .. } => match body {
            TypedClosureBody::Expr(x) => collect_reads_expr(x, out),
            TypedClosureBody::Block(b) => collect_reads_block(b, out),
        },
        _ => {
            assert(out@ =~= e0 + reads_expr(expr_model(*expr)));
        },
    }
    assert(out@ =~= e0 + reads_expr(expr_model(*expr)));
}

fn collect_reads_arm(arm: &TypedMatchArm, out: &mut Vec<String>)
    ensures
        final(out)@ == old(out)@ + reads_arm(arm_model(*arm)),
    decreases *arm, 1nat,
{
    let ghost e0 = out@;
    match &arm.guard {
        Some(g) => collect_reads_expr(g, out),
        None => {},
    }
    collect_reads_expr(&arm.body, out);
    assert(out@ =~= e0 + reads_arm(arm_model(*arm)));
}

fn collect_reads_block(block: &TypedBlock, out: &mut Vec<String>)
    ensures
        final(out)@ == old(out)@ + reads_stmts(block_model(*block).stmts),
    decreases *block, 1nat,
{
    collect_reads_stmts(&block.stmts, out);
}

fn collect_reads_opt_block(block: &Option<TypedBlock>, out: &mut Vec<String>)
    ensures
        final(out)@ == old(out)@ + reads_opt_block(crate::fold_model::opt_block_model(*block)),
    decreases *block, 1nat,
{
    match block {
        Some(b) => collect_reads_block(b, out),
        None => {
            assert(out@ =~= old(out)@ + Seq::<String>::empty());
        },
    }
}

fn collect_reads_stmt(stmt: &TypedStmt, out: &mut Vec<String>)
    ensures
        final(out)@ == old(out)@ + reads_stmt(stmt_model(*stmt)),
    decreases *stmt, 1nat,
{
    let ghost e0 = out@;
    match stmt {
        TypedStmt::VarDecl { value, .. } => collect_reads_expr(value, out),
        TypedStmt::Assign { target, value, .. } => {
            collect_reads_expr(value, out);
            collect_reads_in_target(target, out);
        },
        TypedStmt::CompoundAssign { target, rhs, .. } => {
            collect_reads_expr(rhs, out);
            collect_reads_expr(target, out);
        },
        TypedStmt::Return { value, .. } => match value {
            Some(e) => collect_reads_expr(e, out),
            None => {},
        },
        TypedStmt::Raise { value, .. } => match value {
            Some(e) => collect_reads_expr(e, out),
            None => {},
        },
        TypedStmt::If { branches, else_branch, .. } => {
            collect_reads_branches(branches, out);
            collect_reads_opt_block(else_branch, out);
        },
        TypedStmt::While { cond, body, .. } => {
            collect_reads_expr(cond, out);
            collect_reads_block(body, out);
        },
        TypedStmt::DoWhile { body, cond, .. } => {
            collect_reads_block(body, out);
            collect_reads_expr(cond, out);
        },
        TypedStmt::For { iterable, body, .. } => {
            collect_reads_expr(iterable, out);
            collect_reads_block(body, out);
        },
        TypedStmt::TryCatch { body, handlers, finally, .. } => {
            collect_reads_block(body, out);
            collect_reads_handlers(handlers, out);
            collect_reads_opt_block(finally, out);
        },
        TypedStmt::FnDef(f) => collect_reads_block(&f.body, out),
        TypedStmt::Expr(e) => collect_reads_expr(e, out),
        _ => {},
    }
    assert(out@ =~= e0 + reads_stmt(stmt_model(*stmt)));
}

fn collect_reads_exprs(v: &Vec<TypedExpr>, out: &mut Vec<String>)
    ensures
        final(out)@ == old(out)@ + reads_exprs(exprs_model(v@)),
    decreases v@, 0nat,
{
    let mut i: usize = 0;
    while i < v.len()
        invariant
            i <= v.len(),
            out@ == old(out)@ + reads_exprs(exprs_model(v@.take(i as int))),
        decreases v.len() - i,
    {
        proof {
            assert(decreases_to!(v@ => v@[i as int]));
            let t0 = v@.take(i as int);
            let t1 = v@.take(i as int + 1);
            assert(t1.drop_last() =~= t0);
            assert(exprs_model(t1) == exprs_model(t0).push(crate::fold_model::expr_model(v@[i as int])));
            assert(exprs_model(t0).push(crate::fold_model::expr_model(v@[i as int])).drop_last() =~= exprs_model(t0));
        }
        collect_reads_expr(&v[i], out);
        i += 1;
    }
    assert(v@.take(v.len() as int) =~= v@);
    assert(out@ =~= old(out)@ + reads_exprs(exprs_model(v@)));
}

fn collect_reads_fields(v: &Vec<(String, TypedExpr)>, out: &mut Vec<String>)
    ensures
        final(out)@ == old(out)@ + reads_fields(fields_model(v@)),
    decreases v@, 0nat,
{
    let mut i: usize = 0;
    while i < v.len()
        invariant
            i <= v.len(),
            out@ == old(out)@ + reads_fields(fields_model(v@.take(i as int))),
        decreases v.len() - i,
    {
        proof {
            assert(decreases_to!(v@ => v@[i as int]));
            let t0 = v@.take(i as int);
            let t1 = v@.take(i as int + 1);
            assert(t1.drop_last() =~= t0);
            assert(fields_model(t1) == fields_model(t0).push((v@[i as int].0, expr_model(v@[i as int].1))));
            assert(fields_model(t0).push((v@[i as int].0, expr_model(v@[i as int].1))).drop_last() =~= fields_model(t0));
        }
        collect_reads_expr(&v[i].1, out);
        i += 1;
    }
    assert(v@.take(v.len() as int) =~= v@);
    assert(out@ =~= old(out)@ + reads_fields(fields_model(v@)));
}

fn collect_reads_arms(v: &Vec<TypedMatchArm>, out: &mut Vec<String>)
    ensures
        final(out)@ == old(out)@ + reads_arms(arms_model(v@)),
    decreases v@, 0nat,
{
    let mut i: usize = 0;
    while i < v.len()
        invariant
            i <= v.len(),
            out@ == old(out)@ + reads_arms(arms_model(v@.take(i as int))),
        decreases v.len() - i,
    {
        proof {
            assert(decreases_to!(v@ => v@[i as int]));
            let t0 = v@.take(i as int);
            let t1 = v@.take(i as int + 1);
            assert(t1.drop_last() =~= t0);
            assert(arms_model(t1) == arms_model(t0).push(arm_model(v@[i as int])));
            assert(arms_model(t0).push(arm_model(v@[i as int])).drop_last() =~= arms_model(t0));
        }
        collect_reads_arm(&v[i], out);
        i += 1;
    }
    assert(v@.take(v.len() as int) =~= v@);
    assert(out@ =~= old(out)@ + reads_arms(arms_model(v@)));
}

fn collect_reads_stmts(v: &Vec<TypedStmt>, out: &mut Vec<String>)
    ensures
        final(out)@ == old(out)@ + reads_stmts(stmts_model(v@)),
    decreases v@, 0nat,
{
    let mut i: usize = 0;
    while i < v.len()
        invariant
            i <= v.len(),
            out@ == old(out)@ + reads_stmts(stmts_model(v@.take(i as int))),
        decreases v.len() - i,
    {
        proof {
            assert(decreases_to!(v@ => v@[i as int]));
            let t0 = v@.take(i as int);
            let t1 = v@.take(i as int + 1);
            assert(t1.drop_last() =~= t0);
            assert(stmts_model(t1) == stmts_model(t0).push(stmt_model(v@[i as int])));
            assert(stmts_model(t0).push(stmt_model(v@[i as int])).drop_last() =~= stmts_model(t0));
        }
        collect_reads_stmt(&v[i], out);
        i += 1;
    }
    assert(v@.take(v.len() as int) =~= v@);
    assert(out@ =~= old(out)@ + reads_stmts(stmts_model(v@)));
}

fn collect_reads_branches(v: &Vec<(TypedExpr, TypedBlock)>, out: &mut Vec<String>)
    ensures
        final(out)@ == old(out)@ + reads_branches(branches_model(v@)),
    decreases v@, 0nat,
{
    let mut i: usize = 0;
    while i < v.len()
        invariant
            i <= v.len(),
            out@ == old(out)@ + reads_branches(branches_model(v@.take(i as int))),
        decreases v.len() - i,
    {
        proof {
            assert(decreases_to!(v@ => v@[i as int]));
            let t0 = v@.take(i as int);
            let t1 = v@.take(i as int + 1);
            assert(t1.drop_last() =~= t0);
            assert(branches_model(t1) == branches_model(t0).push((expr_model(v@[i as int].0), block_model(v@[i as int].1))));
            assert(branches_model(t0).push((expr_model(v@[i as int].0), block_model(v@[i as int].1))).drop_last() =~= branches_model(t0));
        }
        collect_reads_expr(&v[i].0, out);
        collect_reads_block(&v[i].1, out);
        i += 1;
    }
    assert(v@.take(v.len() as int) =~= v@);
    assert(out@ =~= old(out)@ + reads_branches(branches_model(v@)));
}

fn collect_reads_handlers(v: &Vec<crate::typed_ast::TypedCatchHandler>, out: &mut Vec<String>)
    ensures
        final(out)@ == old(out)@ + reads_handlers(handlers_model(v@)),
    decreases v@, 0nat,
{
    let mut i: usize = 0;
    while i < v.len()
        invariant
            i <= v.len(),
            out@ == old(out)@ + reads_handlers(handlers_model(v@.take(i as int))),
        decreases v.len() - i,
    {
        proof {
            assert(decreases_to!(v@ => v@[i as int]));
            let t0 = v@.take(i as int);
            let t1 = v@.take(i as int + 1);
            assert(t1.drop_last() =~= t0);
            assert(handlers_model(t1) == handlers_model(t0).push(handlers_model(v@.take(i as int + 1)).last()));
            assert(handlers_model(t0).push(handlers_model(v@.take(i as int + 1)).last()).drop_last() =~= handlers_model(t0));
        }
        collect_reads_block(&v[i].body, out);
        i += 1;
    }
    assert(v@.take(v.len() as int) =~= v@);
    assert(out@ =~= old(out)@ + reads_handlers(handlers_model(v@)));
}

fn collect_reads_in_target(expr: &TypedExpr, out: &mut Vec<String>)
    ensures
        final(out)@ == old(out)@ + reads_target(expr_model(*expr)),
    decreases *expr, 3nat,
{
    let ghost e0 = out@;
    match &expr.kind {
        TypedExprKind::Ident(_) => {},
        TypedExprKind::Field { object, .. } => collect_reads_expr(object, out),
        TypedExprKind::Index { object, index } => {
            collect_reads_expr(object, out);
            collect_reads_expr(index, out);
        },
        _ => collect_reads_expr(expr, out),
    }
    assert(out@ =~= e0 + reads_target(expr_model(*expr)));
}

// ---------------------------------------------------------------------------
// Rebuilding blocks
// ---------------------------------------------------------------------------

fn name_is_live(live: &Vec<String>, name: &String) -> (r: bool)
    ensures
        r == name_in(live@, *name),
{
    let mut i: usize = 0;
    while i < live.len()
        invariant
            i <= live.len(),
            forall|j: int| 0 <= j < i ==> (#[trigger] live@[j])@ != name@,
        decreases live.len() - i,
    {
        if live[i] == *name {
            assert(live@[i as int]@ == name@);
            return true;
        }
        i += 1;
    }
    false
}

fn is_dropped(stmt: &TypedStmt, live: &Vec<String>) -> (r: bool)
    ensures
        r == dropped(stmt_model(*stmt), live@),
{
    match stmt {
        TypedStmt::VarDecl { name, value, mutable, .. } => {
            if *mutable {
                false
            } else if name_is_live(live, name) {
                false
            } else {
                !expr_has_side_effects(value)
            }
        },
        TypedStmt::Assign { target, value, .. } => match (&target.kind, &value.kind) {
            (TypedExprKind::Ident(t), TypedExprKind::Ident(v)) => *t == *v,
            _ => false,
        },
        _ => false,
    }
}

/// Drops the dead immutable bindings and self-assignments of a block and cleans the
/// blocks nested in the statements it keeps.
pub fn dce_block(block: TypedBlock) -> (r: TypedBlock)
    ensures
        block_model(r) == dce_block_spec(block_model(block)),
    decreases block, 1nat,
{
    let mut live: Vec<String> = Vec::new();
    collect_reads_stmts(&block.stmts, &mut live);
    let TypedBlock { stmts, span } = block;
    let kept = dce_stmts(stmts, &live);
    TypedBlock { stmts: kept, span }
}

fn dce_opt_block(block: Option<TypedBlock>) -> (r: Option<TypedBlock>)
    ensures
        crate::fold_model::opt_block_model(r) == dce_opt_block_spec(
            crate::fold_model::opt_block_model(block),
        ),
    decreases block, 1nat,
{
    match block {
        Some(b) => Some(dce_block(b)),
        None => None,
    }
}

fn dce_stmts(v: Vec<TypedStmt>, live: &Vec<String>) -> (r: Vec<TypedStmt>)
    ensures
        stmts_model(r@) == dce_stmts_with(stmts_model(v@), live@),
    decreases v@, 0nat,
{
    let mut v = v;
    if v.len() == 0 {
        return v;
    }
    let ghost v0 = v@;
    let x = v.pop().unwrap();
    proof {
        assert(v@ =~= v0.subrange(0, v0.len() - 1));
        vstd::seq::axiom_seq_subrange_decreases(v0, 0, v0.len() - 1);
        assert(decreases_to!(v0 => v0[v0.len() - 1]));
        let m0 = stmts_model(v0);
        assert(m0 == stmts_model(v@).push(m0.last()));
        assert(m0.drop_last() =~= stmts_model(v@));
    }
    let mut rest = dce_stmts(v, live);
    if is_dropped(&x, live) {
        return rest;
    }
    let ghost rest0 = rest@;
    let fx = dce_stmt(x);
    rest.push(fx);
    proof {
        assert(rest@.drop_last() =~= rest0);
        let mr = stmts_model(rest@);
        assert(mr == stmts_model(rest0).push(stmt_model(fx)));
    }
    rest
}

fn dce_branches(v: Vec<(TypedExpr, TypedBlock)>) -> (r: Vec<(TypedExpr, TypedBlock)>)
    ensures
        branches_model(r@) == dce_branches_spec(branches_model(v@)),
    decreases v@, 0nat,
{
    let mut v = v;
    if v.len() == 0 {
        return v;
    }
    let ghost v0 = v@;
    let (c, b) = v.pop().unwrap();
    proof {
        assert(v@ =~= v0.subrange(0, v0.len() - 1));
        vstd::seq::axiom_seq_subrange_decreases(v0, 0, v0.len() - 1);
        assert(decreases_to!(v0 => v0[v0.len() - 1]));
        let m0 = branches_model(v0);
        assert(m0 == branches_model(v@).push(m0.last()));
        assert(m0.drop_last() =~= branches_model(v@));
    }
    let mut rest = dce_branches(v);
    let ghost rest0 = rest@;
    let fb = dce_block(b);
    rest.push((c, fb));
    proof {
        assert(rest@.drop_last() =~= rest0);
    }
    rest
}

fn dce_handlers(v: Vec<TypedCatchHandler>) -> (r: Vec<TypedCatchHandler>)
    ensures
        handlers_model(r@) == dce_handlers_spec(handlers_model(v@)),
    decreases v@, 0nat,
{
    let mut v = v;
    if v.len() == 0 {
        return v;
    }
    let ghost v0 = v@;
    let h = v.pop().unwrap();
    proof {
        assert(v@ =~= v0.subrange(0, v0.len() - 1));
        vstd::seq::axiom_seq_subrange_decreases(v0, 0, v0.len() - 1);
        assert(decreases_to!(v0 => v0[v0.len() - 1]));
        let m0 = handlers_model(v0);
        assert(m0 == handlers_model(v@).push(m0.last()));
        assert(m0.drop_last() =~= handlers_model(v@));
    }
    let mut rest = dce_handlers(v);
    let ghost rest0 = rest@;
    let TypedCatchHandler { ty, binding, body, span } = h;
    let fb = dce_block(body);
    rest.push(TypedCatchHandler { ty, binding, body: fb, span });
    proof {
        assert(rest@.drop_last() =~= rest0);
    }
    rest
}

fn dce_fn(f: TypedFnDef) -> (r: TypedFnDef)
    ensures
        fn_model(r) == dce_fn_spec(fn_model(f)),
    decreases f, 1nat,
{
    let TypedFnDef {
        name,
        params,
        variadic,
        return_type,
        body,
        is_builtin,
        is_inline,
        is_declaration,
        is_entry,
        is_impure,
        span,
    } = f;
    let b = dce_block(body);
    TypedFnDef {
        name,
        params,
        variadic,
        return_type,
        body: b,
        is_builtin,
        is_inline,
        is_declaration,
        is_entry,
        is_impure,
        span,
    }
}

fn dce_stmt(stmt: TypedStmt) -> (r: TypedStmt)
    ensures
        stmt_model(r) == dce_stmt_spec(stmt_model(stmt)),
    decreases stmt, 1nat,
{
    match stmt {
        TypedStmt::If { branches, else_branch, span } => {
            let b = dce_branches(branches);
            let e = dce_opt_block(else_branch);
            TypedStmt::If { branches: b, else_branch: e, span }
        },
        TypedStmt::While { cond, body, span } => {
            let b = dce_block(body);
            TypedStmt::While { cond, body: b, span }
        },
        TypedStmt::DoWhile { body, cond, span } => {
            let b = dce_block(body);
            TypedStmt::DoWhile { body: b, cond, span }
        },
        TypedStmt::For { binding, binding_ty, iterable, body, iter_ty, span } => {
            let b = dce_block(body);
            TypedStmt::For { binding, binding_ty, iterable, body: b, iter_ty, span }
        },
        TypedStmt::TryCatch { body, handlers, finally, span } => {
            let b = dce_block(body);
            let h = dce_handlers(handlers);
            let f = dce_opt_block(finally);
            TypedStmt::TryCatch { body: b, handlers: h, finally: f, span }
        },
        TypedStmt::FnDef(f) => TypedStmt::FnDef(dce_fn(f)),
        other => other,
    }
}

// ---------------------------------------------------------------------------
// Files
// ---------------------------------------------------------------------------

/// A hook with its body cleaned and everything else unchanged.
pub open spec fn hook_cleaned(a: TypedHookDef, b: TypedHookDef) -> bool {
    &&& b.is_static == a.is_static
    &&& b.is_impure == a.is_impure
    &&& b.name == a.name
    &&& b.params == a.params
    &&& b.return_type == a.return_type
    &&& b.span == a.span
    &&& block_model(b.body) == dce_block_spec(block_model(a.body))
}

/// An impl block with its method and hook bodies cleaned and everything else unchanged.
pub open spec fn impl_cleaned(a: TypedImplBlock, b: TypedImplBlock) -> bool {
    &&& b.interface == a.interface
    &&& b.for_type == a.for_type
    &&& b.for_type_ty == a.for_type_ty
    &&& b.span == a.span
    &&& b.methods@.len() == a.methods@.len()
    &&& forall|i: int|
        0 <= i < a.methods@.len() ==> #[trigger] fn_model(b.methods@[i]) == dce_fn_spec(
            fn_model(a.methods@[i]),
        )
    &&& b.hooks@.len() == a.hooks@.len()
    &&& forall|i: int| 0 <= i < a.hooks@.len() ==> #[trigger] hook_cleaned(a.hooks@[i], b.hooks@[i])
}

/// A top-level item after cleaning: function bodies and impl blocks are cleaned; other
/// items are unchanged.
pub open spec fn item_cleaned(a: TypedItem, b: TypedItem) -> bool {
    match a {
        TypedItem::Function(f) => b is Function && fn_model(b->Function_0) == dce_fn_spec(fn_model(f)),
        TypedItem::ImplBlock(ib) => b is ImplBlock && impl_cleaned(ib, b->ImplBlock_0),
        _ => b == a,
    }
}

fn dce_hook(h: TypedHookDef) -> (r: TypedHookDef)
    ensures
        hook_cleaned(h, r),
{
    let TypedHookDef { is_static, is_impure, name, params, return_type, body, span } = h;
    let b = dce_block(body);
    TypedHookDef { is_static, is_impure, name, params, return_type, body: b, span }
}

fn dce_methods(v: Vec<TypedFnDef>) -> (r: Vec<TypedFnDef>)
    ensures
        r@.len() == v@.len(),
        forall|i: int| 0 <= i < v@.len() ==> #[trigger] fn_model(r@[i]) == dce_fn_spec(fn_model(v@[i])),
    decreases v@.len(),
{
    let mut v = v;
    if v.len() == 0 {
        return v;
    }
    let x = v.pop().unwrap();
    let mut rest = dce_methods(v);
    let fx = dce_fn(x);
    rest.push(fx);
    rest
}

fn dce_hooks(v: Vec<TypedHookDef>) -> (r: Vec<TypedHookDef>)
    ensures
        r@.len() == v@.len(),
        forall|i: int| 0 <= i < v@.len() ==> #[trigger] hook_cleaned(v@[i], r@[i]),
    decreases v@.len(),
{
    let mut v = v;
    if v.len() == 0 {
        return v;
    }
    let ghost v0 = v@;
    let x = v.pop().unwrap();
    let ghost vp = v@;
    let mut rest = dce_hooks(v);
    let fx = dce_hook(x);
    rest.push(fx);
    proof {
        assert forall|i: int| 0 <= i < v0.len() implies #[trigger] hook_cleaned(v0[i], rest@[i]) by {
            if i < v0.len() - 1 {
                assert(v0[i] == vp[i]);
            }
        }
    }
    rest
}

// Cleans the methods and hooks of an impl block.
fn dce_impl(ib: TypedImplBlock) -> (r: TypedImplBlock)
    ensures
        impl_cleaned(ib, r),
{
    let TypedImplBlock { interface, for_type, for_type_ty, methods, hooks, span } = ib;
    let m = dce_methods(methods);
    let h = dce_hooks(hooks);
    TypedImplBlock { interface, for_type, for_type_ty, methods: m, hooks: h, span }
}

fn dce_item(item: TypedItem) -> (r: TypedItem)
    ensures
        item_cleaned(item, r),
{
    match item {
        TypedItem::Function(f) => TypedItem::Function(dce_fn(f)),
        TypedItem::ImplBlock(ib) => TypedItem::ImplBlock(dce_impl(ib)),
        other => other,
    }
}

fn dce_items(v: Vec<TypedItem>) -> (r: Vec<TypedItem>)
    ensures
        r@.len() == v@.len(),
        forall|i: int| 0 <= i < v@.len() ==> #[trigger] item_cleaned(v@[i], r@[i]),
    decreases v@.len(),
{
    let mut v = v;
    if v.len() == 0 {
        return v;
    }
    let ghost v0 = v@;
    let x = v.pop().unwrap();
    let ghost vp = v@;
    let mut rest = dce_items(v);
    let fx = dce_item(x);
    rest.push(fx);
    proof {
        assert forall|i: int| 0 <= i < v0.len() implies #[trigger] item_cleaned(v0[i], rest@[i]) by {
            if i < v0.len() - 1 {
                assert(v0[i] == vp[i]);
            }
        }
    }
    rest
}

/// Removes dead bindings from every function, method and hook body of a file.
pub fn dce_file(file: TypedFile) -> (r: TypedFile)
    ensures
        r.span == file.span,
        r.items@.len() == file.items@.len(),
        forall|i: int|
            0 <= i < file.items@.len() ==> #[trigger] item_cleaned(file.items@[i], r.items@[i]),
{
    let TypedFile { items, span } = file;
    let cleaned = dce_items(items);
    TypedFile { items: cleaned, span }
}


/// A binding whose initializer has side effects is never dropped, and neither is any
/// statement other than an immutable binding or an assignment.
pub proof fn effects_are_kept(st: StmtModel, live: Seq<String>)
    requires
        match st {
            StmtModel::VarDecl { value, .. } => side_effects(value),
            StmtModel::Assign { .. } => false,
            _ => true,
        },
    ensures
        !dropped(st, live),
{
}

/// Dead-code elimination never adds statements to a block.
pub proof fn dce_never_grows(s: Seq<StmtModel>, live: Seq<String>)
    ensures
        dce_stmts_with(s, live).len() <= s.len(),
    decreases s.len(),
{
    if s.len() > 0 {
        dce_never_grows(s.drop_last(), live);
    }
}

/// A binding whose name is read somewhere in its block survives.
pub proof fn read_bindings_are_kept(st: StmtModel, live: Seq<String>)
    requires
        st matches StmtModel::VarDecl { name, .. } && name_in(live, name),
    ensures
        !dropped(st, live),
{
}

/// The expression is a call of any kind (function, method, static, indirect) or a spawn.
pub open spec fn is_call(e: ExprModel) -> bool {
    e.kind is Call || e.kind is MethodCall || e.kind is StaticCall || e.kind is IndirectCall || e.kind is Spawn
}

/// Calls and spawns have side effects, and so does every operator, field or index
/// access, tuple, array, cast, unwrap, reference or match whose operand has one.
pub proof fn calls_have_side_effects(e: ExprModel)
    ensures
        is_call(e) ==> side_effects(e),
        e.kind matches KindModel::BinOp { left, right, .. } ==> (is_call(*left) || is_call(*right) ==> side_effects(e)),
        e.kind matches KindModel::UnOp { operand, .. } ==> (is_call(*operand) ==> side_effects(e)),
        e.kind matches KindModel::Field { object, .. } ==> (is_call(*object) ==> side_effects(e)),
        e.kind matches KindModel::Index { object, index } ==> (is_call(*object) || is_call(*index) ==> side_effects(e)),
        e.kind matches KindModel::Unwrap(x) ==> (is_call(*x) ==> side_effects(e)),
        e.kind matches KindModel::As { expr, .. } ==> (is_call(*expr) ==> side_effects(e)),
        e.kind matches KindModel::Ref { expr, .. } ==> (is_call(*expr) ==> side_effects(e)),
        e.kind matches KindModel::Match { scrutinee, .. } ==> (is_call(*scrutinee) ==> side_effects(e)),
{
    match e.kind {
        KindModel::BinOp { left, right, .. } => {
            assert(is_call(*left) ==> side_effects(*left));
            assert(is_call(*right) ==> side_effects(*right));
        },
        KindModel::UnOp { operand, .. } => assert(is_call(*operand) ==> side_effects(*operand)),
        KindModel::Field { object, .. } => assert(is_call(*object) ==> side_effects(*object)),
        KindModel::Index { object, index } => {
            assert(is_call(*object) ==> side_effects(*object));
            assert(is_call(*index) ==> side_effects(*index));
        },
        KindModel::Unwrap(x) => assert(is_call(*x) ==> side_effects(*x)),
        KindModel::As { expr, .. } => assert(is_call(*expr) ==> side_effects(*expr)),
        KindModel::Ref { expr, .. } => assert(is_call(*expr) ==> side_effects(*expr)),
        KindModel::Match { scrutinee, .. } => assert(is_call(*scrutinee) ==> side_effects(*scrutinee)),
        _ => {},
    }
}

proof fn lemma_kept(s: Seq<StmtModel>, live: Seq<String>, i: int)
    requires
        0 <= i < s.len(),
        !dropped(s[i], live),
    ensures
        dce_stmts_with(s, live).contains(dce_stmt_spec(s[i])),
    decreases s.len(),
{
    if i < s.len() - 1 {
        lemma_kept(s.drop_last(), live, i);
        assert(s.drop_last()[i] == s[i]);
        let p = dce_stmts_with(s.drop_last(), live);
        let j = choose|j: int| 0 <= j < p.len() && p[j] == dce_stmt_spec(s[i]);
        if !dropped(s.last(), live) {
            assert(dce_stmts_with(s, live)[j] == p[j]);
        }
    } else {
        let r = dce_stmts_with(s, live);
        assert(r[r.len() - 1] == dce_stmt_spec(s[i]));
    }
}

/// Dead-binding elimination never drops a `let` whose initializer has side effects, in
/// particular one whose initializer is a call: the statement is still in the block.
pub proof fn bindings_with_effects_are_kept(b: BlockModel, i: int)
    requires
        0 <= i < b.stmts.len(),
        b.stmts[i] matches StmtModel::VarDecl { value, .. } && (side_effects(value) || is_call(value)),
    ensures
        dce_block_spec(b).stmts.contains(b.stmts[i]),
{
    calls_have_side_effects(b.stmts[i]->VarDecl_value);
    lemma_kept(b.stmts, reads_stmts(b.stmts), i);
}


proof fn lemma_some_elem_effects(s: Seq<ExprModel>, j: int)
    requires
        0 <= j < s.len(),
        side_effects(s[j]),
    ensures
        exprs_side_effects(s),
    decreases s.len(),
{
    if j < s.len() - 1 {
        assert(s.drop_last()[j] == s[j]);
        lemma_some_elem_effects(s.drop_last(), j);
    }
}

proof fn lemma_some_field_effects(s: Seq<(String, ExprModel)>, j: int)
    requires
        0 <= j < s.len(),
        side_effects(s[j].1),
    ensures
        fields_side_effects(s),
    decreases s.len(),
{
    if j < s.len() - 1 {
        assert(s.drop_last()[j] == s[j]);
        lemma_some_field_effects(s.drop_last(), j);
    }
}

proof fn lemma_some_arm_effects(s: Seq<ArmModel>, j: int)
    requires
        0 <= j < s.len(),
        side_effects(s[j].body) || (s[j].guard matches Some(g) && side_effects(g)),
    ensures
        arms_side_effects(s),
    decreases s.len(),
{
    if j < s.len() - 1 {
        assert(s.drop_last()[j] == s[j]);
        lemma_some_arm_effects(s.drop_last(), j);
    } else {
        assert(arm_side_effects(s.last()));
    }
}

/// Side effects are never hidden by the expression around them: a tuple, array or
/// struct literal with an element that has side effects has them, and so does a match
/// with an arm whose guard or body has them.
pub proof fn element_effects_are_kept(e: ExprModel, j: int)
    ensures
        e.kind matches KindModel::Tuple(es) ==> (0 <= j < es.len() && side_effects(es[j]) ==> side_effects(e)),
        e.kind matches KindModel::Array(es) ==> (0 <= j < es.len() && side_effects(es[j]) ==> side_effects(e)),
        e.kind matches KindModel::StructLiteral { fields, .. } ==> (0 <= j < fields.len() && side_effects(fields[j].1)
            ==> side_effects(e)),
        e.kind matches KindModel::Match { arms, .. } ==> (0 <= j < arms.len() && (side_effects(arms[j].body)
            || (arms[j].guard matches Some(g) && side_effects(g))) ==> side_effects(e)),
{
    match e.kind {
        KindModel::Tuple(es) => if 0 <= j < es.len() && side_effects(es[j]) {
            lemma_some_elem_effects(es, j);
        },
        KindModel::Array(es) => if 0 <= j < es.len() && side_effects(es[j]) {
            lemma_some_elem_effects(es, j);
        },
        KindModel::StructLiteral { fields, .. } => if 0 <= j < fields.len() && side_effects(fields[j].1) {
            lemma_some_field_effects(fields, j);
        },
        KindModel::Match { arms, .. } => if 0 <= j < arms.len() && (side_effects(arms[j].body)
            || (arms[j].guard matches Some(g) && side_effects(g))) {
            lemma_some_arm_effects(arms, j);
        },
        _ => {},
    }
}

} // verus!
