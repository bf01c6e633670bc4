use vstd::prelude::*;
use crate::ast::BinOp;
use crate::error::AnalysisError;
use crate::typed_ast::{
    TypedBlock, TypedClosureBody, TypedExpr, TypedExprKind, TypedFile, TypedItem, TypedMatchArm,
    TypedStmt,
};
use crate::fold_model::{
    ArmModel, BlockModel, BodyModel, ExprModel, HandlerModel, KindModel, StmtModel, arm_model,
    arms_model, block_model, branches_model, expr_model, exprs_model, fields_model, fn_model,
    handlers_model, stmt_model, stmts_model,
};
use crate::fold_spec::{is_float_zero, is_int};

verus! {

// Literal division by zero: `x / 0`, `x % 0`, `x / 0.0`, `x % 0.0`.

/// The division-by-zero errors of an expression, in evaluation order: operands first,
/// then the operation itself.
pub open spec fn dbz_expr(e: ExprModel) -> Seq<AnalysisError>
    decreases e, 1nat,
{
    match e.kind {
        KindModel::BinOp { op, left, right } => dbz_expr(*left) + dbz_expr(*right) + if (op
            == BinOp::Div || op == BinOp::Mod) && (is_int(*right, 0) || is_float_zero(*right)) {
            seq![AnalysisError::DivisionByZero { span: e.span }]
        } else {
            Seq::empty()
        },
        KindModel::Call { callee, args, .. } => dbz_expr(*callee) + dbz_exprs(args),
        KindModel::MethodCall { object, args, .. } => dbz_expr(*object) + dbz_exprs(args),
        KindModel::StaticCall { args, .. } => dbz_exprs(args),
        KindModel::IndirectCall { fat_ptr, args } => dbz_expr(*fat_ptr) + dbz_exprs(args),
        KindModel::UnOp { operand, .. } => dbz_expr(*operand),
        KindModel::Field { object, .. } => dbz_expr(*object),
        KindModel::Index { object, index } => dbz_expr(*object) + dbz_expr(*index),
        KindModel::Tuple(es) => dbz_exprs(es),
        KindModel::StructLiteral { fields, .. } => dbz_fields(fields),
        KindModel::Unwrap(x) => dbz_expr(*x),
        KindModel::As { expr, .. } => dbz_expr(*expr),
        KindModel::Match { scrutinee, arms } => dbz_expr(*scrutinee) + dbz_arms(arms),
        KindModel::Spawn(x) => dbz_expr(*x),
        KindModel::Ref { expr, .. } => dbz_expr(*expr),
        KindModel::Array(es) => dbz_exprs(es),
        KindModel::Gen { body } => dbz_stmts(body.stmts),
        KindModel::GenSplice(x) => dbz_expr(*x),
        KindModel::Closure { body, .. } => match body {
            BodyModel::Expr(x) => dbz_expr(*x),
            BodyModel::Block(b) => dbz_stmts(b.stmts),
        },
        _ => Seq::empty(),
    }
}

pub open spec fn dbz_exprs(s: Seq<ExprModel>) -> Seq<AnalysisError>
    decreases s, 0nat,
{
    if s.len() == 0 {
        Seq::empty()
    } else {
        dbz_exprs(s.drop_last()) + dbz_expr(s.last())
    }
}

pub open spec fn dbz_fields(s: Seq<(String, ExprModel)>) -> Seq<AnalysisError>
    decreases s, 0nat,
{
    if s.len() == 0 {
        Seq::empty()
    } else {
        dbz_fields(s.drop_last()) + dbz_expr(s.last().1)
    }
}

pub open spec fn dbz_arm(a: ArmModel) -> Seq<AnalysisError>
    decreases a, 0nat,
{
    match a.guard {
        Some(g) => dbz_expr(g) + dbz_expr(a.body),
        None => dbz_expr(a.body),
    }
}

pub open spec fn dbz_arms(s: Seq<ArmModel>) -> Seq<AnalysisError>
    decreases s, 0nat,
{
    if s.len() == 0 {
        Seq::empty()
    } else {
        dbz_arms(s.drop_last()) + dbz_arm(s.last())
    }
}

pub open spec fn dbz_stmts(s: Seq<StmtModel>) -> Seq<AnalysisError>
    decreases s, 0nat,
{
    if s.len() == 0 {
        Seq::empty()
    } else {
        dbz_stmts(s.drop_last()) + dbz_stmt(s.last())
    }
}

pub open spec fn dbz_opt_block(b: Option<BlockModel>) -> Seq<AnalysisError>
    decreases b, 0nat,
{
    match b {
        Some(bl) => dbz_stmts(bl.stmts),
        None => Seq::empty(),
    }
}

pub open spec fn dbz_branches(s: Seq<(ExprModel, BlockModel)>) -> Seq<AnalysisError>
    decreases s, 0nat,
{
    if s.len() == 0 {
        Seq::empty()
    } else {
        dbz_branches(s.drop_last()) + dbz_expr(s.last().0) + dbz_stmts(s.last().1.stmts)
    }
}

pub open spec fn dbz_handlers(s: Seq<HandlerModel>) -> Seq<AnalysisError>
    decreases s, 0nat,
{
    if s.len() == 0 {
        Seq::empty()
    } else {
        dbz_handlers(s.drop_last()) + dbz_stmts(s.last().body.stmts)
    }
}

pub open spec fn dbz_stmt(st: StmtModel) -> Seq<AnalysisError>
    decreases st, 0nat,
{
    match st {
        StmtModel::VarDecl { value, .. } => dbz_expr(value),
        StmtModel::Assign { target, value, .. } => dbz_expr(target) + dbz_expr(value),
        StmtModel::CompoundAssign { target, rhs, .. } => dbz_expr(target) + dbz_expr(rhs),
        StmtModel::Return { value, .. } => match value {
            Some(v) => dbz_expr(v),
            None => Seq::empty(),
        },
        StmtModel::Raise { value, .. } => match value {
            Some(v) => dbz_expr(v),
            None => Seq::empty(),
        },
        StmtModel::If { branches, else_branch, .. } => dbz_branches(branches) + dbz_opt_block(
            else_branch,
        ),
        StmtModel::While { cond, body, .. } => dbz_expr(cond) + dbz_stmts(body.stmts),
        StmtModel::DoWhile { body, cond, .. } => dbz_stmts(body.stmts) + dbz_expr(cond),
        StmtModel::For { iterable, body, .. } => dbz_expr(iterable) + dbz_stmts(body.stmts),
        StmtModel::TryCatch { body, handlers, finally, .. } => dbz_stmts(body.stmts)
            + dbz_handlers(handlers) + dbz_opt_block(finally),
        StmtModel::FnDef(f) => dbz_stmts(f.body.stmts),
        StmtModel::Expr(e) => dbz_expr(e),
        StmtModel::Opaque(_) => Seq::empty(),
    }
}


fn check_dbz_expr(expr: &TypedExpr, errors: &mut Vec<AnalysisError>)
    ensures
        final(errors)@ == old(errors)@ + dbz_expr(expr_model(*expr)),
    decreases *expr, 2nat,
{
    let ghost e0 = errors@;
    match &expr.kind {
        TypedExprKind::BinOp { op, left, right } => {
            check_dbz_expr(left, errors);
            check_dbz_expr(right, errors);
            let is_div = *op == BinOp::Div || *op == BinOp::Mod;
            let is_zero = match &right.kind {
                TypedExprKind::Int(n) => *n == 0,
                TypedExprKind::Float(f) => *f & 0x7fff_ffff_ffff_ffffu64 == 0,
                _ => false,
            };
            if is_div && is_zero {
                errors.push(AnalysisError::DivisionByZero { span: expr.span });
            }
        },
        TypedExprKind::Call { callee, args, .. } => {
            check_dbz_expr(callee, errors);
            check_dbz_exprs(args, errors);
        },
        TypedExprKind::MethodCall { object, args, .. } => {
            check_dbz_expr(object, errors);
            check_dbz_exprs(args, errors);
        },
        TypedExprKind::StaticCall { args, .. } => {
            check_dbz_exprs(args, errors);
        },
        TypedExprKind::IndirectCall { fat_ptr, args } => {
            check_dbz_expr(fat_ptr, errors);
            check_dbz_exprs(args, errors);
        },
        TypedExprKind::UnOp { operand, .. } => check_dbz_expr(operand, errors),
        TypedExprKind::Field { object, .. } => check_dbz_expr(object, errors),
        TypedExprKind::Index { object, index } => {
            check_dbz_expr(object, errors);
            check_dbz_expr(index, errors);
        },
        TypedExprKind::Tuple(es) => check_dbz_exprs(es, errors),
        TypedExprKind::StructLiteral { fields, .. } => check_dbz_fields(fields, errors),
        TypedExprKind::Unwrap(x) => check_dbz_expr(x, errors),
        TypedExprKind::As { expr: x, .. } => check_dbz_expr(x, errors),
        TypedExprKind::Match { scrutinee, arms } => {
            check_dbz_expr(scrutinee, errors);
            check_dbz_arms(arms, errors);
        },
        TypedExprKind::Spawn(x) => check_dbz_expr(x, errors),
        TypedExprKind::Ref { expr: x, .. } => check_dbz_expr(x, errors),
        TypedExprKind::Array(es) => check_dbz_exprs(es, errors),
        TypedExprKind::Gen { body } => check_dbz_block(body, errors),
        TypedExprKind::GenSplice(x) => check_dbz_expr(x, errors),
        TypedExprKind::Closure { body, .. } => match body {
            TypedClosureBody::Expr(x) => check_dbz_expr(x, errors),
            TypedClosureBody::Block(b) => check_dbz_block(b, errors),
        },
        _ => {
            assert(errors@ =~= e0 + dbz_expr(expr_model(*expr)));
        },
    }
    assert(errors@ =~= e0 + dbz_expr(expr_model(*expr)));
}

fn check_dbz_arm(arm: &TypedMatchArm, errors: &mut Vec<AnalysisError>)
    ensures
        final(errors)@ == old(errors)@ + dbz_arm(arm_model(*arm)),
    decreases *arm, 1nat,
{
    let ghost e0 = errors@;
    match &arm.guard {
        Some(g) => check_dbz_expr(g, errors),
        None => {},
    }
    check_dbz_expr(&arm.body, errors);
    assert(errors@ =~= e0 + dbz_arm(arm_model(*arm)));
}

fn check_dbz_block(block: &TypedBlock, errors: &mut Vec<AnalysisError>)
    ensures
        final(errors)@ == old(errors)@ + dbz_stmts(block_model(*block).stmts),
    decreases *block, 1nat,
{
    check_dbz_stmts(&block.stmts, errors);
}

fn check_dbz_opt_block(block: &Option<TypedBlock>, errors: &mut Vec<AnalysisError>)
    ensures
        final(errors)@ == old(errors)@ + dbz_opt_block(crate::fold_model::opt_block_model(*block)),
    decreases *block, 1nat,
{
    match block {
        Some(b) => check_dbz_block(b, errors),
        None => {
            assert(errors@ =~= old(errors)@ + Seq::<AnalysisError>::empty());
        },
    }
}

fn check_dbz_stmt(stmt: &TypedStmt, errors: &mut Vec<AnalysisError>)
    ensures
        final(errors)@ == old(errors)@ + dbz_stmt(stmt_model(*stmt)),
    decreases *stmt, 1nat,
{
    let ghost e0 = errors@;
    match stmt {
        TypedStmt::VarDecl { value, .. } => check_dbz_expr(value, errors),
        TypedStmt::Assign { target, value, .. } => {
            check_dbz_expr(target, errors);
            check_dbz_expr(value, errors);
        },
        TypedStmt::CompoundAssign { target, rhs, .. } => {
            check_dbz_expr(target, errors);
            check_dbz_expr(rhs, errors);
        },
        TypedStmt::Return { value, .. } => match value {
            Some(e) => check_dbz_expr(e, errors),
            None => {},
        },
        TypedStmt::Raise { value, .. } => match value {
            Some(e) => check_dbz_expr(e, errors),
            None => {},
        },
        TypedStmt::If { branches, else_branch, .. } => {
            check_dbz_branches(branches, errors);
            check_dbz_opt_block(else_branch, errors);
        },
        TypedStmt::While { cond, body, .. } => {
            check_dbz_expr(cond, errors);
            check_dbz_block(body, errors);
        },
        TypedStmt::DoWhile { body, cond, .. } => {
            check_dbz_block(body, errors);
            check_dbz_expr(cond, errors);
        },
        TypedStmt::For { iterable, body, .. } => {
            check_dbz_expr(iterable, errors);
            check_dbz_block(body, errors);
        },
        TypedStmt::TryCatch { body, handlers, finally, .. } => {
            check_dbz_block(body, errors);
            check_dbz_handlers(handlers, errors);
            check_dbz_opt_block(finally, errors);
        },
        TypedStmt::FnDef(f) => check_dbz_block(&f.body, errors),
        TypedStmt::Expr(e) => check_dbz_expr(e, errors),
        _ => {},
    }
    assert(errors@ =~= e0 + dbz_stmt(stmt_model(*stmt)));
}

fn check_dbz_exprs(v: &Vec<TypedExpr>, errors: &mut Vec<AnalysisError>)
    ensures
        final(errors)@ == old(errors)@ + dbz_exprs(exprs_model(v@)),
    decreases v@, 0nat,
{
    let mut i: usize = 0;
    while i < v.len()
        invariant
            i <= v.len(),
            errors@ == old(errors)@ + dbz_exprs(exprs_model(v@.take(i as int))),
        decreases v.len() - i,
    {
        proof {
            assert(decreases_to!(v@ => v@[i as int]));
            let t0 = v@.take(i as int);
            let t1 = v@.take(i as int + 1);
            assert(t1.drop_last() =~= t0);
            assert(exprs_model(t1) == exprs_model(t0).push(crate::fold_model::expr_model(v@[i as int])));
            assert(exprs_model(t0).push(crate::fold_model::expr_model(v@[i as int])).drop_last() =~= exprs_model(t0));
        }
        check_dbz_expr(&v[i], errors);
        i += 1;
    }
    assert(v@.take(v.len() as int) =~= v@);
    assert(errors@ =~= old(errors)@ + dbz_exprs(exprs_model(v@)));
}

fn check_dbz_fields(v: &Vec<(String, TypedExpr)>, errors: &mut Vec<AnalysisError>)
    ensures
        final(errors)@ == old(errors)@ + dbz_fields(fields_model(v@)),
    decreases v@, 0nat,
{
    let mut i: usize = 0;
    while i < v.len()
        invariant
            i <= v.len(),
            errors@ == old(errors)@ + dbz_fields(fields_model(v@.take(i as int))),
        decreases v.len() - i,
    {
        proof {
            assert(decreases_to!(v@ => v@[i as int]));
            let t0 = v@.take(i as int);
            let t1 = v@.take(i as int + 1);
            assert(t1.drop_last() =~= t0);
            assert(fields_model(t1) == fields_model(t0).push((v@[i as int].0, expr_model(v@[i as int].1))));
            assert(fields_model(t0).push((v@[i as int].0, expr_model(v@[i as int].1))).drop_last() =~= fields_model(t0));
        }
        check_dbz_expr(&v[i].1, errors);
        i += 1;
    }
    assert(v@.take(v.len() as int) =~= v@);
    assert(errors@ =~= old(errors)@ + dbz_fields(fields_model(v@)));
}

fn check_dbz_arms(v: &Vec<TypedMatchArm>, errors: &mut Vec<AnalysisError>)
    ensures
        final(errors)@ == old(errors)@ + dbz_arms(arms_model(v@)),
    decreases v@, 0nat,
{
    let mut i: usize = 0;
    while i < v.len()
        invariant
            i <= v.len(),
            errors@ == old(errors)@ + dbz_arms(arms_model(v@.take(i as int))),
        decreases v.len() - i,
    {
        proof {
            assert(decreases_to!(v@ => v@[i as int]));
            let t0 = v@.take(i as int);
            let t1 = v@.take(i as int + 1);
            assert(t1.drop_last() =~= t0);
            assert(arms_model(t1) == arms_model(t0).push(arm_model(v@[i as int])));
            assert(arms_model(t0).push(arm_model(v@[i as int])).drop_last() =~= arms_model(t0));
        }
        check_dbz_arm(&v[i], errors);
        i += 1;
    }
    assert(v@.take(v.len() as int) =~= v@);
    assert(errors@ =~= old(errors)@ + dbz_arms(arms_model(v@)));
}

fn check_dbz_stmts(v: &Vec<TypedStmt>, errors: &mut Vec<AnalysisError>)
    ensures
        final(errors)@ == old(errors)@ + dbz_stmts(stmts_model(v@)),
    decreases v@, 0nat,
{
    let mut i: usize = 0;
    while i < v.len()
        invariant
            i <= v.len(),
            errors@ == old(errors)@ + dbz_stmts(stmts_model(v@.take(i as int))),
        decreases v.len() - i,
    {
        proof {
            assert(decreases_to!(v@ => v@[i as int]));
            let t0 = v@.take(i as int);
            let t1 = v@.take(i as int + 1);
            assert(t1.drop_last() =~= t0);
            assert(stmts_model(t1) == stmts_model(t0).push(stmt_model(v@[i as int])));
            assert(stmts_model(t0).push(stmt_model(v@[i as int])).drop_last() =~= stmts_model(t0));
        }
        check_dbz_stmt(&v[i], errors);
        i += 1;
    }
    assert(v@.take(v.len() as int) =~= v@);
    assert(errors@ =~= old(errors)@ + dbz_stmts(stmts_model(v@)));
}

fn check_dbz_branches(v: &Vec<(TypedExpr, TypedBlock)>, errors: &mut Vec<AnalysisError>)
    ensures
        final(errors)@ == old(errors)@ + dbz_branches(branches_model(v@)),
    decreases v@, 0nat,
{
    let mut i: usize = 0;
    while i < v.len()
        invariant
            i <= v.len(),
            errors@ == old(errors)@ + dbz_branches(branches_model(v@.take(i as int))),
        decreases v.len() - i,
    {
        proof {
            assert(decreases_to!(v@ => v@[i as int]));
            let t0 = v@.take(i as int);
            let t1 = v@.take(i as int + 1);
            assert(t1.drop_last() =~= t0);
            assert(branches_model(t1) == branches_model(t0).push((expr_model(v@[i as int].0), block_model(v@[i as int].1))));
            assert(branches_model(t0).push((expr_model(v@[i as int].0), block_model(v@[i as int].1))).drop_last() =~= branches_model(t0));
        }
        check_dbz_expr(&v[i].0, errors);
        check_dbz_block(&v[i].1, errors);
        i += 1;
    }
    assert(v@.take(v.len() as int) =~= v@);
    assert(errors@ =~= old(errors)@ + dbz_branches(branches_model(v@)));
}

fn check_dbz_handlers(v: &Vec<crate::typed_ast::TypedCatchHandler>, errors: &mut Vec<AnalysisError>)
    ensures
        final(errors)@ == old(errors)@ + dbz_handlers(handlers_model(v@)),
    decreases v@, 0nat,
{
    let mut i: usize = 0;
    while i < v.len()
        invariant
            i <= v.len(),
            errors@ == old(errors)@ + dbz_handlers(handlers_model(v@.take(i as int))),
        decreases v.len() - i,
    {
        proof {
            assert(decreases_to!(v@ => v@[i as int]));
            let t0 = v@.take(i as int);
            let t1 = v@.take(i as int + 1);
            assert(t1.drop_last() =~= t0);
            assert(handlers_model(t1) == handlers_model(t0).push(handlers_model(v@.take(i as int + 1)).last()));
            assert(handlers_model(t0).push(handlers_model(v@.take(i as int + 1)).last()).drop_last() =~= handlers_model(t0));
        }
        check_dbz_block(&v[i].body, errors);
        i += 1;
    }
    assert(v@.take(v.len() as int) =~= v@);
    assert(errors@ =~= old(errors)@ + dbz_handlers(handlers_model(v@)));
}

/// Checks a file for literal division by zero and returns one error per occurrence,
/// in source order.
pub fn check_division_by_zero(file: &TypedFile) -> (r: Vec<AnalysisError>)
    ensures
        r@ == dbz_items(file.items@),
{
    let mut errors: Vec<AnalysisError> = Vec::new();
    let mut i: usize = 0;
    while i < file.items.len()
        invariant
            i <= file.items.len(),
            errors@ == dbz_items(file.items@.take(i as int)),
        decreases file.items.len() - i,
    {
        proof {
            let t0 = file.items@.take(i as int);
            let t1 = file.items@.take(i as int + 1);
            assert(t1.drop_last() =~= t0);
        }
        let ghost before = errors@;
        match &file.items[i] {
            TypedItem::Function(f) => check_dbz_block(&f.body, &mut errors),
            TypedItem::ImplBlock(ib) => {
                let mut j: usize = 0;
                while j < ib.methods.len()
                    invariant
                        j <= ib.methods.len(),
                        errors@ == before + dbz_fns(ib.methods@.take(j as int)),
                    decreases ib.methods.len() - j,
                {
                    proof {
                        assert(ib.methods@.take(j as int + 1).drop_last() =~= ib.methods@.take(j as int));
                    }
                    check_dbz_block(&ib.methods[j].body, &mut errors);
                    j += 1;
                }
                assert(ib.methods@.take(ib.methods.len() as int) =~= ib.methods@);
                let ghost mid = errors@;
                let mut k: usize = 0;
                while k < ib.hooks.len()
                    invariant
                        k <= ib.hooks.len(),
                        errors@ == mid + dbz_hooks(ib.hooks@.take(k as int)),
                    decreases ib.hooks.len() - k,
                {
                    proof {
                        assert(ib.hooks@.take(k as int + 1).drop_last() =~= ib.hooks@.take(k as int));
                    }
                    check_dbz_block(&ib.hooks[k].body, &mut errors);
                    k += 1;
                }
                assert(ib.hooks@.take(ib.hooks.len() as int) =~= ib.hooks@);
            },
            TypedItem::Global(g) => check_dbz_expr(&g.init, &mut errors),
            _ => {},
        }
        proof {
            assert(errors@ =~= before + dbz_item(file.items@[i as int]));
        }
        i += 1;
    }
    assert(file.items@.take(file.items.len() as int) =~= file.items@);
    errors
}

/// The division-by-zero errors of the function bodies in a list of methods.
pub open spec fn dbz_fns(s: Seq<crate::typed_ast::TypedFnDef>) -> Seq<AnalysisError>
    decreases s.len(),
{
    if s.len() == 0 {
        Seq::empty()
    } else {
        dbz_fns(s.drop_last()) + dbz_stmts(block_model(s.last().body).stmts)
    }
}

/// The division-by-zero errors of the bodies in a list of hooks.
pub open spec fn dbz_hooks(s: Seq<crate::typed_ast::TypedHookDef>) -> Seq<AnalysisError>
    decreases s.len(),
{
    if s.len() == 0 {
        Seq::empty()
    } else {
        dbz_hooks(s.drop_last()) + dbz_stmts(block_model(s.last().body).stmts)
    }
}

/// The division-by-zero errors of a top-level item: function and method bodies,
/// hook bodies and global initializers.
pub open spec fn dbz_item(item: TypedItem) -> Seq<AnalysisError> {
    match item {
        TypedItem::Function(f) => dbz_stmts(block_model(f.body).stmts),
        TypedItem::ImplBlock(ib) => dbz_fns(ib.methods@) + dbz_hooks(ib.hooks@),
        TypedItem::Global(g) => dbz_expr(expr_model(g.init)),
        _ => Seq::empty(),
    }
}

/// The division-by-zero errors of a list of items, in order.
pub open spec fn dbz_items(s: Seq<TypedItem>) -> Seq<AnalysisError>
    decreases s.len(),
{
    if s.len() == 0 {
        Seq::empty()
    } else {
        dbz_items(s.drop_last()) + dbz_item(s.last())
    }
}

} // verus!
