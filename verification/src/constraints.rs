use vstd::prelude::*;
use crate::error::AnalysisError;
use crate::typed_ast::{TypedBlock, TypedExpr, TypedExprKind, TypedFile, TypedItem, TypedStmt};
use crate::fold_model::{
    BlockModel, ExprModel, HandlerModel, KindModel, StmtModel, block_model, branches_model,
    expr_model, handlers_model, stmt_model, stmts_model,
};

verus! {

// Conditions that are literally `true` or `false` after constant folding.

/// The warning for a condition: `true` is a tautology, `false` a contradiction.
pub open spec fn cond_warnings(c: ExprModel) -> Seq<AnalysisError> {
    match c.kind {
        KindModel::Bool(true) => seq![AnalysisError::TautologicalCondition { span: c.span }],
        KindModel::Bool(false) => seq![AnalysisError::ContradictoryCondition { span: c.span }],
        _ => Seq::empty(),
    }
}

/// The warning for a loop condition: `while true` is intended and not flagged.
pub open spec fn loop_cond_warnings(c: ExprModel) -> Seq<AnalysisError> {
    if c.kind == KindModel::Bool(true) {
        Seq::empty()
    } else {
        cond_warnings(c)
    }
}

pub open spec fn taut_stmts(s: Seq<StmtModel>) -> Seq<AnalysisError>
    decreases s, 0nat,
{
    if s.len() == 0 {
        Seq::empty()
    } else {
        taut_stmts(s.drop_last()) + taut_stmt(s.last())
    }
}

pub open spec fn taut_branches(s: Seq<(ExprModel, BlockModel)>) -> Seq<AnalysisError>
    decreases s, 0nat,
{
    if s.len() == 0 {
        Seq::empty()
    } else {
        taut_branches(s.drop_last()) + cond_warnings(s.last().0) + taut_stmts(s.last().1.stmts)
    }
}

pub open spec fn taut_handlers(s: Seq<HandlerModel>) -> Seq<AnalysisError>
    decreases s, 0nat,
{
    if s.len() == 0 {
        Seq::empty()
    } else {
        taut_handlers(s.drop_last()) + taut_stmts(s.last().body.stmts)
    }
}

pub open spec fn taut_opt_block(b: Option<BlockModel>) -> Seq<AnalysisError>
    decreases b, 0nat,
{
    match b {
        Some(bl) => taut_stmts(bl.stmts),
        None => Seq::empty(),
    }
}

/// The condition warnings of a statement, in source order.
pub open spec fn taut_stmt(st: StmtModel) -> Seq<AnalysisError>
    decreases st, 0nat,
{
    match st {
        StmtModel::If { branches, else_branch, .. } => taut_branches(branches) + taut_opt_block(
            else_branch,
        ),
        StmtModel::While { cond, body, .. } => loop_cond_warnings(cond) + taut_stmts(body.stmts),
        StmtModel::DoWhile { body, cond, .. } => taut_stmts(body.stmts) + loop_cond_warnings(cond),
        StmtModel::For { body, .. } => taut_stmts(body.stmts),
        StmtModel::TryCatch { body, handlers, finally, .. } => taut_stmts(body.stmts)
            + taut_handlers(handlers) + taut_opt_block(finally),
        StmtModel::FnDef(f) => taut_stmts(f.body.stmts),
        _ => Seq::empty(),
    }
}

fn check_condition(cond: &TypedExpr, errs: &mut Vec<AnalysisError>)
    ensures
        final(errs)@ == old(errs)@ + cond_warnings(expr_model(*cond)),
{
    match &cond.kind {
        TypedExprKind::Bool(true) => {
            errs.push(AnalysisError::TautologicalCondition { span: cond.span });
        },
        TypedExprKind::Bool(false) => {
            errs.push(AnalysisError::ContradictoryCondition { span: cond.span });
        },
        _ => {},
    }
    assert(errs@ =~= old(errs)@ + cond_warnings(expr_model(*cond)));
}

fn check_loop_condition(cond: &TypedExpr, errs: &mut Vec<AnalysisError>)
    ensures
        final(errs)@ == old(errs)@ + loop_cond_warnings(expr_model(*cond)),
{
    let is_true = match &cond.kind {
        TypedExprKind::Bool(b) => *b,
        _ => false,
    };
    if !is_true {
        check_condition(cond, errs);
    } else {
        assert(errs@ =~= old(errs)@ + loop_cond_warnings(expr_model(*cond)));
    }
}

fn check_block(block: &TypedBlock, errs: &mut Vec<AnalysisError>)
    ensures
        final(errs)@ == old(errs)@ + taut_stmts(block_model(*block).stmts),
    decreases *block, 1nat,
{
    check_stmts(&block.stmts, errs);
}

fn check_opt_block(block: &Option<TypedBlock>, errs: &mut Vec<AnalysisError>)
    ensures
        final(errs)@ == old(errs)@ + taut_opt_block(crate::fold_model::opt_block_model(*block)),
    decreases *block, 1nat,
{
    match block {
        Some(b) => check_block(b, errs),
        None => {
            assert(errs@ =~= old(errs)@ + Seq::<AnalysisError>::empty());
        },
    }
}

fn check_stmts(v: &Vec<TypedStmt>, errs: &mut Vec<AnalysisError>)
    ensures
        final(errs)@ == old(errs)@ + taut_stmts(stmts_model(v@)),
    decreases v@, 0nat,
{
    let mut i: usize = 0;
    while i < v.len()
        invariant
            i <= v.len(),
            errs@ == old(errs)@ + taut_stmts(stmts_model(v@.take(i as int))),
        decreases v.len() - i,
    {
        proof {
            assert(decreases_to!(v@ => v@[i as int]));
            let t0 = v@.take(i as int);
            let t1 = v@.take(i as int + 1);
            assert(t1.drop_last() =~= t0);
            assert(stmts_model(t1) == stmts_model(t0).push(stmt_model(v@[i as int])));
            assert(stmts_model(t0).push(stmt_model(v@[i as int])).drop_last() =~= stmts_model(t0));
        }
        check_stmt(&v[i], errs);
        i += 1;
    }
    assert(v@.take(v.len() as int) =~= v@);
    assert(errs@ =~= old(errs)@ + taut_stmts(stmts_model(v@)));
}

fn check_branches(v: &Vec<(TypedExpr, TypedBlock)>, errs: &mut Vec<AnalysisError>)
    ensures
        final(errs)@ == old(errs)@ + taut_branches(branches_model(v@)),
    decreases v@, 0nat,
{
    let mut i: usize = 0;
    while i < v.len()
        invariant
            i <= v.len(),
            errs@ == old(errs)@ + taut_branches(branches_model(v@.take(i as int))),
        decreases v.len() - i,
    {
        proof {
            assert(decreases_to!(v@ => v@[i as int]));
            let t0 = v@.take(i as int);
            let t1 = v@.take(i as int + 1);
            assert(t1.drop_last() =~= t0);
            let e = (expr_model(v@[i as int].0), block_model(v@[i as int].1));
            assert(branches_model(t1) == branches_model(t0).push(e));
            assert(branches_model(t0).push(e).drop_last() =~= branches_model(t0));
        }
        check_condition(&v[i].0, errs);
        check_block(&v[i].1, errs);
        i += 1;
    }
    assert(v@.take(v.len() as int) =~= v@);
    assert(errs@ =~= old(errs)@ + taut_branches(branches_model(v@)));
}

fn check_handlers(v: &Vec<crate::typed_ast::TypedCatchHandler>, errs: &mut Vec<AnalysisError>)
    ensures
        final(errs)@ == old(errs)@ + taut_handlers(handlers_model(v@)),
    decreases v@, 0nat,
{
    let mut i: usize = 0;
    while i < v.len()
        invariant
            i <= v.len(),
            errs@ == old(errs)@ + taut_handlers(handlers_model(v@.take(i as int))),
        decreases v.len() - i,
    {
        proof {
            assert(decreases_to!(v@ => v@[i as int]));
            let t0 = v@.take(i as int);
            let t1 = v@.take(i as int + 1);
            assert(t1.drop_last() =~= t0);
            let m1 = handlers_model(t1);
            assert(m1 == handlers_model(t0).push(m1.last()));
            assert(handlers_model(t0).push(m1.last()).drop_last() =~= handlers_model(t0));
        }
        check_block(&v[i].body, errs);
        i += 1;
    }
    assert(v@.take(v.len() as int) =~= v@);
    assert(errs@ =~= old(errs)@ + taut_handlers(handlers_model(v@)));
}

fn check_stmt(stmt: &TypedStmt, errs: &mut Vec<AnalysisError>)
    ensures
        final(errs)@ == old(errs)@ + taut_stmt(stmt_model(*stmt)),
    decreases *stmt, 1nat,
{
    let ghost e0 = errs@;
    match stmt {
        TypedStmt::If { branches, else_branch, .. } => {
            check_branches(branches, errs);
            check_opt_block(else_branch, errs);
        },
        TypedStmt::While { cond, body, .. } => {
            check_loop_condition(cond, errs);
            check_block(body, errs);
        },
        TypedStmt::DoWhile { body, cond, .. } => {
            check_block(body, errs);
            check_loop_condition(cond, errs);
        },
        TypedStmt::For { body, .. } => check_block(body, errs),
        TypedStmt::TryCatch { body, handlers, finally, .. } => {
            check_block(body, errs);
            check_handlers(handlers, errs);
            check_opt_block(finally, errs);
        },
        TypedStmt::FnDef(f) => check_block(&f.body, errs),
        _ => {},
    }
    assert(errs@ =~= e0 + taut_stmt(stmt_model(*stmt)));
}

/// The condition warnings of one top-level item.
pub open spec fn taut_item(item: TypedItem) -> Seq<AnalysisError> {
    match item {
        TypedItem::Function(f) => taut_stmts(block_model(f.body).stmts),
        TypedItem::ImplBlock(ib) => taut_methods(ib.methods@) + taut_hooks(ib.hooks@),
        _ => Seq::empty(),
    }
}

pub open spec fn taut_methods(s: Seq<crate::typed_ast::TypedFnDef>) -> Seq<AnalysisError>
    decreases s.len(),
{
    if s.len() == 0 {
        Seq::empty()
    } else {
        taut_methods(s.drop_last()) + taut_stmts(block_model(s.last().body).stmts)
    }
}

pub open spec fn taut_hooks(s: Seq<crate::typed_ast::TypedHookDef>) -> Seq<AnalysisError>
    decreases s.len(),
{
    if s.len() == 0 {
        Seq::empty()
    } else {
        taut_hooks(s.drop_last()) + taut_stmts(block_model(s.last().body).stmts)
    }
}

pub open spec fn taut_items(s: Seq<TypedItem>) -> Seq<AnalysisError>
    decreases s.len(),
{
    if s.len() == 0 {
        Seq::empty()
    } else {
        taut_items(s.drop_last()) + taut_item(s.last())
    }
}

/// Checks every `if` and loop condition of a file for a literal `true` or `false`,
/// in source order.
pub fn check_tautological_conditions(file: &TypedFile) -> (r: Vec<AnalysisError>)
    ensures
        r@ == taut_items(file.items@),
{
    let mut errors: Vec<AnalysisError> = Vec::new();
    let mut i: usize = 0;
    while i < file.items.len()
        invariant
            i <= file.items.len(),
            errors@ == taut_items(file.items@.take(i as int)),
        decreases file.items.len() - i,
    {
        proof {
            assert(file.items@.take(i as int + 1).drop_last() =~= file.items@.take(i as int));
        }
        let ghost before = errors@;
        match &file.items[i] {
            TypedItem::Function(f) => check_block(&f.body, &mut errors),
            TypedItem::ImplBlock(ib) => {
                let mut j: usize = 0;
                while j < ib.methods.len()
                    invariant
                        j <= ib.methods.len(),
                        errors@ == before + taut_methods(ib.methods@.take(j as int)),
                    decreases ib.methods.len() - j,
                {
                    proof {
                        assert(ib.methods@.take(j as int + 1).drop_last() =~= ib.methods@.take(j as int));
                    }
                    check_block(&ib.methods[j].body, &mut errors);
                    j += 1;
                }
                assert(ib.methods@.take(ib.methods.len() as int) =~= ib.methods@);
                let ghost mid = errors@;
                let mut k: usize = 0;
                while k < ib.hooks.len()
                    invariant
                        k <= ib.hooks.len(),
                        errors@ == mid + taut_hooks(ib.hooks@.take(k as int)),
                    decreases ib.hooks.len() - k,
                {
                    proof {
                        assert(ib.hooks@.take(k as int + 1).drop_last() =~= ib.hooks@.take(k as int));
                    }
                    check_block(&ib.hooks[k].body, &mut errors);
                    k += 1;
                }
                assert(ib.hooks@.take(ib.hooks.len() as int) =~= ib.hooks@);
            },
            _ => {},
        }
        proof {
            assert(errors@ =~= before + taut_item(file.items@[i as int]));
        }
        i += 1;
    }
    assert(file.items@.take(file.items.len() as int) =~= file.items@);
    errors
}

/// The warning for one expression used as a condition, if it is a literal.
pub fn check_expr_condition(expr: &TypedExpr) -> (r: Option<AnalysisError>)
    ensures
        cond_warnings(expr_model(*expr)).len() == 0 ==> r is None,
        cond_warnings(expr_model(*expr)).len() > 0 ==> r == Some(cond_warnings(expr_model(*expr))[0]),
{
    let mut errs: Vec<AnalysisError> = Vec::new();
    check_condition(expr, &mut errs);
    if errs.len() == 0 {
        None
    } else {
        Some(errs.remove(0))
    }
}

} // verus!
