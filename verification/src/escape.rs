use vstd::prelude::*;
use crate::names::{distinct_names, has_name, lemma_distinct_push, lemma_listed_push, listed};
use crate::typed_ast::{
    TypedBlock, TypedCatchHandler, TypedExpr, TypedExprKind, TypedFile, TypedFnDef, TypedItem,
    TypedStmt,
};

verus! {

// Escape analysis: which locally declared names never escape their function, that is,
// are never returned, raised, passed to a call or stored into a field.

/// The names declared in a function body that do not escape it, each once.
#[derive(Debug)]
pub struct EscapeInfo {
    pub non_escaping: Vec<String>,
}

// ---------------------------------------------------------------------------
// Declared names
// ---------------------------------------------------------------------------

pub open spec fn locals_stmts(s: Seq<TypedStmt>) -> Seq<String>
    decreases s, 0nat,
{
    if s.len() == 0 {
        Seq::empty()
    } else {
        locals_stmts(s.drop_last()) + locals_stmt(s.last())
    }
}

pub open spec fn locals_opt_block(b: Option<TypedBlock>) -> Seq<String>
    decreases b, 0nat,
{
    match b {
        Some(bl) => locals_stmts(bl.stmts@),
        None => Seq::empty(),
    }
}

pub open spec fn locals_branches(s: Seq<(TypedExpr, TypedBlock)>) -> Seq<String>
    decreases s, 0nat,
{
    if s.len() == 0 {
        Seq::empty()
    } else {
        locals_branches(s.drop_last()) + locals_stmts(s.last().1.stmts@)
    }
}

pub open spec fn locals_handlers(s: Seq<TypedCatchHandler>) -> Seq<String>
    decreases s, 0nat,
{
    if s.len() == 0 {
        Seq::empty()
    } else {
        locals_handlers(s.drop_last()) + locals_stmts(s.last().body.stmts@)
    }
}

/// The names a statement declares with `let`, including in nested blocks and nested
/// function definitions.
pub open spec fn locals_stmt(st: TypedStmt) -> Seq<String>
    decreases st, 0nat,
{
    match st {
        TypedStmt::VarDecl { name, .. } => seq![name],
        TypedStmt::If { branches, else_branch, .. } => locals_branches(branches@) + locals_opt_block(
            else_branch,
        ),
        TypedStmt::While { body, .. } => locals_stmts(body.stmts@),
        TypedStmt::DoWhile { body, .. } => locals_stmts(body.stmts@),
        TypedStmt::For { body, .. } => locals_stmts(body.stmts@),
        TypedStmt::TryCatch { body, handlers, finally, .. } => locals_stmts(body.stmts@)
            + locals_handlers(handlers@) + locals_opt_block(finally),
        TypedStmt::FnDef(f) => locals_stmts(f.body.stmts@),
        _ => Seq::empty(),
    }
}

// ---------------------------------------------------------------------------
// Escaping names
// ---------------------------------------------------------------------------

/// The name an expression is, if it is a plain identifier.
pub open spec fn ident_of(e: TypedExpr) -> Seq<String> {
    match e.kind {
        TypedExprKind::Ident(n) => seq![n],
        _ => Seq::empty(),
    }
}

pub open spec fn idents_of(s: Seq<TypedExpr>) -> Seq<String>
    decreases s.len(),
{
    if s.len() == 0 {
        Seq::empty()
    } else {
        idents_of(s.drop_last()) + ident_of(s.last())
    }
}

/// The names an expression lets escape: a plain identifier that is returned or
/// raised, and every plain identifier passed to a call or used as its callee or
/// receiver; operators and struct literals pass the question on to their operands.
pub open spec fn esc_expr(e: TypedExpr, returning: bool) -> Seq<String>
    decreases e, 1nat,
{
    match e.kind {
        TypedExprKind::Ident(n) => if returning {
            seq![n]
        } else {
            Seq::empty()
        },
        TypedExprKind::Call { callee, args, .. } => ident_of(*callee) + idents_of(args@),
        TypedExprKind::MethodCall { object, args, .. } => ident_of(*object) + idents_of(args@),
        TypedExprKind::StaticCall { args, .. } => idents_of(args@),
        TypedExprKind::IndirectCall { fat_ptr, args } => ident_of(*fat_ptr) + idents_of(args@),
        TypedExprKind::StructLiteral { fields, .. } => esc_fields(fields@, returning),
        TypedExprKind::BinOp { left, right, .. } => esc_expr(*left, returning) + esc_expr(
            *right,
            returning,
        ),
        TypedExprKind::UnOp { operand, .. } => esc_expr(*operand, returning),
        _ => Seq::empty(),
    }
}

pub open spec fn esc_fields(s: Seq<(String, TypedExpr)>, returning: bool) -> Seq<String>
    decreases s, 0nat,
{
    if s.len() == 0 {
        Seq::empty()
    } else {
        esc_fields(s.drop_last(), returning) + esc_expr(s.last().1, returning)
    }
}

pub open spec fn esc_stmts(s: Seq<TypedStmt>) -> Seq<String>
    decreases s, 0nat,
{
    if s.len() == 0 {
        Seq::empty()
    } else {
        esc_stmts(s.drop_last()) + esc_stmt(s.last())
    }
}

pub open spec fn esc_opt_block(b: Option<TypedBlock>) -> Seq<String>
    decreases b, 0nat,
{
    match b {
        Some(bl) => esc_stmts(bl.stmts@),
        None => Seq::empty(),
    }
}

pub open spec fn esc_branches(s: Seq<(TypedExpr, TypedBlock)>) -> Seq<String>
    decreases s, 0nat,
{
    if s.len() == 0 {
        Seq::empty()
    } else {
        esc_branches(s.drop_last()) + esc_expr(s.last().0, false) + esc_stmts(s.last().1.stmts@)
    }
}

pub open spec fn esc_handlers(s: Seq<TypedCatchHandler>) -> Seq<String>
    decreases s, 0nat,
{
    if s.len() == 0 {
        Seq::empty()
    } else {
        esc_handlers(s.drop_last()) + esc_stmts(s.last().body.stmts@)
    }
}

/// A store into a field lets escape the object written and the value stored, when
/// they are plain identifiers.
pub open spec fn field_store(target: TypedExpr, value: TypedExpr) -> Seq<String> {
    match target.kind {
        TypedExprKind::Field { object, .. } => ident_of(*object) + ident_of(value),
        _ => Seq::empty(),
    }
}

/// The names a statement lets escape; a value stored into a field escapes, and so
/// does the object whose field is written.
pub open spec fn esc_stmt(st: TypedStmt) -> Seq<String>
    decreases st, 0nat,
{
    match st {
        TypedStmt::Return { value, .. } => match value {
            Some(e) => esc_expr(e, true),
            None => Seq::empty(),
        },
        TypedStmt::Raise { value, .. } => match value {
            Some(e) => esc_expr(e, true),
            None => Seq::empty(),
        },
        TypedStmt::Assign { target, value, .. } => field_store(target, value) + esc_expr(value, false),
        TypedStmt::VarDecl { value, .. } => esc_expr(value, false),
        TypedStmt::Expr(e) => esc_expr(e, false),
        TypedStmt::If { branches, else_branch, .. } => esc_branches(branches@) + esc_opt_block(
            else_branch,
        ),
        TypedStmt::While { cond, body, .. } => esc_expr(cond, false) + esc_stmts(body.stmts@),
        TypedStmt::DoWhile { body, cond, .. } => esc_stmts(body.stmts@) + esc_expr(cond, false),
        TypedStmt::For { iterable, body, .. } => esc_expr(iterable, false) + esc_stmts(body.stmts@),
        TypedStmt::TryCatch { body, handlers, finally, .. } => esc_stmts(body.stmts@)
            + esc_handlers(handlers@) + esc_opt_block(finally),
        _ => Seq::empty(),
    }
}

/// The escape facts of a function body: exactly the declared names that never escape,
/// each once.
pub open spec fn escape_ok(body: TypedBlock, info: EscapeInfo) -> bool {
    &&& distinct_names(info.non_escaping@)
    &&& forall|k: Seq<char>|
        #![trigger listed(info.non_escaping@, k)]
        listed(info.non_escaping@, k) <==> (listed(locals_stmts(body.stmts@), k) && !listed(
            esc_stmts(body.stmts@),
            k,
        ))
}

// ---------------------------------------------------------------------------
// Executable analysis
// ---------------------------------------------------------------------------

fn push_name(out: &mut Vec<String>, n: &String)
    ensures
        final(out)@ == old(out)@ + seq![*n],
{
    out.push(n.clone());
    assert(out@ =~= old(out)@ + seq![*n]);
}

fn collect_locals_stmt(stmt: &TypedStmt, out: &mut Vec<String>)
    ensures
        final(out)@ == old(out)@ + locals_stmt(*stmt),
    decreases *stmt, 1nat,
{
    let ghost o0 = out@;
    match stmt {
        TypedStmt::VarDecl { name, .. } => push_name(out, name),
        TypedStmt::If { branches, else_branch, .. } => {
            collect_locals_branches(branches, out);
            match else_branch {
                Some(b) => collect_locals_stmts(&b.stmts, out),
                None => {},
            }
        },
        TypedStmt::While { body, .. } => collect_locals_stmts(&body.stmts, out),
        TypedStmt::DoWhile { body, .. } => collect_locals_stmts(&body.stmts, out),
        TypedStmt::For { body, .. } => collect_locals_stmts(&body.stmts, out),
        TypedStmt::TryCatch { body, handlers, finally, .. } => {
            collect_locals_stmts(&body.stmts, out);
            collect_locals_handlers(handlers, out);
            match finally {
                Some(b) => collect_locals_stmts(&b.stmts, out),
                None => {},
            }
        },
        TypedStmt::FnDef(f) => collect_locals_stmts(&f.body.stmts, out),
        _ => {},
    }
    assert(out@ =~= o0 + locals_stmt(*stmt));
}

fn push_ident(e: &TypedExpr, out: &mut Vec<String>)
    ensures
        final(out)@ == old(out)@ + ident_of(*e),
{
    match &e.kind {
        TypedExprKind::Ident(n) => push_name(out, n),
        _ => {
            assert(out@ =~= old(out)@ + ident_of(*e));
        },
    }
}

fn push_idents(v: &Vec<TypedExpr>, out: &mut Vec<String>)
    ensures
        final(out)@ == old(out)@ + idents_of(v@),
{
    let ghost out0 = out@;
    let mut i: usize = 0;
    assert(v@.take(0) =~= Seq::<TypedExpr>::empty());
    assert(out0 + idents_of(Seq::<TypedExpr>::empty()) =~= out0);
    while i < v.len()
        invariant
            i <= v@.len(),
            out@ == out0 + idents_of(v@.take(i as int)),
        decreases v.len() - i,
    {
        proof {
            assert(v@.take(i + 1).drop_last() =~= v@.take(i as int));
            assert(v@.take(i + 1).last() == v@[i as int]);
        }
        push_ident(&v[i], out);
        assert(out@ =~= out0 + idents_of(v@.take(i + 1)));
        i += 1;
    }
    assert(v@.take(v@.len() as int) =~= v@);
}

fn collect_escaping_expr(expr: &TypedExpr, out: &mut Vec<String>, returning: bool)
    ensures
        final(out)@ == old(out)@ + esc_expr(*expr, returning),
    decreases *expr, 2nat,
{
    let ghost o0 = out@;
    match &expr.kind {
        TypedExprKind::Ident(n) => {
            if returning {
                push_name(out, n);
            }
        },
        TypedExprKind::Call { callee, args, .. } => {
            push_ident(callee, out);
            push_idents(args, out);
        },
        TypedExprKind::MethodCall { object, args, .. } => {
            push_ident(object, out);
            push_idents(args, out);
        },
        TypedExprKind::StaticCall { args, .. } => push_idents(args, out),
        TypedExprKind::IndirectCall { fat_ptr, args } => {
            push_ident(fat_ptr, out);
            push_idents(args, out);
        },
        TypedExprKind::StructLiteral { fields, .. } => collect_escaping_fields(fields, out, returning),
        TypedExprKind::BinOp { left, right, .. } => {
            collect_escaping_expr(left, out, returning);
            collect_escaping_expr(right, out, returning);
        },
        TypedExprKind::UnOp { operand, .. } => collect_escaping_expr(operand, out, returning),
        _ => {},
    }
    assert(out@ =~= o0 + esc_expr(*expr, returning));
}

fn check_stmt_escapes(stmt: &TypedStmt, out: &mut Vec<String>)
    ensures
        final(out)@ == old(out)@ + esc_stmt(*stmt),
    decreases *stmt, 1nat,
{
    let ghost o0 = out@;
    match stmt {
        TypedStmt::Return { value, .. } => match value {
            Some(e) => collect_escaping_expr(e, out, true),
            None => {},
        },
        TypedStmt::Raise { value, .. } => match value {
            Some(e) => collect_escaping_expr(e, out, true),
            None => {},
        },
        TypedStmt::Assign { target, value, .. } => {
            match &target.kind {
                TypedExprKind::Field { object, .. } => {
                    push_ident(object, out);
                    push_ident(value, out);
                },
                _ => {},
            }
            collect_escaping_expr(value, out, false);
        },
        TypedStmt::VarDecl { value, .. } => collect_escaping_expr(value, out, false),
        TypedStmt::Expr(e) => collect_escaping_expr(e, out, false),
        TypedStmt::If { branches, else_branch, .. } => {
            check_branches_escapes(branches, out);
            match else_branch {
                Some(b) => check_stmts_escapes(&b.stmts, out),
                None => {},
            }
        },
        TypedStmt::While { cond, body, .. } => {
            collect_escaping_expr(cond, out, false);
            check_stmts_escapes(&body.stmts, out);
        },
        TypedStmt::DoWhile { body, cond, .. } => {
            check_stmts_escapes(&body.stmts, out);
            collect_escaping_expr(cond, out, false);
        },
        TypedStmt::For { iterable, body, .. } => {
            collect_escaping_expr(iterable, out, false);
            check_stmts_escapes(&body.stmts, out);
        },
        TypedStmt::TryCatch { body, handlers, finally, .. } => {
            check_stmts_escapes(&body.stmts, out);
            check_handlers_escapes(handlers, out);
            match finally {
                Some(b) => check_stmts_escapes(&b.stmts, out),
                None => {},
            }
        },
        _ => {},
    }
    assert(out@ =~= o0 + esc_stmt(*stmt));
}

fn collect_locals_stmts(v: &Vec<TypedStmt>, out: &mut Vec<String>)
    ensures
        final(out)@ == old(out)@ + locals_stmts(v@),
    decreases v@, 0nat,
{
    let ghost out0 = out@;
    let mut i: usize = 0;
    assert(v@.take(0) =~= Seq::<TypedStmt>::empty());
    assert(out0 + locals_stmts(Seq::<TypedStmt>::empty()) =~= out0);
    while i < v.len()
        invariant
            i <= v@.len(),
            out@ == out0 + locals_stmts(v@.take(i as int)),
        decreases v.len() - i,
    {
        proof {
            assert(decreases_to!(v@ => v@[i as int]));
            assert(v@.take(i + 1).drop_last() =~= v@.take(i as int));
            assert(v@.take(i + 1).last() == v@[i as int]);
        }
        collect_locals_stmt(&v[i], out);
        assert(out@ =~= out0 + locals_stmts(v@.take(i + 1)));
        i += 1;
    }
    assert(v@.take(v@.len() as int) =~= v@);
}

fn collect_locals_branches(v: &Vec<(TypedExpr, TypedBlock)>, out: &mut Vec<String>)
    ensures
        final(out)@ == old(out)@ + locals_branches(v@),
    decreases v@, 0nat,
{
    let ghost out0 = out@;
    let mut i: usize = 0;
    assert(v@.take(0) =~= Seq::<(TypedExpr, TypedBlock)>::empty());
    assert(out0 + locals_branches(Seq::<(TypedExpr, TypedBlock)>::empty()) =~= out0);
    while i < v.len()
        invariant
            i <= v@.len(),
            out@ == out0 + locals_branches(v@.take(i as int)),
        decreases v.len() - i,
    {
        proof {
            assert(decreases_to!(v@ => v@[i as int]));
            assert(v@.take(i + 1).drop_last() =~= v@.take(i as int));
            assert(v@.take(i + 1).last() == v@[i as int]);
        }
        collect_locals_stmts(&v[i].1.stmts, out);
        assert(out@ =~= out0 + locals_branches(v@.take(i + 1)));
        i += 1;
    }
    assert(v@.take(v@.len() as int) =~= v@);
}

fn collect_locals_handlers(v: &Vec<TypedCatchHandler>, out: &mut Vec<String>)
    ensures
        final(out)@ == old(out)@ + locals_handlers(v@),
    decreases v@, 0nat,
{
    let ghost out0 = out@;
    let mut i: usize = 0;
    assert(v@.take(0) =~= Seq::<TypedCatchHandler>::empty());
    assert(out0 + locals_handlers(Seq::<TypedCatchHandler>::empty()) =~= out0);
    while i < v.len()
        invariant
            i <= v@.len(),
            out@ == out0 + locals_handlers(v@.take(i as int)),
        decreases v.len() - i,
    {
        proof {
            assert(decreases_to!(v@ => v@[i as int]));
            assert(v@.take(i + 1).drop_last() =~= v@.take(i as int));
            assert(v@.take(i + 1).last() == v@[i as int]);
        }
        collect_locals_stmts(&v[i].body.stmts, out);
        assert(out@ =~= out0 + locals_handlers(v@.take(i + 1)));
        i += 1;
    }
    assert(v@.take(v@.len() as int) =~= v@);
}

fn collect_escaping_fields(v: &Vec<(String, TypedExpr)>, out: &mut Vec<String>, returning: bool)
    ensures
        final(out)@ == old(out)@ + esc_fields(v@, returning),
    decreases v@, 0nat,
{
    let ghost out0 = out@;
    let mut i: usize = 0;
    assert(v@.take(0) =~= Seq::<(String, TypedExpr)>::empty());
    assert(out0 + esc_fields(Seq::<(String, TypedExpr)>::empty(), returning) =~= out0);
    while i < v.len()
        invariant
            i <= v@.len(),
            out@ == out0 + esc_fields(v@.take(i as int), returning),
        decreases v.len() - i,
    {
        proof {
            assert(decreases_to!(v@ => v@[i as int]));
            assert(v@.take(i + 1).drop_last() =~= v@.take(i as int));
            assert(v@.take(i + 1).last() == v@[i as int]);
        }
        collect_escaping_expr(&v[i].1, out, returning);
        assert(out@ =~= out0 + esc_fields(v@.take(i + 1), returning));
        i += 1;
    }
    assert(v@.take(v@.len() as int) =~= v@);
}

fn check_stmts_escapes(v: &Vec<TypedStmt>, out: &mut Vec<String>)
    ensures
        final(out)@ == old(out)@ + esc_stmts(v@),
    decreases v@, 0nat,
{
    let ghost out0 = out@;
    let mut i: usize = 0;
    assert(v@.take(0) =~= Seq::<TypedStmt>::empty());
    assert(out0 + esc_stmts(Seq::<TypedStmt>::empty()) =~= out0);
    while i < v.len()
        invariant
            i <= v@.len(),
            out@ == out0 + esc_stmts(v@.take(i as int)),
        decreases v.len() - i,
    {
        proof {
            assert(decreases_to!(v@ => v@[i as int]));
            assert(v@.take(i + 1).drop_last() =~= v@.take(i as int));
            assert(v@.take(i + 1).last() == v@[i as int]);
        }
        check_stmt_escapes(&v[i], out);
        assert(out@ =~= out0 + esc_stmts(v@.take(i + 1)));
        i += 1;
    }
    assert(v@.take(v@.len() as int) =~= v@);
}

fn check_branches_escapes(v: &Vec<(TypedExpr, TypedBlock)>, out: &mut Vec<String>)
    ensures
        final(out)@ == old(out)@ + esc_branches(v@),
    decreases v@, 0nat,
{
    let ghost out0 = out@;
    let mut i: usize = 0;
    assert(v@.take(0) =~= Seq::<(TypedExpr, TypedBlock)>::empty());
    assert(out0 + esc_branches(Seq::<(TypedExpr, TypedBlock)>::empty()) =~= out0);
    while i < v.len()
        invariant
            i <= v@.len(),
            out@ == out0 + esc_branches(v@.take(i as int)),
        decreases v.len() - i,
    {
        proof {
            assert(decreases_to!(v@ => v@[i as int]));
            assert(v@.take(i + 1).drop_last() =~= v@.take(i as int));
            assert(v@.take(i + 1).last() == v@[i as int]);
        }
        collect_escaping_expr(&v[i].0, out, false);
        check_stmts_escapes(&v[i].1.stmts, out);
        assert(out@ =~= out0 + esc_branches(v@.take(i + 1)));
        i += 1;
    }
    assert(v@.take(v@.len() as int) =~= v@);
}

fn check_handlers_escapes(v: &Vec<TypedCatchHandler>, out: &mut Vec<String>)
    ensures
        final(out)@ == old(out)@ + esc_handlers(v@),
    decreases v@, 0nat,
{
    let ghost out0 = out@;
    let mut i: usize = 0;
    assert(v@.take(0) =~= Seq::<TypedCatchHandler>::empty());
    assert(out0 + esc_handlers(Seq::<TypedCatchHandler>::empty()) =~= out0);
    while i < v.len()
        invariant
            i <= v@.len(),
            out@ == out0 + esc_handlers(v@.take(i as int)),
        decreases v.len() - i,
    {
        proof {
            assert(decreases_to!(v@ => v@[i as int]));
            assert(v@.take(i + 1).drop_last() =~= v@.take(i as int));
            assert(v@.take(i + 1).last() == v@[i as int]);
        }
        check_stmts_escapes(&v[i].body.stmts, out);
        assert(out@ =~= out0 + esc_handlers(v@.take(i + 1)));
        i += 1;
    }
    assert(v@.take(v@.len() as int) =~= v@);
}

/// Analyzes a function body: the names it declares that never escape.
pub fn analyze_escapes(block: &TypedBlock) -> (r: EscapeInfo)
    ensures
        escape_ok(*block, r),
{
    let mut locals: Vec<String> = Vec::new();
    collect_locals_stmts(&block.stmts, &mut locals);
    let mut escaping: Vec<String> = Vec::new();
    check_stmts_escapes(&block.stmts, &mut escaping);
    assert(locals@ =~= locals_stmts(block.stmts@));
    assert(escaping@ =~= esc_stmts(block.stmts@));
    let mut non: Vec<String> = Vec::new();
    let mut i: usize = 0;
    while i < locals.len()
        invariant
            i <= locals@.len(),
            distinct_names(non@),
            forall|k: Seq<char>|
                #![trigger listed(non@, k)]
                listed(non@, k) <==> (listed(locals@.take(i as int), k) && !listed(escaping@, k)),
        decreases locals.len() - i,
    {
        let ghost before = non@;
        let keep = !has_name(&escaping, &locals[i]) && !has_name(&non, &locals[i]);
        if keep {
            non.push(locals[i].clone());
        }
        proof {
            let x = locals@[i as int];
            assert(locals@.take(i + 1) =~= locals@.take(i as int).push(x));
            assert forall|k: Seq<char>|
                #![trigger listed(non@, k)]
                listed(non@, k) <==> (listed(locals@.take(i + 1), k) && !listed(escaping@, k)) by {
                lemma_listed_push(locals@.take(i as int), x, k);
                if keep {
                    assert(non@ == before.push(x));
                    lemma_listed_push(before, x, k);
                }
            }
            if keep {
                lemma_distinct_push(before, x);
            }
        }
        i += 1;
    }
    assert(locals@.take(locals@.len() as int) =~= locals@);
    EscapeInfo { non_escaping: non }
}

/// The function definitions among a file's items, in order.
pub open spec fn functions_of(items: Seq<TypedItem>) -> Seq<TypedFnDef>
    decreases items.len(),
{
    if items.len() == 0 {
        Seq::empty()
    } else {
        match items.last() {
            TypedItem::Function(f) => functions_of(items.drop_last()).push(f),
            _ => functions_of(items.drop_last()),
        }
    }
}

/// Escape facts for every top-level function of a file, by name and in order.
pub fn escape_for_file(file: &TypedFile) -> (r: Vec<(String, EscapeInfo)>)
    ensures
        r@.len() == functions_of(file.items@).len(),
        forall|j: int|
            0 <= j < r@.len() ==> (#[trigger] r@[j]).0 == functions_of(file.items@)[j].name
                && escape_ok(functions_of(file.items@)[j].body, r@[j].1),
{
    let mut results: Vec<(String, EscapeInfo)> = Vec::new();
    let mut i: usize = 0;
    while i < file.items.len()
        invariant
            i <= file.items@.len(),
            results@.len() == functions_of(file.items@.take(i as int)).len(),
            forall|j: int|
                0 <= j < results@.len() ==> (#[trigger] results@[j]).0 == functions_of(
                    file.items@.take(i as int),
                )[j].name && escape_ok(functions_of(file.items@.take(i as int))[j].body, results@[j].1),
        decreases file.items.len() - i,
    {
        proof {
            assert(file.items@.take(i + 1).drop_last() =~= file.items@.take(i as int));
        }
        match &file.items[i] {
            TypedItem::Function(f) => {
                let info = analyze_escapes(&f.body);
                results.push((f.name.clone(), info));
            },
            _ => {},
        }
        i += 1;
    }
    assert(file.items@.take(file.items@.len() as int) =~= file.items@);
    results
}


/// Only declared names are reported as non-escaping, and a declared name that is
/// returned, raised, passed to a call or stored into a field is never reported.
pub proof fn non_escaping_names_are_declared_and_kept(body: TypedBlock, info: EscapeInfo, k: Seq<char>)
    requires
        escape_ok(body, info),
    ensures
        listed(info.non_escaping@, k) ==> listed(locals_stmts(body.stmts@), k),
        listed(esc_stmts(body.stmts@), k) ==> !listed(info.non_escaping@, k),
{
}

} // verus!
