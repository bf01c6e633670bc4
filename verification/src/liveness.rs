use vstd::prelude::*;
use crate::cfg::{BasicBlock, Cfg, CfgBuilder, Terminator, graph_of, no_loop_exit, targets_in_range, term_targets};
use crate::escape::functions_of;
use crate::names::{distinct_names, has_name, lemma_distinct_push, lemma_listed_push, listed, name_set};
use crate::typed_ast::{TypedExpr, TypedExprKind, TypedFile, TypedFnDef, TypedItem, TypedMatchArm, TypedStmt};

verus! {

// Liveness: backward dataflow over a control-flow graph. For each basic block b,
//   live_out[b] = union of live_in[s] over the successors s of b
//   live_in[b]  = use[b] union (live_out[b] minus def[b])
// and the analysis finds the least solution by iterating from empty sets.

/// Sets of variable names by block.
#[derive(Debug)]
pub struct LivenessResult {
    /// Variables live on entry to block `i`, each once.
    pub live_in: Vec<Vec<String>>,
    /// Variables live on exit from block `i`, each once.
    pub live_out: Vec<Vec<String>>,
}

pub type Names = Set<Seq<char>>;

// ---------------------------------------------------------------------------
// Uses and definitions
// ---------------------------------------------------------------------------

/// The variables an expression reads. Closure and generator bodies are not entered.
pub open spec fn uses_expr(e: TypedExpr) -> Names
    decreases e, 1nat,
{
    match e.kind {
        TypedExprKind::Ident(n) => set![n@],
        TypedExprKind::BinOp { left, right, .. } => uses_expr(*left).union(uses_expr(*right)),
        TypedExprKind::UnOp { operand, .. } => uses_expr(*operand),
        TypedExprKind::Call { callee, args, .. } => uses_expr(*callee).union(uses_exprs(args@)),
        TypedExprKind::MethodCall { object, args, .. } => uses_expr(*object).union(uses_exprs(args@)),
        TypedExprKind::StaticCall { args, .. } => uses_exprs(args@),
        TypedExprKind::IndirectCall { fat_ptr, args } => uses_expr(*fat_ptr).union(uses_exprs(args@)),
        TypedExprKind::Field { object, .. } => uses_expr(*object),
        TypedExprKind::Index { object, index } => uses_expr(*object).union(uses_expr(*index)),
        TypedExprKind::Tuple(es) => uses_exprs(es@),
        TypedExprKind::StructLiteral { fields, .. } => uses_fields(fields@),
        TypedExprKind::Unwrap(x) => uses_expr(*x),
        TypedExprKind::As { expr, .. } => uses_expr(*expr),
        TypedExprKind::Match { scrutinee, arms } => uses_expr(*scrutinee).union(uses_arms(arms@)),
        TypedExprKind::Spawn(x) => uses_expr(*x),
        TypedExprKind::Ref { expr, .. } => uses_expr(*expr),
        TypedExprKind::Array(es) => uses_exprs(es@),
        TypedExprKind::GenSplice(x) => uses_expr(*x),
        TypedExprKind::Try(x) => uses_expr(*x),
        TypedExprKind::Ignore(x) => uses_expr(*x),
        TypedExprKind::Implements { expr, .. } => uses_expr(*expr),
        TypedExprKind::TypeName { expr } => uses_expr(*expr),
        TypedExprKind::BoundMethod { object, .. } => uses_expr(*object),
        _ => Set::empty(),
    }
}

pub open spec fn uses_exprs(s: Seq<TypedExpr>) -> Names
    decreases s, 0nat,
{
    if s.len() == 0 {
        Set::empty()
    } else {
        uses_exprs(s.drop_last()).union(uses_expr(s.last()))
    }
}

pub open spec fn uses_fields(s: Seq<(String, TypedExpr)>) -> Names
    decreases s, 0nat,
{
    if s.len() == 0 {
        Set::empty()
    } else {
        uses_fields(s.drop_last()).union(uses_expr(s.last().1))
    }
}

pub open spec fn uses_arm(a: TypedMatchArm) -> Names
    decreases a, 0nat,
{
    match a.guard {
        Some(g) => uses_expr(g).union(uses_expr(a.body)),
        None => uses_expr(a.body),
    }
}

pub open spec fn uses_arms(s: Seq<TypedMatchArm>) -> Names
    decreases s, 0nat,
{
    if s.len() == 0 {
        Set::empty()
    } else {
        uses_arms(s.drop_last()).union(uses_arm(s.last()))
    }
}

/// Reading an expression adds the names it reads that are not yet defined.
pub open spec fn read(e: TypedExpr, u: Names, d: Names) -> Names {
    u.union(uses_expr(e).difference(d))
}

/// Uses and definitions after one more statement of a block. Control-flow statements
/// are accounted for by the graph itself.
pub open spec fn ud_stmt(st: TypedStmt, u: Names, d: Names) -> (Names, Names) {
    match st {
        TypedStmt::VarDecl { name, value, .. } => (read(value, u, d), d.insert(name@)),
        TypedStmt::Assign { target, value, .. } => {
            let u1 = read(value, u, d);
            match target.kind {
                TypedExprKind::Ident(n) => (u1, d.insert(n@)),
                _ => (read(target, u1, d), d),
            }
        },
        TypedStmt::CompoundAssign { target, rhs, .. } => {
            let u2 = read(target, read(rhs, u, d), d);
            match target.kind {
                TypedExprKind::Ident(n) => (u2, d.insert(n@)),
                _ => (u2, d),
            }
        },
        TypedStmt::Return { value, .. } => match value {
            Some(e) => (read(e, u, d), d),
            None => (u, d),
        },
        TypedStmt::Raise { value, .. } => match value {
            Some(e) => (read(e, u, d), d),
            None => (u, d),
        },
        TypedStmt::Expr(e) => (read(e, u, d), d),
        _ => (u, d),
    }
}

/// The uses (read before written) and definitions of a block's statements, given by
/// their positions in the flat statement list; positions past its end are skipped.
pub open spec fn block_ud(idx: Seq<usize>, stmts: Seq<TypedStmt>) -> (Names, Names)
    decreases idx.len(),
{
    if idx.len() == 0 {
        (Set::empty(), Set::empty())
    } else {
        let (u, d) = block_ud(idx.drop_last(), stmts);
        if idx.last() < stmts.len() {
            ud_stmt(stmts[idx.last() as int], u, d)
        } else {
            (u, d)
        }
    }
}

// ---------------------------------------------------------------------------
// The dataflow equations
// ---------------------------------------------------------------------------

/// The union of the live-in sets of a block's successors.
pub open spec fn out_of(t: Terminator, ins: Seq<Names>) -> Names {
    match t {
        Terminator::Jump(x) => ins[x as int],
        Terminator::Branch(a, b) => ins[a as int].union(ins[b as int]),
        _ => Set::empty(),
    }
}

/// The live-in set of a block from its uses, definitions and live-out set.
pub open spec fn in_of(ud: (Names, Names), out: Names) -> Names {
    ud.0.union(out.difference(ud.1))
}

/// The uses and definitions of block `i`.
pub open spec fn ud_of(blocks: Seq<BasicBlock>, stmts: Seq<TypedStmt>, i: int) -> (Names, Names) {
    block_ud(blocks[i].stmts@, stmts)
}

/// `ins` and `outs` satisfy the dataflow equations of the graph.
pub open spec fn is_solution(blocks: Seq<BasicBlock>, stmts: Seq<TypedStmt>, ins: Seq<Names>, outs: Seq<Names>) -> bool {
    &&& ins.len() == blocks.len()
    &&& outs.len() == blocks.len()
    &&& forall|i: int|
        0 <= i < blocks.len() ==> #[trigger] outs[i] == out_of(blocks[i].term, ins) && ins[i] == in_of(
            ud_of(blocks, stmts, i),
            outs[i],
        )
}

/// Pointwise inclusion of two assignments of sets to blocks.
pub open spec fn below(a_in: Seq<Names>, a_out: Seq<Names>, b_in: Seq<Names>, b_out: Seq<Names>) -> bool {
    forall|i: int|
        0 <= i < a_in.len() ==> (#[trigger] a_in[i]).subset_of(b_in[i]) && a_out[i].subset_of(b_out[i])
}

pub open spec fn sets_of(v: Seq<Vec<String>>) -> Seq<Names> {
    v.map_values(|x: Vec<String>| name_set(x@))
}

/// The result is the least solution of the dataflow equations, and lists each name of
/// a set once.
pub open spec fn liveness_ok(cfg: Cfg, stmts: Seq<TypedStmt>, r: LivenessResult) -> bool {
    &&& r.live_in@.len() == cfg.blocks@.len()
    &&& r.live_out@.len() == cfg.blocks@.len()
    &&& forall|i: int| 0 <= i < r.live_in@.len() ==> distinct_names(#[trigger] r.live_in@[i]@)
    &&& forall|i: int| 0 <= i < r.live_out@.len() ==> distinct_names(#[trigger] r.live_out@[i]@)
    &&& is_solution(cfg.blocks@, stmts, sets_of(r.live_in@), sets_of(r.live_out@))
    &&& forall|xi: Seq<Names>, xo: Seq<Names>|
        #[trigger] is_solution(cfg.blocks@, stmts, xi, xo) ==> below(
            sets_of(r.live_in@),
            sets_of(r.live_out@),
            xi,
            xo,
        )
}

// ---------------------------------------------------------------------------
// Executable uses and definitions
// ---------------------------------------------------------------------------

/// Adds a name to a list of distinct names unless it is there.
fn add_name(v: &mut Vec<String>, n: &String)
    requires
        distinct_names(old(v)@),
    ensures
        distinct_names(final(v)@),
        name_set(final(v)@) == name_set(old(v)@).insert(n@),
{
    if !has_name(v, n) {
        let x = n.clone();
        proof {
            lemma_distinct_push(v@, x);
        }
        v.push(x);
        proof {
            assert forall|k: Seq<char>| name_set(v@).contains(k) <==> name_set(old(v)@).insert(n@).contains(k) by {
                lemma_listed_push(old(v)@, x, k);
            }
        }
    }
    assert(name_set(v@) =~= name_set(old(v)@).insert(n@));
}

fn expr_uses(expr: &TypedExpr, uses: &mut Vec<String>, defs: &Vec<String>)
    requires
        distinct_names(old(uses)@),
    ensures
        distinct_names(final(uses)@),
        name_set(final(uses)@) == read(*expr, name_set(old(uses)@), name_set(defs@)),
    decreases *expr, 2nat,
{
    let ghost u0 = name_set(uses@);
    let ghost d = name_set(defs@);
    match &expr.kind {
        TypedExprKind::Ident(n) => {
            if !has_name(defs, n) {
                add_name(uses, n);
            }
        },
        TypedExprKind::BinOp { left, right, .. } => {
            expr_uses(left, uses, defs);
            expr_uses(right, uses, defs);
        },
        TypedExprKind::UnOp { operand, .. } => expr_uses(operand, uses, defs),
        TypedExprKind::Call { callee, args, .. } => {
            expr_uses(callee, uses, defs);
            exprs_uses(args, uses, defs);
        },
        TypedExprKind::MethodCall { object, args, .. } => {
            expr_uses(object, uses, defs);
            exprs_uses(args, uses, defs);
        },
        TypedExprKind::StaticCall { args, .. } => exprs_uses(args, uses, defs),
        TypedExprKind::IndirectCall { fat_ptr, args } => {
            expr_uses(fat_ptr, uses, defs);
            exprs_uses(args, uses, defs);
        },
        TypedExprKind::Field { object, .. } => expr_uses(object, uses, defs),
        TypedExprKind::Index { object, index } => {
            expr_uses(object, uses, defs);
            expr_uses(index, uses, defs);
        },
        TypedExprKind::Tuple(es) => exprs_uses(es, uses, defs),
        TypedExprKind::StructLiteral { fields, .. } => fields_uses(fields, uses, defs),
        TypedExprKind::Unwrap(x) => expr_uses(x, uses, defs),
        TypedExprKind::As { expr: x, .. } => expr_uses(x, uses, defs),
        TypedExprKind::Match { scrutinee, arms } => {
            expr_uses(scrutinee, uses, defs);
            arms_uses(arms, uses, defs);
        },
        TypedExprKind::Spawn(x) => expr_uses(x, uses, defs),
        TypedExprKind::Ref { expr: x, .. } => expr_uses(x, uses, defs),
        TypedExprKind::Array(es) => exprs_uses(es, uses, defs),
        TypedExprKind::GenSplice(x) => expr_uses(x, uses, defs),
        TypedExprKind::Try(x) => expr_uses(x, uses, defs),
        TypedExprKind::Ignore(x) => expr_uses(x, uses, defs),
        TypedExprKind::Implements { expr: x, .. } => expr_uses(x, uses, defs),
        TypedExprKind::TypeName { expr: x } => expr_uses(x, uses, defs),
        TypedExprKind::BoundMethod { object, .. } => expr_uses(object, uses, defs),
        _ => {},
    }
    assert(name_set(uses@) =~= read(*expr, u0, d));
}

fn arm_uses(arm: &TypedMatchArm, uses: &mut Vec<String>, defs: &Vec<String>)
    requires
        distinct_names(old(uses)@),
    ensures
        distinct_names(final(uses)@),
        name_set(final(uses)@) == name_set(old(uses)@).union(uses_arm(*arm).difference(name_set(defs@))),
    decreases *arm, 1nat,
{
    let ghost u0 = name_set(uses@);
    match &arm.guard {
        Some(g) => expr_uses(g, uses, defs),
        None => {},
    }
    expr_uses(&arm.body, uses, defs);
    assert(name_set(uses@) =~= u0.union(uses_arm(*arm).difference(name_set(defs@))));
}

fn exprs_uses(v: &Vec<TypedExpr>, uses: &mut Vec<String>, defs: &Vec<String>)
    requires
        distinct_names(old(uses)@),
    ensures
        distinct_names(final(uses)@),
        name_set(final(uses)@) == name_set(old(uses)@).union(uses_exprs(v@).difference(name_set(defs@))),
    decreases v@, 0nat,
{
    let ghost u0 = name_set(uses@);
    let mut i: usize = 0;
    assert(u0.union(uses_exprs(v@.take(0)).difference(name_set(defs@))) =~= u0);
    while i < v.len()
        invariant
            i <= v@.len(),
            distinct_names(uses@),
            name_set(uses@) == u0.union(uses_exprs(v@.take(i as int)).difference(name_set(defs@))),
        decreases v.len() - i,
    {
        proof {
            assert(decreases_to!(v@ => v@[i as int]));
            assert(v@.take(i + 1).drop_last() =~= v@.take(i as int));
            assert(v@.take(i + 1).last() == v@[i as int]);
        }
        expr_uses(&v[i], uses, defs);
        assert(name_set(uses@) =~= u0.union(uses_exprs(v@.take(i + 1)).difference(name_set(defs@))));
        i += 1;
    }
    assert(v@.take(v@.len() as int) =~= v@);
}

fn fields_uses(v: &Vec<(String, TypedExpr)>, uses: &mut Vec<String>, defs: &Vec<String>)
    requires
        distinct_names(old(uses)@),
    ensures
        distinct_names(final(uses)@),
        name_set(final(uses)@) == name_set(old(uses)@).union(uses_fields(v@).difference(name_set(defs@))),
    decreases v@, 0nat,
{
    let ghost u0 = name_set(uses@);
    let mut i: usize = 0;
    assert(u0.union(uses_fields(v@.take(0)).difference(name_set(defs@))) =~= u0);
    while i < v.len()
        invariant
            i <= v@.len(),
            distinct_names(uses@),
            name_set(uses@) == u0.union(uses_fields(v@.take(i as int)).difference(name_set(defs@))),
        decreases v.len() - i,
    {
        proof {
            assert(decreases_to!(v@ => v@[i as int]));
            assert(v@.take(i + 1).drop_last() =~= v@.take(i as int));
            assert(v@.take(i + 1).last() == v@[i as int]);
        }
        expr_uses(&v[i].1, uses, defs);
        assert(name_set(uses@) =~= u0.union(uses_fields(v@.take(i + 1)).difference(name_set(defs@))));
        i += 1;
    }
    assert(v@.take(v@.len() as int) =~= v@);
}

fn arms_uses(v: &Vec<TypedMatchArm>, uses: &mut Vec<String>, defs: &Vec<String>)
    requires
        distinct_names(old(uses)@),
    ensures
        distinct_names(final(uses)@),
        name_set(final(uses)@) == name_set(old(uses)@).union(uses_arms(v@).difference(name_set(defs@))),
    decreases v@, 0nat,
{
    let ghost u0 = name_set(uses@);
    let mut i: usize = 0;
    assert(u0.union(uses_arms(v@.take(0)).difference(name_set(defs@))) =~= u0);
    while i < v.len()
        invariant
            i <= v@.len(),
            distinct_names(uses@),
            name_set(uses@) == u0.union(uses_arms(v@.take(i as int)).difference(name_set(defs@))),
        decreases v.len() - i,
    {
        proof {
            assert(decreases_to!(v@ => v@[i as int]));
            assert(v@.take(i + 1).drop_last() =~= v@.take(i as int));
            assert(v@.take(i + 1).last() == v@[i as int]);
        }
        arm_uses(&v[i], uses, defs);
        assert(name_set(uses@) =~= u0.union(uses_arms(v@.take(i + 1)).difference(name_set(defs@))));
        i += 1;
    }
    assert(v@.take(v@.len() as int) =~= v@);
}

fn stmt_use_def(stmt: &TypedStmt, uses: &mut Vec<String>, defs: &mut Vec<String>)
    requires
        distinct_names(old(uses)@),
        distinct_names(old(defs)@),
    ensures
        distinct_names(final(uses)@),
        distinct_names(final(defs)@),
        (name_set(final(uses)@), name_set(final(defs)@)) == ud_stmt(
            *stmt,
            name_set(old(uses)@),
            name_set(old(defs)@),
        ),
{
    match stmt {
        TypedStmt::VarDecl { name, value, .. } => {
            expr_uses(value, uses, defs);
            add_name(defs, name);
        },
        TypedStmt::Assign { target, value, .. } => {
            expr_uses(value, uses, defs);
            match &target.kind {
                TypedExprKind::Ident(n) => add_name(defs, n),
                _ => expr_uses(target, uses, defs),
            }
        },
        TypedStmt::CompoundAssign { target, rhs, .. } => {
            expr_uses(rhs, uses, defs);
            expr_uses(target, uses, defs);
            match &target.kind {
                TypedExprKind::Ident(n) => add_name(defs, n),
                _ => {},
            }
        },
        TypedStmt::Return { value, .. } => match value {
            Some(e) => expr_uses(e, uses, defs),
            None => {},
        },
        TypedStmt::Raise { value, .. } => match value {
            Some(e) => expr_uses(e, uses, defs),
            None => {},
        },
        TypedStmt::Expr(e) => expr_uses(e, uses, defs),
        _ => {},
    }
}

/// The uses and definitions of a basic block, as lists of distinct names.
fn block_use_def(block: &BasicBlock, stmts: &[TypedStmt]) -> (r: (Vec<String>, Vec<String>))
    ensures
        distinct_names(r.0@),
        distinct_names(r.1@),
        (name_set(r.0@), name_set(r.1@)) == block_ud(block.stmts@, stmts@),
{
    let mut uses: Vec<String> = Vec::new();
    let mut defs: Vec<String> = Vec::new();
    let mut k: usize = 0;
    assert(name_set(uses@) =~= Set::<Seq<char>>::empty());
    assert(name_set(defs@) =~= Set::<Seq<char>>::empty());
    assert(block.stmts@.take(0) =~= Seq::<usize>::empty());
    while k < block.stmts.len()
        invariant
            k <= block.stmts@.len(),
            distinct_names(uses@),
            distinct_names(defs@),
            (name_set(uses@), name_set(defs@)) == block_ud(block.stmts@.take(k as int), stmts@),
        decreases block.stmts.len() - k,
    {
        proof {
            assert(block.stmts@.take(k + 1).drop_last() =~= block.stmts@.take(k as int));
        }
        let idx = block.stmts[k];
        if idx < stmts.len() {
            stmt_use_def(&stmts[idx], &mut uses, &mut defs);
        }
        k += 1;
    }
    assert(block.stmts@.take(block.stmts@.len() as int) =~= block.stmts@);
    (uses, defs)
}

// ---------------------------------------------------------------------------
// Set operations on lists of distinct names
// ---------------------------------------------------------------------------

/// A list of distinct names is no longer than any finite set of names that holds it.
proof fn lemma_distinct_len(v: Seq<String>, u: Seq<String>)
    requires
        distinct_names(v),
        name_set(v).subset_of(name_set(u)),
    ensures
        name_set(u).finite(),
        name_set(v).finite(),
        v.len() == name_set(v).len(),
        v.len() <= name_set(u).len(),
{
    let vv = v.map_values(|x: String| x@);
    let uu = u.map_values(|x: String| x@);
    assert(vv.no_duplicates()) by {
        assert forall|a: int, b: int| 0 <= a < vv.len() && 0 <= b < vv.len() && a != b implies vv[a] != vv[b] by {
            if a < b {
                assert(v[a]@ != v[b]@);
            } else {
                assert(v[b]@ != v[a]@);
            }
        }
    }
    vv.unique_seq_to_set();
    assert(vv.to_set() =~= name_set(v)) by {
        assert forall|k: Seq<char>| vv.to_set().contains(k) <==> name_set(v).contains(k) by {
            if name_set(v).contains(k) {
                let i = choose|i: int| 0 <= i < v.len() && (#[trigger] v[i])@ == k;
                assert(vv[i] == k);
            }
        }
    }
    assert(uu.to_set() =~= name_set(u)) by {
        assert forall|k: Seq<char>| uu.to_set().contains(k) <==> name_set(u).contains(k) by {
            if name_set(u).contains(k) {
                let i = choose|i: int| 0 <= i < u.len() && (#[trigger] u[i])@ == k;
                assert(uu[i] == k);
            }
        }
    }
    vstd::seq_lib::seq_to_set_is_finite(uu);
    vstd::seq_lib::seq_to_set_is_finite(vv);
    vstd::set_lib::lemma_len_subset(name_set(v), name_set(u));
}

/// Of two lists of distinct names whose sets are nested, the larger set is the longer
/// list, strictly so when the sets differ.
proof fn lemma_distinct_grow(a: Seq<String>, b: Seq<String>)
    requires
        distinct_names(a),
        distinct_names(b),
        name_set(a).subset_of(name_set(b)),
    ensures
        a.len() <= b.len(),
        name_set(a) != name_set(b) ==> a.len() < b.len(),
{
    lemma_distinct_len(a, b);
    lemma_distinct_len(b, b);
    if name_set(a) != name_set(b) {
        assert(!(name_set(a) =~= name_set(b)));
        let x = choose|x: Seq<char>| name_set(a).contains(x) != name_set(b).contains(x);
        assert(name_set(b).contains(x) && !name_set(a).contains(x));
        assert(name_set(a).subset_of(name_set(b).remove(x)));
        vstd::set_lib::lemma_len_subset(name_set(a), name_set(b).remove(x));
    }
}

/// Adds the names of `src` that are not in `excl`.
fn add_missing(dst: &mut Vec<String>, src: &Vec<String>, excl: &Vec<String>)
    requires
        distinct_names(old(dst)@),
    ensures
        distinct_names(final(dst)@),
        name_set(final(dst)@) == name_set(old(dst)@).union(name_set(src@).difference(name_set(excl@))),
{
    let ghost d0 = name_set(dst@);
    let mut i: usize = 0;
    assert(src@.take(0) =~= Seq::<String>::empty());
    assert(d0.union(name_set(src@.take(0)).difference(name_set(excl@))) =~= d0);
    while i < src.len()
        invariant
            i <= src@.len(),
            distinct_names(dst@),
            name_set(dst@) == d0.union(name_set(src@.take(i as int)).difference(name_set(excl@))),
        decreases src.len() - i,
    {
        let ghost before = name_set(dst@);
        let excluded = has_name(excl, &src[i]);
        if !excluded {
            add_name(dst, &src[i]);
        }
        assert(excluded ==> name_set(dst@) == before);
        assert(!excluded ==> name_set(dst@) == before.insert(src@[i as int]@));
        proof {
            let x = src@[i as int];
            assert(src@.take(i + 1) =~= src@.take(i as int).push(x));
            assert(excluded == name_set(excl@).contains(x@));
            assert forall|k: Seq<char>|
                name_set(dst@).contains(k) <==> d0.union(name_set(src@.take(i + 1)).difference(name_set(excl@))).contains(k) by {
                lemma_listed_push(src@.take(i as int), x, k);
                assert(name_set(src@.take(i + 1)).contains(k) == listed(src@.take(i + 1), k));
                assert(name_set(src@.take(i as int)).contains(k) == listed(src@.take(i as int), k));
            }
            assert(name_set(dst@) =~= d0.union(name_set(src@.take(i + 1)).difference(name_set(excl@))));
        }
        i += 1;
    }
    assert(src@.take(src@.len() as int) =~= src@);
}

fn copy_names(src: &Vec<String>) -> (r: Vec<String>)
    ensures
        r@ == src@,
{
    let mut r: Vec<String> = Vec::new();
    let mut i: usize = 0;
    while i < src.len()
        invariant
            i <= src@.len(),
            r@ == src@.take(i as int),
        decreases src.len() - i,
    {
        r.push(src[i].clone());
        assert(r@ =~= src@.take(i + 1));
        i += 1;
    }
    assert(src@.take(src@.len() as int) =~= src@);
    r
}

fn same_names(a: &Vec<String>, b: &Vec<String>) -> (r: bool)
    ensures
        r == (name_set(a@) == name_set(b@)),
{
    let mut i: usize = 0;
    while i < a.len()
        invariant
            i <= a@.len(),
            forall|j: int| 0 <= j < i ==> listed(b@, (#[trigger] a@[j])@),
        decreases a.len() - i,
    {
        if !has_name(b, &a[i]) {
            assert(name_set(a@).contains(a@[i as int]@));
            return false;
        }
        i += 1;
    }
    let mut j: usize = 0;
    while j < b.len()
        invariant
            j <= b@.len(),
            forall|k: int| 0 <= k < j ==> listed(a@, (#[trigger] b@[k])@),
        decreases b.len() - j,
    {
        if !has_name(a, &b[j]) {
            assert(name_set(b@).contains(b@[j as int]@));
            return false;
        }
        j += 1;
    }
    assert(name_set(a@) =~= name_set(b@)) by {
        assert forall|k: Seq<char>| name_set(a@).contains(k) ==> name_set(b@).contains(k) by {
            if name_set(a@).contains(k) {
                let x = choose|x: int| 0 <= x < a@.len() && (#[trigger] a@[x])@ == k;
            }
        }
        assert forall|k: Seq<char>| name_set(b@).contains(k) ==> name_set(a@).contains(k) by {
            if name_set(b@).contains(k) {
                let x = choose|x: int| 0 <= x < b@.len() && (#[trigger] b@[x])@ == k;
            }
        }
    }
    true
}

// ---------------------------------------------------------------------------
// The iteration
// ---------------------------------------------------------------------------

/// The union of the live-in sets of the given blocks.
pub open spec fn union_of(ts: Seq<usize>, ins: Seq<Names>) -> Names
    decreases ts.len(),
{
    if ts.len() == 0 {
        Set::empty()
    } else {
        union_of(ts.drop_last(), ins).union(ins[ts.last() as int])
    }
}

proof fn lemma_union_of_targets(t: Terminator, ins: Seq<Names>)
    ensures
        union_of(term_targets(t), ins) == out_of(t, ins),
{
    let ts = term_targets(t);
    let e = Seq::<usize>::empty();
    assert(union_of(e, ins) == Set::<Seq<char>>::empty());
    match t {
        Terminator::Jump(x) => {
            assert(ts.drop_last() =~= e);
            assert(ts.last() == x);
            assert(union_of(ts, ins) == union_of(ts.drop_last(), ins).union(ins[x as int]));
            assert(union_of(ts, ins) =~= ins[x as int]);
        },
        Terminator::Branch(a, b) => {
            let ta = ts.drop_last();
            assert(ta =~= seq![a]);
            assert(ta.drop_last() =~= e);
            assert(ta.last() == a);
            assert(ts.last() == b);
            assert(union_of(ta, ins) == union_of(ta.drop_last(), ins).union(ins[a as int]));
            assert(union_of(ts, ins) == union_of(ta, ins).union(ins[b as int]));
            assert(union_of(ts, ins) =~= ins[a as int].union(ins[b as int]));
        },
        _ => {
            assert(ts =~= e);
        },
    }
}

/// Block `k` satisfies its two equations.
pub open spec fn eq_at(blocks: Seq<BasicBlock>, stmts: Seq<TypedStmt>, ins: Seq<Names>, outs: Seq<Names>, k: int) -> bool {
    &&& outs[k] == out_of(blocks[k].term, ins)
    &&& ins[k] == in_of(ud_of(blocks, stmts, k), outs[k])
}

/// The state of the iteration: uses and definitions match the blocks, every set is
/// below what its equation gives (so sets only grow), every set lies within the names
/// used anywhere, and the state is below every solution.
pub open spec fn state_ok(
    blocks: Seq<BasicBlock>,
    stmts: Seq<TypedStmt>,
    uds: Seq<(Vec<String>, Vec<String>)>,
    univ: Names,
    li: Seq<Vec<String>>,
    lo: Seq<Vec<String>>,
) -> bool {
    &&& targets_in_range(blocks)
    &&& li.len() == blocks.len()
    &&& lo.len() == blocks.len()
    &&& uds.len() == blocks.len()
    &&& forall|i: int| 0 <= i < blocks.len() ==> distinct_names(#[trigger] li[i]@)
    &&& forall|i: int| 0 <= i < blocks.len() ==> distinct_names(#[trigger] lo[i]@)
    &&& forall|i: int|
        0 <= i < blocks.len() ==> (name_set((#[trigger] uds[i]).0@), name_set(uds[i].1@)) == ud_of(
            blocks,
            stmts,
            i,
        ) && distinct_names(uds[i].0@) && name_set(uds[i].0@).subset_of(univ)
    &&& forall|i: int|
        0 <= i < blocks.len() ==> (#[trigger] sets_of(lo)[i]).subset_of(out_of(blocks[i].term, sets_of(li)))
            && sets_of(li)[i].subset_of(in_of(ud_of(blocks, stmts, i), sets_of(lo)[i]))
    &&& forall|i: int|
        0 <= i < blocks.len() ==> name_set((#[trigger] li[i])@).subset_of(univ) && name_set(lo[i]@).subset_of(univ)
    &&& forall|xi: Seq<Names>, xo: Seq<Names>|
        #[trigger] is_solution(blocks, stmts, xi, xo) ==> below(sets_of(li), sets_of(lo), xi, xo)
}

proof fn lemma_out_of_mono(t: Terminator, a: Seq<Names>, b: Seq<Names>)
    requires
        a.len() == b.len(),
        forall|k: int| 0 <= k < term_targets(t).len() ==> #[trigger] term_targets(t)[k] < a.len(),
        forall|x: int| 0 <= x < a.len() ==> (#[trigger] a[x]).subset_of(b[x]),
    ensures
        out_of(t, a).subset_of(out_of(t, b)),
{
    match t {
        Terminator::Jump(x) => {
            assert(term_targets(t)[0] == x);
        },
        Terminator::Branch(x, y) => {
            assert(term_targets(t)[0] == x);
            assert(term_targets(t)[1] == y);
        },
        _ => {},
    }
}

/// Updating block `i` with the values of its equations keeps the state well formed
/// and only grows its two sets.
proof fn lemma_step(
    blocks: Seq<BasicBlock>,
    stmts: Seq<TypedStmt>,
    uds: Seq<(Vec<String>, Vec<String>)>,
    univ: Names,
    li: Seq<Vec<String>>,
    lo: Seq<Vec<String>>,
    i: int,
    ni: Vec<String>,
    no: Vec<String>,
)
    requires
        state_ok(blocks, stmts, uds, univ, li, lo),
        0 <= i < blocks.len(),
        distinct_names(ni@),
        distinct_names(no@),
        name_set(no@) == out_of(blocks[i].term, sets_of(li)),
        name_set(ni@) == in_of(ud_of(blocks, stmts, i), name_set(no@)),
    ensures
        state_ok(blocks, stmts, uds, univ, li.update(i, ni), lo.update(i, no)),
        name_set(li[i]@).subset_of(name_set(ni@)),
        name_set(lo[i]@).subset_of(name_set(no@)),
        sets_of(li.update(i, ni)) == sets_of(li).update(i, name_set(ni@)),
        sets_of(lo.update(i, no)) == sets_of(lo).update(i, name_set(no@)),
{
    let li2 = li.update(i, ni);
    let lo2 = lo.update(i, no);
    let si = sets_of(li);
    let so = sets_of(lo);
    let si2 = sets_of(li2);
    let so2 = sets_of(lo2);
    assert(si2 =~= si.update(i, name_set(ni@)));
    assert(so2 =~= so.update(i, name_set(no@)));
    assert(si[i] == name_set(li[i]@));
    assert(so[i] == name_set(lo[i]@));
    let udi = ud_of(blocks, stmts, i);
    // growth of block i
    assert(so[i].subset_of(name_set(no@)));
    assert(si[i].subset_of(in_of(udi, so[i])));
    assert(in_of(udi, so[i]).subset_of(in_of(udi, name_set(no@))));
    assert(si[i].subset_of(name_set(ni@)));
    assert forall|x: int| 0 <= x < si.len() implies (#[trigger] si[x]).subset_of(si2[x]) by {}
    // the equations' bounds
    assert forall|k: int| 0 <= k < blocks.len() implies (#[trigger] so2[k]).subset_of(
        out_of(blocks[k].term, si2),
    ) && si2[k].subset_of(in_of(ud_of(blocks, stmts, k), so2[k])) by {
        assert forall|m: int| 0 <= m < term_targets(blocks[k].term).len() implies #[trigger] term_targets(
            blocks[k].term,
        )[m] < si.len() by {}
        lemma_out_of_mono(blocks[k].term, si, si2);
        if k != i {
            assert(so2[k] == so[k]);
            assert(si2[k] == si[k]);
        }
    }
    // within the universe
    assert(name_set(uds[i].0@) == udi.0);
    assert(name_set(uds[i].0@).subset_of(univ));
    match blocks[i].term {
        Terminator::Jump(x) => {
            assert(term_targets(blocks[i].term)[0] == x);
            assert(name_set(li[x as int]@).subset_of(univ));
            assert(si[x as int] == name_set(li[x as int]@));
        },
        Terminator::Branch(x, y) => {
            assert(term_targets(blocks[i].term)[0] == x);
            assert(term_targets(blocks[i].term)[1] == y);
            assert(name_set(li[x as int]@).subset_of(univ));
            assert(name_set(li[y as int]@).subset_of(univ));
            assert(si[x as int] == name_set(li[x as int]@));
            assert(si[y as int] == name_set(li[y as int]@));
        },
        _ => {},
    }
    assert(name_set(no@).subset_of(univ));
    assert(name_set(ni@).subset_of(univ));
    assert forall|k: int| 0 <= k < blocks.len() implies name_set((#[trigger] li2[k])@).subset_of(univ)
        && name_set(lo2[k]@).subset_of(univ) by {
        if k == i {
            assert(li2[k] == ni);
            assert(lo2[k] == no);
        } else {
            assert(li2[k] == li[k]);
            assert(lo2[k] == lo[k]);
            assert(name_set(li[k]@).subset_of(univ));
        }
    }
    // below every solution
    assert forall|xi: Seq<Names>, xo: Seq<Names>| #[trigger]
        is_solution(blocks, stmts, xi, xo) implies below(si2, so2, xi, xo) by {
        assert(below(si, so, xi, xo));
        assert forall|m: int| 0 <= m < term_targets(blocks[i].term).len() implies #[trigger] term_targets(
            blocks[i].term,
        )[m] < si.len() by {}
        assert forall|x: int| 0 <= x < si.len() implies (#[trigger] si[x]).subset_of(xi[x]) by {}
        lemma_out_of_mono(blocks[i].term, si, xi);
        assert(xo[i] == out_of(blocks[i].term, xi));
        assert(xi[i] == in_of(ud_of(blocks, stmts, i), xo[i]));
        assert forall|k: int| 0 <= k < si2.len() implies (#[trigger] si2[k]).subset_of(xi[k]) && so2[k].subset_of(
            xo[k],
        ) by {
            if k != i {
                assert(si2[k] == si[k]);
                assert(so2[k] == so[k]);
            }
        }
    }
    assert forall|k: int| 0 <= k < blocks.len() implies distinct_names(#[trigger] li2[k]@) by {}
    assert forall|k: int| 0 <= k < blocks.len() implies distinct_names(#[trigger] lo2[k]@) by {}
}

/// The total length of a list of lists.
pub open spec fn sum_lens(s: Seq<Vec<String>>) -> nat
    decreases s.len(),
{
    if s.len() == 0 {
        0
    } else {
        sum_lens(s.drop_last()) + s.last()@.len()
    }
}

proof fn lemma_sum_lens_update(s: Seq<Vec<String>>, i: int, x: Vec<String>)
    requires
        0 <= i < s.len(),
    ensures
        sum_lens(s.update(i, x)) + s[i]@.len() == sum_lens(s) + x@.len(),
    decreases s.len(),
{
    let t = s.update(i, x);
    if i == s.len() - 1 {
        assert(t.drop_last() =~= s.drop_last());
    } else {
        assert(t.drop_last() =~= s.drop_last().update(i, x));
        lemma_sum_lens_update(s.drop_last(), i, x);
    }
}

proof fn lemma_sum_lens_bound(s: Seq<Vec<String>>, b: nat)
    requires
        forall|k: int| 0 <= k < s.len() ==> (#[trigger] s[k])@.len() <= b,
    ensures
        sum_lens(s) <= s.len() * b,
    decreases s.len(),
{
    if s.len() > 0 {
        lemma_sum_lens_bound(s.drop_last(), b);
        assert(sum_lens(s.drop_last()) <= (s.len() - 1) * b);
        assert((s.len() - 1) * b + b == s.len() * b) by (nonlinear_arith);
    }
}

/// Each set of the state has at most as many names as the universe.
proof fn lemma_state_bound(
    blocks: Seq<BasicBlock>,
    stmts: Seq<TypedStmt>,
    uds: Seq<(Vec<String>, Vec<String>)>,
    all: Seq<String>,
    li: Seq<Vec<String>>,
    lo: Seq<Vec<String>>,
)
    requires
        state_ok(blocks, stmts, uds, name_set(all), li, lo),
        distinct_names(all),
    ensures
        name_set(all).finite(),
        sum_lens(li) + sum_lens(lo) <= 2 * (blocks.len() * name_set(all).len()),
{
    lemma_distinct_len(all, all);
    let b = name_set(all).len();
    assert forall|k: int| 0 <= k < li.len() implies (#[trigger] li[k])@.len() <= b by {
        lemma_distinct_len(li[k]@, all);
    }
    assert forall|k: int| 0 <= k < lo.len() implies (#[trigger] lo[k])@.len() <= b by {
        assert(name_set(li[k]@).subset_of(name_set(all)));
        lemma_distinct_len(lo[k]@, all);
    }
    lemma_sum_lens_bound(li, b);
    lemma_sum_lens_bound(lo, b);
}

/// The live sets of every block: the least solution of the dataflow equations,
/// found by sweeping the blocks backwards until nothing changes.
pub fn analyze_liveness(cfg: &Cfg, stmts: &[TypedStmt]) -> (r: LivenessResult)
    requires
        targets_in_range(cfg.blocks@),
    ensures
        liveness_ok(*cfg, stmts@, r),
{
    let n = cfg.blocks.len();
    let ghost blocks = cfg.blocks@;
    let ghost st = stmts@;
    let mut uds: Vec<(Vec<String>, Vec<String>)> = Vec::new();
    let mut all_uses: Vec<String> = Vec::new();
    let none: Vec<String> = Vec::new();
    assert(name_set(none@) =~= Set::<Seq<char>>::empty());
    let mut b: usize = 0;
    while b < n
        invariant
            b <= n,
            n == blocks.len(),
            blocks == cfg.blocks@,
            st == stmts@,
            name_set(none@) == Set::<Seq<char>>::empty(),
            uds@.len() == b,
            distinct_names(all_uses@),
            forall|i: int|
                0 <= i < b ==> (name_set((#[trigger] uds@[i]).0@), name_set(uds@[i].1@)) == ud_of(
                    blocks,
                    st,
                    i,
                ) && distinct_names(uds@[i].0@) && name_set(uds@[i].0@).subset_of(name_set(all_uses@)),
        decreases n - b,
    {
        let (u, d) = block_use_def(&cfg.blocks[b], stmts);
        let ghost before = name_set(all_uses@);
        let ghost uds0 = uds@;
        let ghost pair = (u, d);
        add_missing(&mut all_uses, &u, &none);
        assert(name_set(all_uses@) =~= before.union(name_set(u@)));
        assert((name_set(pair.0@), name_set(pair.1@)) == ud_of(blocks, st, b as int));
        uds.push((u, d));
        proof {
            assert(uds@[b as int] == pair);
            assert forall|i: int| 0 <= i < b + 1 implies (name_set((#[trigger] uds@[i]).0@), name_set(uds@[i].1@))
                == ud_of(blocks, st, i) && distinct_names(uds@[i].0@) && name_set(uds@[i].0@).subset_of(
                name_set(all_uses@),
            ) by {
                if i < b {
                    assert(uds@[i] == uds0[i]);
                    assert(name_set(uds0[i].0@).subset_of(before));
                }
            }
        }
        b += 1;
    }
    let ghost univ = name_set(all_uses@);
    let mut live_in: Vec<Vec<String>> = Vec::new();
    let mut live_out: Vec<Vec<String>> = Vec::new();
    let mut k: usize = 0;
    while k < n
        invariant
            k <= n,
            live_in@.len() == k,
            live_out@.len() == k,
            forall|i: int| 0 <= i < k ==> (#[trigger] live_in@[i])@.len() == 0,
            forall|i: int| 0 <= i < k ==> (#[trigger] live_out@[i])@.len() == 0,
        decreases n - k,
    {
        live_in.push(Vec::new());
        live_out.push(Vec::new());
        k += 1;
    }
    proof {
        assert forall|i: int| 0 <= i < n implies (#[trigger] sets_of(live_in@)[i]) == Set::<Seq<char>>::empty() by {
            assert(name_set(live_in@[i]@) =~= Set::<Seq<char>>::empty());
        }
        assert forall|i: int| 0 <= i < n implies (#[trigger] sets_of(live_out@)[i]) == Set::<Seq<char>>::empty() by {
            assert(name_set(live_out@[i]@) =~= Set::<Seq<char>>::empty());
        }
        assert forall|i: int| 0 <= i < n implies distinct_names(#[trigger] live_in@[i]@) by {}
        assert forall|i: int| 0 <= i < n implies distinct_names(#[trigger] live_out@[i]@) by {}
        assert forall|i: int| 0 <= i < n implies name_set((#[trigger] live_in@[i])@).subset_of(univ)
            && name_set(live_out@[i]@).subset_of(univ) by {
            assert(name_set(live_in@[i]@) =~= Set::<Seq<char>>::empty());
            assert(name_set(live_out@[i]@) =~= Set::<Seq<char>>::empty());
        }
        assert forall|xi: Seq<Names>, xo: Seq<Names>| #[trigger]
            is_solution(blocks, st, xi, xo) implies below(sets_of(live_in@), sets_of(live_out@), xi, xo) by {
            assert forall|i: int| 0 <= i < sets_of(live_in@).len() implies (#[trigger] sets_of(live_in@)[i]).subset_of(xi[i])
                && sets_of(live_out@)[i].subset_of(xo[i]) by {}
        }
        assert(state_ok(blocks, st, uds@, univ, live_in@, live_out@));
        lemma_state_bound(blocks, st, uds@, all_uses@, live_in@, live_out@);
    }
    let ghost cap: nat = 2 * (n as nat * univ.len());
    loop
        invariant
            n == blocks.len(),
            blocks == cfg.blocks@,
            st == stmts@,
            univ == name_set(all_uses@),
            distinct_names(all_uses@),
            name_set(none@) == Set::<Seq<char>>::empty(),
            cap == 2 * (blocks.len() * univ.len()),
            state_ok(blocks, st, uds@, univ, live_in@, live_out@),
            sum_lens(live_in@) + sum_lens(live_out@) <= cap,
        ensures
            state_ok(blocks, st, uds@, univ, live_in@, live_out@),
            is_solution(blocks, st, sets_of(live_in@), sets_of(live_out@)),
        decreases cap - (sum_lens(live_in@) + sum_lens(live_out@)),
    {
        let ghost start_total = sum_lens(live_in@) + sum_lens(live_out@);
        let ghost i0 = sets_of(live_in@);
        let ghost o0 = sets_of(live_out@);
        let mut changed = false;
        let mut j: usize = n;
        while j > 0
            invariant
                j <= n,
                n == blocks.len(),
                blocks == cfg.blocks@,
                st == stmts@,
                univ == name_set(all_uses@),
                distinct_names(all_uses@),
                name_set(none@) == Set::<Seq<char>>::empty(),
                state_ok(blocks, st, uds@, univ, live_in@, live_out@),
                sum_lens(live_in@) + sum_lens(live_out@) >= start_total,
                changed ==> sum_lens(live_in@) + sum_lens(live_out@) > start_total,
                !changed ==> sets_of(live_in@) == i0 && sets_of(live_out@) == o0,
                !changed ==> forall|m: int|
                    j <= m < n ==> #[trigger] eq_at(blocks, st, sets_of(live_in@), sets_of(live_out@), m),
            decreases j,
        {
            j -= 1;
            let i = j;
            let succ = cfg.successors(i);
            let ghost ins = sets_of(live_in@);
            let mut new_out: Vec<String> = Vec::new();
            let mut t: usize = 0;
            assert(succ@.take(0) =~= Seq::<usize>::empty());
            assert(name_set(new_out@) =~= Set::<Seq<char>>::empty());
            while t < succ.len()
                invariant
                    t <= succ@.len(),
                    i < n,
                    n == blocks.len(),
                    blocks == cfg.blocks@,
                    targets_in_range(blocks),
                    live_in@.len() == n,
                    ins == sets_of(live_in@),
                    succ@ == term_targets(blocks[i as int].term),
                    name_set(none@) == Set::<Seq<char>>::empty(),
                    distinct_names(new_out@),
                    name_set(new_out@) == union_of(succ@.take(t as int), ins),
                decreases succ.len() - t,
            {
                let target = succ[t];
                assert(term_targets(blocks[i as int].term)[t as int] < blocks.len());
                let ghost before = name_set(new_out@);
                add_missing(&mut new_out, &live_in[target], &none);
                proof {
                    assert(succ@.take(t + 1).drop_last() =~= succ@.take(t as int));
                    assert(succ@.take(t + 1).last() == target);
                    assert(ins[target as int] == name_set(live_in@[target as int]@));
                    assert(name_set(new_out@) =~= union_of(succ@.take(t + 1), ins));
                }
                t += 1;
            }
            proof {
                assert(succ@.take(succ@.len() as int) =~= succ@);
                lemma_union_of_targets(blocks[i as int].term, ins);
            }
            let mut new_in = copy_names(&uds[i].0);
            add_missing(&mut new_in, &new_out, &uds[i].1);
            let ch = !same_names(&new_in, &live_in[i]) || !same_names(&new_out, &live_out[i]);
            let ghost li_old = live_in@;
            let ghost lo_old = live_out@;
            proof {
                assert(name_set(new_in@) == in_of(ud_of(blocks, st, i as int), name_set(new_out@)));
                lemma_step(blocks, st, uds@, univ, li_old, lo_old, i as int, new_in, new_out);
                lemma_sum_lens_update(li_old, i as int, new_in);
                lemma_sum_lens_update(lo_old, i as int, new_out);
                lemma_distinct_grow(li_old[i as int]@, new_in@);
                lemma_distinct_grow(lo_old[i as int]@, new_out@);
            }
            live_in.set(i, new_in);
            live_out.set(i, new_out);
            if ch {
                changed = true;
            }
            proof {
                if !changed {
                    assert(sets_of(live_in@) =~= sets_of(li_old));
                    assert(sets_of(live_out@) =~= sets_of(lo_old));
                    assert(eq_at(blocks, st, sets_of(live_in@), sets_of(live_out@), i as int));
                }
            }
        }
        proof {
            lemma_state_bound(blocks, st, uds@, all_uses@, live_in@, live_out@);
        }
        if !changed {
            proof {
                assert forall|m: int| 0 <= m < blocks.len() implies #[trigger] sets_of(live_out@)[m] == out_of(
                    blocks[m].term,
                    sets_of(live_in@),
                ) && sets_of(live_in@)[m] == in_of(ud_of(blocks, st, m), sets_of(live_out@)[m]) by {
                    assert(eq_at(blocks, st, sets_of(live_in@), sets_of(live_out@), m));
                }
            }
            break;
        }
    }
    LivenessResult { live_in, live_out }
}

/// The liveness of one function, computed on a graph built from its body.
pub open spec fn live_entry_ok(f: TypedFnDef, e: (String, LivenessResult)) -> bool {
    &&& e.0 == f.name
    &&& exists|c: Cfg| graph_of(f.body, c) && liveness_ok(c, f.body.stmts@, e.1)
}

/// Liveness for every top-level function of a file, by name and in order, each
/// computed on the control-flow graph built from its body. The builder must meet no
/// loop exit in any of them: its placeholder target is not a block.
pub fn liveness_for_file(file: &TypedFile) -> (r: Vec<(String, LivenessResult)>)
    requires
        forall|j: int|
            0 <= j < functions_of(file.items@).len() ==> no_loop_exit(
                #[trigger] functions_of(file.items@)[j].body,
            ),
    ensures
        r@.len() == functions_of(file.items@).len(),
        forall|j: int| 0 <= j < r@.len() ==> live_entry_ok(functions_of(file.items@)[j], #[trigger] r@[j]),
{
    let mut results: Vec<(String, LivenessResult)> = Vec::new();
    let mut i: usize = 0;
    while i < file.items.len()
        invariant
            i <= file.items@.len(),
            forall|j: int|
                0 <= j < functions_of(file.items@).len() ==> no_loop_exit(
                    #[trigger] functions_of(file.items@)[j].body,
                ),
            results@.len() == functions_of(file.items@.take(i as int)).len(),
            forall|j: int|
                0 <= j < results@.len() ==> live_entry_ok(
                    functions_of(file.items@.take(i as int))[j],
                    #[trigger] results@[j],
                ),
        decreases file.items.len() - i,
    {
        proof {
            assert(file.items@.take(i + 1).drop_last() =~= file.items@.take(i as int));
            lemma_functions_of_prefix(file.items@, i as int + 1);
        }
        let ghost fa = functions_of(file.items@.take(i as int));
        let ghost fb = functions_of(file.items@.take(i + 1));
        let ghost r0 = results@;
        match &file.items[i] {
            TypedItem::Function(f) => {
                proof {
                    let k = fa.len() as int;
                    assert(fb == fa.push(*f));
                    assert(fb[k] == *f);
                    assert(no_loop_exit(functions_of(file.items@)[k].body));
                }
                let cfg = CfgBuilder::build(&f.body);
                let live = analyze_liveness(&cfg, f.body.stmts.as_slice());
                results.push((f.name.clone(), live));
                proof {
                    assert forall|j: int| 0 <= j < results@.len() implies live_entry_ok(fb[j], #[trigger] results@[j]) by {
                        if j < r0.len() {
                            assert(results@[j] == r0[j]);
                            assert(fb[j] == fa[j]);
                        } else {
                            assert(graph_of(fb[j].body, cfg) && liveness_ok(cfg, fb[j].body.stmts@, results@[j].1));
                        }
                    }
                }
            },
            _ => {
                proof {
                    assert(fb == fa);
                }
            },
        }
        i += 1;
    }
    assert(file.items@.take(file.items@.len() as int) =~= file.items@);
    results
}

/// The functions of a prefix of the items are a prefix of the functions.
proof fn lemma_functions_of_prefix(items: Seq<TypedItem>, n: int)
    requires
        0 <= n <= items.len(),
    ensures
        functions_of(items.take(n)).len() <= functions_of(items).len(),
        forall|j: int|
            0 <= j < functions_of(items.take(n)).len() ==> #[trigger] functions_of(items.take(n))[j]
                == functions_of(items)[j],
    decreases items.len() - n,
{
    if n < items.len() {
        lemma_functions_of_prefix(items, n + 1);
        assert(items.take(n + 1).drop_last() =~= items.take(n));
        let a = functions_of(items.take(n));
        let b = functions_of(items.take(n + 1));
        assert forall|j: int| 0 <= j < a.len() implies #[trigger] a[j] == functions_of(items)[j] by {
            assert(a[j] == b[j]);
        }
    } else {
        assert(items.take(n) =~= items);
    }
}


/// In any solution, a name a block reads before writing it is live on entry to the
/// block, and whatever is live on entry is read there or live on exit.
pub proof fn uses_are_live_on_entry(blocks: Seq<BasicBlock>, stmts: Seq<TypedStmt>, ins: Seq<Names>, outs: Seq<Names>, i: int)
    requires
        is_solution(blocks, stmts, ins, outs),
        0 <= i < blocks.len(),
    ensures
        ud_of(blocks, stmts, i).0.subset_of(ins[i]),
        ins[i].subset_of(ud_of(blocks, stmts, i).0.union(outs[i])),
{
    assert(outs[i] == out_of(blocks[i].term, ins));
}

/// A block that leaves the function (by return, raise, or as unreachable) has nothing
/// live on exit in any solution.
pub proof fn nothing_live_after_exit(blocks: Seq<BasicBlock>, stmts: Seq<TypedStmt>, ins: Seq<Names>, outs: Seq<Names>, i: int)
    requires
        is_solution(blocks, stmts, ins, outs),
        0 <= i < blocks.len(),
        term_targets(blocks[i].term).len() == 0,
    ensures
        outs[i] == Set::<Seq<char>>::empty(),
{
    assert(outs[i] == out_of(blocks[i].term, ins));
    match blocks[i].term {
        Terminator::Jump(x) => {
            assert(term_targets(blocks[i].term).len() == 1);
        },
        Terminator::Branch(x, y) => {
            assert(term_targets(blocks[i].term).len() == 2);
        },
        _ => {},
    }
}

/// The variables a straight-line statement reads: its expressions, and for a compound
/// assignment `x op= e` also its target, which is read before it is written; a plain
/// assignment reads a target only when it is not a bare name.
pub open spec fn stmt_reads(st: TypedStmt) -> Names {
    match st {
        TypedStmt::VarDecl { value, .. } => uses_expr(value),
        TypedStmt::Assign { target, value, .. } => if target.kind is Ident {
            uses_expr(value)
        } else {
            uses_expr(value).union(uses_expr(target))
        },
        TypedStmt::CompoundAssign { target, rhs, .. } => uses_expr(target).union(uses_expr(rhs)),
        TypedStmt::Return { value: Some(e), .. } => uses_expr(e),
        TypedStmt::Raise { value: Some(e), .. } => uses_expr(e),
        TypedStmt::Expr(e) => uses_expr(e),
        _ => Set::empty(),
    }
}

proof fn lemma_ud_stmt_grows(st: TypedStmt, u: Names, d: Names)
    ensures
        u.subset_of(ud_stmt(st, u, d).0),
{
}

proof fn lemma_block_ud_grows(idx: Seq<usize>, stmts: Seq<TypedStmt>, k: int)
    requires
        1 <= k <= idx.len(),
    ensures
        block_ud(idx.take(k), stmts).0.subset_of(block_ud(idx, stmts).0),
    decreases idx.len(),
{
    if k < idx.len() {
        assert(idx.drop_last().take(k) =~= idx.take(k));
        lemma_block_ud_grows(idx.drop_last(), stmts, k);
        let (u, d) = block_ud(idx.drop_last(), stmts);
        if idx.last() < stmts.len() {
            lemma_ud_stmt_grows(stmts[idx.last() as int], u, d);
        }
    } else {
        assert(idx.take(k) =~= idx);
    }
}

/// Whatever the first statement of a block reads is live on entry to the block: the
/// least solution `analyze_liveness` returns has it in the block's live-in set. In
/// particular `x += e` at the head of a block makes `x` live there.
pub proof fn first_statement_reads_are_live(cfg: Cfg, stmts: Seq<TypedStmt>, r: LivenessResult, i: int)
    requires
        liveness_ok(cfg, stmts, r),
        0 <= i < cfg.blocks@.len(),
        cfg.blocks@[i].stmts@.len() > 0,
        cfg.blocks@[i].stmts@[0] < stmts.len(),
    ensures
        stmt_reads(stmts[cfg.blocks@[i].stmts@[0] as int]).subset_of(name_set(r.live_in@[i]@)),
{
    let blocks = cfg.blocks@;
    let idx = blocks[i].stmts@;
    let ins = sets_of(r.live_in@);
    let outs = sets_of(r.live_out@);
    uses_are_live_on_entry(blocks, stmts, ins, outs, i);
    lemma_block_ud_grows(idx, stmts, 1);
    let first = stmts[idx[0] as int];
    let one = idx.take(1);
    assert(one.drop_last() =~= Seq::<usize>::empty());
    assert(one.last() == idx[0]);
    let e = Set::<Seq<char>>::empty();
    assert(block_ud(Seq::<usize>::empty(), stmts) == (e, e));
    assert(block_ud(one.drop_last(), stmts) == (e, e));
    assert(block_ud(one, stmts) == ud_stmt(first, e, e));
    assert(stmt_reads(first).subset_of(ud_stmt(first, e, e).0)) by {
        match first {
            TypedStmt::Assign { target, value, .. } => {
                assert(uses_expr(value).difference(e) =~= uses_expr(value));
                assert(uses_expr(target).difference(e) =~= uses_expr(target));
            },
            TypedStmt::CompoundAssign { target, rhs, .. } => {
                assert(uses_expr(rhs).difference(e) =~= uses_expr(rhs));
                assert(uses_expr(target).difference(e) =~= uses_expr(target));
            },
            _ => {},
        }
    }
    assert(ins[i] == name_set(r.live_in@[i]@));
}


/// The name a straight-line statement binds or overwrites as a whole: a declaration,
/// or an assignment (plain or compound) to a bare name.
pub open spec fn stmt_writes(st: TypedStmt) -> Names {
    match st {
        TypedStmt::VarDecl { name, .. } => set![name@],
        TypedStmt::Assign { target, .. } => match target.kind {
            TypedExprKind::Ident(n) => set![n@],
            _ => Set::empty(),
        },
        TypedStmt::CompoundAssign { target, .. } => match target.kind {
            TypedExprKind::Ident(n) => set![n@],
            _ => Set::empty(),
        },
        _ => Set::empty(),
    }
}

/// The names written by the statements at the given positions (positions past the end
/// of the statement list are skipped).
pub open spec fn writes_of(idx: Seq<usize>, stmts: Seq<TypedStmt>) -> Names
    decreases idx.len(),
{
    if idx.len() == 0 {
        Set::empty()
    } else if idx.last() < stmts.len() {
        writes_of(idx.drop_last(), stmts).union(stmt_writes(stmts[idx.last() as int]))
    } else {
        writes_of(idx.drop_last(), stmts)
    }
}

proof fn lemma_block_defs(idx: Seq<usize>, stmts: Seq<TypedStmt>)
    ensures
        block_ud(idx, stmts).1 =~= writes_of(idx, stmts),
    decreases idx.len(),
{
    if idx.len() > 0 {
        lemma_block_defs(idx.drop_last(), stmts);
    }
}

proof fn lemma_stmt_reads_used(st: TypedStmt, u: Names, d: Names)
    ensures
        stmt_reads(st).difference(d).subset_of(ud_stmt(st, u, d).0),
{
}

/// A name that a statement of a block reads, and that no earlier statement of the same
/// block has written, is live on entry to the block in the result of
/// `analyze_liveness`. So `x += e` makes `x` live on entry unless the block wrote `x`
/// before it.
pub proof fn reads_before_writes_are_live(cfg: Cfg, stmts: Seq<TypedStmt>, r: LivenessResult, i: int, k: int)
    requires
        liveness_ok(cfg, stmts, r),
        0 <= i < cfg.blocks@.len(),
        0 <= k < cfg.blocks@[i].stmts@.len(),
        cfg.blocks@[i].stmts@[k] < stmts.len(),
    ensures
        stmt_reads(stmts[cfg.blocks@[i].stmts@[k] as int]).difference(
            writes_of(cfg.blocks@[i].stmts@.take(k), stmts),
        ).subset_of(name_set(r.live_in@[i]@)),
{
    let blocks = cfg.blocks@;
    let idx = blocks[i].stmts@;
    let ins = sets_of(r.live_in@);
    let outs = sets_of(r.live_out@);
    uses_are_live_on_entry(blocks, stmts, ins, outs, i);
    lemma_block_ud_grows(idx, stmts, k + 1);
    let pre = idx.take(k);
    let one = idx.take(k + 1);
    assert(one.drop_last() =~= pre);
    assert(one.last() == idx[k]);
    lemma_block_defs(pre, stmts);
    let (u, d) = block_ud(pre, stmts);
    assert(block_ud(one, stmts) == ud_stmt(stmts[idx[k] as int], u, d));
    lemma_stmt_reads_used(stmts[idx[k] as int], u, d);
    assert(ins[i] == name_set(r.live_in@[i]@));
}

} // verus!
