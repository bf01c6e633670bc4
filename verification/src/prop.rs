use vstd::prelude::*;
use crate::typed_ast::{
    TypedBlock, TypedCatchHandler, TypedExpr, TypedExprKind, TypedFile, TypedFnDef, TypedGlobalVar,
    TypedHookDef, TypedImplBlock, TypedItem, TypedStmt,
};
use crate::fold_model::{
    BlockModel, ExprModel, FnModel, HandlerModel, KindModel, StmtModel, block_model,
    branches_model, expr_model, exprs_model, fields_model, fn_model, handlers_model,
    kind_model, opt_block_model, opt_expr_model, stmt_model, stmts_model,
};
use crate::fold_spec::{fold_block_spec, fold_expr_spec};
use crate::fold::{fold_block, fold_expr};

verus! {

// Constant propagation: within a block, the value of an immutable binding to an integer,
// float or boolean literal replaces later reads of its name, and the result is folded.

/// A literal value that propagation substitutes for a name.
#[derive(Clone, Copy, Debug, PartialEq, Eq, Structural)]
pub enum PropLit {
    Int(i64),
    /// The bits of a float literal.
    Float(u64),
    Bool(bool),
}

/// The constants known at a point of a block: name to literal.
pub type ConstMap = Map<Seq<char>, PropLit>;

pub open spec fn lit_kind(l: PropLit) -> KindModel {
    match l {
        PropLit::Int(n) => KindModel::Int(n),
        PropLit::Float(f) => KindModel::Float(f),
        PropLit::Bool(b) => KindModel::Bool(b),
    }
}

/// The literal an expression kind is, if it is one that propagates.
pub open spec fn as_lit(k: KindModel) -> Option<PropLit> {
    match k {
        KindModel::Int(n) => Some(PropLit::Int(n)),
        KindModel::Float(f) => Some(PropLit::Float(f)),
        KindModel::Bool(b) => Some(PropLit::Bool(b)),
        _ => None,
    }
}

// ---------------------------------------------------------------------------
// Expressions
// ---------------------------------------------------------------------------

/// Substitutes known constants for identifiers in operators, calls, field and index
/// accesses, tuples, struct literals, unwraps and casts; other expressions are kept.
pub open spec fn prop_expr_spec(e: ExprModel, c: ConstMap) -> ExprModel
    decreases e, 1nat,
{
    let k = match e.kind {
        KindModel::Ident(n) => if c.contains_key(n@) {
            lit_kind(c[n@])
        } else {
            e.kind
        },
        KindModel::BinOp { op, left, right } => KindModel::BinOp {
            op,
            left: Box::new(prop_expr_spec(*left, c)),
            right: Box::new(prop_expr_spec(*right, c)),
        },
        KindModel::UnOp { op, operand } => KindModel::UnOp {
            op,
            operand: Box::new(prop_expr_spec(*operand, c)),
        },
        KindModel::Call { callee, args, fn_name, generic_bounds, generic_params, param_tys } => {
            KindModel::Call {
                callee: Box::new(prop_expr_spec(*callee, c)),
                args: prop_exprs_spec(args, c),
                fn_name,
                generic_bounds,
                generic_params,
                param_tys,
            }
        },
        KindModel::MethodCall { object, method_fn, args } => KindModel::MethodCall {
            object: Box::new(prop_expr_spec(*object, c)),
            method_fn,
            args: prop_exprs_spec(args, c),
        },
        KindModel::StaticCall { method_fn, args } => KindModel::StaticCall {
            method_fn,
            args: prop_exprs_spec(args, c),
        },
        KindModel::IndirectCall { fat_ptr, args } => KindModel::IndirectCall {
            fat_ptr: Box::new(prop_expr_spec(*fat_ptr, c)),
            args: prop_exprs_spec(args, c),
        },
        KindModel::Field { object, field } => KindModel::Field {
            object: Box::new(prop_expr_spec(*object, c)),
            field,
        },
        KindModel::Index { object, index } => KindModel::Index {
            object: Box::new(prop_expr_spec(*object, c)),
            index: Box::new(prop_expr_spec(*index, c)),
        },
        KindModel::Tuple(es) => KindModel::Tuple(prop_exprs_spec(es, c)),
        KindModel::StructLiteral { ty_name, fields } => KindModel::StructLiteral {
            ty_name,
            fields: prop_fields_spec(fields, c),
        },
        KindModel::Unwrap(x) => KindModel::Unwrap(Box::new(prop_expr_spec(*x, c))),
        KindModel::As { expr, ty } => KindModel::As {
            expr: Box::new(prop_expr_spec(*expr, c)),
            ty,
        },
        other => other,
    };
    ExprModel { kind: k, ty: e.ty, span: e.span }
}

pub open spec fn prop_exprs_spec(s: Seq<ExprModel>, c: ConstMap) -> Seq<ExprModel>
    decreases s, 0nat,
{
    if s.len() == 0 {
        Seq::empty()
    } else {
        prop_exprs_spec(s.drop_last(), c).push(prop_expr_spec(s.last(), c))
    }
}

pub open spec fn prop_fields_spec(s: Seq<(String, ExprModel)>, c: ConstMap) -> Seq<(String, ExprModel)>
    decreases s, 0nat,
{
    if s.len() == 0 {
        Seq::empty()
    } else {
        prop_fields_spec(s.drop_last(), c).push((s.last().0, prop_expr_spec(s.last().1, c)))
    }
}

/// Substitution followed by folding.
pub open spec fn prop_fold(e: ExprModel, c: ConstMap) -> ExprModel {
    fold_expr_spec(prop_expr_spec(e, c))
}

pub open spec fn prop_fold_opt(o: Option<ExprModel>, c: ConstMap) -> Option<ExprModel> {
    match o {
        Some(e) => Some(prop_fold(e, c)),
        None => None,
    }
}

// ---------------------------------------------------------------------------
// Statements and blocks
// ---------------------------------------------------------------------------

/// The constants after an assignment to `target`: a plain name stops being constant.
pub open spec fn forget_target(target: ExprModel, c: ConstMap) -> ConstMap {
    match target.kind {
        KindModel::Ident(n) => c.remove(n@),
        _ => c,
    }
}

/// A statement after propagation, and the constants known after it. An immutable
/// declaration of a literal makes its name constant; any other declaration ends an
/// earlier constant of that name. Branches and
/// loops forget every constant; nested blocks start from none.
pub open spec fn prop_stmt_spec(st: StmtModel, c: ConstMap) -> (StmtModel, ConstMap)
    decreases st, 0nat,
{
    match st {
        StmtModel::VarDecl { name, ty, value, mutable, span } => {
            let v = prop_fold(value, c);
            let c2 = if !mutable && as_lit(v.kind) is Some {
                c.insert(name@, as_lit(v.kind)->Some_0)
            } else {
                c.remove(name@)
            };
            (StmtModel::VarDecl { name, ty, value: v, mutable, span }, c2)
        },
        StmtModel::Assign { target, value, span } => {
            let c1 = forget_target(target, c);
            (
                StmtModel::Assign {
                    target: prop_expr_spec(target, c1),
                    value: prop_fold(value, c1),
                    span,
                },
                c1,
            )
        },
        StmtModel::CompoundAssign { target, op, rhs, span } => {
            let c1 = forget_target(target, c);
            (
                StmtModel::CompoundAssign {
                    target: prop_expr_spec(target, c1),
                    op,
                    rhs: prop_fold(rhs, c1),
                    span,
                },
                c1,
            )
        },
        StmtModel::Return { value, span } => (
            StmtModel::Return { value: prop_fold_opt(value, c), span },
            c,
        ),
        StmtModel::Raise { value, span } => (
            StmtModel::Raise { value: prop_fold_opt(value, c), span },
            c,
        ),
        StmtModel::If { branches, else_branch, span } => (
            StmtModel::If {
                branches: prop_branches_spec(branches, c),
                else_branch: prop_opt_block_spec(else_branch),
                span,
            },
            Map::empty(),
        ),
        StmtModel::While { cond, body, span } => (
            StmtModel::While {
                cond: prop_fold(cond, Map::empty()),
                body: prop_block_spec(body),
                span,
            },
            Map::empty(),
        ),
        StmtModel::DoWhile { body, cond, span } => (
            StmtModel::DoWhile {
                body: prop_block_spec(body),
                cond: prop_fold(cond, Map::empty()),
                span,
            },
            Map::empty(),
        ),
        StmtModel::For { binding, binding_ty, iterable, body, iter_ty, span } => (
            StmtModel::For {
                binding,
                binding_ty,
                iterable: prop_fold(iterable, Map::empty()),
                body: prop_block_spec(body),
                iter_ty,
                span,
            },
            Map::empty(),
        ),
        StmtModel::TryCatch { body, handlers, finally, span } => (
            StmtModel::TryCatch {
                body: prop_block_spec(body),
                handlers: prop_handlers_spec(handlers),
                finally: prop_opt_block_spec(finally),
                span,
            },
            Map::empty(),
        ),
        StmtModel::FnDef(f) => (StmtModel::FnDef(prop_fn_spec(f)), c),
        StmtModel::Expr(e) => (StmtModel::Expr(prop_fold(e, c)), c),
        StmtModel::Opaque(x) => (StmtModel::Opaque(x), c),
    }
}

/// The statements of a sequence after propagation, threading the constants through.
pub open spec fn prop_stmts_spec(s: Seq<StmtModel>, c: ConstMap) -> (Seq<StmtModel>, ConstMap)
    decreases s, 0nat,
{
    if s.len() == 0 {
        (Seq::empty(), c)
    } else {
        let (p, c1) = prop_stmts_spec(s.drop_last(), c);
        let (x, c2) = prop_stmt_spec(s.last(), c1);
        (p.push(x), c2)
    }
}

/// A block after propagation from no known constants, then folded.
pub open spec fn prop_block_spec(b: BlockModel) -> BlockModel
    decreases b, 1nat,
{
    fold_block_spec(BlockModel { stmts: prop_stmts_spec(b.stmts, Map::empty()).0, span: b.span })
}

pub open spec fn prop_opt_block_spec(b: Option<BlockModel>) -> Option<BlockModel>
    decreases b, 0nat,
{
    match b {
        Some(x) => Some(prop_block_spec(x)),
        None => None,
    }
}

/// Each branch: the condition with the constants before the `if`, the body on its own.
pub open spec fn prop_branches_spec(s: Seq<(ExprModel, BlockModel)>, c: ConstMap) -> Seq<(ExprModel, BlockModel)>
    decreases s, 0nat,
{
    if s.len() == 0 {
        Seq::empty()
    } else {
        prop_branches_spec(s.drop_last(), c).push(
            (prop_fold(s.last().0, c), prop_block_spec(s.last().1)),
        )
    }
}

pub open spec fn prop_handlers_spec(s: Seq<HandlerModel>) -> Seq<HandlerModel>
    decreases s, 0nat,
{
    if s.len() == 0 {
        Seq::empty()
    } else {
        let h = s.last();
        prop_handlers_spec(s.drop_last()).push(
            HandlerModel { ty: h.ty, binding: h.binding, body: prop_block_spec(h.body), span: h.span },
        )
    }
}

pub open spec fn prop_fn_spec(f: FnModel) -> FnModel
    decreases f, 0nat,
{
    FnModel {
        name: f.name,
        params: f.params,
        variadic: f.variadic,
        return_type: f.return_type,
        body: prop_block_spec(f.body),
        is_builtin: f.is_builtin,
        is_inline: f.is_inline,
        is_declaration: f.is_declaration,
        is_entry: f.is_entry,
        is_impure: f.is_impure,
        span: f.span,
    }
}

// ---------------------------------------------------------------------------
// The table of known constants
// ---------------------------------------------------------------------------

/// The latest entry for `k` in a log of bindings and removals.
pub open spec fn log_lookup(s: Seq<(String, Option<PropLit>)>, k: Seq<char>) -> Option<Option<PropLit>>
    decreases s.len(),
{
    if s.len() == 0 {
        None
    } else if s.last().0@ == k {
        Some(s.last().1)
    } else {
        log_lookup(s.drop_last(), k)
    }
}

/// Known constants, kept as a log in which the latest entry for a name wins.
pub struct ConstEnv {
    log: Vec<(String, Option<PropLit>)>,
}

impl ConstEnv {
    /// The map from names to the literals they are known to hold.
    pub closed spec fn map(&self) -> ConstMap {
        Map::new(
            |k: Seq<char>| log_lookup(self.log@, k) matches Some(Some(_)),
            |k: Seq<char>| log_lookup(self.log@, k)->Some_0->Some_0,
        )
    }

    pub fn new() -> (r: ConstEnv)
        ensures
            r.map() == Map::<Seq<char>, PropLit>::empty(),
    {
        let r = ConstEnv { log: Vec::new() };
        assert(r.map() =~= Map::<Seq<char>, PropLit>::empty());
        r
    }

    pub fn get(&self, name: &String) -> (r: Option<PropLit>)
        ensures
            r == (if self.map().contains_key(name@) {
                Some(self.map()[name@])
            } else {
                None::<PropLit>
            }),
    {
        let mut i: usize = self.log.len();
        assert(self.log@.take(i as int) =~= self.log@);
        while i > 0
            invariant
                i <= self.log@.len(),
                log_lookup(self.log@, name@) == log_lookup(self.log@.take(i as int), name@),
            decreases i,
        {
            proof {
                assert(self.log@.take(i as int).drop_last() =~= self.log@.take(i - 1));
            }
            if self.log[i - 1].0 == *name {
                return self.log[i - 1].1;
            }
            i -= 1;
        }
        None
    }

    pub fn insert(&mut self, name: String, lit: PropLit)
        ensures
            final(self).map() == old(self).map().insert(name@, lit),
    {
        let ghost k = name@;
        self.log.push((name, Some(lit)));
        proof {
            assert(self.log@.drop_last() =~= old(self).log@);
            assert(self.map() =~= old(self).map().insert(k, lit));
        }
    }

    pub fn remove(&mut self, name: &String)
        ensures
            final(self).map() == old(self).map().remove(name@),
    {
        self.log.push((name.clone(), None));
        proof {
            assert(self.log@.drop_last() =~= old(self).log@);
            assert(self.map() =~= old(self).map().remove(name@));
        }
    }

    pub fn clear(&mut self)
        ensures
            final(self).map() == Map::<Seq<char>, PropLit>::empty(),
    {
        self.log = Vec::new();
        assert(self.map() =~= Map::<Seq<char>, PropLit>::empty());
    }
}

fn lit_to_kind(l: PropLit) -> (r: TypedExprKind)
    ensures
        kind_model(r) == lit_kind(l),
{
    match l {
        PropLit::Int(n) => TypedExprKind::Int(n),
        PropLit::Float(f) => TypedExprKind::Float(f),
        PropLit::Bool(b) => TypedExprKind::Bool(b),
    }
}

fn kind_lit(k: &TypedExprKind) -> (r: Option<PropLit>)
    ensures
        r == as_lit(kind_model(*k)),
{
    match k {
        TypedExprKind::Int(n) => Some(PropLit::Int(*n)),
        TypedExprKind::Float(f) => Some(PropLit::Float(*f)),
        TypedExprKind::Bool(b) => Some(PropLit::Bool(*b)),
        _ => None,
    }
}

// ---------------------------------------------------------------------------
// Executable pass
// ---------------------------------------------------------------------------

fn propagate_expr(expr: TypedExpr, consts: &ConstEnv) -> (r: TypedExpr)
    ensures
        expr_model(r) == prop_expr_spec(expr_model(expr), consts.map()),
    decreases expr, 1nat,
{
    let TypedExpr { kind, ty, span } = expr;
    let k = match kind {
        TypedExprKind::Ident(name) => match consts.get(&name) {
            Some(l) => lit_to_kind(l),
            None => TypedExprKind::Ident(name),
        },
        TypedExprKind::BinOp { op, left, right } => {
            let l = propagate_expr(*left, consts);
            let r = propagate_expr(*right, consts);
            TypedExprKind::BinOp { op, left: Box::new(l), right: Box::new(r) }
        },
        TypedExprKind::UnOp { op, operand } => {
            let o = propagate_expr(*operand, consts);
            TypedExprKind::UnOp { op, operand: Box::new(o) }
        },
        TypedExprKind::Call { callee, args, fn_name, generic_bounds, generic_params, param_tys } => {
            let c = propagate_expr(*callee, consts);
            let a = propagate_exprs(args, consts);
            TypedExprKind::Call {
                callee: Box::new(c),
                args: a,
                fn_name,
                generic_bounds,
                generic_params,
                param_tys,
            }
        },
        TypedExprKind::MethodCall { object, method_fn, args } => {
            let o = propagate_expr(*object, consts);
            let a = propagate_exprs(args, consts);
            TypedExprKind::MethodCall { object: Box::new(o), method_fn, args: a }
        },
        TypedExprKind::StaticCall { method_fn, args } => {
            let a = propagate_exprs(args, consts);
            TypedExprKind::StaticCall { method_fn, args: a }
        },
        TypedExprKind::IndirectCall { fat_ptr, args } => {
            let f = propagate_expr(*fat_ptr, consts);
            let a = propagate_exprs(args, consts);
            TypedExprKind::IndirectCall { fat_ptr: Box::new(f), args: a }
        },
        TypedExprKind::Field { object, field } => {
            let o = propagate_expr(*object, consts);
            TypedExprKind::Field { object: Box::new(o), field }
        },
        TypedExprKind::Index { object, index } => {
            let o = propagate_expr(*object, consts);
            let i = propagate_expr(*index, consts);
            TypedExprKind::Index { object: Box::new(o), index: Box::new(i) }
        },
        TypedExprKind::Tuple(es) => TypedExprKind::Tuple(propagate_exprs(es, consts)),
        TypedExprKind::StructLiteral { ty_name, fields } => {
            let f = propagate_fields(fields, consts);
            TypedExprKind::StructLiteral { ty_name, fields: f }
        },
        TypedExprKind::Unwrap(x) => TypedExprKind::Unwrap(Box::new(propagate_expr(*x, consts))),
        TypedExprKind::As { expr: x, ty: cast_ty } => {
            let e = propagate_expr(*x, consts);
            TypedExprKind::As { expr: Box::new(e), ty: cast_ty }
        },
        other => other,
    };
    TypedExpr { kind: k, ty, span }
}

fn propagate_exprs(v: Vec<TypedExpr>, consts: &ConstEnv) -> (r: Vec<TypedExpr>)
    ensures
        exprs_model(r@) == prop_exprs_spec(exprs_model(v@), consts.map()),
    decreases v@, 0nat,
{
    let mut v = v;
    if v.len() == 0 {
        return v;
    }
    let ghost v0 = v@;
    let x = v.pop().unwrap();
    proof {
        assert(v@ =~= v0.subrange(0, v0.len() - 1));
        vstd::seq::axiom_seq_subrange_decreases(v0, 0, v0.len() - 1);
        assert(decreases_to!(v0 => v0[v0.len() - 1]));
        let m0 = exprs_model(v0);
        assert(m0 == exprs_model(v@).push(m0.last()));
        assert(m0.drop_last() =~= exprs_model(v@));
    }
    let mut rest = propagate_exprs(v, consts);
    let ghost rest0 = rest@;
    let px = propagate_expr(x, consts);
    rest.push(px);
    proof {
        assert(rest@.drop_last() =~= rest0);
    }
    rest
}

fn propagate_fields(v: Vec<(String, TypedExpr)>, consts: &ConstEnv) -> (r: Vec<(String, TypedExpr)>)
    ensures
        fields_model(r@) == prop_fields_spec(fields_model(v@), consts.map()),
    decreases v@, 0nat,
{
    let mut v = v;
    if v.len() == 0 {
        return v;
    }
    let ghost v0 = v@;
    let (name, x) = v.pop().unwrap();
    proof {
        assert(v@ =~= v0.subrange(0, v0.len() - 1));
        vstd::seq::axiom_seq_subrange_decreases(v0, 0, v0.len() - 1);
        assert(decreases_to!(v0 => v0[v0.len() - 1]));
        let m0 = fields_model(v0);
        assert(m0 == fields_model(v@).push(m0.last()));
        assert(m0.drop_last() =~= fields_model(v@));
    }
    let mut rest = propagate_fields(v, consts);
    let ghost rest0 = rest@;
    let px = propagate_expr(x, consts);
    rest.push((name, px));
    proof {
        assert(rest@.drop_last() =~= rest0);
    }
    rest
}

fn prop_fold_expr(e: TypedExpr, consts: &ConstEnv) -> (r: TypedExpr)
    ensures
        expr_model(r) == prop_fold(expr_model(e), consts.map()),
{
    fold_expr(propagate_expr(e, consts))
}

fn prop_fold_opt_expr(e: Option<TypedExpr>, consts: &ConstEnv) -> (r: Option<TypedExpr>)
    ensures
        opt_expr_model(r) == prop_fold_opt(opt_expr_model(e), consts.map()),
{
    match e {
        Some(x) => Some(prop_fold_expr(x, consts)),
        None => None,
    }
}

fn forget_assigned(target: &TypedExpr, consts: &mut ConstEnv)
    ensures
        final(consts).map() == forget_target(expr_model(*target), old(consts).map()),
{
    match &target.kind {
        TypedExprKind::Ident(n) => consts.remove(n),
        _ => {},
    }
}

/// Propagates the constants of a block into its expressions, then folds the block.
pub fn propagate_block(block: TypedBlock) -> (r: TypedBlock)
    ensures
        block_model(r) == prop_block_spec(block_model(block)),
    decreases block, 1nat,
{
    let mut consts = ConstEnv::new();
    let TypedBlock { stmts, span } = block;
    let s = propagate_stmts(stmts, &mut consts);
    fold_block(TypedBlock { stmts: s, span })
}

fn propagate_opt_block(block: Option<TypedBlock>) -> (r: Option<TypedBlock>)
    ensures
        opt_block_model(r) == prop_opt_block_spec(opt_block_model(block)),
    decreases block, 1nat,
{
    match block {
        Some(b) => Some(propagate_block(b)),
        None => None,
    }
}

fn propagate_stmts(v: Vec<TypedStmt>, consts: &mut ConstEnv) -> (r: Vec<TypedStmt>)
    ensures
        (stmts_model(r@), final(consts).map()) == prop_stmts_spec(stmts_model(v@), old(consts).map()),
    decreases v@, 0nat,
{
    let mut v = v;
    if v.len() == 0 {
        return v;
    }
    let ghost v0 = v@;
    let x = v.pop().unwrap();
    proof {
        assert(v@ =~= v0.subrange(0, v0.len() - 1));
        vstd::seq::axiom_seq_subrange_decreases(v0, 0, v0.len() - 1);
        assert(decreases_to!(v0 => v0[v0.len() - 1]));
        let m0 = stmts_model(v0);
        assert(m0 == stmts_model(v@).push(m0.last()));
        assert(m0.drop_last() =~= stmts_model(v@));
    }
    let mut rest = propagate_stmts(v, consts);
    let ghost rest0 = rest@;
    let px = propagate_stmt(x, consts);
    rest.push(px);
    proof {
        assert(rest@.drop_last() =~= rest0);
    }
    rest
}

fn propagate_branches(v: Vec<(TypedExpr, TypedBlock)>, consts: &ConstEnv) -> (r: Vec<(TypedExpr, TypedBlock)>)
    ensures
        branches_model(r@) == prop_branches_spec(branches_model(v@), consts.map()),
    decreases v@, 0nat,
{
    let mut v = v;
    if v.len() == 0 {
        return v;
    }
    let ghost v0 = v@;
    let (c, b) = v.pop().unwrap();
    proof {
        assert(v@ =~= v0.subrange(0, v0.len() - 1));
        vstd::seq::axiom_seq_subrange_decreases(v0, 0, v0.len() - 1);
        assert(decreases_to!(v0 => v0[v0.len() - 1]));
        let m0 = branches_model(v0);
        assert(m0 == branches_model(v@).push(m0.last()));
        assert(m0.drop_last() =~= branches_model(v@));
    }
    let mut rest = propagate_branches(v, consts);
    let ghost rest0 = rest@;
    let pc = prop_fold_expr(c, consts);
    let pb = propagate_block(b);
    rest.push((pc, pb));
    proof {
        assert(rest@.drop_last() =~= rest0);
    }
    rest
}

fn propagate_handlers(v: Vec<TypedCatchHandler>) -> (r: Vec<TypedCatchHandler>)
    ensures
        handlers_model(r@) == prop_handlers_spec(handlers_model(v@)),
    decreases v@, 0nat,
{
    let mut v = v;
    if v.len() == 0 {
        return v;
    }
    let ghost v0 = v@;
    let h = v.pop().unwrap();
    proof {
        assert(v@ =~= v0.subrange(0, v0.len() - 1));
        vstd::seq::axiom_seq_subrange_decreases(v0, 0, v0.len() - 1);
        assert(decreases_to!(v0 => v0[v0.len() - 1]));
        let m0 = handlers_model(v0);
        assert(m0 == handlers_model(v@).push(m0.last()));
        assert(m0.drop_last() =~= handlers_model(v@));
    }
    let mut rest = propagate_handlers(v);
    let ghost rest0 = rest@;
    let TypedCatchHandler { ty, binding, body, span } = h;
    let pb = propagate_block(body);
    rest.push(TypedCatchHandler { ty, binding, body: pb, span });
    proof {
        assert(rest@.drop_last() =~= rest0);
    }
    rest
}

fn propagate_fn(f: TypedFnDef) -> (r: TypedFnDef)
    ensures
        fn_model(r) == prop_fn_spec(fn_model(f)),
    decreases f, 1nat,
{
    let TypedFnDef {
        name,
        params,
        variadic,
        return_type,
        body,
        is_builtin,
        is_inline,
        is_declaration,
        is_entry,
        is_impure,
        span,
    } = f;
    let b = propagate_block(body);
    TypedFnDef {
        name,
        params,
        variadic,
        return_type,
        body: b,
        is_builtin,
        is_inline,
        is_declaration,
        is_entry,
        is_impure,
        span,
    }
}

fn propagate_stmt(stmt: TypedStmt, consts: &mut ConstEnv) -> (r: TypedStmt)
    ensures
        (stmt_model(r), final(consts).map()) == prop_stmt_spec(stmt_model(stmt), old(consts).map()),
    decreases stmt, 1nat,
{
    match stmt {
        TypedStmt::VarDecl { name, ty, value, mutable, span } => {
            let v = prop_fold_expr(value, consts);
            match kind_lit(&v.kind) {
                Some(l) if !mutable => consts.insert(name.clone(), l),
                _ => consts.remove(&name),
            }
            TypedStmt::VarDecl { name, ty, value: v, mutable, span }
        },
        TypedStmt::Assign { target, value, span } => {
            forget_assigned(&target, consts);
            let v = prop_fold_expr(value, consts);
            let t = propagate_expr(target, consts);
            TypedStmt::Assign { target: t, value: v, span }
        },
        TypedStmt::CompoundAssign { target, op, rhs, span } => {
            forget_assigned(&target, consts);
            let t = propagate_expr(target, consts);
            let v = prop_fold_expr(rhs, consts);
            TypedStmt::CompoundAssign { target: t, op, rhs: v, span }
        },
        TypedStmt::Return { value, span } => {
            TypedStmt::Return { value: prop_fold_opt_expr(value, consts), span }
        },
        TypedStmt::Raise { value, span } => {
            TypedStmt::Raise { value: prop_fold_opt_expr(value, consts), span }
        },
        TypedStmt::If { branches, else_branch, span } => {
            let b = propagate_branches(branches, consts);
            consts.clear();
            let e = propagate_opt_block(else_branch);
            TypedStmt::If { branches: b, else_branch: e, span }
        },
        TypedStmt::While { cond, body, span } => {
            consts.clear();
            let c = prop_fold_expr(cond, consts);
            let b = propagate_block(body);
            TypedStmt::While { cond: c, body: b, span }
        },
        TypedStmt::DoWhile { body, cond, span } => {
            consts.clear();
            let b = propagate_block(body);
            let c = prop_fold_expr(cond, consts);
            TypedStmt::DoWhile { body: b, cond: c, span }
        },
        TypedStmt::For { binding, binding_ty, iterable, body, iter_ty, span } => {
            consts.clear();
            let it = prop_fold_expr(iterable, consts);
            let b = propagate_block(body);
            TypedStmt::For { binding, binding_ty, iterable: it, body: b, iter_ty, span }
        },
        TypedStmt::TryCatch { body, handlers, finally, span } => {
            consts.clear();
            let b = propagate_block(body);
            let h = propagate_handlers(handlers);
            let f = propagate_opt_block(finally);
            TypedStmt::TryCatch { body: b, handlers: h, finally: f, span }
        },
        TypedStmt::FnDef(f) => TypedStmt::FnDef(propagate_fn(f)),
        TypedStmt::Expr(e) => TypedStmt::Expr(prop_fold_expr(e, consts)),
        other => other,
    }
}

// ---------------------------------------------------------------------------
// Files
// ---------------------------------------------------------------------------

/// A hook with its body propagated and everything else unchanged.
pub open spec fn hook_propagated(a: TypedHookDef, b: TypedHookDef) -> bool {
    &&& b.is_static == a.is_static
    &&& b.is_impure == a.is_impure
    &&& b.name == a.name
    &&& b.params == a.params
    &&& b.return_type == a.return_type
    &&& b.span == a.span
    &&& block_model(b.body) == prop_block_spec(block_model(a.body))
}

/// An impl block with its method and hook bodies propagated and everything else unchanged.
pub open spec fn impl_propagated(a: TypedImplBlock, b: TypedImplBlock) -> bool {
    &&& b.interface == a.interface
    &&& b.for_type == a.for_type
    &&& b.for_type_ty == a.for_type_ty
    &&& b.span == a.span
    &&& b.methods@.len() == a.methods@.len()
    &&& forall|i: int|
        0 <= i < a.methods@.len() ==> #[trigger] fn_model(b.methods@[i]) == prop_fn_spec(
            fn_model(a.methods@[i]),
        )
    &&& b.hooks@.len() == a.hooks@.len()
    &&& forall|i: int| 0 <= i < a.hooks@.len() ==> #[trigger] hook_propagated(a.hooks@[i], b.hooks@[i])
}

/// A top-level item after propagation: function, method and hook bodies are propagated
/// and folded, a global's initializer is folded, and other items are unchanged.
pub open spec fn item_propagated(a: TypedItem, b: TypedItem) -> bool {
    match a {
        TypedItem::Function(f) => b is Function && fn_model(b->Function_0) == prop_fn_spec(fn_model(f)),
        TypedItem::ImplBlock(ib) => b is ImplBlock && impl_propagated(ib, b->ImplBlock_0),
        TypedItem::Global(g) => {
            &&& b is Global
            &&& b->Global_0.name == g.name
            &&& b->Global_0.ty == g.ty
            &&& b->Global_0.mutable == g.mutable
            &&& b->Global_0.span == g.span
            &&& expr_model(b->Global_0.init) == fold_expr_spec(expr_model(g.init))
        },
        _ => b == a,
    }
}

fn propagate_hook(h: TypedHookDef) -> (r: TypedHookDef)
    ensures
        hook_propagated(h, r),
{
    let TypedHookDef { is_static, is_impure, name, params, return_type, body, span } = h;
    let b = propagate_block(body);
    TypedHookDef { is_static, is_impure, name, params, return_type, body: b, span }
}

fn propagate_methods(v: Vec<TypedFnDef>) -> (r: Vec<TypedFnDef>)
    ensures
        r@.len() == v@.len(),
        forall|i: int| 0 <= i < v@.len() ==> #[trigger] fn_model(r@[i]) == prop_fn_spec(fn_model(v@[i])),
    decreases v@.len(),
{
    let mut v = v;
    if v.len() == 0 {
        return v;
    }
    let x = v.pop().unwrap();
    let mut rest = propagate_methods(v);
    let fx = propagate_fn(x);
    rest.push(fx);
    rest
}

fn propagate_hooks(v: Vec<TypedHookDef>) -> (r: Vec<TypedHookDef>)
    ensures
        r@.len() == v@.len(),
        forall|i: int| 0 <= i < v@.len() ==> #[trigger] hook_propagated(v@[i], r@[i]),
    decreases v@.len(),
{
    let mut v = v;
    if v.len() == 0 {
        return v;
    }
    let ghost v0 = v@;
    let x = v.pop().unwrap();
    let ghost vp = v@;
    let mut rest = propagate_hooks(v);
    let fx = propagate_hook(x);
    rest.push(fx);
    proof {
        assert forall|i: int| 0 <= i < v0.len() implies #[trigger] hook_propagated(v0[i], rest@[i]) by {
            if i < v0.len() - 1 {
                assert(v0[i] == vp[i]);
            }
        }
    }
    rest
}

// Cleans the methods and hooks of an impl block.
fn propagate_impl(ib: TypedImplBlock) -> (r: TypedImplBlock)
    ensures
        impl_propagated(ib, r),
{
    let TypedImplBlock { interface, for_type, for_type_ty, methods, hooks, span } = ib;
    let m = propagate_methods(methods);
    let h = propagate_hooks(hooks);
    TypedImplBlock { interface, for_type, for_type_ty, methods: m, hooks: h, span }
}

fn propagate_item(item: TypedItem) -> (r: TypedItem)
    ensures
        item_propagated(item, r),
{
    match item {
        TypedItem::Function(f) => TypedItem::Function(propagate_fn(f)),
        TypedItem::ImplBlock(ib) => TypedItem::ImplBlock(propagate_impl(ib)),
        TypedItem::Global(g) => {
            let TypedGlobalVar { name, ty, init, mutable, span } = g;
            let i = fold_expr(init);
            TypedItem::Global(TypedGlobalVar { name, ty, init: i, mutable, span })
        },
        other => other,
    }
}

fn propagate_items(v: Vec<TypedItem>) -> (r: Vec<TypedItem>)
    ensures
        r@.len() == v@.len(),
        forall|i: int| 0 <= i < v@.len() ==> #[trigger] item_propagated(v@[i], r@[i]),
    decreases v@.len(),
{
    let mut v = v;
    if v.len() == 0 {
        return v;
    }
    let ghost v0 = v@;
    let x = v.pop().unwrap();
    let ghost vp = v@;
    let mut rest = propagate_items(v);
    let fx = propagate_item(x);
    rest.push(fx);
    proof {
        assert forall|i: int| 0 <= i < v0.len() implies #[trigger] item_propagated(v0[i], rest@[i]) by {
            if i < v0.len() - 1 {
                assert(v0[i] == vp[i]);
            }
        }
    }
    rest
}

/// Propagates constants through every function, method and hook body of a file and
/// folds global initializers.
pub fn propagate_file(file: TypedFile) -> (r: TypedFile)
    ensures
        r.span == file.span,
        r.items@.len() == file.items@.len(),
        forall|i: int|
            0 <= i < file.items@.len() ==> #[trigger] item_propagated(file.items@[i], r.items@[i]),
{
    let TypedFile { items, span } = file;
    let propagated = propagate_items(items);
    TypedFile { items: propagated, span }
}


/// With no known constants, substitution changes nothing.
pub proof fn substitution_without_constants_is_identity(e: ExprModel)
    ensures
        prop_expr_spec(e, Map::empty()) == e,
    decreases e, 1nat,
{
    match e.kind {
        KindModel::BinOp { left, right, .. } => {
            substitution_without_constants_is_identity(*left);
            substitution_without_constants_is_identity(*right);
        },
        KindModel::UnOp { operand, .. } => substitution_without_constants_is_identity(*operand),
        KindModel::Call { callee, args, .. } => {
            substitution_without_constants_is_identity(*callee);
            lemma_exprs_identity(args);
        },
        KindModel::MethodCall { object, args, .. } => {
            substitution_without_constants_is_identity(*object);
            lemma_exprs_identity(args);
        },
        KindModel::StaticCall { args, .. } => lemma_exprs_identity(args),
        KindModel::IndirectCall { fat_ptr, args } => {
            substitution_without_constants_is_identity(*fat_ptr);
            lemma_exprs_identity(args);
        },
        KindModel::Field { object, .. } => substitution_without_constants_is_identity(*object),
        KindModel::Index { object, index } => {
            substitution_without_constants_is_identity(*object);
            substitution_without_constants_is_identity(*index);
        },
        KindModel::Tuple(es) => lemma_exprs_identity(es),
        KindModel::StructLiteral { fields, .. } => lemma_fields_identity(fields),
        KindModel::Unwrap(x) => substitution_without_constants_is_identity(*x),
        KindModel::As { expr, .. } => substitution_without_constants_is_identity(*expr),
        _ => {},
    }
}

proof fn lemma_exprs_identity(s: Seq<ExprModel>)
    ensures
        prop_exprs_spec(s, Map::empty()) == s,
    decreases s, 0nat,
{
    if s.len() > 0 {
        lemma_exprs_identity(s.drop_last());
        substitution_without_constants_is_identity(s.last());
        assert(s.drop_last().push(s.last()) =~= s);
    }
}

proof fn lemma_fields_identity(s: Seq<(String, ExprModel)>)
    ensures
        prop_fields_spec(s, Map::empty()) == s,
    decreases s, 0nat,
{
    if s.len() > 0 {
        lemma_fields_identity(s.drop_last());
        substitution_without_constants_is_identity(s.last().1);
        assert(s.drop_last().push((s.last().0, s.last().1)) =~= s);
    }
}

/// A name that is not a known constant is left as it is.
pub proof fn unknown_names_are_kept(e: ExprModel, c: ConstMap)
    requires
        e.kind matches KindModel::Ident(n) && !c.contains_key(n@),
    ensures
        prop_expr_spec(e, c) == e,
{
}

/// A known constant replaces its name, keeping the expression's type and span.
pub proof fn known_names_become_literals(e: ExprModel, c: ConstMap)
    requires
        e.kind matches KindModel::Ident(n) && c.contains_key(n@),
    ensures
        prop_expr_spec(e, c).kind == lit_kind(c[e.kind->Ident_0@]),
        prop_expr_spec(e, c).ty == e.ty,
        prop_expr_spec(e, c).span == e.span,
{
}

} // verus!
