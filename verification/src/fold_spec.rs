use vstd::prelude::*;
use crate::span::Span;
use crate::ast::{BinOp, UnOp};
use crate::ty::TyModel;
use crate::typed_ast::TypedStmt;
use crate::fold_model::{
    ArmModel, BlockModel, BodyModel, ExprModel, FnModel, HandlerModel, KindModel, SegModel,
    StmtModel,
};

verus! {

// What constant folding computes, stated over the models of typed syntax trees.

pub open spec fn nmax(a: nat, b: nat) -> nat {
    if a >= b {
        a
    } else {
        b
    }
}

// ---------------------------------------------------------------------------
// Height of a model: the depth of nested folding work below a node.
// ---------------------------------------------------------------------------

pub open spec fn h_expr(e: ExprModel) -> nat
    decreases e, 1nat,
{
    h_kind(e.kind)
}

pub open spec fn h_opt(o: Option<ExprModel>) -> nat
    decreases o, 0nat,
{
    match o {
        Some(e) => h_expr(e),
        None => 0,
    }
}

pub open spec fn h_exprs(s: Seq<ExprModel>) -> nat
    decreases s, 0nat,
{
    if s.len() == 0 {
        0
    } else {
        nmax(h_exprs(s.drop_last()), h_expr(s.last()))
    }
}

pub open spec fn h_fields(s: Seq<(String, ExprModel)>) -> nat
    decreases s, 0nat,
{
    if s.len() == 0 {
        0
    } else {
        nmax(h_fields(s.drop_last()), h_expr(s.last().1))
    }
}

pub open spec fn h_seg(g: SegModel) -> nat
    decreases g, 0nat,
{
    match g {
        SegModel::Text(_) => 0,
        SegModel::Interp(e) => h_expr(e),
    }
}

pub open spec fn h_segs(s: Seq<SegModel>) -> nat
    decreases s, 0nat,
{
    if s.len() == 0 {
        0
    } else {
        nmax(h_segs(s.drop_last()), h_seg(s.last()))
    }
}

pub open spec fn h_arm(a: ArmModel) -> nat
    decreases a, 0nat,
{
    nmax(h_opt(a.guard), h_expr(a.body))
}

pub open spec fn h_arms(s: Seq<ArmModel>) -> nat
    decreases s, 0nat,
{
    if s.len() == 0 {
        0
    } else {
        nmax(h_arms(s.drop_last()), h_arm(s.last()))
    }
}

pub open spec fn h_body(b: BodyModel) -> nat
    decreases b, 0nat,
{
    match b {
        BodyModel::Expr(e) => h_expr(*e),
        BodyModel::Block(bl) => h_block(bl),
    }
}

pub open spec fn h_kind(k: KindModel) -> nat
    decreases k, 0nat,
{
    match k {
        KindModel::Str(segs) => 1 + h_segs(segs),
        KindModel::BinOp { left, right, .. } => 1 + nmax(h_expr(*left), h_expr(*right)),
        KindModel::UnOp { operand, .. } => 1 + h_expr(*operand),
        KindModel::Call { callee, args, .. } => 1 + nmax(h_expr(*callee), h_exprs(args)),
        KindModel::MethodCall { object, args, .. } => 1 + nmax(h_expr(*object), h_exprs(args)),
        KindModel::StaticCall { args, .. } => 1 + h_exprs(args),
        KindModel::IndirectCall { fat_ptr, args } => 1 + nmax(h_expr(*fat_ptr), h_exprs(args)),
        KindModel::Field { object, .. } => 1 + h_expr(*object),
        KindModel::Index { object, index } => 1 + nmax(h_expr(*object), h_expr(*index)),
        KindModel::Tuple(es) => 1 + h_exprs(es),
        KindModel::StructLiteral { fields, .. } => 1 + h_fields(fields),
        KindModel::Unwrap(e) => 1 + h_expr(*e),
        KindModel::As { expr, .. } => 1 + h_expr(*expr),
        KindModel::Match { scrutinee, arms } => 1 + nmax(h_expr(*scrutinee), h_arms(arms)),
        KindModel::Closure { body, .. } => 1 + h_body(body),
        KindModel::Spawn(e) => 1 + h_expr(*e),
        KindModel::Ref { expr, .. } => 1 + h_expr(*expr),
        KindModel::Array(es) => 1 + h_exprs(es),
        KindModel::Gen { body } => 1 + h_block(body),
        KindModel::GenSplice(e) => 1 + h_expr(*e),
        _ => 0,
    }
}

pub open spec fn h_block(b: BlockModel) -> nat
    decreases b, 1nat,
{
    1 + h_stmts(b.stmts)
}

pub open spec fn h_opt_block(b: Option<BlockModel>) -> nat
    decreases b, 0nat,
{
    match b {
        Some(bl) => h_block(bl),
        None => 0,
    }
}

pub open spec fn h_stmts(s: Seq<StmtModel>) -> nat
    decreases s, 0nat,
{
    if s.len() == 0 {
        0
    } else {
        nmax(h_stmts(s.drop_last()), h_stmt(s.last()))
    }
}

pub open spec fn h_branches(s: Seq<(ExprModel, BlockModel)>) -> nat
    decreases s, 0nat,
{
    if s.len() == 0 {
        0
    } else {
        nmax(h_branches(s.drop_last()), nmax(h_expr(s.last().0), h_block(s.last().1)))
    }
}

pub open spec fn h_handlers(s: Seq<HandlerModel>) -> nat
    decreases s, 0nat,
{
    if s.len() == 0 {
        0
    } else {
        nmax(h_handlers(s.drop_last()), h_block(s.last().body))
    }
}

pub open spec fn h_stmt(st: StmtModel) -> nat
    decreases st, 0nat,
{
    match st {
        StmtModel::VarDecl { value, .. } => 1 + h_expr(value),
        StmtModel::Assign { target, value, .. } => 1 + nmax(h_expr(target), h_expr(value)),
        StmtModel::CompoundAssign { target, rhs, .. } => 1 + nmax(h_expr(target), h_expr(rhs)),
        StmtModel::Return { value, .. } => 1 + h_opt(value),
        StmtModel::Raise { value, .. } => 1 + h_opt(value),
        StmtModel::If { branches, else_branch, .. } => 1 + nmax(
            h_branches(branches),
            h_opt_block(else_branch),
        ),
        StmtModel::While { cond, body, .. } => 1 + nmax(h_expr(cond), h_block(body)),
        StmtModel::DoWhile { body, cond, .. } => 1 + nmax(h_expr(cond), h_block(body)),
        StmtModel::For { iterable, body, .. } => 1 + nmax(h_expr(iterable), h_block(body)),
        StmtModel::TryCatch { body, handlers, finally, .. } => 1 + nmax(
            h_block(body),
            nmax(h_handlers(handlers), h_opt_block(finally)),
        ),
        StmtModel::FnDef(f) => 1 + h_block(f.body),
        StmtModel::Expr(e) => 1 + h_expr(e),
        StmtModel::Opaque(_) => 0,
    }
}

// ---------------------------------------------------------------------------
// Side effects
// ---------------------------------------------------------------------------

/// An expression may have observable side effects: it contains a call, a spawn,
/// or (inside a generator body) a statement that may have effects.
pub open spec fn has_effects(e: ExprModel) -> bool
    decreases e, 1nat,
{
    match e.kind {
        KindModel::Call { .. } => true,
        KindModel::MethodCall { .. } => true,
        KindModel::StaticCall { .. } => true,
        KindModel::IndirectCall { .. } => true,
        KindModel::Spawn(_) => true,
        KindModel::BinOp { left, right, .. } => has_effects(*left) || has_effects(*right),
        KindModel::UnOp { operand, .. } => has_effects(*operand),
        KindModel::Field { object, .. } => has_effects(*object),
        KindModel::Index { object, index } => has_effects(*object) || has_effects(*index),
        KindModel::Tuple(es) => exprs_have_effects(es),
        KindModel::StructLiteral { fields, .. } => fields_have_effects(fields),
        KindModel::Unwrap(x) => has_effects(*x),
        KindModel::As { expr, .. } => has_effects(*expr),
        KindModel::Match { scrutinee, arms } => has_effects(*scrutinee) || arm_bodies_have_effects(
            arms,
        ),
        KindModel::Array(es) => exprs_have_effects(es),
        KindModel::Gen { body } => stmts_have_effects(body.stmts),
        _ => false,
    }
}

pub open spec fn exprs_have_effects(s: Seq<ExprModel>) -> bool
    decreases s, 0nat,
{
    if s.len() == 0 {
        false
    } else {
        exprs_have_effects(s.drop_last()) || has_effects(s.last())
    }
}

pub open spec fn fields_have_effects(s: Seq<(String, ExprModel)>) -> bool
    decreases s, 0nat,
{
    if s.len() == 0 {
        false
    } else {
        fields_have_effects(s.drop_last()) || has_effects(s.last().1)
    }
}

pub open spec fn arm_bodies_have_effects(s: Seq<ArmModel>) -> bool
    decreases s, 0nat,
{
    if s.len() == 0 {
        false
    } else {
        arm_bodies_have_effects(s.drop_last()) || has_effects(s.last().body)
    }
}

pub open spec fn stmts_have_effects(s: Seq<StmtModel>) -> bool
    decreases s, 0nat,
{
    if s.len() == 0 {
        false
    } else {
        stmts_have_effects(s.drop_last()) || stmt_has_effects(s.last())
    }
}

/// Statements other than expressions, declarations, assignments and returns are
/// taken to have effects.
pub open spec fn stmt_has_effects(st: StmtModel) -> bool
    decreases st, 0nat,
{
    match st {
        StmtModel::Expr(e) => has_effects(e),
        StmtModel::VarDecl { value, .. } => has_effects(value),
        StmtModel::Assign { value, .. } => has_effects(value),
        StmtModel::Return { value, .. } => match value {
            Some(v) => has_effects(v),
            None => false,
        },
        _ => true,
    }
}

// ---------------------------------------------------------------------------
// Literal shapes
// ---------------------------------------------------------------------------

pub open spec fn mk(kind: KindModel, ty: TyModel, span: Span) -> ExprModel {
    ExprModel { kind, ty, span }
}

pub open spec fn is_int(e: ExprModel, n: i64) -> bool {
    e.kind == KindModel::Int(n)
}

pub open spec fn is_bool(e: ExprModel, b: bool) -> bool {
    e.kind == KindModel::Bool(b)
}

/// A float literal equal to zero (either sign).
pub open spec fn is_float_zero(e: ExprModel) -> bool {
    e.kind matches KindModel::Float(f) && f & 0x7fff_ffff_ffff_ffffu64 == 0
}

/// A float literal equal to one.
pub open spec fn is_float_one(e: ExprModel) -> bool {
    e.kind == KindModel::Float(0x3ff0_0000_0000_0000u64)
}

pub open spec fn is_ident(e: ExprModel) -> bool {
    e.kind is Ident
}

/// Both operands are the same identifier.
pub open spec fn same_ident(l: ExprModel, r: ExprModel) -> bool {
    &&& l.kind matches KindModel::Ident(a)
    &&& r.kind matches KindModel::Ident(b)
    &&& a@ == b@
}

pub open spec fn all_text(s: Seq<SegModel>) -> bool
    decreases s,
{
    if s.len() == 0 {
        true
    } else {
        all_text(s.drop_last()) && s.last() is Text
    }
}

/// The literal text of a string literal's segments, in order.
pub open spec fn text_of(s: Seq<SegModel>) -> Seq<char>
    decreases s,
{
    if s.len() == 0 {
        Seq::empty()
    } else {
        text_of(s.drop_last()) + match s.last() {
            SegModel::Text(t) => t,
            SegModel::Interp(_) => Seq::empty(),
        }
    }
}

/// The length in UTF-8 bytes of a string literal's text segments (each segment's
/// length as `str::len` reports it).
pub open spec fn text_bytes(s: Seq<SegModel>) -> int
    decreases s,
{
    if s.len() == 0 {
        0
    } else {
        text_bytes(s.drop_last()) + match s.last() {
            SegModel::Text(t) => (vstd::utf8::encode_utf8(t).len() as usize) as int,
            SegModel::Interp(_) => 0,
        }
    }
}

pub open spec fn not_of(x: ExprModel, ty: TyModel, span: Span) -> ExprModel {
    mk(KindModel::UnOp { op: UnOp::Not, operand: Box::new(x) }, ty, span)
}

pub open spec fn neg_of(x: ExprModel, ty: TyModel, span: Span) -> ExprModel {
    mk(KindModel::UnOp { op: UnOp::Neg, operand: Box::new(x) }, ty, span)
}

pub open spec fn int_lit(n: i64, ty: TyModel, span: Span) -> ExprModel {
    mk(KindModel::Int(n), ty, span)
}

/// The zero literal of a numeric type: `0.0` for a float, `0` otherwise.
pub open spec fn zero_of(ty: TyModel, span: Span) -> ExprModel {
    if ty is Float {
        mk(KindModel::Float(0), ty, span)
    } else {
        int_lit(0, ty, span)
    }
}

pub open spec fn bool_lit(b: bool, ty: TyModel, span: Span) -> ExprModel {
    mk(KindModel::Bool(b), ty, span)
}

/// `a / b` with wrap-around on overflow (`b != 0`).
pub open spec fn div_wrapping(a: i64, b: i64) -> i64 {
    match a.checked_div(b) {
        Some(q) => q,
        None => a,
    }
}

/// `a % b` with wrap-around on overflow (`b != 0`).
pub open spec fn rem_wrapping(a: i64, b: i64) -> i64 {
    match a.checked_rem(b) {
        Some(q) => q,
        None => 0,
    }
}

/// Constant folding of one binary operation whose operands are already folded:
/// the algebraic identities first, in order, then folding of literal operands;
/// anything else is rebuilt unchanged.
pub open spec fn fold_binop_spec(op: BinOp, l: ExprModel, r: ExprModel, ty: TyModel, span: Span) -> ExprModel {
    if op == BinOp::Add && is_int(r, 0) {
        l
    } else if op == BinOp::Add && is_int(l, 0) {
        r
    } else if op == BinOp::Sub && is_int(r, 0) {
        l
    } else if op == BinOp::Sub && same_ident(l, r) {
        zero_of(ty, span)
    } else if op == BinOp::Mul && is_int(r, 1) {
        l
    } else if op == BinOp::Mul && is_int(l, 1) {
        r
    } else if op == BinOp::Mul && (is_int(r, 0) || is_int(l, 0)) {
        int_lit(0, ty, span)
    } else if op == BinOp::Div && is_int(r, 1) {
        l
    } else if op == BinOp::Eq && is_bool(r, true) {
        l
    } else if op == BinOp::Eq && is_bool(l, true) {
        r
    } else if op == BinOp::Eq && is_bool(r, false) {
        not_of(l, ty, span)
    } else if op == BinOp::Eq && is_bool(l, false) {
        not_of(r, ty, span)
    } else if op == BinOp::And && is_bool(l, false) && !has_effects(r) {
        bool_lit(false, ty, span)
    } else if op == BinOp::And && is_bool(l, true) {
        r
    } else if op == BinOp::Or && is_bool(l, true) && !has_effects(r) {
        bool_lit(true, ty, span)
    } else if op == BinOp::Or && is_bool(l, false) {
        r
    } else if op == BinOp::Sub && is_int(l, 0) {
        neg_of(r, ty, span)
    } else if op == BinOp::Mul && is_int(r, -1i64) {
        neg_of(l, ty, span)
    } else if op == BinOp::Mul && is_int(l, -1i64) {
        neg_of(r, ty, span)
    } else if op == BinOp::Mod && is_int(r, 1) {
        int_lit(0, ty, span)
    } else if op == BinOp::Eq && same_ident(l, r) {
        bool_lit(true, ty, span)
    } else if op == BinOp::Ne && same_ident(l, r) {
        bool_lit(false, ty, span)
    } else if op == BinOp::Lt && same_ident(l, r) {
        bool_lit(false, ty, span)
    } else if op == BinOp::Gt && same_ident(l, r) {
        bool_lit(false, ty, span)
    } else if op == BinOp::LtEq && same_ident(l, r) {
        bool_lit(true, ty, span)
    } else if op == BinOp::GtEq && same_ident(l, r) {
        bool_lit(true, ty, span)
    } else if op == BinOp::Add && is_float_zero(r) {
        l
    } else if op == BinOp::Add && is_float_zero(l) {
        r
    } else if op == BinOp::Sub && is_float_zero(r) {
        l
    } else if op == BinOp::Mul && is_float_one(r) {
        l
    } else if op == BinOp::Mul && is_float_one(l) {
        r
    } else if op == BinOp::Div && is_float_one(r) {
        l
    } else if op == BinOp::Sub && r.kind is UnOp && r.kind->UnOp_op == UnOp::Neg {
        mk(KindModel::BinOp { op: BinOp::Add, left: Box::new(l), right: r.kind->UnOp_operand }, ty, span)
    } else if op == BinOp::Ne && is_bool(r, true) {
        not_of(l, ty, span)
    } else if op == BinOp::Ne && is_bool(l, true) {
        not_of(r, ty, span)
    } else if op == BinOp::Ne && is_bool(r, false) {
        l
    } else if op == BinOp::Ne && is_bool(l, false) {
        r
    } else if op == BinOp::Mod && same_ident(l, r) {
        int_lit(0, ty, span)
    } else if op == BinOp::And && same_ident(l, r) {
        l
    } else if op == BinOp::Or && same_ident(l, r) {
        l
    } else if op == BinOp::Or && is_bool(r, true) && !has_effects(l) {
        bool_lit(true, ty, span)
    } else if op == BinOp::And && is_bool(r, false) && !has_effects(l) {
        bool_lit(false, ty, span)
    } else if op == BinOp::Mul && is_ident(l) && is_int(r, 2) {
        mk(KindModel::BinOp { op: BinOp::Add, left: Box::new(l), right: Box::new(l) }, ty, span)
    } else if op == BinOp::Mul && is_int(l, 2) && is_ident(r) {
        mk(KindModel::BinOp { op: BinOp::Add, left: Box::new(r), right: Box::new(r) }, ty, span)
    } else {
        fold_literals_spec(op, l, r, ty, span)
    }
}

/// Folding of a binary operation whose operands are both literals.
pub open spec fn fold_literals_spec(op: BinOp, l: ExprModel, r: ExprModel, ty: TyModel, span: Span) -> ExprModel {
    match (l.kind, r.kind) {
        (KindModel::Int(a), KindModel::Int(b)) => {
            if op == BinOp::Add {
                int_lit(a.wrapping_add(b), ty, span)
            } else if op == BinOp::Sub {
                int_lit(a.wrapping_sub(b), ty, span)
            } else if op == BinOp::Mul {
                int_lit(a.wrapping_mul(b), ty, span)
            } else if op == BinOp::Div && b != 0 {
                int_lit(div_wrapping(a, b), ty, span)
            } else if op == BinOp::Mod && b != 0 {
                int_lit(rem_wrapping(a, b), ty, span)
            } else if op == BinOp::Eq {
                bool_lit(a == b, ty, span)
            } else if op == BinOp::Ne {
                bool_lit(a != b, ty, span)
            } else if op == BinOp::Lt {
                bool_lit(a < b, ty, span)
            } else if op == BinOp::LtEq {
                bool_lit(a <= b, ty, span)
            } else if op == BinOp::Gt {
                bool_lit(a > b, ty, span)
            } else if op == BinOp::GtEq {
                bool_lit(a >= b, ty, span)
            } else {
                mk(KindModel::BinOp { op, left: Box::new(l), right: Box::new(r) }, ty, span)
            }
        },
        (KindModel::Bool(a), KindModel::Bool(b)) => {
            if op == BinOp::And {
                bool_lit(a && b, ty, span)
            } else if op == BinOp::Or {
                bool_lit(a || b, ty, span)
            } else {
                mk(KindModel::BinOp { op, left: Box::new(l), right: Box::new(r) }, ty, span)
            }
        },
        (KindModel::Str(a), KindModel::Str(b)) => {
            if op == BinOp::Pipe && all_text(a) && all_text(b) {
                mk(KindModel::Str(seq![SegModel::Text(text_of(a) + text_of(b))]), ty, span)
            } else {
                mk(KindModel::BinOp { op, left: Box::new(l), right: Box::new(r) }, ty, span)
            }
        },
        _ => mk(KindModel::BinOp { op, left: Box::new(l), right: Box::new(r) }, ty, span),
    }
}

// ---------------------------------------------------------------------------
// Folding
// ---------------------------------------------------------------------------

/// Folding of one unary operation whose operand is already folded. De Morgan's laws
/// rewrite a negated conjunction or disjunction and fold the negated halves again.
pub open spec fn fold_unop_spec(op: UnOp, x: ExprModel, ty: TyModel, span: Span) -> ExprModel
    decreases 1 + h_expr(x), 2nat,
{
    if op == UnOp::Neg && x.kind is UnOp && x.kind->UnOp_op == UnOp::Neg {
        *x.kind->UnOp_operand
    } else if op == UnOp::Not && x.kind is UnOp && x.kind->UnOp_op == UnOp::Not {
        *x.kind->UnOp_operand
    } else if op == UnOp::Neg && is_int(x, 0) {
        int_lit(0, ty, span)
    } else if op == UnOp::Neg && is_float_zero(x) {
        mk(KindModel::Float(0), ty, span)
    } else if op == UnOp::Neg && x.kind is Int {
        int_lit(0i64.wrapping_sub(x.kind->Int_0), ty, span)
    } else if op == UnOp::Neg && x.kind is Float {
        mk(KindModel::Float(x.kind->Float_0 ^ 0x8000_0000_0000_0000u64), ty, span)
    } else if op == UnOp::Not && x.kind is Bool {
        bool_lit(!x.kind->Bool_0, ty, span)
    } else if op == UnOp::Not && x.kind is BinOp && x.kind->BinOp_op == BinOp::And {
        mk(
            KindModel::BinOp {
                op: BinOp::Or,
                left: Box::new(fold_expr_spec(not_of(*x.kind->BinOp_left, TyModel::Bool, span))),
                right: Box::new(fold_expr_spec(not_of(*x.kind->BinOp_right, TyModel::Bool, span))),
            },
            ty,
            span,
        )
    } else if op == UnOp::Not && x.kind is BinOp && x.kind->BinOp_op == BinOp::Or {
        mk(
            KindModel::BinOp {
                op: BinOp::And,
                left: Box::new(fold_expr_spec(not_of(*x.kind->BinOp_left, TyModel::Bool, span))),
                right: Box::new(fold_expr_spec(not_of(*x.kind->BinOp_right, TyModel::Bool, span))),
            },
            ty,
            span,
        )
    } else {
        mk(KindModel::UnOp { op, operand: Box::new(x) }, ty, span)
    }
}

/// The constant-folded form of an expression.
pub open spec fn fold_expr_spec(e: ExprModel) -> ExprModel
    decreases h_expr(e), 3nat,
{
    let ty = e.ty;
    let span = e.span;
    match e.kind {
        KindModel::BinOp { op, left, right } => fold_binop_spec(
            op,
            fold_expr_spec(*left),
            fold_expr_spec(*right),
            ty,
            span,
        ),
        KindModel::UnOp { op, operand } => {
            let x = fold_expr_spec(*operand);
            if h_expr(x) <= h_expr(*operand) {
                fold_unop_spec(op, x, ty, span)
            } else {
                mk(KindModel::UnOp { op, operand: Box::new(x) }, ty, span)
            }
        },
        KindModel::Call { callee, args, fn_name, generic_bounds, generic_params, param_tys } => mk(
            KindModel::Call {
                callee: Box::new(fold_expr_spec(*callee)),
                args: fold_exprs_spec(args),
                fn_name,
                generic_bounds,
                generic_params,
                param_tys,
            },
            ty,
            span,
        ),
        KindModel::MethodCall { object, method_fn, args } => {
            let o = fold_expr_spec(*object);
            let a = fold_exprs_spec(args);
            if method_fn@ == "len"@ && a.len() == 0 && o.kind is Str && all_text(o.kind->Str_0)
                && text_bytes(o.kind->Str_0) <= i64::MAX {
                int_lit(#[verifier::truncate] (text_bytes(o.kind->Str_0) as i64), TyModel::Int, span)
            } else {
                mk(KindModel::MethodCall { object: Box::new(o), method_fn, args: a }, ty, span)
            }
        },
        KindModel::StaticCall { method_fn, args } => mk(
            KindModel::StaticCall { method_fn, args: fold_exprs_spec(args) },
            ty,
            span,
        ),
        KindModel::IndirectCall { fat_ptr, args } => mk(
            KindModel::IndirectCall {
                fat_ptr: Box::new(fold_expr_spec(*fat_ptr)),
                args: fold_exprs_spec(args),
            },
            ty,
            span,
        ),
        KindModel::Field { object, field } => mk(
            KindModel::Field { object: Box::new(fold_expr_spec(*object)), field },
            ty,
            span,
        ),
        KindModel::Index { object, index } => mk(
            KindModel::Index {
                object: Box::new(fold_expr_spec(*object)),
                index: Box::new(fold_expr_spec(*index)),
            },
            ty,
            span,
        ),
        KindModel::Tuple(es) => mk(KindModel::Tuple(fold_exprs_spec(es)), ty, span),
        KindModel::StructLiteral { ty_name, fields } => mk(
            KindModel::StructLiteral { ty_name, fields: fold_fields_spec(fields) },
            ty,
            span,
        ),
        KindModel::Unwrap(x) => mk(KindModel::Unwrap(Box::new(fold_expr_spec(*x))), ty, span),
        KindModel::As { expr, ty: cast_ty } => {
            let inner = fold_expr_spec(*expr);
            if inner.ty == cast_ty {
                inner
            } else {
                mk(KindModel::As { expr: Box::new(inner), ty: cast_ty }, ty, span)
            }
        },
        KindModel::Match { scrutinee, arms } => mk(
            KindModel::Match {
                scrutinee: Box::new(fold_expr_spec(*scrutinee)),
                arms: fold_arms_spec(arms),
            },
            ty,
            span,
        ),
        KindModel::Closure { params, body } => mk(
            KindModel::Closure {
                params,
                body: match body {
                    BodyModel::Expr(x) => {
                        proof {
                            assert(h_body(body) == h_expr(*x));
                        }
                        BodyModel::Expr(Box::new(fold_expr_spec(*x)))
                    },
                    BodyModel::Block(b) => {
                        proof {
                            assert(h_body(body) == h_block(b));
                        }
                        BodyModel::Block(fold_block_spec(b))
                    },
                },
            },
            ty,
            span,
        ),
        KindModel::Spawn(x) => mk(KindModel::Spawn(Box::new(fold_expr_spec(*x))), ty, span),
        KindModel::Ref { mutable, expr } => mk(
            KindModel::Ref { mutable, expr: Box::new(fold_expr_spec(*expr)) },
            ty,
            span,
        ),
        KindModel::Array(es) => mk(KindModel::Array(fold_exprs_spec(es)), ty, span),
        KindModel::Gen { body } => mk(KindModel::Gen { body: fold_block_spec(body) }, ty, span),
        KindModel::GenSplice(x) => mk(
            KindModel::GenSplice(Box::new(fold_expr_spec(*x))),
            ty,
            span,
        ),
        KindModel::Str(segs) => mk(KindModel::Str(fold_segs_spec(segs)), ty, span),
        _ => e,
    }
}

pub open spec fn fold_exprs_spec(s: Seq<ExprModel>) -> Seq<ExprModel>
    decreases h_exprs(s), s.len() + 4,
{
    if s.len() == 0 {
        Seq::empty()
    } else {
        fold_exprs_spec(s.drop_last()).push(fold_expr_spec(s.last()))
    }
}

pub open spec fn fold_fields_spec(s: Seq<(String, ExprModel)>) -> Seq<(String, ExprModel)>
    decreases h_fields(s), s.len() + 4,
{
    if s.len() == 0 {
        Seq::empty()
    } else {
        fold_fields_spec(s.drop_last()).push((s.last().0, fold_expr_spec(s.last().1)))
    }
}

/// Folds the interpolated expressions of a string literal and merges adjacent
/// text segments.
pub open spec fn fold_segs_spec(s: Seq<SegModel>) -> Seq<SegModel>
    decreases h_segs(s), s.len() + 4,
{
    if s.len() == 0 {
        Seq::empty()
    } else {
        let p = fold_segs_spec(s.drop_last());
        match s.last() {
            SegModel::Text(t) => {
                if p.len() > 0 && p.last() is Text {
                    p.drop_last().push(SegModel::Text(p.last()->Text_0 + t))
                } else {
                    p.push(SegModel::Text(t))
                }
            },
            SegModel::Interp(x) => {
                proof {
                    assert(h_seg(s.last()) == h_expr(x));
                }
                p.push(SegModel::Interp(fold_expr_spec(x)))
            },
        }
    }
}

pub open spec fn fold_arms_spec(s: Seq<ArmModel>) -> Seq<ArmModel>
    decreases h_arms(s), s.len() + 4,
{
    if s.len() == 0 {
        Seq::empty()
    } else {
        let a = s.last();
        proof {
            assert(h_arm(a) == nmax(h_opt(a.guard), h_expr(a.body)));
        }
        fold_arms_spec(s.drop_last()).push(
            ArmModel {
                pattern: a.pattern,
                guard: match a.guard {
                    Some(g) => {
                        proof {
                            assert(h_opt(a.guard) == h_expr(g));
                        }
                        Some(fold_expr_spec(g))
                    },
                    None => None,
                },
                body: fold_expr_spec(a.body),
                narrowed_discriminant: a.narrowed_discriminant,
                span: a.span,
            },
        )
    }
}

pub open spec fn fold_block_spec(b: BlockModel) -> BlockModel
    decreases h_block(b), 3nat,
{
    BlockModel { stmts: fold_stmts_spec(b.stmts), span: b.span }
}

/// The statement list ends in `return`, `raise`, `break` or `continue`.
pub open spec fn ends_in_terminator(s: Seq<StmtModel>) -> bool {
    &&& s.len() > 0
    &&& {
        ||| s.last() is Return
        ||| s.last() is Raise
        ||| s.last() matches StmtModel::Opaque(TypedStmt::Break(_))
        ||| s.last() matches StmtModel::Opaque(TypedStmt::Continue(_))
    }
}

/// Appends one folded statement to the folded prefix of a block: an `if` on a literal
/// condition is replaced by the branch taken, a `while false` is dropped.
pub open spec fn prune_step(p: Seq<StmtModel>, f: StmtModel) -> Seq<StmtModel> {
    match f {
        StmtModel::If { branches, else_branch, .. } => {
            if branches.len() > 0 && is_bool(branches[0].0, true) {
                p + branches[0].1.stmts
            } else if branches.len() > 0 && is_bool(branches[0].0, false) {
                match else_branch {
                    Some(eb) => p + eb.stmts,
                    None => p,
                }
            } else {
                p.push(f)
            }
        },
        StmtModel::While { cond, .. } => {
            if is_bool(cond, false) {
                p
            } else {
                p.push(f)
            }
        },
        _ => p.push(f),
    }
}

/// Folds the statements of a block in order, pruning constant branches and dead
/// loops, and dropping everything after a terminator.
pub open spec fn fold_stmts_spec(s: Seq<StmtModel>) -> Seq<StmtModel>
    decreases h_stmts(s), s.len() + 4,
{
    if s.len() == 0 {
        Seq::empty()
    } else {
        let p = fold_stmts_spec(s.drop_last());
        if ends_in_terminator(p) {
            p
        } else {
            prune_step(p, fold_stmt_spec(s.last()))
        }
    }
}

pub open spec fn fold_branches_spec(s: Seq<(ExprModel, BlockModel)>) -> Seq<(ExprModel, BlockModel)>
    decreases h_branches(s), s.len() + 4,
{
    if s.len() == 0 {
        Seq::empty()
    } else {
        fold_branches_spec(s.drop_last()).push(
            (fold_expr_spec(s.last().0), fold_block_spec(s.last().1)),
        )
    }
}

pub open spec fn fold_handlers_spec(s: Seq<HandlerModel>) -> Seq<HandlerModel>
    decreases h_handlers(s), s.len() + 4,
{
    if s.len() == 0 {
        Seq::empty()
    } else {
        let h = s.last();
        fold_handlers_spec(s.drop_last()).push(
            HandlerModel { ty: h.ty, binding: h.binding, body: fold_block_spec(h.body), span: h.span },
        )
    }
}

pub open spec fn fold_fn_spec(f: FnModel) -> FnModel
    decreases 1 + h_block(f.body), 2nat,
{
    FnModel {
        name: f.name,
        params: f.params,
        variadic: f.variadic,
        return_type: f.return_type,
        body: fold_block_spec(f.body),
        is_builtin: f.is_builtin,
        is_inline: f.is_inline,
        is_declaration: f.is_declaration,
        is_entry: f.is_entry,
        is_impure: f.is_impure,
        span: f.span,
    }
}

pub open spec fn fold_stmt_spec(st: StmtModel) -> StmtModel
    decreases h_stmt(st), 3nat,
{
    match st {
        StmtModel::VarDecl { name, ty, value, mutable, span } => StmtModel::VarDecl {
            name,
            ty,
            value: fold_expr_spec(value),
            mutable,
            span,
        },
        StmtModel::Assign { target, value, span } => StmtModel::Assign {
            target: fold_expr_spec(target),
            value: fold_expr_spec(value),
            span,
        },
        StmtModel::CompoundAssign { target, op, rhs, span } => StmtModel::CompoundAssign {
            target: fold_expr_spec(target),
            op,
            rhs: fold_expr_spec(rhs),
            span,
        },
        StmtModel::Return { value, span } => StmtModel::Return {
            value: match value {
                Some(v) => Some(fold_expr_spec(v)),
                None => None,
            },
            span,
        },
        StmtModel::Raise { value, span } => StmtModel::Raise {
            value: match value {
                Some(v) => Some(fold_expr_spec(v)),
                None => None,
            },
            span,
        },
        StmtModel::If { branches, else_branch, span } => StmtModel::If {
            branches: fold_branches_spec(branches),
            else_branch: match else_branch {
                Some(b) => Some(fold_block_spec(b)),
                None => None,
            },
            span,
        },
        StmtModel::While { cond, body, span } => StmtModel::While {
            cond: fold_expr_spec(cond),
            body: fold_block_spec(body),
            span,
        },
        StmtModel::DoWhile { body, cond, span } => StmtModel::DoWhile {
            body: fold_block_spec(body),
            cond: fold_expr_spec(cond),
            span,
        },
        StmtModel::For { binding, binding_ty, iterable, body, iter_ty, span } => StmtModel::For {
            binding,
            binding_ty,
            iterable: fold_expr_spec(iterable),
            body: fold_block_spec(body),
            iter_ty,
            span,
        },
        StmtModel::TryCatch { body, handlers, finally, span } => StmtModel::TryCatch {
            body: fold_block_spec(body),
            handlers: fold_handlers_spec(handlers),
            finally: match finally {
                Some(b) => Some(fold_block_spec(b)),
                None => None,
            },
            span,
        },
        StmtModel::FnDef(f) => StmtModel::FnDef(fold_fn_spec(f)),
        StmtModel::Expr(e) => StmtModel::Expr(fold_expr_spec(e)),
        StmtModel::Opaque(s) => StmtModel::Opaque(s),
    }
}

/// An integer arithmetic expression: integer literals combined with binary `+`, `-`,
/// `*`, `/`, `%` and unary `-`.
pub open spec fn int_arith(e: ExprModel) -> bool
    decreases e,
{
    match e.kind {
        KindModel::Int(_) => true,
        KindModel::BinOp { op, left, right } => (op == BinOp::Add || op == BinOp::Sub || op == BinOp::Mul
            || op == BinOp::Div || op == BinOp::Mod) && int_arith(*left) && int_arith(*right),
        KindModel::UnOp { op, operand } => op == UnOp::Neg && int_arith(*operand),
        _ => false,
    }
}

/// The value of an integer arithmetic expression in 64-bit arithmetic that wraps
/// around, as folding computes it. Division and remainder truncate toward zero; a
/// division by zero, which folding never performs, is given the dividend and a remainder
/// by zero is given 0, only so that every expression has a value.
pub open spec fn int_value(e: ExprModel) -> i64
    decreases e,
{
    match e.kind {
        KindModel::Int(n) => n,
        KindModel::BinOp { op, left, right } => {
            let a = int_value(*left);
            let b = int_value(*right);
            if op == BinOp::Add {
                a.wrapping_add(b)
            } else if op == BinOp::Sub {
                a.wrapping_sub(b)
            } else if op == BinOp::Mul {
                a.wrapping_mul(b)
            } else if op == BinOp::Div {
                div_wrapping(a, b)
            } else {
                rem_wrapping(a, b)
            }
        },
        KindModel::UnOp { operand, .. } => 0i64.wrapping_sub(int_value(*operand)),
        _ => 0,
    }
}

proof fn lemma_fold_binop_int(op: BinOp, l: ExprModel, r: ExprModel, ty: TyModel, span: Span)
    requires
        op == BinOp::Add || op == BinOp::Sub || op == BinOp::Mul || op == BinOp::Div || op == BinOp::Mod,
        int_arith(l),
        int_arith(r),
    ensures
        int_arith(fold_binop_spec(op, l, r, ty, span)),
        int_value(fold_binop_spec(op, l, r, ty, span)) == int_value(
            mk(KindModel::BinOp { op, left: Box::new(l), right: Box::new(r) }, ty, span),
        ),
{
    let a = int_value(l);
    let b = int_value(r);
    assert(!is_ident(l) && !is_ident(r));
    assert(!same_ident(l, r));
    assert(!is_float_zero(l) && !is_float_zero(r));
    assert(!is_float_one(l) && !is_float_one(r));
    if r.kind is UnOp {
        let x = int_value(*r.kind->UnOp_operand);
        assert(a.wrapping_add(x) == a.wrapping_sub(0i64.wrapping_sub(x)));
    }
    assert(a.wrapping_mul(1i64) == a) by (nonlinear_arith);
    assert(1i64.wrapping_mul(b) == b) by (nonlinear_arith);
    assert(a.wrapping_mul(0i64) == 0) by (nonlinear_arith);
    assert(0i64.wrapping_mul(b) == 0) by (nonlinear_arith);
    assert(a.wrapping_mul(-1i64) == 0i64.wrapping_sub(a)) by (nonlinear_arith);
    assert((-1i64).wrapping_mul(b) == 0i64.wrapping_sub(b)) by (nonlinear_arith);
    assert(div_wrapping(a, 1) == a) by (nonlinear_arith);
    assert(rem_wrapping(a, 1) == 0) by (nonlinear_arith);
}

proof fn lemma_fold_neg_int(x: ExprModel, ty: TyModel, span: Span)
    requires
        int_arith(x),
    ensures
        int_arith(fold_unop_spec(UnOp::Neg, x, ty, span)),
        int_value(fold_unop_spec(UnOp::Neg, x, ty, span)) == 0i64.wrapping_sub(int_value(x)),
{
    if x.kind is UnOp {
        let y = int_value(*x.kind->UnOp_operand);
        assert(0i64.wrapping_sub(0i64.wrapping_sub(y)) == y);
    }
    assert(!is_float_zero(x));
    assert(!(x.kind is Float));
}

/// Folding preserves the value of integer arithmetic, division and remainder included:
/// it turns such an expression into another one with the same value.
pub proof fn folding_preserves_int_value(e: ExprModel)
    requires
        int_arith(e),
    ensures
        int_arith(fold_expr_spec(e)),
        int_value(fold_expr_spec(e)) == int_value(e),
    decreases e,
{
    match e.kind {
        KindModel::Int(_) => {
            assert(fold_expr_spec(e) == e);
        },
        KindModel::BinOp { op, left, right } => {
            folding_preserves_int_value(*left);
            folding_preserves_int_value(*right);
            lemma_fold_binop_int(op, fold_expr_spec(*left), fold_expr_spec(*right), e.ty, e.span);
        },
        KindModel::UnOp { op, operand } => {
            folding_preserves_int_value(*operand);
            let x = fold_expr_spec(*operand);
            if h_expr(x) <= h_expr(*operand) {
                lemma_fold_neg_int(x, e.ty, e.span);
                assert(fold_expr_spec(e) == fold_unop_spec(op, x, e.ty, e.span));
            } else {
                assert(fold_expr_spec(e) == mk(KindModel::UnOp { op, operand: Box::new(x) }, e.ty, e.span));
            }
        },
        _ => {},
    }
}

/// The comparison operators on integers.
pub open spec fn is_comparison(op: BinOp) -> bool {
    op == BinOp::Eq || op == BinOp::Ne || op == BinOp::Lt || op == BinOp::LtEq || op == BinOp::Gt
        || op == BinOp::GtEq
}

/// What comparing integers `a` and `b` with `op` gives.
pub open spec fn compare_ints(op: BinOp, a: int, b: int) -> bool {
    if op == BinOp::Eq {
        a == b
    } else if op == BinOp::Ne {
        a != b
    } else if op == BinOp::Lt {
        a < b
    } else if op == BinOp::LtEq {
        a <= b
    } else if op == BinOp::Gt {
        a > b
    } else {
        a >= b
    }
}

/// Folding a comparison of two integer literals gives the boolean literal of that
/// comparison: `3 > 3` becomes `false`, `2 <= 5` becomes `true`.
pub proof fn folding_compares_integer_literals(op: BinOp, a: i64, b: i64, lsp: Span, rsp: Span, ty: TyModel, span: Span)
    requires
        is_comparison(op),
    ensures
        fold_expr_spec(
            mk(
                KindModel::BinOp {
                    op,
                    left: Box::new(mk(KindModel::Int(a), TyModel::Int, lsp)),
                    right: Box::new(mk(KindModel::Int(b), TyModel::Int, rsp)),
                },
                ty,
                span,
            ),
        ).kind == KindModel::Bool(compare_ints(op, a as int, b as int)),
{
    let l = mk(KindModel::Int(a), TyModel::Int, lsp);
    let r = mk(KindModel::Int(b), TyModel::Int, rsp);
    assert(fold_expr_spec(l) == l);
    assert(fold_expr_spec(r) == r);
    assert(!same_ident(l, r));
    assert(!is_bool(l, true) && !is_bool(l, false) && !is_bool(r, true) && !is_bool(r, false));
}

/// Folding keeps the truth of a comparison between integer arithmetic expressions: the
/// result is the boolean literal of the comparison of their values, or a comparison
/// by the same operator of two integer arithmetic expressions with the same values.
pub proof fn folding_preserves_comparisons(op: BinOp, l: ExprModel, r: ExprModel, ty: TyModel, span: Span)
    requires
        is_comparison(op),
        int_arith(l),
        int_arith(r),
    ensures
        ({
            let f = fold_expr_spec(mk(KindModel::BinOp { op, left: Box::new(l), right: Box::new(r) }, ty, span));
            ||| f.kind == KindModel::Bool(compare_ints(op, int_value(l) as int, int_value(r) as int))
            ||| (f.kind matches KindModel::BinOp { op: fop, left: fl, right: fr } && fop == op && int_arith(*fl)
                && int_arith(*fr) && int_value(*fl) == int_value(l) && int_value(*fr) == int_value(r))
        }),
{
    folding_preserves_int_value(l);
    folding_preserves_int_value(r);
    let fl = fold_expr_spec(l);
    let fr = fold_expr_spec(r);
    assert(!same_ident(fl, fr));
    assert(!is_bool(fl, true) && !is_bool(fl, false) && !is_bool(fr, true) && !is_bool(fr, false));
    assert(!is_float_zero(fl) && !is_float_zero(fr) && !is_float_one(fl) && !is_float_one(fr));
    assert(!is_ident(fl) && !is_ident(fr));
}


/// A boolean logic expression: boolean literals combined with `and`, `or` and `not`.
pub open spec fn bool_logic(e: ExprModel) -> bool
    decreases e,
{
    match e.kind {
        KindModel::Bool(_) => true,
        KindModel::BinOp { op, left, right } => (op == BinOp::And || op == BinOp::Or) && bool_logic(*left)
            && bool_logic(*right),
        KindModel::UnOp { op, operand } => op == UnOp::Not && bool_logic(*operand),
        _ => false,
    }
}

/// The truth value of a boolean logic expression.
pub open spec fn bool_value(e: ExprModel) -> bool
    decreases e,
{
    match e.kind {
        KindModel::Bool(b) => b,
        KindModel::BinOp { op, left, right } => if op == BinOp::And {
            bool_value(*left) && bool_value(*right)
        } else {
            bool_value(*left) || bool_value(*right)
        },
        KindModel::UnOp { operand, .. } => !bool_value(*operand),
        _ => false,
    }
}

proof fn lemma_fold_binop_bool(op: BinOp, l: ExprModel, r: ExprModel, ty: TyModel, span: Span)
    requires
        op == BinOp::And || op == BinOp::Or,
        bool_logic(l),
        bool_logic(r),
    ensures
        bool_logic(fold_binop_spec(op, l, r, ty, span)),
        bool_value(fold_binop_spec(op, l, r, ty, span)) == bool_value(
            mk(KindModel::BinOp { op, left: Box::new(l), right: Box::new(r) }, ty, span),
        ),
{
    assert(!is_ident(l) && !is_ident(r));
    assert(!same_ident(l, r));
    assert(!is_float_zero(l) && !is_float_zero(r));
    assert(!is_float_one(l) && !is_float_one(r));
    assert(!(l.kind is Int) && !(r.kind is Int));
    let orig = mk(KindModel::BinOp { op, left: Box::new(l), right: Box::new(r) }, ty, span);
    assert(bool_value(orig) == if op == BinOp::And {
        bool_value(l) && bool_value(r)
    } else {
        bool_value(l) || bool_value(r)
    });
    if l.kind is Bool {
        assert(bool_value(l) == l.kind->Bool_0);
    }
    if r.kind is Bool {
        assert(bool_value(r) == r.kind->Bool_0);
    }
}

/// Folding preserves the truth value of boolean logic: it turns such an expression into
/// another one with the same value (`true && !false` becomes `true`).
pub proof fn folding_preserves_bool_value(e: ExprModel)
    requires
        bool_logic(e),
    ensures
        bool_logic(fold_expr_spec(e)),
        bool_value(fold_expr_spec(e)) == bool_value(e),
    decreases h_expr(e),
{
    match e.kind {
        KindModel::Bool(_) => {
            assert(fold_expr_spec(e) == e);
        },
        KindModel::BinOp { op, left, right } => {
            folding_preserves_bool_value(*left);
            folding_preserves_bool_value(*right);
            lemma_fold_binop_bool(op, fold_expr_spec(*left), fold_expr_spec(*right), e.ty, e.span);
        },
        KindModel::UnOp { op, operand } => {
            folding_preserves_bool_value(*operand);
            let x = fold_expr_spec(*operand);
            if h_expr(x) <= h_expr(*operand) {
                assert(fold_expr_spec(e) == fold_unop_spec(op, x, e.ty, e.span));
                assert(!is_int(x, 0) && !is_float_zero(x));
                match x.kind {
                    KindModel::BinOp { op: xop, left: xl, right: xr } => {
                        let nl = not_of(*xl, TyModel::Bool, e.span);
                        let nr = not_of(*xr, TyModel::Bool, e.span);
                        assert(h_expr(nl) < h_expr(e));
                        assert(h_expr(nr) < h_expr(e));
                        folding_preserves_bool_value(nl);
                        folding_preserves_bool_value(nr);
                    },
                    _ => {},
                }
            } else {
                assert(fold_expr_spec(e) == mk(KindModel::UnOp { op, operand: Box::new(x) }, e.ty, e.span));
            }
        },
        _ => {},
    }
}

} // verus!
