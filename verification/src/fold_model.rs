use vstd::prelude::*;
use crate::span::Span;
use crate::ast::{BinOp, UnOp};
use crate::ty::{Ty, TyModel, ty_model};
use crate::env::GenericBound;
use crate::typed_ast::{
    TypedBlock, TypedCatchHandler, TypedClosureBody, TypedExpr, TypedExprKind, TypedFnDef,
    TypedMatchArm, TypedParam, TypedPattern, TypedStmt, TypedStringSegment,
};

verus! {

// The mathematical model of typed syntax trees used to state what constant folding
// does. Lists of subtrees become sequences of models; everything that folding never
// rewrites is kept as it is.

/// Model of a string-literal segment; literal text is kept as its characters.
pub enum SegModel {
    Text(Seq<char>),
    Interp(ExprModel),
}

/// Model of a typed expression.
pub struct ExprModel {
    pub kind: KindModel,
    pub ty: TyModel,
    pub span: Span,
}

/// Model of the kind of a typed expression.
pub enum KindModel {
    Int(i64),
    Float(u64),
    Bool(bool),
    Str(Seq<SegModel>),
    Ident(String),
    BinOp { op: BinOp, left: Box<ExprModel>, right: Box<ExprModel> },
    UnOp { op: UnOp, operand: Box<ExprModel> },
    Call {
        callee: Box<ExprModel>,
        args: Seq<ExprModel>,
        fn_name: String,
        generic_bounds: Vec<GenericBound>,
        generic_params: Vec<String>,
        param_tys: Vec<Ty>,
    },
    MethodCall { object: Box<ExprModel>, method_fn: String, args: Seq<ExprModel> },
    StaticCall { method_fn: String, args: Seq<ExprModel> },
    IndirectCall { fat_ptr: Box<ExprModel>, args: Seq<ExprModel> },
    Field { object: Box<ExprModel>, field: String },
    Index { object: Box<ExprModel>, index: Box<ExprModel> },
    Tuple(Seq<ExprModel>),
    StructLiteral { ty_name: String, fields: Seq<(String, ExprModel)> },
    Unwrap(Box<ExprModel>),
    As { expr: Box<ExprModel>, ty: TyModel },
    Match { scrutinee: Box<ExprModel>, arms: Seq<ArmModel> },
    Closure { params: Vec<TypedParam>, body: BodyModel },
    Spawn(Box<ExprModel>),
    Ref { mutable: bool, expr: Box<ExprModel> },
    Array(Seq<ExprModel>),
    Gen { body: BlockModel },
    GenSplice(Box<ExprModel>),
    /// A kind that folding leaves untouched, kept as it is.
    Opaque(TypedExprKind),
}

/// Model of a match arm.
pub struct ArmModel {
    pub pattern: TypedPattern,
    pub guard: Option<ExprModel>,
    pub body: ExprModel,
    pub narrowed_discriminant: Option<i64>,
    pub span: Span,
}

/// Model of a closure body.
pub enum BodyModel {
    Expr(Box<ExprModel>),
    Block(BlockModel),
}

/// Model of a block.
pub struct BlockModel {
    pub stmts: Seq<StmtModel>,
    pub span: Span,
}

/// Model of a catch handler.
pub struct HandlerModel {
    pub ty: Ty,
    pub binding: String,
    pub body: BlockModel,
    pub span: Span,
}

/// Model of a function definition.
pub struct FnModel {
    pub name: String,
    pub params: Vec<TypedParam>,
    pub variadic: Option<TypedParam>,
    pub return_type: Ty,
    pub body: BlockModel,
    pub is_builtin: bool,
    pub is_inline: bool,
    pub is_declaration: bool,
    pub is_entry: bool,
    pub is_impure: bool,
    pub span: Span,
}

/// Model of a statement.
pub enum StmtModel {
    VarDecl { name: String, ty: Ty, value: ExprModel, mutable: bool, span: Span },
    Assign { target: ExprModel, value: ExprModel, span: Span },
    CompoundAssign { target: ExprModel, op: BinOp, rhs: ExprModel, span: Span },
    Return { value: Option<ExprModel>, span: Span },
    Raise { value: Option<ExprModel>, span: Span },
    If { branches: Seq<(ExprModel, BlockModel)>, else_branch: Option<BlockModel>, span: Span },
    While { cond: ExprModel, body: BlockModel, span: Span },
    DoWhile { body: BlockModel, cond: ExprModel, span: Span },
    For {
        binding: String,
        binding_ty: Ty,
        iterable: ExprModel,
        body: BlockModel,
        iter_ty: Option<Ty>,
        span: Span,
    },
    TryCatch {
        body: BlockModel,
        handlers: Seq<HandlerModel>,
        finally: Option<BlockModel>,
        span: Span,
    },
    FnDef(FnModel),
    Expr(ExprModel),
    /// A statement that folding leaves untouched, kept as it is.
    Opaque(TypedStmt),
}

// ---------------------------------------------------------------------------
// From syntax to model
// ---------------------------------------------------------------------------

pub open spec fn expr_model(e: TypedExpr) -> ExprModel
    decreases e, 1nat,
{
    ExprModel { kind: kind_model(e.kind), ty: ty_model(e.ty), span: e.span }
}

pub open spec fn exprs_model(s: Seq<TypedExpr>) -> Seq<ExprModel>
    decreases s, 0nat,
{
    if s.len() == 0 {
        Seq::empty()
    } else {
        exprs_model(s.drop_last()).push(expr_model(s.last()))
    }
}

pub open spec fn fields_model(s: Seq<(String, TypedExpr)>) -> Seq<(String, ExprModel)>
    decreases s, 0nat,
{
    if s.len() == 0 {
        Seq::empty()
    } else {
        fields_model(s.drop_last()).push((s.last().0, expr_model(s.last().1)))
    }
}

pub open spec fn seg_model(g: TypedStringSegment) -> SegModel
    decreases g, 0nat,
{
    match g {
        TypedStringSegment::Text(t) => SegModel::Text(t@),
        TypedStringSegment::Interp(e) => SegModel::Interp(expr_model(e)),
    }
}

pub open spec fn segs_model(s: Seq<TypedStringSegment>) -> Seq<SegModel>
    decreases s, 0nat,
{
    if s.len() == 0 {
        Seq::empty()
    } else {
        segs_model(s.drop_last()).push(seg_model(s.last()))
    }
}

pub open spec fn arm_model(a: TypedMatchArm) -> ArmModel
    decreases a, 0nat,
{
    ArmModel {
        pattern: a.pattern,
        guard: match a.guard {
            Some(g) => Some(expr_model(g)),
            None => None,
        },
        body: expr_model(a.body),
        narrowed_discriminant: a.narrowed_discriminant,
        span: a.span,
    }
}

pub open spec fn arms_model(s: Seq<TypedMatchArm>) -> Seq<ArmModel>
    decreases s, 0nat,
{
    if s.len() == 0 {
        Seq::empty()
    } else {
        arms_model(s.drop_last()).push(arm_model(s.last()))
    }
}

pub open spec fn kind_model(k: TypedExprKind) -> KindModel
    decreases k, 0nat,
{
    match k {
        TypedExprKind::Int(n) => KindModel::Int(n),
        TypedExprKind::Float(f) => KindModel::Float(f),
        TypedExprKind::Bool(b) => KindModel::Bool(b),
        TypedExprKind::Str(segs) => KindModel::Str(segs_model(segs@)),
        TypedExprKind::Ident(n) => KindModel::Ident(n),
        TypedExprKind::BinOp { op, left, right } => KindModel::BinOp {
            op,
            left: Box::new(expr_model(*left)),
            right: Box::new(expr_model(*right)),
        },
        TypedExprKind::UnOp { op, operand } => KindModel::UnOp {
            op,
            operand: Box::new(expr_model(*operand)),
        },
        TypedExprKind::Call { callee, args, fn_name, generic_bounds, generic_params, param_tys } => {
            KindModel::Call {
                callee: Box::new(expr_model(*callee)),
                args: exprs_model(args@),
                fn_name,
                generic_bounds,
                generic_params,
                param_tys,
            }
        },
        TypedExprKind::MethodCall { object, method_fn, args } => KindModel::MethodCall {
            object: Box::new(expr_model(*object)),
            method_fn,
            args: exprs_model(args@),
        },
        TypedExprKind::StaticCall { method_fn, args } => KindModel::StaticCall {
            method_fn,
            args: exprs_model(args@),
        },
        TypedExprKind::IndirectCall { fat_ptr, args } => KindModel::IndirectCall {
            fat_ptr: Box::new(expr_model(*fat_ptr)),
            args: exprs_model(args@),
        },
        TypedExprKind::Field { object, field } => KindModel::Field {
            object: Box::new(expr_model(*object)),
            field,
        },
        TypedExprKind::Index { object, index } => KindModel::Index {
            object: Box::new(expr_model(*object)),
            index: Box::new(expr_model(*index)),
        },
        TypedExprKind::Tuple(es) => KindModel::Tuple(exprs_model(es@)),
        TypedExprKind::StructLiteral { ty_name, fields } => KindModel::StructLiteral {
            ty_name,
            fields: fields_model(fields@),
        },
        TypedExprKind::Unwrap(e) => KindModel::Unwrap(Box::new(expr_model(*e))),
        TypedExprKind::As { expr, ty } => KindModel::As {
            expr: Box::new(expr_model(*expr)),
            ty: ty_model(ty),
        },
        TypedExprKind::Match { scrutinee, arms } => KindModel::Match {
            scrutinee: Box::new(expr_model(*scrutinee)),
            arms: arms_model(arms@),
        },
        TypedExprKind::Closure { params, body } => KindModel::Closure {
            params,
            body: match body {
                TypedClosureBody::Expr(e) => BodyModel::Expr(Box::new(expr_model(*e))),
                TypedClosureBody::Block(b) => BodyModel::Block(block_model(b)),
            },
        },
        TypedExprKind::Spawn(e) => KindModel::Spawn(Box::new(expr_model(*e))),
        TypedExprKind::Ref { mutable, expr } => KindModel::Ref {
            mutable,
            expr: Box::new(expr_model(*expr)),
        },
        TypedExprKind::Array(es) => KindModel::Array(exprs_model(es@)),
        TypedExprKind::Gen { body } => KindModel::Gen { body: block_model(body) },
        TypedExprKind::GenSplice(e) => KindModel::GenSplice(Box::new(expr_model(*e))),
        other => KindModel::Opaque(other),
    }
}

pub open spec fn block_model(b: TypedBlock) -> BlockModel
    decreases b, 1nat,
{
    BlockModel { stmts: stmts_model(b.stmts@), span: b.span }
}

pub open spec fn stmts_model(s: Seq<TypedStmt>) -> Seq<StmtModel>
    decreases s, 0nat,
{
    if s.len() == 0 {
        Seq::empty()
    } else {
        stmts_model(s.drop_last()).push(stmt_model(s.last()))
    }
}

pub open spec fn branches_model(s: Seq<(TypedExpr, TypedBlock)>) -> Seq<(ExprModel, BlockModel)>
    decreases s, 0nat,
{
    if s.len() == 0 {
        Seq::empty()
    } else {
        branches_model(s.drop_last()).push((expr_model(s.last().0), block_model(s.last().1)))
    }
}

pub open spec fn handlers_model(s: Seq<TypedCatchHandler>) -> Seq<HandlerModel>
    decreases s, 0nat,
{
    if s.len() == 0 {
        Seq::empty()
    } else {
        let h = s.last();
        handlers_model(s.drop_last()).push(
            HandlerModel { ty: h.ty, binding: h.binding, body: block_model(h.body), span: h.span },
        )
    }
}

pub open spec fn fn_model(f: TypedFnDef) -> FnModel
    decreases f, 0nat,
{
    FnModel {
        name: f.name,
        params: f.params,
        variadic: f.variadic,
        return_type: f.return_type,
        body: block_model(f.body),
        is_builtin: f.is_builtin,
        is_inline: f.is_inline,
        is_declaration: f.is_declaration,
        is_entry: f.is_entry,
        is_impure: f.is_impure,
        span: f.span,
    }
}

pub open spec fn opt_expr_model(e: Option<TypedExpr>) -> Option<ExprModel>
    decreases e, 0nat,
{
    match e {
        Some(x) => Some(expr_model(x)),
        None => None,
    }
}

pub open spec fn opt_block_model(b: Option<TypedBlock>) -> Option<BlockModel>
    decreases b, 0nat,
{
    match b {
        Some(x) => Some(block_model(x)),
        None => None,
    }
}

pub open spec fn stmt_model(st: TypedStmt) -> StmtModel
    decreases st, 0nat,
{
    match st {
        TypedStmt::VarDecl { name, ty, value, mutable, span } => StmtModel::VarDecl {
            name,
            ty,
            value: expr_model(value),
            mutable,
            span,
        },
        TypedStmt::Assign { target, value, span } => StmtModel::Assign {
            target: expr_model(target),
            value: expr_model(value),
            span,
        },
        TypedStmt::CompoundAssign { target, op, rhs, span } => StmtModel::CompoundAssign {
            target: expr_model(target),
            op,
            rhs: expr_model(rhs),
            span,
        },
        TypedStmt::Return { value, span } => StmtModel::Return { value: opt_expr_model(value), span },
        TypedStmt::Raise { value, span } => StmtModel::Raise { value: opt_expr_model(value), span },
        TypedStmt::If { branches, else_branch, span } => StmtModel::If {
            branches: branches_model(branches@),
            else_branch: opt_block_model(else_branch),
            span,
        },
        TypedStmt::While { cond, body, span } => StmtModel::While {
            cond: expr_model(cond),
            body: block_model(body),
            span,
        },
        TypedStmt::DoWhile { body, cond, span } => StmtModel::DoWhile {
            body: block_model(body),
            cond: expr_model(cond),
            span,
        },
        TypedStmt::For { binding, binding_ty, iterable, body, iter_ty, span } => StmtModel::For {
            binding,
            binding_ty,
            iterable: expr_model(iterable),
            body: block_model(body),
            iter_ty,
            span,
        },
        TypedStmt::TryCatch { body, handlers, finally, span } => StmtModel::TryCatch {
            body: block_model(body),
            handlers: handlers_model(handlers@),
            finally: opt_block_model(finally),
            span,
        },
        TypedStmt::FnDef(f) => StmtModel::FnDef(fn_model(f)),
        TypedStmt::Expr(e) => StmtModel::Expr(expr_model(e)),
        other => StmtModel::Opaque(other),
    }
}

} // verus!
