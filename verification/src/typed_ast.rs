use vstd::prelude::*;
use crate::span::Span;
use crate::ast::{BinOp, HookName, UnOp};
use crate::ty::Ty;
use crate::env::GenericBound;

verus! {

/// A piece of a string literal: literal text or an interpolated expression.
#[derive(Debug)]
pub enum TypedStringSegment {
    Text(String),
    Interp(TypedExpr),
}

/// A function or closure parameter after type resolution.
#[derive(Debug)]
pub struct TypedParam {
    pub name: String,
    pub ty: Ty,
    pub mutable: bool,
    pub span: Span,
}

/// The body of a closure: a single expression or a block.
#[derive(Debug)]
pub enum TypedClosureBody {
    Expr(Box<TypedExpr>),
    Block(TypedBlock),
}

/// A match pattern after type resolution.
#[derive(Debug)]
pub enum TypedPattern {
    Wildcard(Span),
    Literal(TypedExpr),
    TypeBinding { ty: String, name: String, span: Span },
    InterfaceGuard { interface: String, name: String, span: Span },
    Struct { variant: String, fields: Vec<(String, String)>, has_rest: bool, span: Span },
    Tuple(Vec<TypedPattern>, Span),
}

/// One arm of a typed `match`.
#[derive(Debug)]
pub struct TypedMatchArm {
    pub pattern: TypedPattern,
    pub guard: Option<TypedExpr>,
    pub body: TypedExpr,
    /// The enum discriminant this arm narrows the scrutinee to, when known.
    pub narrowed_discriminant: Option<i64>,
    pub span: Span,
}

/// Typed expressions.
#[derive(Debug)]
pub enum TypedExprKind {
    Int(i64),
    /// A float literal, held as its IEEE-754 bit pattern.
    Float(u64),
    Bool(bool),
    Str(Vec<TypedStringSegment>),
    Ident(String),
    BinOp { op: BinOp, left: Box<TypedExpr>, right: Box<TypedExpr> },
    UnOp { op: UnOp, operand: Box<TypedExpr> },
    Call {
        callee: Box<TypedExpr>,
        args: Vec<TypedExpr>,
        fn_name: String,
        generic_bounds: Vec<GenericBound>,
        generic_params: Vec<String>,
        param_tys: Vec<Ty>,
    },
    MethodCall { object: Box<TypedExpr>, method_fn: String, args: Vec<TypedExpr> },
    StaticCall { method_fn: String, args: Vec<TypedExpr> },
    IndirectCall { fat_ptr: Box<TypedExpr>, args: Vec<TypedExpr> },
    Field { object: Box<TypedExpr>, field: String },
    Index { object: Box<TypedExpr>, index: Box<TypedExpr> },
    Tuple(Vec<TypedExpr>),
    StructLiteral { ty_name: String, fields: Vec<(String, TypedExpr)> },
    EnumVariant { enum_name: String, variant: String, discriminant: i64 },
    Unwrap(Box<TypedExpr>),
    As { expr: Box<TypedExpr>, ty: Ty },
    Match { scrutinee: Box<TypedExpr>, arms: Vec<TypedMatchArm> },
    Closure { params: Vec<TypedParam>, body: TypedClosureBody },
    Spawn(Box<TypedExpr>),
    Ref { mutable: bool, expr: Box<TypedExpr> },
    Array(Vec<TypedExpr>),
    Gen { body: TypedBlock },
    GenSplice(Box<TypedExpr>),
    Block(Vec<TypedStmt>),
    BoundMethod { object: Box<TypedExpr>, qualified_name: String },
    PrimTypeRef { target: Ty },
    Try(Box<TypedExpr>),
    Ignore(Box<TypedExpr>),
    Implements { expr: Box<TypedExpr>, iface_name: String },
    TypeName { expr: Box<TypedExpr> },
}

/// A typed expression with its type and source span.
#[derive(Debug)]
pub struct TypedExpr {
    pub kind: TypedExprKind,
    pub ty: Ty,
    pub span: Span,
}

/// A typed block of statements.
#[derive(Debug)]
pub struct TypedBlock {
    pub stmts: Vec<TypedStmt>,
    pub span: Span,
}

/// A typed `catch` clause.
#[derive(Debug)]
pub struct TypedCatchHandler {
    pub ty: Ty,
    pub binding: String,
    pub body: TypedBlock,
    pub span: Span,
}

/// Typed statements.
#[derive(Debug)]
pub enum TypedStmt {
    VarDecl { name: String, ty: Ty, value: TypedExpr, mutable: bool, span: Span },
    Assign { target: TypedExpr, value: TypedExpr, span: Span },
    CompoundAssign { target: TypedExpr, op: BinOp, rhs: TypedExpr, span: Span },
    Return { value: Option<TypedExpr>, span: Span },
    Raise { value: Option<TypedExpr>, span: Span },
    Abandon { message: Option<TypedExpr>, span: Span },
    Break(Span),
    Continue(Span),
    If { branches: Vec<(TypedExpr, TypedBlock)>, else_branch: Option<TypedBlock>, span: Span },
    While { cond: TypedExpr, body: TypedBlock, span: Span },
    DoWhile { body: TypedBlock, cond: TypedExpr, span: Span },
    For {
        binding: String,
        binding_ty: Ty,
        iterable: TypedExpr,
        body: TypedBlock,
        iter_ty: Option<Ty>,
        span: Span,
    },
    TryCatch {
        body: TypedBlock,
        handlers: Vec<TypedCatchHandler>,
        finally: Option<TypedBlock>,
        span: Span,
    },
    FnDef(TypedFnDef),
    Expr(TypedExpr),
}

/// A typed function definition.
#[derive(Debug)]
pub struct TypedFnDef {
    pub name: String,
    pub params: Vec<TypedParam>,
    pub variadic: Option<TypedParam>,
    pub return_type: Ty,
    pub body: TypedBlock,
    pub is_builtin: bool,
    pub is_inline: bool,
    pub is_declaration: bool,
    pub is_entry: bool,
    pub is_impure: bool,
    pub span: Span,
}

/// A typed hook (operator or named hook) inside an impl block.
#[derive(Debug)]
pub struct TypedHookDef {
    pub is_static: bool,
    pub is_impure: bool,
    pub name: HookName,
    pub params: Vec<TypedParam>,
    pub return_type: Ty,
    pub body: TypedBlock,
    pub span: Span,
}

/// A typed `impl` block.
#[derive(Debug)]
pub struct TypedImplBlock {
    pub interface: String,
    pub for_type: String,
    pub for_type_ty: Ty,
    pub methods: Vec<TypedFnDef>,
    pub hooks: Vec<TypedHookDef>,
    pub span: Span,
}

/// A typed global variable.
#[derive(Debug)]
pub struct TypedGlobalVar {
    pub name: String,
    pub ty: Ty,
    pub init: TypedExpr,
    pub mutable: bool,
    pub span: Span,
}

/// A typed compile-time constant.
#[derive(Debug)]
pub struct TypedConst {
    pub name: String,
    pub ty: Ty,
    pub value: TypedExprKind,
    pub span: Span,
}

/// A typed struct field declaration.
#[derive(Debug)]
pub struct TypedField {
    pub name: String,
    pub ty: Ty,
    pub span: Span,
}

/// A typed struct declaration.
#[derive(Debug)]
pub struct TypedStructDef {
    pub name: String,
    pub is_builtin: bool,
    pub fields: Vec<TypedField>,
    pub span: Span,
}

/// One variant of a typed enum declaration.
#[derive(Debug)]
pub struct TypedEnumVariant {
    pub name: String,
    pub fields: Vec<Ty>,
    pub span: Span,
}

/// A typed enum declaration.
#[derive(Debug)]
pub struct TypedEnumDef {
    pub name: String,
    pub variants: Vec<TypedEnumVariant>,
    pub span: Span,
}

/// A method signature of a typed interface declaration.
#[derive(Debug)]
pub struct TypedInterfaceMethod {
    pub name: String,
    pub params: Vec<TypedParam>,
    pub return_type: Ty,
    pub span: Span,
}

/// A typed interface declaration.
#[derive(Debug)]
pub struct TypedInterfaceDef {
    pub name: String,
    pub methods: Vec<TypedInterfaceMethod>,
    pub span: Span,
}

/// A typed top-level item.
#[derive(Debug)]
pub enum TypedItem {
    Function(TypedFnDef),
    ImplBlock(TypedImplBlock),
    Global(TypedGlobalVar),
    Const(TypedConst),
    Struct(TypedStructDef),
    Enum(TypedEnumDef),
    Interface(TypedInterfaceDef),
}

/// A typed source file.
#[derive(Debug)]
pub struct TypedFile {
    pub items: Vec<TypedItem>,
    pub span: Span,
}

} // verus!
