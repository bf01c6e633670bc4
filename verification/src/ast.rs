use vstd::prelude::*;
use crate::span::Span;

verus! {

/// Binary operators of the surface language.
#[derive(Clone, Copy, Debug, PartialEq, Eq, Structural)]
pub enum BinOp {
    Add,
    Sub,
    Mul,
    Div,
    Mod,
    Eq,
    Ne,
    Lt,
    Gt,
    LtEq,
    GtEq,
    Spaceship,
    And,
    Or,
    /// String concatenation.
    Pipe,
}

/// Unary operators of the surface language.
#[derive(Clone, Copy, Debug, PartialEq, Eq, Structural)]
pub enum UnOp {
    Neg,
    Not,
    Pos,
}

/// The name of a hook: a named hook or an operator symbol.
#[derive(Debug)]
pub enum HookName {
    Named(String),
    Op(String),
}

/// A type as written in the source.
#[derive(Debug)]
pub enum TypeExpr {
    /// A named type with type arguments and associated-type bindings, e.g.
    /// `Iterable[int, Item=str]`.
    Named { name: String, generics: Vec<TypeExpr>, bindings: Vec<(String, TypeExpr)>, span: Span },
    Tuple(Vec<TypeExpr>, Span),
    Callable { params: Vec<TypeExpr>, ret: Box<TypeExpr>, span: Span },
    Union(Vec<TypeExpr>, Span),
    Ref { inner: Box<TypeExpr>, mutable: bool, span: Span },
    /// An associated-type projection `Base.Assoc`.
    Projection { base: String, assoc: String, span: Span },
    /// A type spliced in by a generator.
    GenSplice(Box<Expr>, Span),
}

/// The subset of surface expressions that the analyses in this crate inspect.
#[derive(Clone, Debug)]
pub enum Expr {
    Int(i64, Span),
    /// A float literal, held as its IEEE-754 bit pattern.
    Float(u64, Span),
    Bool(bool, Span),
    Str(String, Span),
    Ident(String, Span),
}

/// A surface block: a list of statements.
#[derive(Debug)]
pub struct Block {
    pub stmts: Vec<Stmt>,
    pub span: Span,
}

/// A `catch` clause of a surface `try` statement.
#[derive(Debug)]
pub struct CatchHandler {
    pub ty: String,
    pub binding: String,
    pub body: Block,
    pub span: Span,
}

/// Surface statements.
#[derive(Debug)]
pub enum Stmt {
    Return { value: Option<Expr>, span: Span },
    Raise { value: Option<Expr>, span: Span },
    If { branches: Vec<(Expr, Block)>, else_branch: Option<Block>, span: Span },
    While { cond: Expr, body: Block, span: Span },
    TryCatch { body: Block, handlers: Vec<CatchHandler>, finally: Option<Block>, span: Span },
    Break(Span),
    Continue(Span),
    Expr(Expr),
}

/// Surface match patterns.
#[derive(Debug)]
pub enum Pattern {
    Wildcard(Span),
    Literal(Expr),
    TypeBinding { ty: String, name: String, span: Span },
    InterfaceGuard { interface: String, name: String, span: Span },
    Struct { variant: String, fields: Vec<(String, String)>, span: Span },
    Tuple(Vec<Pattern>, Span),
}

/// One arm of a surface `match`.
#[derive(Debug)]
pub struct MatchArm {
    pub pattern: Pattern,
    pub guard: Option<Expr>,
    pub body: Expr,
    pub span: Span,
}

/// An annotation on a declaration, such as `@builtin`.
#[derive(Debug)]
pub struct Annotation {
    pub name: String,
    pub span: Span,
}

/// A parameter of a function or hook.
#[derive(Debug)]
pub struct Param {
    pub name: String,
    pub ty: TypeExpr,
    pub mutable: bool,
    pub span: Span,
}

/// What a generic parameter stands for.
#[derive(Debug)]
pub enum GenericParamKind {
    Type,
}

/// The declared variance of a generic parameter.
#[derive(Debug)]
pub enum Variance {
    Covariant,
    Contravariant,
    Invariant,
}

/// A generic parameter with its bounds.
#[derive(Debug)]
pub struct GenericParam {
    pub kind: GenericParamKind,
    pub name: String,
    pub variance: Variance,
    pub bounds: Vec<TypeExpr>,
    pub span: Span,
}

/// A struct field.
#[derive(Debug)]
pub struct Field {
    pub annotations: Vec<Annotation>,
    pub is_priv: bool,
    pub name: String,
    pub ty: TypeExpr,
    pub default: Option<Expr>,
    pub span: Span,
}

/// A function definition; a body without statements marks a required interface method.
#[derive(Debug)]
pub struct FnDef {
    pub annotations: Vec<Annotation>,
    pub name: String,
    pub generic_params: Vec<GenericParam>,
    pub params: Vec<Param>,
    pub variadic: Option<Param>,
    pub return_type: TypeExpr,
    pub throws: bool,
    pub body: Block,
    pub is_declaration: bool,
    pub span: Span,
}

/// A hook definition inside an impl block.
#[derive(Debug)]
pub struct HookDef {
    pub annotations: Vec<Annotation>,
    pub name: HookName,
    pub params: Vec<Param>,
    pub return_type: Option<TypeExpr>,
    pub body: Block,
    pub span: Span,
}

/// What an interface declares.
#[derive(Debug)]
pub enum InterfaceItemKind {
    /// A field that conforming structs must have.
    Field { name: String, ty: TypeExpr },
    /// A hook; one without a default must be provided.
    Hook {
        annotations: Vec<Annotation>,
        name: HookName,
        params: Vec<Param>,
        return_type: Option<TypeExpr>,
        default: Option<Block>,
    },
    /// A method; one whose body has no statements must be provided.
    Method(FnDef),
    /// An associated type that each impl chooses.
    AssocType { name: String, bounds: Vec<TypeExpr> },
}

/// One item of an interface.
#[derive(Debug)]
pub struct InterfaceItem {
    pub kind: InterfaceItemKind,
    pub span: Span,
}

/// An interface definition.
#[derive(Debug)]
pub struct InterfaceDef {
    pub name: String,
    pub generic_params: Vec<GenericParam>,
    pub extends: Vec<TypeExpr>,
    pub items: Vec<InterfaceItem>,
    pub span: Span,
}

/// A struct definition.
#[derive(Debug)]
pub struct StructDef {
    pub annotations: Vec<Annotation>,
    pub is_builtin: bool,
    pub name: String,
    pub generic_params: Vec<GenericParam>,
    pub interfaces: Vec<TypeExpr>,
    pub fields: Vec<Field>,
    pub methods: Vec<FnDef>,
    pub decls: Vec<FnDef>,
    pub inline_hooks: Vec<HookDef>,
    pub span: Span,
}

/// A variant of an enum.
#[derive(Debug)]
pub struct EnumVariant {
    pub name: String,
    pub fields: Vec<Field>,
    pub span: Span,
}

/// An enum definition.
#[derive(Debug)]
pub struct EnumDef {
    pub annotations: Vec<Annotation>,
    pub name: String,
    pub generic_params: Vec<GenericParam>,
    pub interfaces: Vec<TypeExpr>,
    pub variants: Vec<EnumVariant>,
    pub methods: Vec<FnDef>,
    pub span: Span,
}

/// How an impl block was written.
#[derive(Clone, Copy, Debug, PartialEq, Eq, Structural)]
pub enum ImplKind {
    Plain,
}

/// An `impl Interface for Type` block.
#[derive(Debug)]
pub struct ImplBlock {
    pub self_alias: Option<String>,
    pub generic_params: Vec<GenericParam>,
    pub interface: TypeExpr,
    pub for_type: TypeExpr,
    pub methods: Vec<FnDef>,
    pub hooks: Vec<HookDef>,
    pub assoc_bindings: Vec<(String, TypeExpr)>,
    pub kind: ImplKind,
    pub span: Span,
}

/// A type alias `type Name = Type`.
#[derive(Debug)]
pub struct TypeAliasDef {
    pub name: String,
    pub ty: TypeExpr,
    pub span: Span,
}

/// An `import a.b.c` declaration.
#[derive(Debug)]
pub struct ImportDecl {
    pub path: Vec<String>,
    pub span: Span,
}

/// A top-level item of a source file.
#[derive(Debug)]
pub enum Item {
    Struct(StructDef),
    Enum(EnumDef),
    Interface(InterfaceDef),
    TypeAlias(TypeAliasDef),
    Function(FnDef),
    Impl(ImplBlock),
    Import(ImportDecl),
}

/// A parsed source file.
#[derive(Debug)]
pub struct SourceFile {
    pub items: Vec<Item>,
    pub span: Span,
}

} // verus!
