//! Syntax trees as the parser builds them.
use crate::token::Span;
use vstd::prelude::*;

verus! {

/// How far an item or a field can be seen.
#[derive(Debug, Clone, Copy, PartialEq, Eq, Structural)]
pub enum Visibility {
    Private,
    Pub,
    PubPackage,
}

/// The build target that a `#target(...)` block is for.
#[derive(Debug, Clone, Copy, PartialEq, Eq, Structural)]
pub enum TargetKind {
    Native,
    Wasm,
    All,
}

/// The ownership modifier in front of a parameter name.
#[derive(Debug, Clone, Copy, PartialEq, Eq, Structural)]
pub enum OwnershipMod {
    Plain,
    Borrow,
    BorrowMut,
    Move,
}

/// Prefix operators that have a node of their own.
#[derive(Debug, Clone, Copy, PartialEq, Eq, Structural)]
pub enum UnaryOp {
    Not,
    BitNot,
    Neg,
}

/// Binary operators other than assignment and ranges.
#[derive(Debug, Clone, Copy, PartialEq, Eq, Structural)]
pub enum BinaryOp {
    Add,
    Sub,
    Mul,
    Div,
    Mod,
    Pow,
    EqEq,
    NotEq,
    Lt,
    Gt,
    LtEq,
    GtEq,
    AndAnd,
    OrOr,
    BitAnd,
    BitOr,
    BitXor,
    Shl,
    Shr,
    Coalesce,
}

/// Plain and compound assignment.
#[derive(Debug, Clone, Copy, PartialEq, Eq, Structural)]
pub enum AssignOp {
    Eq,
    PlusEq,
    MinusEq,
    StarEq,
    SlashEq,
    PercentEq,
    AmpEq,
    PipeEq,
    CaretEq,
    ShlEq,
    ShrEq,
}

/// The generic parameters of a declaration, in order.
#[derive(Debug, PartialEq)]
pub struct GenericParams(pub Vec<GenericParam>);

/// The bounds of a `where` clause, in order.
#[derive(Debug, PartialEq)]
pub struct WhereClause(pub Vec<WhereBound>);

/// A parsed source file.
#[derive(Debug, PartialEq)]
pub struct Program {
    pub items: Vec<Item>,
}

/// A declaration, with its attributes and visibility.
#[derive(Debug, PartialEq)]
pub struct Item {
    pub attrs: Vec<Attribute>,
    pub visibility: Visibility,
    pub kind: ItemKind,
    pub span: Span,
}

/// `@name(args)` in front of an item.
#[derive(Debug, PartialEq)]
pub struct Attribute {
    pub name: String,
    pub args: Vec<Expr>,
}

/// What an item declares.
#[derive(Debug, PartialEq)]
pub enum ItemKind {
    Fn(FnDecl),
    Struct(StructDecl),
    Enum(EnumDecl),
    Trait(TraitDecl),
    Impl(ImplDecl),
    Mod(ModDecl),
    Use(UsePath),
    Import(Vec<String>),
    Const(ConstDecl),
    Static(StaticDecl),
    TypeAlias(TypeAliasDecl),
    Table(TableDecl),
    Index(IndexDecl),
    Schema(SchemaDecl),
    Ui(UiDecl),
    Component(UiDecl),
    Server(ServerDecl),
    Actor(ActorDecl),
    TargetBlock(TargetKind, Vec<Item>),
}

/// A type parameter with its bounds, or a const parameter with its type.
#[derive(Debug, PartialEq)]
pub enum GenericParam {
    Type { name: String, bounds: Vec<TraitBound> },
    Const { name: String, ty: Type },
}

/// A trait named in a bound.
#[derive(Debug, PartialEq)]
pub struct TraitBound {
    pub name: String,
    pub args: Vec<Type>,
}

/// One `name: bounds` of a `where` clause.
#[derive(Debug, PartialEq)]
pub struct WhereBound {
    pub name: String,
    pub bounds: Vec<TraitBound>,
}

/// A function; `body` is absent for a bare signature.
#[derive(Debug, PartialEq)]
pub struct FnDecl {
    pub is_async: bool,
    pub name: String,
    pub generics: GenericParams,
    pub params: Vec<Param>,
    pub return_type: Option<Type>,
    pub where_clause: WhereClause,
    pub body: Option<Block>,
}

/// A parameter; a receiver has the name `self` and the unit type.
#[derive(Debug, PartialEq)]
pub struct Param {
    pub ownership: OwnershipMod,
    pub name: String,
    pub is_variadic: bool,
    pub ty: Type,
    pub default: Option<Expr>,
}

/// A struct.
#[derive(Debug, PartialEq)]
pub struct StructDecl {
    pub name: String,
    pub generics: GenericParams,
    pub body: StructBody,
}

/// The three shapes of a struct body.
#[derive(Debug, PartialEq)]
pub enum StructBody {
    Unit,
    Tuple(Vec<Type>),
    Named(Vec<FieldDecl>),
}

/// A named field.
#[derive(Debug, PartialEq)]
pub struct FieldDecl {
    pub visibility: Visibility,
    pub name: String,
    pub ty: Type,
}

/// An enum.
#[derive(Debug, PartialEq)]
pub struct EnumDecl {
    pub name: String,
    pub generics: GenericParams,
    pub variants: Vec<EnumVariant>,
}

/// A variant and the types that it carries.
#[derive(Debug, PartialEq)]
pub struct EnumVariant {
    pub name: String,
    pub data: Vec<Type>,
}

/// A trait.
#[derive(Debug, PartialEq)]
pub struct TraitDecl {
    pub name: String,
    pub generics: GenericParams,
    pub items: Vec<TraitItem>,
}

/// What a trait declares.
#[derive(Debug, PartialEq)]
pub enum TraitItem {
    AssocType(String),
    Fn(FnDecl),
}

/// A type or trait name in an `impl` header.
#[derive(Debug, PartialEq)]
pub struct TypeRef {
    pub name: String,
    pub args: Vec<Type>,
}

/// An `impl` block, inherent when `trait_ref` is absent.
#[derive(Debug, PartialEq)]
pub struct ImplDecl {
    pub generics: GenericParams,
    pub trait_ref: Option<TypeRef>,
    pub target: TypeRef,
    pub where_clause: WhereClause,
    pub items: Vec<ImplItem>,
}

/// What an `impl` block provides.
#[derive(Debug, PartialEq)]
pub enum ImplItem {
    AssocType(String, Type),
    Fn(FnDecl),
}

/// An inline module.
#[derive(Debug, PartialEq)]
pub struct ModDecl {
    pub name: String,
    pub items: Vec<Item>,
}

/// `use a::b::{x, y};`
#[derive(Debug, PartialEq)]
pub struct UsePath {
    pub path: Vec<String>,
    pub items: Vec<String>,
}

/// A constant.
#[derive(Debug, PartialEq)]
pub struct ConstDecl {
    pub name: String,
    pub ty: Type,
    pub value: Expr,
}

/// A static.
#[derive(Debug, PartialEq)]
pub struct StaticDecl {
    pub name: String,
    pub ty: Type,
    pub value: Expr,
}

/// A type alias.
#[derive(Debug, PartialEq)]
pub struct TypeAliasDecl {
    pub name: String,
    pub generics: GenericParams,
    pub ty: Type,
}

/// A database table.
#[derive(Debug, PartialEq)]
pub struct TableDecl {
    pub name: String,
    pub fields: Vec<TableField>,
}

/// A column and its constraints.
#[derive(Debug, PartialEq)]
pub struct TableField {
    pub name: String,
    pub ty: Type,
    pub constraints: Vec<FieldConstraint>,
}

/// A column constraint.
#[derive(Debug, PartialEq)]
pub enum FieldConstraint {
    PrimaryKey,
    AutoIncrement,
    Unique,
    NotNull,
    Default(Expr),
}

/// A database index.
#[derive(Debug, PartialEq)]
pub struct IndexDecl {
    pub name: String,
    pub table: String,
    pub column: String,
    pub using_hash: bool,
}

/// A versioned schema: each version number with its items.
#[derive(Debug, PartialEq)]
pub struct SchemaDecl {
    pub name: String,
    pub versions: Vec<(u64, Vec<Item>)>,
}

/// A network server.
#[derive(Debug, PartialEq)]
pub struct ServerDecl {
    pub name: String,
    pub items: Vec<ServerItem>,
}

/// What a server block holds.
#[derive(Debug, PartialEq)]
pub enum ServerItem {
    Listen(Vec<Arg>),
    On(OnHandler),
}

/// `on name(params) { ... }`
#[derive(Debug, PartialEq)]
pub struct OnHandler {
    pub name: String,
    pub params: Vec<Param>,
    pub body: Block,
}

/// An actor.
#[derive(Debug, PartialEq)]
pub struct ActorDecl {
    pub name: String,
    pub items: Vec<ActorItem>,
}

/// What an actor block holds.
#[derive(Debug, PartialEq)]
pub enum ActorItem {
    State(StateDecl),
    On(OnHandler),
}

/// `state name: ty = value;`
#[derive(Debug, PartialEq)]
pub struct StateDecl {
    pub name: String,
    pub ty: Type,
    pub value: Expr,
}

/// A `ui` or `component` block.
#[derive(Debug, PartialEq)]
pub struct UiDecl {
    pub name: String,
    pub items: Vec<UiItem>,
}

/// What a `ui` or `component` block holds.
#[derive(Debug, PartialEq)]
pub enum UiItem {
    State(StateDecl),
    Prop(PropDecl),
    Render(Block),
    Mount(Block),
    Unmount(Block),
    Fn(FnDecl),
}

/// `prop name: ty;`
#[derive(Debug, PartialEq)]
pub struct PropDecl {
    pub name: String,
    pub ty: Type,
}

/// A type as it is written; `ConstArg` is a value in a generic argument list.
#[derive(Debug, PartialEq)]
pub enum Type {
    Primitive(String),
    Named(String, Vec<Type>),
    Array(Box<Type>, Option<Box<Expr>>),
    Tuple(Vec<Type>),
    Ref { lifetime: Option<String>, mutable: bool, inner: Box<Type> },
    Dyn(String, Vec<Type>),
    Fn(Vec<Type>, Box<Type>),
    Option(Box<Type>),
    Result(Box<Type>, Box<Type>),
    Unit,
    Never,
    ConstArg(Box<Expr>),
}

/// A pattern; `Array` holds `..` or `..name` in its second field.
#[derive(Debug, PartialEq)]
pub enum Pattern {
    Wildcard,
    Mut(String),
    Tuple(Vec<Pattern>),
    Array(Vec<Pattern>, Option<Option<String>>),
    Literal(Literal),
    TupleStruct(String, Vec<Pattern>),
    Ident(String),
    Or(Vec<Pattern>),
}

/// A literal, with its text as it stands in the source.
#[derive(Debug, PartialEq)]
pub enum Literal {
    Int(String),
    IntHex(String),
    IntOct(String),
    IntBin(String),
    Float(String),
    Str(String),
    RawStr(String),
    Char(String),
    Bool(bool),
    Null,
}

/// Statements, then an optional value.
#[derive(Debug, PartialEq)]
pub struct Block {
    pub stmts: Vec<Stmt>,
    pub tail: Option<Box<Expr>>,
}

/// A statement.
#[derive(Debug, PartialEq)]
pub enum Stmt {
    Let { mutable: bool, pattern: Pattern, ty: Option<Type>, value: Option<Expr> },
    Return(Option<Expr>),
    Break { label: Option<String>, value: Option<Expr> },
    Continue { label: Option<String> },
    Yield(Expr),
    Expr(Expr),
    Item(Box<Item>),
    TargetBlock(TargetKind, Block),
}

/// An expression.
#[derive(Debug, PartialEq)]
#[allow(inconsistent_fields)]
pub enum Expr {
    Literal(Literal),
    Ident(String),
    Path(Vec<String>),
    Paren(Box<Expr>),
    Unary { op: UnaryOp, expr: Box<Expr> },
    Binary { op: BinaryOp, lhs: Box<Expr>, rhs: Box<Expr> },
    Assign { op: AssignOp, lhs: Box<Expr>, rhs: Box<Expr> },
    Range { lo: Box<Expr>, hi: Box<Expr>, inclusive: bool },
    Cast { expr: Box<Expr>, ty: Box<Type> },
    Await(Box<Expr>),
    Borrow { mutable: bool, expr: Box<Expr> },
    MethodCall { receiver: Box<Expr>, name: String, args: Vec<Arg> },
    Field { expr: Box<Expr>, name: String },
    Propagate(Box<Expr>),
    Index { expr: Box<Expr>, index: Box<Expr> },
    Call { callee: Box<Expr>, args: Vec<Arg> },
    Styled { expr: Box<Expr>, props: Vec<(String, Expr)> },
    Layout { expr: Box<Expr>, props: Vec<(String, Expr)>, children: Vec<Expr> },
    EventHandler { event: String, body: Box<Expr> },
    If(Box<IfExpr>),
    Match(Box<MatchExpr>),
    Loop(Box<LoopExpr>),
    Spawn { is_move: bool, body: SpawnBody },
    Select(Vec<SelectArm>),
    Query(QueryExpr),
    TryCatch { try_block: Block, catch_var: String, catch_block: Block },
    Throw(Box<Expr>),
    Return(Option<Box<Expr>>),
    Yield(Box<Expr>),
    Closure(Box<ClosureExpr>),
    Unsafe(Box<Block>),
    Block(Box<Block>),
    Array(Vec<Expr>),
    Tuple(Vec<Expr>),
    ComponentChildren { name: String, children: Vec<Expr> },
    StructLit { name: String, fields: Vec<(String, Expr)>, spread: Option<Box<Expr>> },
}

/// A call argument, with its label where it has one.
#[derive(Debug, PartialEq)]
pub struct Arg {
    pub name: Option<String>,
    pub value: Expr,
}

/// `if cond { ... } else ...`
#[derive(Debug, PartialEq)]
pub struct IfExpr {
    pub cond: Expr,
    pub then_block: Block,
    pub else_branch: Option<ElseBranch>,
}

/// What follows `else`.
#[derive(Debug, PartialEq)]
pub enum ElseBranch {
    If(Box<IfExpr>),
    Block(Block),
}

/// `match scrutinee { arms }`
#[derive(Debug, PartialEq)]
pub struct MatchExpr {
    pub scrutinee: Expr,
    pub arms: Vec<MatchArm>,
}

/// `patterns if guard => body`
#[derive(Debug, PartialEq)]
pub struct MatchArm {
    pub patterns: Vec<Pattern>,
    pub guard: Option<Expr>,
    pub body: MatchArmBody,
}

/// What a match arm evaluates.
#[derive(Debug, PartialEq)]
pub enum MatchArmBody {
    Block(Block),
    Expr(Box<Expr>),
}

/// The four loops.
#[derive(Debug, PartialEq)]
pub enum LoopExpr {
    Loop { label: Option<String>, body: Block },
    While { label: Option<String>, cond: Box<Expr>, body: Block },
    For { label: Option<String>, pattern: Pattern, iter: Box<Expr>, body: Block },
    DoWhile { body: Block, cond: Box<Expr> },
}

/// `move |params| -> ty body`
#[derive(Debug, PartialEq)]
pub struct ClosureExpr {
    pub is_move: bool,
    pub params: Vec<(Pattern, Option<Type>)>,
    pub return_type: Option<Type>,
    pub body: ClosureBody,
}

/// What a closure evaluates.
#[derive(Debug, PartialEq)]
pub enum ClosureBody {
    Block(Block),
    Expr(Box<Expr>),
}

/// What `spawn` starts.
#[derive(Debug, PartialEq)]
pub enum SpawnBody {
    Block(Block),
    Closure(Box<ClosureExpr>),
}

/// `case pattern = <- channel_expr: body`
#[derive(Debug, PartialEq)]
pub struct SelectArm {
    pub pattern: Pattern,
    pub channel_expr: Expr,
    pub body: Expr,
}

/// `query table clauses`
#[derive(Debug, PartialEq)]
pub struct QueryExpr {
    pub table: String,
    pub clauses: Vec<QueryClause>,
}

/// A clause of a query.
#[derive(Debug, PartialEq)]
pub enum QueryClause {
    Where(Box<Expr>),
    OrderBy(String),
    Insert(Box<Expr>),
    Update(Vec<(String, Expr)>),
    Delete,
    First,
    Count,
    Join { table: String, on: Box<Expr> },
}

} // verus!
