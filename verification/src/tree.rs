//! Syntax trees as mathematical values: the same shapes as in `ast`, with sequences
//! of characters for strings and sequences for vectors. Contracts speak of these.
use crate::ast::{AssignOp, BinaryOp, OwnershipMod, TargetKind, UnaryOp, Visibility};
use crate::token::Span;
use vstd::prelude::*;

verus! {

/// A parsed source file.
pub struct Program {
    pub items: Seq<Item>,
}

/// A declaration, with its attributes and visibility.
pub struct Item {
    pub attrs: Seq<Attribute>,
    pub visibility: Visibility,
    pub kind: ItemKind,
    pub span: Span,
}

/// `@name(args)` in front of an item.
pub struct Attribute {
    pub name: Seq<char>,
    pub args: Seq<Expr>,
}

/// What an item declares.
pub enum ItemKind {
    Fn(FnDecl),
    Struct(StructDecl),
    Enum(EnumDecl),
    Trait(TraitDecl),
    Impl(ImplDecl),
    Mod(ModDecl),
    Use(UsePath),
    Import(Seq<Seq<char>>),
    Const(ConstDecl),
    Static(StaticDecl),
    TypeAlias(TypeAliasDecl),
    Table(TableDecl),
    Index(IndexDecl),
    Schema(SchemaDecl),
    Ui(UiDecl),
    Component(UiDecl),
    Server(ServerDecl),
    Actor(ActorDecl),
    TargetBlock(TargetKind, Seq<Item>),
}

/// A type parameter with its bounds, or a const parameter with its type.
pub enum GenericParam {
    Type { name: Seq<char>, bounds: Seq<TraitBound> },
    Const { name: Seq<char>, ty: Type },
}

/// A trait named in a bound.
pub struct TraitBound {
    pub name: Seq<char>,
    pub args: Seq<Type>,
}

/// One `name: bounds` of a `where` clause.
pub struct WhereBound {
    pub name: Seq<char>,
    pub bounds: Seq<TraitBound>,
}

/// A function; `body` is absent for a bare signature.
pub struct FnDecl {
    pub is_async: bool,
    pub name: Seq<char>,
    pub generics: Seq<GenericParam>,
    pub params: Seq<Param>,
    pub return_type: Option<Type>,
    pub where_clause: Seq<WhereBound>,
    pub body: Option<Block>,
}

/// A parameter; a receiver has the name `self` and the unit type.
pub struct Param {
    pub ownership: OwnershipMod,
    pub name: Seq<char>,
    pub is_variadic: bool,
    pub ty: Type,
    pub default: Option<Expr>,
}

/// A struct.
pub struct StructDecl {
    pub name: Seq<char>,
    pub generics: Seq<GenericParam>,
    pub body: StructBody,
}

/// The three shapes of a struct body.
pub enum StructBody {
    Unit,
    Tuple(Seq<Type>),
    Named(Seq<FieldDecl>),
}

/// A named field.
pub struct FieldDecl {
    pub visibility: Visibility,
    pub name: Seq<char>,
    pub ty: Type,
}

/// An enum.
pub struct EnumDecl {
    pub name: Seq<char>,
    pub generics: Seq<GenericParam>,
    pub variants: Seq<EnumVariant>,
}

/// A variant and the types that it carries.
pub struct EnumVariant {
    pub name: Seq<char>,
    pub data: Seq<Type>,
}

/// A trait.
pub struct TraitDecl {
    pub name: Seq<char>,
    pub generics: Seq<GenericParam>,
    pub items: Seq<TraitItem>,
}

/// What a trait declares.
pub enum TraitItem {
    AssocType(Seq<char>),
    Fn(FnDecl),
}

/// A type or trait name in an `impl` header.
pub struct TypeRef {
    pub name: Seq<char>,
    pub args: Seq<Type>,
}

/// An `impl` block, inherent when `trait_ref` is absent.
pub struct ImplDecl {
    pub generics: Seq<GenericParam>,
    pub trait_ref: Option<TypeRef>,
    pub target: TypeRef,
    pub where_clause: Seq<WhereBound>,
    pub items: Seq<ImplItem>,
}

/// What an `impl` block provides.
pub enum ImplItem {
    AssocType(Seq<char>, Type),
    Fn(FnDecl),
}

/// An inline module.
pub struct ModDecl {
    pub name: Seq<char>,
    pub items: Seq<Item>,
}

/// `use a::b::{x, y};`
pub struct UsePath {
    pub path: Seq<Seq<char>>,
    pub items: Seq<Seq<char>>,
}

/// A constant.
pub struct ConstDecl {
    pub name: Seq<char>,
    pub ty: Type,
    pub value: Expr,
}

/// A static.
pub struct StaticDecl {
    pub name: Seq<char>,
    pub ty: Type,
    pub value: Expr,
}

/// A type alias.
pub struct TypeAliasDecl {
    pub name: Seq<char>,
    pub generics: Seq<GenericParam>,
    pub ty: Type,
}

/// A database table.
pub struct TableDecl {
    pub name: Seq<char>,
    pub fields: Seq<TableField>,
}

/// A column and its constraints.
pub struct TableField {
    pub name: Seq<char>,
    pub ty: Type,
    pub constraints: Seq<FieldConstraint>,
}

/// A column constraint.
pub enum FieldConstraint {
    PrimaryKey,
    AutoIncrement,
    Unique,
    NotNull,
    Default(Expr),
}

/// A database index.
pub struct IndexDecl {
    pub name: Seq<char>,
    pub table: Seq<char>,
    pub column: Seq<char>,
    pub using_hash: bool,
}

/// A versioned schema: each version number with its items.
pub struct SchemaDecl {
    pub name: Seq<char>,
    pub versions: Seq<(u64, Seq<Item>)>,
}

/// A network server.
pub struct ServerDecl {
    pub name: Seq<char>,
    pub items: Seq<ServerItem>,
}

/// What a server block holds.
pub enum ServerItem {
    Listen(Seq<Arg>),
    On(OnHandler),
}

/// `on name(params) { ... }`
pub struct OnHandler {
    pub name: Seq<char>,
    pub params: Seq<Param>,
    pub body: Block,
}

/// An actor.
pub struct ActorDecl {
    pub name: Seq<char>,
    pub items: Seq<ActorItem>,
}

/// What an actor block holds.
pub enum ActorItem {
    State(StateDecl),
    On(OnHandler),
}

/// `state name: ty = value;`
pub struct StateDecl {
    pub name: Seq<char>,
    pub ty: Type,
    pub value: Expr,
}

/// A `ui` or `component` block.
pub struct UiDecl {
    pub name: Seq<char>,
    pub items: Seq<UiItem>,
}

/// What a `ui` or `component` block holds.
pub enum UiItem {
    State(StateDecl),
    Prop(PropDecl),
    Render(Block),
    Mount(Block),
    Unmount(Block),
    Fn(FnDecl),
}

/// `prop name: ty;`
pub struct PropDecl {
    pub name: Seq<char>,
    pub ty: Type,
}

/// A type as it is written; `ConstArg` is a value in a generic argument list.
pub enum Type {
    Primitive(Seq<char>),
    Named(Seq<char>, Seq<Type>),
    Array(Box<Type>, Option<Box<Expr>>),
    Tuple(Seq<Type>),
    Ref { lifetime: Option<Seq<char>>, mutable: bool, inner: Box<Type> },
    Dyn(Seq<char>, Seq<Type>),
    Fn(Seq<Type>, Box<Type>),
    Option(Box<Type>),
    Result(Box<Type>, Box<Type>),
    Unit,
    Never,
    ConstArg(Box<Expr>),
}

/// A pattern; `Array` holds `..` or `..name` in its second field.
pub enum Pattern {
    Wildcard,
    Mut(Seq<char>),
    Tuple(Seq<Pattern>),
    Array(Seq<Pattern>, Option<Option<Seq<char>>>),
    Literal(Literal),
    TupleStruct(Seq<char>, Seq<Pattern>),
    Ident(Seq<char>),
    Or(Seq<Pattern>),
}

/// A literal, with its text as it stands in the source.
pub enum Literal {
    Int(Seq<char>),
    IntHex(Seq<char>),
    IntOct(Seq<char>),
    IntBin(Seq<char>),
    Float(Seq<char>),
    Str(Seq<char>),
    RawStr(Seq<char>),
    Char(Seq<char>),
    Bool(bool),
    Null,
}

/// Statements, then an optional value.
pub struct Block {
    pub stmts: Seq<Stmt>,
    pub tail: Option<Box<Expr>>,
}

/// A statement.
pub enum Stmt {
    Let { mutable: bool, pattern: Pattern, ty: Option<Type>, value: Option<Expr> },
    Return(Option<Expr>),
    Break { label: Option<Seq<char>>, value: Option<Expr> },
    Continue { label: Option<Seq<char>> },
    Yield(Expr),
    Expr(Expr),
    Item(Box<Item>),
    TargetBlock(TargetKind, Block),
}

/// An expression.
#[allow(inconsistent_fields)]
pub enum Expr {
    Literal(Literal),
    Ident(Seq<char>),
    Path(Seq<Seq<char>>),
    Paren(Box<Expr>),
    Unary { op: UnaryOp, expr: Box<Expr> },
    Binary { op: BinaryOp, lhs: Box<Expr>, rhs: Box<Expr> },
    Assign { op: AssignOp, lhs: Box<Expr>, rhs: Box<Expr> },
    Range { lo: Box<Expr>, hi: Box<Expr>, inclusive: bool },
    Cast { expr: Box<Expr>, ty: Box<Type> },
    Await(Box<Expr>),
    Borrow { mutable: bool, expr: Box<Expr> },
    MethodCall { receiver: Box<Expr>, name: Seq<char>, args: Seq<Arg> },
    Field { expr: Box<Expr>, name: Seq<char> },
    Propagate(Box<Expr>),
    Index { expr: Box<Expr>, index: Box<Expr> },
    Call { callee: Box<Expr>, args: Seq<Arg> },
    Styled { expr: Box<Expr>, props: Seq<(Seq<char>, Expr)> },
    Layout { expr: Box<Expr>, props: Seq<(Seq<char>, Expr)>, children: Seq<Expr> },
    EventHandler { event: Seq<char>, body: Box<Expr> },
    If(Box<IfExpr>),
    Match(Box<MatchExpr>),
    Loop(Box<LoopExpr>),
    Spawn { is_move: bool, body: SpawnBody },
    Select(Seq<SelectArm>),
    Query(QueryExpr),
    TryCatch { try_block: Block, catch_var: Seq<char>, catch_block: Block },
    Throw(Box<Expr>),
    Return(Option<Box<Expr>>),
    Yield(Box<Expr>),
    Closure(Box<ClosureExpr>),
    Unsafe(Box<Block>),
    Block(Box<Block>),
    Array(Seq<Expr>),
    Tuple(Seq<Expr>),
    ComponentChildren { name: Seq<char>, children: Seq<Expr> },
    StructLit { name: Seq<char>, fields: Seq<(Seq<char>, Expr)>, spread: Option<Box<Expr>> },
}

/// A call argument, with its label where it has one.
pub struct Arg {
    pub name: Option<Seq<char>>,
    pub value: Expr,
}

/// `if cond { ... } else ...`
pub struct IfExpr {
    pub cond: Expr,
    pub then_block: Block,
    pub else_branch: Option<ElseBranch>,
}

/// What follows `else`.
pub enum ElseBranch {
    If(Box<IfExpr>),
    Block(Block),
}

/// `match scrutinee { arms }`
pub struct MatchExpr {
    pub scrutinee: Expr,
    pub arms: Seq<MatchArm>,
}

/// `patterns if guard => body`
pub struct MatchArm {
    pub patterns: Seq<Pattern>,
    pub guard: Option<Expr>,
    pub body: MatchArmBody,
}

/// What a match arm evaluates.
pub enum MatchArmBody {
    Block(Block),
    Expr(Box<Expr>),
}

/// The four loops.
pub enum LoopExpr {
    Loop { label: Option<Seq<char>>, body: Block },
    While { label: Option<Seq<char>>, cond: Box<Expr>, body: Block },
    For { label: Option<Seq<char>>, pattern: Pattern, iter: Box<Expr>, body: Block },
    DoWhile { body: Block, cond: Box<Expr> },
}

/// `move |params| -> ty body`
pub struct ClosureExpr {
    pub is_move: bool,
    pub params: Seq<(Pattern, Option<Type>)>,
    pub return_type: Option<Type>,
    pub body: ClosureBody,
}

/// What a closure evaluates.
pub enum ClosureBody {
    Block(Block),
    Expr(Box<Expr>),
}

/// What `spawn` starts.
pub enum SpawnBody {
    Block(Block),
    Closure(Box<ClosureExpr>),
}

/// `case pattern = <- channel_expr: body`
pub struct SelectArm {
    pub pattern: Pattern,
    pub channel_expr: Expr,
    pub body: Expr,
}

/// `query table clauses`
pub struct QueryExpr {
    pub table: Seq<char>,
    pub clauses: Seq<QueryClause>,
}

/// A clause of a query.
pub enum QueryClause {
    Where(Box<Expr>),
    OrderBy(Seq<char>),
    Insert(Box<Expr>),
    Update(Seq<(Seq<char>, Expr)>),
    Delete,
    First,
    Count,
    Join { table: Seq<char>, on: Box<Expr> },
}

} // verus!
