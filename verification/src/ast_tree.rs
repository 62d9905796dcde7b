//! The mathematical value of each syntax tree. `tree` gives it; the value of a node is
//! opaque to the solver, and `unfold` states one layer of it.
use crate::ast::{
    ActorDecl, ActorItem, Arg, Attribute, Block, ClosureBody, ClosureExpr, ConstDecl, ElseBranch,
    EnumDecl, EnumVariant, Expr, FieldConstraint, FieldDecl, FnDecl, GenericParam, GenericParams,
    IfExpr, ImplDecl, ImplItem, IndexDecl, Item, ItemKind, Literal, LoopExpr, MatchArm,
    MatchArmBody, MatchExpr, ModDecl, OnHandler, Param, Pattern, Program, PropDecl, QueryClause,
    QueryExpr, SchemaDecl, SelectArm, ServerDecl, ServerItem, SpawnBody, StateDecl, StaticDecl,
    Stmt, StructBody, StructDecl, TableDecl, TableField, TargetKind, TraitBound, TraitDecl,
    TraitItem, Type, TypeAliasDecl, TypeRef, UiDecl, UiItem, UsePath, Visibility, WhereBound,
    WhereClause,
};
use crate::tree;
use vstd::prelude::*;

verus! {

/// Executable syntax that has a mathematical value.
pub trait Syntax: Sized {
    type Tree;

    spec fn tree(self) -> Self::Tree;
}

/// The values of a list.
pub open spec fn trees<T: Syntax>(v: Seq<T>) -> Seq<T::Tree> {
    v.map_values(|x: T| x.tree())
}

/// The value of something optional.
pub open spec fn opt_tree<T: Syntax>(v: Option<T>) -> Option<T::Tree> {
    match v {
        Some(x) => Some(x.tree()),
        None => None,
    }
}

/// The value of something optional in a box.
pub open spec fn opt_box_tree<T: Syntax>(v: Option<Box<T>>) -> Option<Box<T::Tree>> {
    match v {
        Some(x) => Some(Box::new(x.tree())),
        None => None,
    }
}

impl Syntax for String {
    type Tree = Seq<char>;

    open spec fn tree(self) -> Seq<char> {
        self@
    }
}

impl<T: Syntax> Syntax for Vec<T> {
    type Tree = Seq<T::Tree>;

    open spec fn tree(self) -> Seq<T::Tree> {
        trees(self@)
    }
}

impl Syntax for Visibility {
    type Tree = Visibility;

    open spec fn tree(self) -> Visibility {
        self
    }
}

impl Syntax for TargetKind {
    type Tree = TargetKind;

    open spec fn tree(self) -> TargetKind {
        self
    }
}

impl Syntax for (TargetKind, Vec<Item>) {
    type Tree = (TargetKind, Seq<tree::Item>);

    open spec fn tree(self) -> (TargetKind, Seq<tree::Item>) {
        (self.0, trees(self.1@))
    }
}

impl Syntax for (String, Type, Expr) {
    type Tree = (Seq<char>, tree::Type, tree::Expr);

    open spec fn tree(self) -> (Seq<char>, tree::Type, tree::Expr) {
        (self.0@, self.1.tree(), self.2.tree())
    }
}

impl Syntax for GenericParams {
    type Tree = Seq<tree::GenericParam>;

    open spec fn tree(self) -> Seq<tree::GenericParam> {
        generic_params_tree(self)
    }
}

impl Syntax for WhereClause {
    type Tree = Seq<tree::WhereBound>;

    open spec fn tree(self) -> Seq<tree::WhereBound> {
        where_clause_tree(self)
    }
}

impl Syntax for Program {
    type Tree = tree::Program;

    open spec fn tree(self) -> tree::Program {
        program_tree(self)
    }
}

impl Syntax for Item {
    type Tree = tree::Item;

    open spec fn tree(self) -> tree::Item {
        item_tree(self)
    }
}

impl Syntax for Attribute {
    type Tree = tree::Attribute;

    open spec fn tree(self) -> tree::Attribute {
        attribute_tree(self)
    }
}

impl Syntax for ItemKind {
    type Tree = tree::ItemKind;

    open spec fn tree(self) -> tree::ItemKind {
        item_kind_tree(self)
    }
}

impl Syntax for GenericParam {
    type Tree = tree::GenericParam;

    open spec fn tree(self) -> tree::GenericParam {
        generic_param_tree(self)
    }
}

impl Syntax for TraitBound {
    type Tree = tree::TraitBound;

    open spec fn tree(self) -> tree::TraitBound {
        trait_bound_tree(self)
    }
}

impl Syntax for WhereBound {
    type Tree = tree::WhereBound;

    open spec fn tree(self) -> tree::WhereBound {
        where_bound_tree(self)
    }
}

impl Syntax for FnDecl {
    type Tree = tree::FnDecl;

    open spec fn tree(self) -> tree::FnDecl {
        fn_decl_tree(self)
    }
}

impl Syntax for Param {
    type Tree = tree::Param;

    open spec fn tree(self) -> tree::Param {
        param_tree(self)
    }
}

impl Syntax for StructDecl {
    type Tree = tree::StructDecl;

    open spec fn tree(self) -> tree::StructDecl {
        struct_decl_tree(self)
    }
}

impl Syntax for StructBody {
    type Tree = tree::StructBody;

    open spec fn tree(self) -> tree::StructBody {
        struct_body_tree(self)
    }
}

impl Syntax for FieldDecl {
    type Tree = tree::FieldDecl;

    open spec fn tree(self) -> tree::FieldDecl {
        field_decl_tree(self)
    }
}

impl Syntax for EnumDecl {
    type Tree = tree::EnumDecl;

    open spec fn tree(self) -> tree::EnumDecl {
        enum_decl_tree(self)
    }
}

impl Syntax for EnumVariant {
    type Tree = tree::EnumVariant;

    open spec fn tree(self) -> tree::EnumVariant {
        enum_variant_tree(self)
    }
}

impl Syntax for TraitDecl {
    type Tree = tree::TraitDecl;

    open spec fn tree(self) -> tree::TraitDecl {
        trait_decl_tree(self)
    }
}

impl Syntax for TraitItem {
    type Tree = tree::TraitItem;

    open spec fn tree(self) -> tree::TraitItem {
        trait_item_tree(self)
    }
}

impl Syntax for TypeRef {
    type Tree = tree::TypeRef;

    open spec fn tree(self) -> tree::TypeRef {
        type_ref_tree(self)
    }
}

impl Syntax for ImplDecl {
    type Tree = tree::ImplDecl;

    open spec fn tree(self) -> tree::ImplDecl {
        impl_decl_tree(self)
    }
}

impl Syntax for ImplItem {
    type Tree = tree::ImplItem;

    open spec fn tree(self) -> tree::ImplItem {
        impl_item_tree(self)
    }
}

impl Syntax for ModDecl {
    type Tree = tree::ModDecl;

    open spec fn tree(self) -> tree::ModDecl {
        mod_decl_tree(self)
    }
}

impl Syntax for UsePath {
    type Tree = tree::UsePath;

    open spec fn tree(self) -> tree::UsePath {
        use_path_tree(self)
    }
}

impl Syntax for ConstDecl {
    type Tree = tree::ConstDecl;

    open spec fn tree(self) -> tree::ConstDecl {
        const_decl_tree(self)
    }
}

impl Syntax for StaticDecl {
    type Tree = tree::StaticDecl;

    open spec fn tree(self) -> tree::StaticDecl {
        static_decl_tree(self)
    }
}

impl Syntax for TypeAliasDecl {
    type Tree = tree::TypeAliasDecl;

    open spec fn tree(self) -> tree::TypeAliasDecl {
        type_alias_decl_tree(self)
    }
}

impl Syntax for TableDecl {
    type Tree = tree::TableDecl;

    open spec fn tree(self) -> tree::TableDecl {
        table_decl_tree(self)
    }
}

impl Syntax for TableField {
    type Tree = tree::TableField;

    open spec fn tree(self) -> tree::TableField {
        table_field_tree(self)
    }
}

impl Syntax for FieldConstraint {
    type Tree = tree::FieldConstraint;

    open spec fn tree(self) -> tree::FieldConstraint {
        field_constraint_tree(self)
    }
}

impl Syntax for IndexDecl {
    type Tree = tree::IndexDecl;

    open spec fn tree(self) -> tree::IndexDecl {
        index_decl_tree(self)
    }
}

impl Syntax for SchemaDecl {
    type Tree = tree::SchemaDecl;

    open spec fn tree(self) -> tree::SchemaDecl {
        schema_decl_tree(self)
    }
}

impl Syntax for ServerDecl {
    type Tree = tree::ServerDecl;

    open spec fn tree(self) -> tree::ServerDecl {
        server_decl_tree(self)
    }
}

impl Syntax for ServerItem {
    type Tree = tree::ServerItem;

    open spec fn tree(self) -> tree::ServerItem {
        server_item_tree(self)
    }
}

impl Syntax for OnHandler {
    type Tree = tree::OnHandler;

    open spec fn tree(self) -> tree::OnHandler {
        on_handler_tree(self)
    }
}

impl Syntax for ActorDecl {
    type Tree = tree::ActorDecl;

    open spec fn tree(self) -> tree::ActorDecl {
        actor_decl_tree(self)
    }
}

impl Syntax for ActorItem {
    type Tree = tree::ActorItem;

    open spec fn tree(self) -> tree::ActorItem {
        actor_item_tree(self)
    }
}

impl Syntax for StateDecl {
    type Tree = tree::StateDecl;

    open spec fn tree(self) -> tree::StateDecl {
        state_decl_tree(self)
    }
}

impl Syntax for UiDecl {
    type Tree = tree::UiDecl;

    open spec fn tree(self) -> tree::UiDecl {
        ui_decl_tree(self)
    }
}

impl Syntax for UiItem {
    type Tree = tree::UiItem;

    open spec fn tree(self) -> tree::UiItem {
        ui_item_tree(self)
    }
}

impl Syntax for PropDecl {
    type Tree = tree::PropDecl;

    open spec fn tree(self) -> tree::PropDecl {
        prop_decl_tree(self)
    }
}

impl Syntax for Type {
    type Tree = tree::Type;

    open spec fn tree(self) -> tree::Type {
        type_tree(self)
    }
}

impl Syntax for Pattern {
    type Tree = tree::Pattern;

    open spec fn tree(self) -> tree::Pattern {
        pattern_tree(self)
    }
}

impl Syntax for Literal {
    type Tree = tree::Literal;

    open spec fn tree(self) -> tree::Literal {
        literal_tree(self)
    }
}

impl Syntax for Block {
    type Tree = tree::Block;

    open spec fn tree(self) -> tree::Block {
        block_tree(self)
    }
}

impl Syntax for Stmt {
    type Tree = tree::Stmt;

    open spec fn tree(self) -> tree::Stmt {
        stmt_tree(self)
    }
}

impl Syntax for Expr {
    type Tree = tree::Expr;

    open spec fn tree(self) -> tree::Expr {
        expr_tree(self)
    }
}

impl Syntax for Arg {
    type Tree = tree::Arg;

    open spec fn tree(self) -> tree::Arg {
        arg_tree(self)
    }
}

impl Syntax for IfExpr {
    type Tree = tree::IfExpr;

    open spec fn tree(self) -> tree::IfExpr {
        if_expr_tree(self)
    }
}

impl Syntax for ElseBranch {
    type Tree = tree::ElseBranch;

    open spec fn tree(self) -> tree::ElseBranch {
        else_branch_tree(self)
    }
}

impl Syntax for MatchExpr {
    type Tree = tree::MatchExpr;

    open spec fn tree(self) -> tree::MatchExpr {
        match_expr_tree(self)
    }
}

impl Syntax for MatchArm {
    type Tree = tree::MatchArm;

    open spec fn tree(self) -> tree::MatchArm {
        match_arm_tree(self)
    }
}

impl Syntax for MatchArmBody {
    type Tree = tree::MatchArmBody;

    open spec fn tree(self) -> tree::MatchArmBody {
        match_arm_body_tree(self)
    }
}

impl Syntax for LoopExpr {
    type Tree = tree::LoopExpr;

    open spec fn tree(self) -> tree::LoopExpr {
        loop_expr_tree(self)
    }
}

impl Syntax for ClosureExpr {
    type Tree = tree::ClosureExpr;

    open spec fn tree(self) -> tree::ClosureExpr {
        closure_expr_tree(self)
    }
}

impl Syntax for ClosureBody {
    type Tree = tree::ClosureBody;

    open spec fn tree(self) -> tree::ClosureBody {
        closure_body_tree(self)
    }
}

impl Syntax for SpawnBody {
    type Tree = tree::SpawnBody;

    open spec fn tree(self) -> tree::SpawnBody {
        spawn_body_tree(self)
    }
}

impl Syntax for SelectArm {
    type Tree = tree::SelectArm;

    open spec fn tree(self) -> tree::SelectArm {
        select_arm_tree(self)
    }
}

impl Syntax for QueryExpr {
    type Tree = tree::QueryExpr;

    open spec fn tree(self) -> tree::QueryExpr {
        query_expr_tree(self)
    }
}

impl Syntax for QueryClause {
    type Tree = tree::QueryClause;

    open spec fn tree(self) -> tree::QueryClause {
        query_clause_tree(self)
    }
}

impl Syntax for (u64, Vec<Item>) {
    type Tree = (u64, Seq<tree::Item>);

    open spec fn tree(self) -> (u64, Seq<tree::Item>) {
        (self.0, trees(self.1@))
    }
}

impl Syntax for (String, Expr) {
    type Tree = (Seq<char>, tree::Expr);

    open spec fn tree(self) -> (Seq<char>, tree::Expr) {
        (self.0@, self.1.tree())
    }
}

impl Syntax for (Pattern, Option<Type>) {
    type Tree = (tree::Pattern, Option<tree::Type>);

    open spec fn tree(self) -> (tree::Pattern, Option<tree::Type>) {
        (self.0.tree(), opt_tree(self.1))
    }
}

pub open spec fn generic_param_trees(v: Seq<GenericParam>) -> Seq<tree::GenericParam>
    decreases v,
{
    Seq::new(
        v.len(),
        |i: int| if 0 <= i < v.len() { generic_param_tree(v[i]) } else { arbitrary() },
    )
}

pub open spec fn where_bound_trees(v: Seq<WhereBound>) -> Seq<tree::WhereBound>
    decreases v,
{
    Seq::new(v.len(), |i: int| if 0 <= i < v.len() { where_bound_tree(v[i]) } else { arbitrary() })
}

pub open spec fn item_trees(v: Seq<Item>) -> Seq<tree::Item>
    decreases v,
{
    Seq::new(v.len(), |i: int| if 0 <= i < v.len() { item_tree(v[i]) } else { arbitrary() })
}

pub open spec fn attribute_trees(v: Seq<Attribute>) -> Seq<tree::Attribute>
    decreases v,
{
    Seq::new(v.len(), |i: int| if 0 <= i < v.len() { attribute_tree(v[i]) } else { arbitrary() })
}

pub open spec fn expr_trees(v: Seq<Expr>) -> Seq<tree::Expr>
    decreases v,
{
    Seq::new(v.len(), |i: int| if 0 <= i < v.len() { expr_tree(v[i]) } else { arbitrary() })
}

pub open spec fn trait_bound_trees(v: Seq<TraitBound>) -> Seq<tree::TraitBound>
    decreases v,
{
    Seq::new(v.len(), |i: int| if 0 <= i < v.len() { trait_bound_tree(v[i]) } else { arbitrary() })
}

pub open spec fn type_trees(v: Seq<Type>) -> Seq<tree::Type>
    decreases v,
{
    Seq::new(v.len(), |i: int| if 0 <= i < v.len() { type_tree(v[i]) } else { arbitrary() })
}

pub open spec fn param_trees(v: Seq<Param>) -> Seq<tree::Param>
    decreases v,
{
    Seq::new(v.len(), |i: int| if 0 <= i < v.len() { param_tree(v[i]) } else { arbitrary() })
}

pub open spec fn field_decl_trees(v: Seq<FieldDecl>) -> Seq<tree::FieldDecl>
    decreases v,
{
    Seq::new(v.len(), |i: int| if 0 <= i < v.len() { field_decl_tree(v[i]) } else { arbitrary() })
}

pub open spec fn enum_variant_trees(v: Seq<EnumVariant>) -> Seq<tree::EnumVariant>
    decreases v,
{
    Seq::new(v.len(), |i: int| if 0 <= i < v.len() { enum_variant_tree(v[i]) } else { arbitrary() })
}

pub open spec fn trait_item_trees(v: Seq<TraitItem>) -> Seq<tree::TraitItem>
    decreases v,
{
    Seq::new(v.len(), |i: int| if 0 <= i < v.len() { trait_item_tree(v[i]) } else { arbitrary() })
}

pub open spec fn impl_item_trees(v: Seq<ImplItem>) -> Seq<tree::ImplItem>
    decreases v,
{
    Seq::new(v.len(), |i: int| if 0 <= i < v.len() { impl_item_tree(v[i]) } else { arbitrary() })
}

pub open spec fn table_field_trees(v: Seq<TableField>) -> Seq<tree::TableField>
    decreases v,
{
    Seq::new(v.len(), |i: int| if 0 <= i < v.len() { table_field_tree(v[i]) } else { arbitrary() })
}

pub open spec fn field_constraint_trees(v: Seq<FieldConstraint>) -> Seq<tree::FieldConstraint>
    decreases v,
{
    Seq::new(
        v.len(),
        |i: int| if 0 <= i < v.len() { field_constraint_tree(v[i]) } else { arbitrary() },
    )
}

pub open spec fn version_trees(v: Seq<(u64, Vec<Item>)>) -> Seq<(u64, Seq<tree::Item>)>
    decreases v,
{
    Seq::new(
        v.len(),
        |i: int| if 0 <= i < v.len() { (v[i].0, item_trees(v[i].1@)) } else { arbitrary() },
    )
}

pub open spec fn server_item_trees(v: Seq<ServerItem>) -> Seq<tree::ServerItem>
    decreases v,
{
    Seq::new(v.len(), |i: int| if 0 <= i < v.len() { server_item_tree(v[i]) } else { arbitrary() })
}

pub open spec fn arg_trees(v: Seq<Arg>) -> Seq<tree::Arg>
    decreases v,
{
    Seq::new(v.len(), |i: int| if 0 <= i < v.len() { arg_tree(v[i]) } else { arbitrary() })
}

pub open spec fn actor_item_trees(v: Seq<ActorItem>) -> Seq<tree::ActorItem>
    decreases v,
{
    Seq::new(v.len(), |i: int| if 0 <= i < v.len() { actor_item_tree(v[i]) } else { arbitrary() })
}

pub open spec fn ui_item_trees(v: Seq<UiItem>) -> Seq<tree::UiItem>
    decreases v,
{
    Seq::new(v.len(), |i: int| if 0 <= i < v.len() { ui_item_tree(v[i]) } else { arbitrary() })
}

pub open spec fn pattern_trees(v: Seq<Pattern>) -> Seq<tree::Pattern>
    decreases v,
{
    Seq::new(v.len(), |i: int| if 0 <= i < v.len() { pattern_tree(v[i]) } else { arbitrary() })
}

pub open spec fn stmt_trees(v: Seq<Stmt>) -> Seq<tree::Stmt>
    decreases v,
{
    Seq::new(v.len(), |i: int| if 0 <= i < v.len() { stmt_tree(v[i]) } else { arbitrary() })
}

pub open spec fn named_expr_trees(v: Seq<(String, Expr)>) -> Seq<(Seq<char>, tree::Expr)>
    decreases v,
{
    Seq::new(
        v.len(),
        |i: int| if 0 <= i < v.len() { (v[i].0@, expr_tree(v[i].1)) } else { arbitrary() },
    )
}

pub open spec fn select_arm_trees(v: Seq<SelectArm>) -> Seq<tree::SelectArm>
    decreases v,
{
    Seq::new(v.len(), |i: int| if 0 <= i < v.len() { select_arm_tree(v[i]) } else { arbitrary() })
}

pub open spec fn match_arm_trees(v: Seq<MatchArm>) -> Seq<tree::MatchArm>
    decreases v,
{
    Seq::new(v.len(), |i: int| if 0 <= i < v.len() { match_arm_tree(v[i]) } else { arbitrary() })
}

pub open spec fn closure_param_trees(v: Seq<(Pattern, Option<Type>)>) -> Seq<(
    tree::Pattern,
    Option<tree::Type>,
)>
    decreases v,
{
    Seq::new(
        v.len(),
        |i: int| if 0 <= i < v.len() {
            (pattern_tree(v[i].0), match v[i].1 { Some(x) => Some(type_tree(x)), None => None })
        } else { arbitrary() },
    )
}

pub open spec fn query_clause_trees(v: Seq<QueryClause>) -> Seq<tree::QueryClause>
    decreases v,
{
    Seq::new(v.len(), |i: int| if 0 <= i < v.len() { query_clause_tree(v[i]) } else { arbitrary() })
}

#[verifier::opaque]
pub open spec fn generic_params_tree(v: GenericParams) -> Seq<tree::GenericParam>
    decreases v,
{
    generic_param_trees(v.0@)
}

#[verifier::opaque]
pub open spec fn where_clause_tree(v: WhereClause) -> Seq<tree::WhereBound>
    decreases v,
{
    where_bound_trees(v.0@)
}

#[verifier::opaque]
pub open spec fn program_tree(v: Program) -> tree::Program
    decreases v,
{
    tree::Program {
        items: item_trees(v.items@),
    }
}

#[verifier::opaque]
pub open spec fn item_tree(v: Item) -> tree::Item
    decreases v,
{
    tree::Item {
        attrs: attribute_trees(v.attrs@),
        visibility: v.visibility,
        kind: item_kind_tree(v.kind),
        span: v.span,
    }
}

#[verifier::opaque]
pub open spec fn attribute_tree(v: Attribute) -> tree::Attribute
    decreases v,
{
    tree::Attribute {
        name: v.name@,
        args: expr_trees(v.args@),
    }
}

#[verifier::opaque]
pub open spec fn item_kind_tree(v: ItemKind) -> tree::ItemKind
    decreases v,
{
    match v {
        ItemKind::Fn(a) => tree::ItemKind::Fn(fn_decl_tree(a)),
        ItemKind::Struct(a) => tree::ItemKind::Struct(struct_decl_tree(a)),
        ItemKind::Enum(a) => tree::ItemKind::Enum(enum_decl_tree(a)),
        ItemKind::Trait(a) => tree::ItemKind::Trait(trait_decl_tree(a)),
        ItemKind::Impl(a) => tree::ItemKind::Impl(impl_decl_tree(a)),
        ItemKind::Mod(a) => tree::ItemKind::Mod(mod_decl_tree(a)),
        ItemKind::Use(a) => tree::ItemKind::Use(use_path_tree(a)),
        ItemKind::Import(a) => tree::ItemKind::Import(trees(a@)),
        ItemKind::Const(a) => tree::ItemKind::Const(const_decl_tree(a)),
        ItemKind::Static(a) => tree::ItemKind::Static(static_decl_tree(a)),
        ItemKind::TypeAlias(a) => tree::ItemKind::TypeAlias(type_alias_decl_tree(a)),
        ItemKind::Table(a) => tree::ItemKind::Table(table_decl_tree(a)),
        ItemKind::Index(a) => tree::ItemKind::Index(index_decl_tree(a)),
        ItemKind::Schema(a) => tree::ItemKind::Schema(schema_decl_tree(a)),
        ItemKind::Ui(a) => tree::ItemKind::Ui(ui_decl_tree(a)),
        ItemKind::Component(a) => tree::ItemKind::Component(ui_decl_tree(a)),
        ItemKind::Server(a) => tree::ItemKind::Server(server_decl_tree(a)),
        ItemKind::Actor(a) => tree::ItemKind::Actor(actor_decl_tree(a)),
        ItemKind::TargetBlock(a, b) => tree::ItemKind::TargetBlock(a, item_trees(b@)),
    }
}

#[verifier::opaque]
pub open spec fn generic_param_tree(v: GenericParam) -> tree::GenericParam
    decreases v,
{
    match v {
        GenericParam::Type { name, bounds } => tree::GenericParam::Type {
            name: name@,
            bounds: trait_bound_trees(bounds@),
        },
        GenericParam::Const { name, ty } => tree::GenericParam::Const {
            name: name@,
            ty: type_tree(ty),
        },
    }
}

#[verifier::opaque]
pub open spec fn trait_bound_tree(v: TraitBound) -> tree::TraitBound
    decreases v,
{
    tree::TraitBound {
        name: v.name@,
        args: type_trees(v.args@),
    }
}

#[verifier::opaque]
pub open spec fn where_bound_tree(v: WhereBound) -> tree::WhereBound
    decreases v,
{
    tree::WhereBound {
        name: v.name@,
        bounds: trait_bound_trees(v.bounds@),
    }
}

#[verifier::opaque]
pub open spec fn fn_decl_tree(v: FnDecl) -> tree::FnDecl
    decreases v,
{
    tree::FnDecl {
        is_async: v.is_async,
        name: v.name@,
        generics: generic_params_tree(v.generics),
        params: param_trees(v.params@),
        return_type: match v.return_type { Some(x) => Some(type_tree(x)), None => None },
        where_clause: where_clause_tree(v.where_clause),
        body: match v.body { Some(x) => Some(block_tree(x)), None => None },
    }
}

#[verifier::opaque]
pub open spec fn param_tree(v: Param) -> tree::Param
    decreases v,
{
    tree::Param {
        ownership: v.ownership,
        name: v.name@,
        is_variadic: v.is_variadic,
        ty: type_tree(v.ty),
        default: match v.default { Some(x) => Some(expr_tree(x)), None => None },
    }
}

#[verifier::opaque]
pub open spec fn struct_decl_tree(v: StructDecl) -> tree::StructDecl
    decreases v,
{
    tree::StructDecl {
        name: v.name@,
        generics: generic_params_tree(v.generics),
        body: struct_body_tree(v.body),
    }
}

#[verifier::opaque]
pub open spec fn struct_body_tree(v: StructBody) -> tree::StructBody
    decreases v,
{
    match v {
        StructBody::Unit => tree::StructBody::Unit,
        StructBody::Tuple(a) => tree::StructBody::Tuple(type_trees(a@)),
        StructBody::Named(a) => tree::StructBody::Named(field_decl_trees(a@)),
    }
}

#[verifier::opaque]
pub open spec fn field_decl_tree(v: FieldDecl) -> tree::FieldDecl
    decreases v,
{
    tree::FieldDecl {
        visibility: v.visibility,
        name: v.name@,
        ty: type_tree(v.ty),
    }
}

#[verifier::opaque]
pub open spec fn enum_decl_tree(v: EnumDecl) -> tree::EnumDecl
    decreases v,
{
    tree::EnumDecl {
        name: v.name@,
        generics: generic_params_tree(v.generics),
        variants: enum_variant_trees(v.variants@),
    }
}

#[verifier::opaque]
pub open spec fn enum_variant_tree(v: EnumVariant) -> tree::EnumVariant
    decreases v,
{
    tree::EnumVariant {
        name: v.name@,
        data: type_trees(v.data@),
    }
}

#[verifier::opaque]
pub open spec fn trait_decl_tree(v: TraitDecl) -> tree::TraitDecl
    decreases v,
{
    tree::TraitDecl {
        name: v.name@,
        generics: generic_params_tree(v.generics),
        items: trait_item_trees(v.items@),
    }
}

#[verifier::opaque]
pub open spec fn trait_item_tree(v: TraitItem) -> tree::TraitItem
    decreases v,
{
    match v {
        TraitItem::AssocType(a) => tree::TraitItem::AssocType(a@),
        TraitItem::Fn(a) => tree::TraitItem::Fn(fn_decl_tree(a)),
    }
}

#[verifier::opaque]
pub open spec fn type_ref_tree(v: TypeRef) -> tree::TypeRef
    decreases v,
{
    tree::TypeRef {
        name: v.name@,
        args: type_trees(v.args@),
    }
}

#[verifier::opaque]
pub open spec fn impl_decl_tree(v: ImplDecl) -> tree::ImplDecl
    decreases v,
{
    tree::ImplDecl {
        generics: generic_params_tree(v.generics),
        trait_ref: match v.trait_ref { Some(x) => Some(type_ref_tree(x)), None => None },
        target: type_ref_tree(v.target),
        where_clause: where_clause_tree(v.where_clause),
        items: impl_item_trees(v.items@),
    }
}

#[verifier::opaque]
pub open spec fn impl_item_tree(v: ImplItem) -> tree::ImplItem
    decreases v,
{
    match v {
        ImplItem::AssocType(a, b) => tree::ImplItem::AssocType(a@, type_tree(b)),
        ImplItem::Fn(a) => tree::ImplItem::Fn(fn_decl_tree(a)),
    }
}

#[verifier::opaque]
pub open spec fn mod_decl_tree(v: ModDecl) -> tree::ModDecl
    decreases v,
{
    tree::ModDecl {
        name: v.name@,
        items: item_trees(v.items@),
    }
}

#[verifier::opaque]
pub open spec fn use_path_tree(v: UsePath) -> tree::UsePath
    decreases v,
{
    tree::UsePath {
        path: trees(v.path@),
        items: trees(v.items@),
    }
}

#[verifier::opaque]
pub open spec fn const_decl_tree(v: ConstDecl) -> tree::ConstDecl
    decreases v,
{
    tree::ConstDecl {
        name: v.name@,
        ty: type_tree(v.ty),
        value: expr_tree(v.value),
    }
}

#[verifier::opaque]
pub open spec fn static_decl_tree(v: StaticDecl) -> tree::StaticDecl
    decreases v,
{
    tree::StaticDecl {
        name: v.name@,
        ty: type_tree(v.ty),
        value: expr_tree(v.value),
    }
}

#[verifier::opaque]
pub open spec fn type_alias_decl_tree(v: TypeAliasDecl) -> tree::TypeAliasDecl
    decreases v,
{
    tree::TypeAliasDecl {
        name: v.name@,
        generics: generic_params_tree(v.generics),
        ty: type_tree(v.ty),
    }
}

#[verifier::opaque]
pub open spec fn table_decl_tree(v: TableDecl) -> tree::TableDecl
    decreases v,
{
    tree::TableDecl {
        name: v.name@,
        fields: table_field_trees(v.fields@),
    }
}

#[verifier::opaque]
pub open spec fn table_field_tree(v: TableField) -> tree::TableField
    decreases v,
{
    tree::TableField {
        name: v.name@,
        ty: type_tree(v.ty),
        constraints: field_constraint_trees(v.constraints@),
    }
}

#[verifier::opaque]
pub open spec fn field_constraint_tree(v: FieldConstraint) -> tree::FieldConstraint
    decreases v,
{
    match v {
        FieldConstraint::PrimaryKey => tree::FieldConstraint::PrimaryKey,
        FieldConstraint::AutoIncrement => tree::FieldConstraint::AutoIncrement,
        FieldConstraint::Unique => tree::FieldConstraint::Unique,
        FieldConstraint::NotNull => tree::FieldConstraint::NotNull,
        FieldConstraint::Default(a) => tree::FieldConstraint::Default(expr_tree(a)),
    }
}

#[verifier::opaque]
pub open spec fn index_decl_tree(v: IndexDecl) -> tree::IndexDecl
    decreases v,
{
    tree::IndexDecl {
        name: v.name@,
        table: v.table@,
        column: v.column@,
        using_hash: v.using_hash,
    }
}

#[verifier::opaque]
pub open spec fn schema_decl_tree(v: SchemaDecl) -> tree::SchemaDecl
    decreases v,
{
    tree::SchemaDecl {
        name: v.name@,
        versions: version_trees(v.versions@),
    }
}

#[verifier::opaque]
pub open spec fn server_decl_tree(v: ServerDecl) -> tree::ServerDecl
    decreases v,
{
    tree::ServerDecl {
        name: v.name@,
        items: server_item_trees(v.items@),
    }
}

#[verifier::opaque]
pub open spec fn server_item_tree(v: ServerItem) -> tree::ServerItem
    decreases v,
{
    match v {
        ServerItem::Listen(a) => tree::ServerItem::Listen(arg_trees(a@)),
        ServerItem::On(a) => tree::ServerItem::On(on_handler_tree(a)),
    }
}

#[verifier::opaque]
pub open spec fn on_handler_tree(v: OnHandler) -> tree::OnHandler
    decreases v,
{
    tree::OnHandler {
        name: v.name@,
        params: param_trees(v.params@),
        body: block_tree(v.body),
    }
}

#[verifier::opaque]
pub open spec fn actor_decl_tree(v: ActorDecl) -> tree::ActorDecl
    decreases v,
{
    tree::ActorDecl {
        name: v.name@,
        items: actor_item_trees(v.items@),
    }
}

#[verifier::opaque]
pub open spec fn actor_item_tree(v: ActorItem) -> tree::ActorItem
    decreases v,
{
    match v {
        ActorItem::State(a) => tree::ActorItem::State(state_decl_tree(a)),
        ActorItem::On(a) => tree::ActorItem::On(on_handler_tree(a)),
    }
}

#[verifier::opaque]
pub open spec fn state_decl_tree(v: StateDecl) -> tree::StateDecl
    decreases v,
{
    tree::StateDecl {
        name: v.name@,
        ty: type_tree(v.ty),
        value: expr_tree(v.value),
    }
}

#[verifier::opaque]
pub open spec fn ui_decl_tree(v: UiDecl) -> tree::UiDecl
    decreases v,
{
    tree::UiDecl {
        name: v.name@,
        items: ui_item_trees(v.items@),
    }
}

#[verifier::opaque]
pub open spec fn ui_item_tree(v: UiItem) -> tree::UiItem
    decreases v,
{
    match v {
        UiItem::State(a) => tree::UiItem::State(state_decl_tree(a)),
        UiItem::Prop(a) => tree::UiItem::Prop(prop_decl_tree(a)),
        UiItem::Render(a) => tree::UiItem::Render(block_tree(a)),
        UiItem::Mount(a) => tree::UiItem::Mount(block_tree(a)),
        UiItem::Unmount(a) => tree::UiItem::Unmount(block_tree(a)),
        UiItem::Fn(a) => tree::UiItem::Fn(fn_decl_tree(a)),
    }
}

#[verifier::opaque]
pub open spec fn prop_decl_tree(v: PropDecl) -> tree::PropDecl
    decreases v,
{
    tree::PropDecl {
        name: v.name@,
        ty: type_tree(v.ty),
    }
}

#[verifier::opaque]
pub open spec fn type_tree(v: Type) -> tree::Type
    decreases v,
{
    match v {
        Type::Primitive(a) => tree::Type::Primitive(a@),
        Type::Named(a, b) => tree::Type::Named(a@, type_trees(b@)),
        Type::Array(a, b) => tree::Type::Array(
            Box::new(type_tree(*a)),
            match b { Some(x) => Some(Box::new(expr_tree(*x))), None => None },
        ),
        Type::Tuple(a) => tree::Type::Tuple(type_trees(a@)),
        Type::Ref { lifetime, mutable, inner } => tree::Type::Ref {
            lifetime: match lifetime { Some(x) => Some(x@), None => None },
            mutable,
            inner: Box::new(type_tree(*inner)),
        },
        Type::Dyn(a, b) => tree::Type::Dyn(a@, type_trees(b@)),
        Type::Fn(a, b) => tree::Type::Fn(type_trees(a@), Box::new(type_tree(*b))),
        Type::Option(a) => tree::Type::Option(Box::new(type_tree(*a))),
        Type::Result(a, b) => tree::Type::Result(Box::new(type_tree(*a)), Box::new(type_tree(*b))),
        Type::Unit => tree::Type::Unit,
        Type::Never => tree::Type::Never,
        Type::ConstArg(a) => tree::Type::ConstArg(Box::new(expr_tree(*a))),
    }
}

#[verifier::opaque]
pub open spec fn pattern_tree(v: Pattern) -> tree::Pattern
    decreases v,
{
    match v {
        Pattern::Wildcard => tree::Pattern::Wildcard,
        Pattern::Mut(a) => tree::Pattern::Mut(a@),
        Pattern::Tuple(a) => tree::Pattern::Tuple(pattern_trees(a@)),
        Pattern::Array(a, b) => tree::Pattern::Array(
            pattern_trees(a@),
            match b {
                Some(x) => Some(match x { Some(y) => Some(y@), None => None }),
                None => None,
            },
        ),
        Pattern::Literal(a) => tree::Pattern::Literal(literal_tree(a)),
        Pattern::TupleStruct(a, b) => tree::Pattern::TupleStruct(a@, pattern_trees(b@)),
        Pattern::Ident(a) => tree::Pattern::Ident(a@),
        Pattern::Or(a) => tree::Pattern::Or(pattern_trees(a@)),
    }
}

#[verifier::opaque]
pub open spec fn literal_tree(v: Literal) -> tree::Literal
    decreases v,
{
    match v {
        Literal::Int(a) => tree::Literal::Int(a@),
        Literal::IntHex(a) => tree::Literal::IntHex(a@),
        Literal::IntOct(a) => tree::Literal::IntOct(a@),
        Literal::IntBin(a) => tree::Literal::IntBin(a@),
        Literal::Float(a) => tree::Literal::Float(a@),
        Literal::Str(a) => tree::Literal::Str(a@),
        Literal::RawStr(a) => tree::Literal::RawStr(a@),
        Literal::Char(a) => tree::Literal::Char(a@),
        Literal::Bool(a) => tree::Literal::Bool(a),
        Literal::Null => tree::Literal::Null,
    }
}

#[verifier::opaque]
pub open spec fn block_tree(v: Block) -> tree::Block
    decreases v,
{
    tree::Block {
        stmts: stmt_trees(v.stmts@),
        tail: match v.tail { Some(x) => Some(Box::new(expr_tree(*x))), None => None },
    }
}

#[verifier::opaque]
pub open spec fn stmt_tree(v: Stmt) -> tree::Stmt
    decreases v,
{
    match v {
        Stmt::Let { mutable, pattern, ty, value } => tree::Stmt::Let {
            mutable,
            pattern: pattern_tree(pattern),
            ty: match ty { Some(x) => Some(type_tree(x)), None => None },
            value: match value { Some(x) => Some(expr_tree(x)), None => None },
        },
        Stmt::Return(a) => tree::Stmt::Return(
            match a { Some(x) => Some(expr_tree(x)), None => None },
        ),
        Stmt::Break { label, value } => tree::Stmt::Break {
            label: match label { Some(x) => Some(x@), None => None },
            value: match value { Some(x) => Some(expr_tree(x)), None => None },
        },
        Stmt::Continue { label } => tree::Stmt::Continue {
            label: match label { Some(x) => Some(x@), None => None },
        },
        Stmt::Yield(a) => tree::Stmt::Yield(expr_tree(a)),
        Stmt::Expr(a) => tree::Stmt::Expr(expr_tree(a)),
        Stmt::Item(a) => tree::Stmt::Item(Box::new(item_tree(*a))),
        Stmt::TargetBlock(a, b) => tree::Stmt::TargetBlock(a, block_tree(b)),
    }
}

#[verifier::opaque]
pub open spec fn expr_tree(v: Expr) -> tree::Expr
    decreases v,
{
    match v {
        Expr::Literal(a) => tree::Expr::Literal(literal_tree(a)),
        Expr::Ident(a) => tree::Expr::Ident(a@),
        Expr::Path(a) => tree::Expr::Path(trees(a@)),
        Expr::Paren(a) => tree::Expr::Paren(Box::new(expr_tree(*a))),
        Expr::Unary { op, expr } => tree::Expr::Unary { op, expr: Box::new(expr_tree(*expr)) },
        Expr::Binary { op, lhs, rhs } => tree::Expr::Binary {
            op,
            lhs: Box::new(expr_tree(*lhs)),
            rhs: Box::new(expr_tree(*rhs)),
        },
        Expr::Assign { op, lhs, rhs } => tree::Expr::Assign {
            op,
            lhs: Box::new(expr_tree(*lhs)),
            rhs: Box::new(expr_tree(*rhs)),
        },
        Expr::Range { lo, hi, inclusive } => tree::Expr::Range {
            lo: Box::new(expr_tree(*lo)),
            hi: Box::new(expr_tree(*hi)),
            inclusive,
        },
        Expr::Cast { expr, ty } => tree::Expr::Cast {
            expr: Box::new(expr_tree(*expr)),
            ty: Box::new(type_tree(*ty)),
        },
        Expr::Await(a) => tree::Expr::Await(Box::new(expr_tree(*a))),
        Expr::Borrow { mutable, expr } => tree::Expr::Borrow {
            mutable,
            expr: Box::new(expr_tree(*expr)),
        },
        Expr::MethodCall { receiver, name, args } => tree::Expr::MethodCall {
            receiver: Box::new(expr_tree(*receiver)),
            name: name@,
            args: arg_trees(args@),
        },
        Expr::Field { expr, name } => tree::Expr::Field {
            expr: Box::new(expr_tree(*expr)),
            name: name@,
        },
        Expr::Propagate(a) => tree::Expr::Propagate(Box::new(expr_tree(*a))),
        Expr::Index { expr, index } => tree::Expr::Index {
            expr: Box::new(expr_tree(*expr)),
            index: Box::new(expr_tree(*index)),
        },
        Expr::Call { callee, args } => tree::Expr::Call {
            callee: Box::new(expr_tree(*callee)),
            args: arg_trees(args@),
        },
        Expr::Styled { expr, props } => tree::Expr::Styled {
            expr: Box::new(expr_tree(*expr)),
            props: named_expr_trees(props@),
        },
        Expr::Layout { expr, props, children } => tree::Expr::Layout {
            expr: Box::new(expr_tree(*expr)),
            props: named_expr_trees(props@),
            children: expr_trees(children@),
        },
        Expr::EventHandler { event, body } => tree::Expr::EventHandler {
            event: event@,
            body: Box::new(expr_tree(*body)),
        },
        Expr::If(a) => tree::Expr::If(Box::new(if_expr_tree(*a))),
        Expr::Match(a) => tree::Expr::Match(Box::new(match_expr_tree(*a))),
        Expr::Loop(a) => tree::Expr::Loop(Box::new(loop_expr_tree(*a))),
        Expr::Spawn { is_move, body } => tree::Expr::Spawn { is_move, body: spawn_body_tree(body) },
        Expr::Select(a) => tree::Expr::Select(select_arm_trees(a@)),
        Expr::Query(a) => tree::Expr::Query(query_expr_tree(a)),
        Expr::TryCatch { try_block, catch_var, catch_block } => tree::Expr::TryCatch {
            try_block: block_tree(try_block),
            catch_var: catch_var@,
            catch_block: block_tree(catch_block),
        },
        Expr::Throw(a) => tree::Expr::Throw(Box::new(expr_tree(*a))),
        Expr::Return(a) => tree::Expr::Return(
            match a { Some(x) => Some(Box::new(expr_tree(*x))), None => None },
        ),
        Expr::Yield(a) => tree::Expr::Yield(Box::new(expr_tree(*a))),
        Expr::Closure(a) => tree::Expr::Closure(Box::new(closure_expr_tree(*a))),
        Expr::Unsafe(a) => tree::Expr::Unsafe(Box::new(block_tree(*a))),
        Expr::Block(a) => tree::Expr::Block(Box::new(block_tree(*a))),
        Expr::Array(a) => tree::Expr::Array(expr_trees(a@)),
        Expr::Tuple(a) => tree::Expr::Tuple(expr_trees(a@)),
        Expr::ComponentChildren { name, children } => tree::Expr::ComponentChildren {
            name: name@,
            children: expr_trees(children@),
        },
        Expr::StructLit { name, fields, spread } => tree::Expr::StructLit {
            name: name@,
            fields: named_expr_trees(fields@),
            spread: match spread { Some(x) => Some(Box::new(expr_tree(*x))), None => None },
        },
    }
}

#[verifier::opaque]
pub open spec fn arg_tree(v: Arg) -> tree::Arg
    decreases v,
{
    tree::Arg {
        name: match v.name { Some(x) => Some(x@), None => None },
        value: expr_tree(v.value),
    }
}

#[verifier::opaque]
pub open spec fn if_expr_tree(v: IfExpr) -> tree::IfExpr
    decreases v,
{
    tree::IfExpr {
        cond: expr_tree(v.cond),
        then_block: block_tree(v.then_block),
        else_branch: match v.else_branch { Some(x) => Some(else_branch_tree(x)), None => None },
    }
}

#[verifier::opaque]
pub open spec fn else_branch_tree(v: ElseBranch) -> tree::ElseBranch
    decreases v,
{
    match v {
        ElseBranch::If(a) => tree::ElseBranch::If(Box::new(if_expr_tree(*a))),
        ElseBranch::Block(a) => tree::ElseBranch::Block(block_tree(a)),
    }
}

#[verifier::opaque]
pub open spec fn match_expr_tree(v: MatchExpr) -> tree::MatchExpr
    decreases v,
{
    tree::MatchExpr {
        scrutinee: expr_tree(v.scrutinee),
        arms: match_arm_trees(v.arms@),
    }
}

#[verifier::opaque]
pub open spec fn match_arm_tree(v: MatchArm) -> tree::MatchArm
    decreases v,
{
    tree::MatchArm {
        patterns: pattern_trees(v.patterns@),
        guard: match v.guard { Some(x) => Some(expr_tree(x)), None => None },
        body: match_arm_body_tree(v.body),
    }
}

#[verifier::opaque]
pub open spec fn match_arm_body_tree(v: MatchArmBody) -> tree::MatchArmBody
    decreases v,
{
    match v {
        MatchArmBody::Block(a) => tree::MatchArmBody::Block(block_tree(a)),
        MatchArmBody::Expr(a) => tree::MatchArmBody::Expr(Box::new(expr_tree(*a))),
    }
}

#[verifier::opaque]
pub open spec fn loop_expr_tree(v: LoopExpr) -> tree::LoopExpr
    decreases v,
{
    match v {
        LoopExpr::Loop { label, body } => tree::LoopExpr::Loop {
            label: match label { Some(x) => Some(x@), None => None },
            body: block_tree(body),
        },
        LoopExpr::While { label, cond, body } => tree::LoopExpr::While {
            label: match label { Some(x) => Some(x@), None => None },
            cond: Box::new(expr_tree(*cond)),
            body: block_tree(body),
        },
        LoopExpr::For { label, pattern, iter, body } => tree::LoopExpr::For {
            label: match label { Some(x) => Some(x@), None => None },
            pattern: pattern_tree(pattern),
            iter: Box::new(expr_tree(*iter)),
            body: block_tree(body),
        },
        LoopExpr::DoWhile { body, cond } => tree::LoopExpr::DoWhile {
            body: block_tree(body),
            cond: Box::new(expr_tree(*cond)),
        },
    }
}

#[verifier::opaque]
pub open spec fn closure_expr_tree(v: ClosureExpr) -> tree::ClosureExpr
    decreases v,
{
    tree::ClosureExpr {
        is_move: v.is_move,
        params: closure_param_trees(v.params@),
        return_type: match v.return_type { Some(x) => Some(type_tree(x)), None => None },
        body: closure_body_tree(v.body),
    }
}

#[verifier::opaque]
pub open spec fn closure_body_tree(v: ClosureBody) -> tree::ClosureBody
    decreases v,
{
    match v {
        ClosureBody::Block(a) => tree::ClosureBody::Block(block_tree(a)),
        ClosureBody::Expr(a) => tree::ClosureBody::Expr(Box::new(expr_tree(*a))),
    }
}

#[verifier::opaque]
pub open spec fn spawn_body_tree(v: SpawnBody) -> tree::SpawnBody
    decreases v,
{
    match v {
        SpawnBody::Block(a) => tree::SpawnBody::Block(block_tree(a)),
        SpawnBody::Closure(a) => tree::SpawnBody::Closure(Box::new(closure_expr_tree(*a))),
    }
}

#[verifier::opaque]
pub open spec fn select_arm_tree(v: SelectArm) -> tree::SelectArm
    decreases v,
{
    tree::SelectArm {
        pattern: pattern_tree(v.pattern),
        channel_expr: expr_tree(v.channel_expr),
        body: expr_tree(v.body),
    }
}

#[verifier::opaque]
pub open spec fn query_expr_tree(v: QueryExpr) -> tree::QueryExpr
    decreases v,
{
    tree::QueryExpr {
        table: v.table@,
        clauses: query_clause_trees(v.clauses@),
    }
}

#[verifier::opaque]
pub open spec fn query_clause_tree(v: QueryClause) -> tree::QueryClause
    decreases v,
{
    match v {
        QueryClause::Where(a) => tree::QueryClause::Where(Box::new(expr_tree(*a))),
        QueryClause::OrderBy(a) => tree::QueryClause::OrderBy(a@),
        QueryClause::Insert(a) => tree::QueryClause::Insert(Box::new(expr_tree(*a))),
        QueryClause::Update(a) => tree::QueryClause::Update(named_expr_trees(a@)),
        QueryClause::Delete => tree::QueryClause::Delete,
        QueryClause::First => tree::QueryClause::First,
        QueryClause::Count => tree::QueryClause::Count,
        QueryClause::Join { table, on } => tree::QueryClause::Join {
            table: table@,
            on: Box::new(expr_tree(*on)),
        },
    }
}

proof fn generic_param_trees_are(v: Seq<GenericParam>)
    ensures
        generic_param_trees(v) == trees(v),
{
    reveal(generic_param_tree);
    assert(generic_param_trees(v) =~= trees(v));
}

proof fn where_bound_trees_are(v: Seq<WhereBound>)
    ensures
        where_bound_trees(v) == trees(v),
{
    reveal(where_bound_tree);
    assert(where_bound_trees(v) =~= trees(v));
}

proof fn item_trees_are(v: Seq<Item>)
    ensures
        item_trees(v) == trees(v),
{
    reveal(item_tree);
    assert(item_trees(v) =~= trees(v));
}

proof fn attribute_trees_are(v: Seq<Attribute>)
    ensures
        attribute_trees(v) == trees(v),
{
    reveal(attribute_tree);
    assert(attribute_trees(v) =~= trees(v));
}

proof fn expr_trees_are(v: Seq<Expr>)
    ensures
        expr_trees(v) == trees(v),
{
    reveal(expr_tree);
    assert(expr_trees(v) =~= trees(v));
}

proof fn trait_bound_trees_are(v: Seq<TraitBound>)
    ensures
        trait_bound_trees(v) == trees(v),
{
    reveal(trait_bound_tree);
    assert(trait_bound_trees(v) =~= trees(v));
}

proof fn type_trees_are(v: Seq<Type>)
    ensures
        type_trees(v) == trees(v),
{
    reveal(type_tree);
    assert(type_trees(v) =~= trees(v));
}

proof fn param_trees_are(v: Seq<Param>)
    ensures
        param_trees(v) == trees(v),
{
    reveal(param_tree);
    assert(param_trees(v) =~= trees(v));
}

proof fn field_decl_trees_are(v: Seq<FieldDecl>)
    ensures
        field_decl_trees(v) == trees(v),
{
    reveal(field_decl_tree);
    assert(field_decl_trees(v) =~= trees(v));
}

proof fn enum_variant_trees_are(v: Seq<EnumVariant>)
    ensures
        enum_variant_trees(v) == trees(v),
{
    reveal(enum_variant_tree);
    assert(enum_variant_trees(v) =~= trees(v));
}

proof fn trait_item_trees_are(v: Seq<TraitItem>)
    ensures
        trait_item_trees(v) == trees(v),
{
    reveal(trait_item_tree);
    assert(trait_item_trees(v) =~= trees(v));
}

proof fn impl_item_trees_are(v: Seq<ImplItem>)
    ensures
        impl_item_trees(v) == trees(v),
{
    reveal(impl_item_tree);
    assert(impl_item_trees(v) =~= trees(v));
}

proof fn table_field_trees_are(v: Seq<TableField>)
    ensures
        table_field_trees(v) == trees(v),
{
    reveal(table_field_tree);
    assert(table_field_trees(v) =~= trees(v));
}

proof fn field_constraint_trees_are(v: Seq<FieldConstraint>)
    ensures
        field_constraint_trees(v) == trees(v),
{
    reveal(field_constraint_tree);
    assert(field_constraint_trees(v) =~= trees(v));
}

proof fn version_trees_are(v: Seq<(u64, Vec<Item>)>)
    ensures
        version_trees(v) == trees(v),
{
    assert forall|i: int| 0 <= i < v.len() implies (#[trigger] version_trees(v)[i])
        == v[i].tree() by {
        item_trees_are(v[i].1@);
    }
    assert(version_trees(v) =~= trees(v));
}

proof fn server_item_trees_are(v: Seq<ServerItem>)
    ensures
        server_item_trees(v) == trees(v),
{
    reveal(server_item_tree);
    assert(server_item_trees(v) =~= trees(v));
}

proof fn arg_trees_are(v: Seq<Arg>)
    ensures
        arg_trees(v) == trees(v),
{
    reveal(arg_tree);
    assert(arg_trees(v) =~= trees(v));
}

proof fn actor_item_trees_are(v: Seq<ActorItem>)
    ensures
        actor_item_trees(v) == trees(v),
{
    reveal(actor_item_tree);
    assert(actor_item_trees(v) =~= trees(v));
}

proof fn ui_item_trees_are(v: Seq<UiItem>)
    ensures
        ui_item_trees(v) == trees(v),
{
    reveal(ui_item_tree);
    assert(ui_item_trees(v) =~= trees(v));
}

proof fn pattern_trees_are(v: Seq<Pattern>)
    ensures
        pattern_trees(v) == trees(v),
{
    reveal(pattern_tree);
    assert(pattern_trees(v) =~= trees(v));
}

proof fn stmt_trees_are(v: Seq<Stmt>)
    ensures
        stmt_trees(v) == trees(v),
{
    reveal(stmt_tree);
    assert(stmt_trees(v) =~= trees(v));
}

proof fn named_expr_trees_are(v: Seq<(String, Expr)>)
    ensures
        named_expr_trees(v) == trees(v),
{
    reveal(expr_tree);
    assert(named_expr_trees(v) =~= trees(v));
}

proof fn select_arm_trees_are(v: Seq<SelectArm>)
    ensures
        select_arm_trees(v) == trees(v),
{
    reveal(select_arm_tree);
    assert(select_arm_trees(v) =~= trees(v));
}

proof fn match_arm_trees_are(v: Seq<MatchArm>)
    ensures
        match_arm_trees(v) == trees(v),
{
    reveal(match_arm_tree);
    assert(match_arm_trees(v) =~= trees(v));
}

proof fn closure_param_trees_are(v: Seq<(Pattern, Option<Type>)>)
    ensures
        closure_param_trees(v) == trees(v),
{
    reveal(pattern_tree);
    reveal(type_tree);
    assert(closure_param_trees(v) =~= trees(v));
}

proof fn query_clause_trees_are(v: Seq<QueryClause>)
    ensures
        query_clause_trees(v) == trees(v),
{
    reveal(query_clause_tree);
    assert(query_clause_trees(v) =~= trees(v));
}

impl GenericParams {
    pub proof fn unfold(self)
        ensures
            self.tree() == trees(self.0@),
    {
        reveal(generic_params_tree);
        generic_param_trees_are(self.0@);
    }
}

impl WhereClause {
    pub proof fn unfold(self)
        ensures
            self.tree() == trees(self.0@),
    {
        reveal(where_clause_tree);
        where_bound_trees_are(self.0@);
    }
}

impl Program {
    pub proof fn unfold(self)
        ensures
            self.tree() == (tree::Program {
                items: trees(self.items@),
            }),
    {
        reveal(program_tree);
        item_trees_are(self.items@);
    }
}

impl Item {
    pub proof fn unfold(self)
        ensures
            self.tree() == (tree::Item {
                attrs: trees(self.attrs@),
                visibility: self.visibility,
                kind: self.kind.tree(),
                span: self.span,
            }),
    {
        reveal(item_tree);
        reveal(item_kind_tree);
        attribute_trees_are(self.attrs@);
    }
}

impl Attribute {
    pub proof fn unfold(self)
        ensures
            self.tree() == (tree::Attribute {
                name: self.name@,
                args: trees(self.args@),
            }),
    {
        reveal(attribute_tree);
        expr_trees_are(self.args@);
    }
}

impl ItemKind {
    pub proof fn unfold(self)
        ensures
            self.tree() == (match self {
                ItemKind::Fn(a) => tree::ItemKind::Fn(a.tree()),
                ItemKind::Struct(a) => tree::ItemKind::Struct(a.tree()),
                ItemKind::Enum(a) => tree::ItemKind::Enum(a.tree()),
                ItemKind::Trait(a) => tree::ItemKind::Trait(a.tree()),
                ItemKind::Impl(a) => tree::ItemKind::Impl(a.tree()),
                ItemKind::Mod(a) => tree::ItemKind::Mod(a.tree()),
                ItemKind::Use(a) => tree::ItemKind::Use(a.tree()),
                ItemKind::Import(a) => tree::ItemKind::Import(trees(a@)),
                ItemKind::Const(a) => tree::ItemKind::Const(a.tree()),
                ItemKind::Static(a) => tree::ItemKind::Static(a.tree()),
                ItemKind::TypeAlias(a) => tree::ItemKind::TypeAlias(a.tree()),
                ItemKind::Table(a) => tree::ItemKind::Table(a.tree()),
                ItemKind::Index(a) => tree::ItemKind::Index(a.tree()),
                ItemKind::Schema(a) => tree::ItemKind::Schema(a.tree()),
                ItemKind::Ui(a) => tree::ItemKind::Ui(a.tree()),
                ItemKind::Component(a) => tree::ItemKind::Component(a.tree()),
                ItemKind::Server(a) => tree::ItemKind::Server(a.tree()),
                ItemKind::Actor(a) => tree::ItemKind::Actor(a.tree()),
                ItemKind::TargetBlock(a, b) => tree::ItemKind::TargetBlock(a, trees(b@)),
            }),
    {
        reveal(item_kind_tree);
        reveal(actor_decl_tree);
        reveal(const_decl_tree);
        reveal(enum_decl_tree);
        reveal(fn_decl_tree);
        reveal(impl_decl_tree);
        reveal(index_decl_tree);
        reveal(mod_decl_tree);
        reveal(schema_decl_tree);
        reveal(server_decl_tree);
        reveal(static_decl_tree);
        reveal(struct_decl_tree);
        reveal(table_decl_tree);
        reveal(trait_decl_tree);
        reveal(type_alias_decl_tree);
        reveal(ui_decl_tree);
        reveal(use_path_tree);
        match self {
            ItemKind::TargetBlock(_, b) => {
                item_trees_are(b@);
            },
            _ => {},
        }
    }
}

impl GenericParam {
    pub proof fn unfold(self)
        ensures
            self.tree() == (match self {
                GenericParam::Type { name, bounds } => tree::GenericParam::Type {
                    name: name@,
                    bounds: trees(bounds@),
                },
                GenericParam::Const { name, ty } => tree::GenericParam::Const {
                    name: name@,
                    ty: ty.tree(),
                },
            }),
    {
        reveal(generic_param_tree);
        reveal(type_tree);
        match self {
            GenericParam::Type { bounds, .. } => {
                trait_bound_trees_are(bounds@);
            },
            _ => {},
        }
    }
}

impl TraitBound {
    pub proof fn unfold(self)
        ensures
            self.tree() == (tree::TraitBound {
                name: self.name@,
                args: trees(self.args@),
            }),
    {
        reveal(trait_bound_tree);
        type_trees_are(self.args@);
    }
}

impl WhereBound {
    pub proof fn unfold(self)
        ensures
            self.tree() == (tree::WhereBound {
                name: self.name@,
                bounds: trees(self.bounds@),
            }),
    {
        reveal(where_bound_tree);
        trait_bound_trees_are(self.bounds@);
    }
}

impl FnDecl {
    pub proof fn unfold(self)
        ensures
            self.tree() == (tree::FnDecl {
                is_async: self.is_async,
                name: self.name@,
                generics: self.generics.tree(),
                params: trees(self.params@),
                return_type: opt_tree(self.return_type),
                where_clause: self.where_clause.tree(),
                body: opt_tree(self.body),
            }),
    {
        reveal(fn_decl_tree);
        reveal(block_tree);
        reveal(generic_params_tree);
        reveal(type_tree);
        reveal(where_clause_tree);
        param_trees_are(self.params@);
    }
}

impl Param {
    pub proof fn unfold(self)
        ensures
            self.tree() == (tree::Param {
                ownership: self.ownership,
                name: self.name@,
                is_variadic: self.is_variadic,
                ty: self.ty.tree(),
                default: opt_tree(self.default),
            }),
    {
        reveal(param_tree);
        reveal(expr_tree);
        reveal(type_tree);
    }
}

impl StructDecl {
    pub proof fn unfold(self)
        ensures
            self.tree() == (tree::StructDecl {
                name: self.name@,
                generics: self.generics.tree(),
                body: self.body.tree(),
            }),
    {
        reveal(struct_decl_tree);
        reveal(generic_params_tree);
        reveal(struct_body_tree);
    }
}

impl StructBody {
    pub proof fn unfold(self)
        ensures
            self.tree() == (match self {
                StructBody::Unit => tree::StructBody::Unit,
                StructBody::Tuple(a) => tree::StructBody::Tuple(trees(a@)),
                StructBody::Named(a) => tree::StructBody::Named(trees(a@)),
            }),
    {
        reveal(struct_body_tree);
        match self {
            StructBody::Tuple(a) => {
                type_trees_are(a@);
            },
            StructBody::Named(a) => {
                field_decl_trees_are(a@);
            },
            _ => {},
        }
    }
}

impl FieldDecl {
    pub proof fn unfold(self)
        ensures
            self.tree() == (tree::FieldDecl {
                visibility: self.visibility,
                name: self.name@,
                ty: self.ty.tree(),
            }),
    {
        reveal(field_decl_tree);
        reveal(type_tree);
    }
}

impl EnumDecl {
    pub proof fn unfold(self)
        ensures
            self.tree() == (tree::EnumDecl {
                name: self.name@,
                generics: self.generics.tree(),
                variants: trees(self.variants@),
            }),
    {
        reveal(enum_decl_tree);
        reveal(generic_params_tree);
        enum_variant_trees_are(self.variants@);
    }
}

impl EnumVariant {
    pub proof fn unfold(self)
        ensures
            self.tree() == (tree::EnumVariant {
                name: self.name@,
                data: trees(self.data@),
            }),
    {
        reveal(enum_variant_tree);
        type_trees_are(self.data@);
    }
}

impl TraitDecl {
    pub proof fn unfold(self)
        ensures
            self.tree() == (tree::TraitDecl {
                name: self.name@,
                generics: self.generics.tree(),
                items: trees(self.items@),
            }),
    {
        reveal(trait_decl_tree);
        reveal(generic_params_tree);
        trait_item_trees_are(self.items@);
    }
}

impl TraitItem {
    pub proof fn unfold(self)
        ensures
            self.tree() == (match self {
                TraitItem::AssocType(a) => tree::TraitItem::AssocType(a@),
                TraitItem::Fn(a) => tree::TraitItem::Fn(a.tree()),
            }),
    {
        reveal(trait_item_tree);
        reveal(fn_decl_tree);
    }
}

impl TypeRef {
    pub proof fn unfold(self)
        ensures
            self.tree() == (tree::TypeRef {
                name: self.name@,
                args: trees(self.args@),
            }),
    {
        reveal(type_ref_tree);
        type_trees_are(self.args@);
    }
}

impl ImplDecl {
    pub proof fn unfold(self)
        ensures
            self.tree() == (tree::ImplDecl {
                generics: self.generics.tree(),
                trait_ref: opt_tree(self.trait_ref),
                target: self.target.tree(),
                where_clause: self.where_clause.tree(),
                items: trees(self.items@),
            }),
    {
        reveal(impl_decl_tree);
        reveal(generic_params_tree);
        reveal(type_ref_tree);
        reveal(where_clause_tree);
        impl_item_trees_are(self.items@);
    }
}

impl ImplItem {
    pub proof fn unfold(self)
        ensures
            self.tree() == (match self {
                ImplItem::AssocType(a, b) => tree::ImplItem::AssocType(a@, b.tree()),
                ImplItem::Fn(a) => tree::ImplItem::Fn(a.tree()),
            }),
    {
        reveal(impl_item_tree);
        reveal(fn_decl_tree);
        reveal(type_tree);
    }
}

impl ModDecl {
    pub proof fn unfold(self)
        ensures
            self.tree() == (tree::ModDecl {
                name: self.name@,
                items: trees(self.items@),
            }),
    {
        reveal(mod_decl_tree);
        item_trees_are(self.items@);
    }
}

impl UsePath {
    pub proof fn unfold(self)
        ensures
            self.tree() == (tree::UsePath {
                path: trees(self.path@),
                items: trees(self.items@),
            }),
    {
        reveal(use_path_tree);
    }
}

impl ConstDecl {
    pub proof fn unfold(self)
        ensures
            self.tree() == (tree::ConstDecl {
                name: self.name@,
                ty: self.ty.tree(),
                value: self.value.tree(),
            }),
    {
        reveal(const_decl_tree);
        assert(self.tree().ty == self.ty.tree()) by {
            reveal(const_decl_tree);
            reveal(type_tree);
        }
        assert(self.tree().value == self.value.tree()) by {
            reveal(const_decl_tree);
            reveal(expr_tree);
        }
    }
}

impl StaticDecl {
    pub proof fn unfold(self)
        ensures
            self.tree() == (tree::StaticDecl {
                name: self.name@,
                ty: self.ty.tree(),
                value: self.value.tree(),
            }),
    {
        reveal(static_decl_tree);
        assert(self.tree().ty == self.ty.tree()) by {
            reveal(static_decl_tree);
            reveal(type_tree);
        }
        assert(self.tree().value == self.value.tree()) by {
            reveal(static_decl_tree);
            reveal(expr_tree);
        }
    }
}

impl TypeAliasDecl {
    pub proof fn unfold(self)
        ensures
            self.tree() == (tree::TypeAliasDecl {
                name: self.name@,
                generics: self.generics.tree(),
                ty: self.ty.tree(),
            }),
    {
        reveal(type_alias_decl_tree);
        reveal(generic_params_tree);
        reveal(type_tree);
    }
}

impl TableDecl {
    pub proof fn unfold(self)
        ensures
            self.tree() == (tree::TableDecl {
                name: self.name@,
                fields: trees(self.fields@),
            }),
    {
        reveal(table_decl_tree);
        table_field_trees_are(self.fields@);
    }
}

impl TableField {
    pub proof fn unfold(self)
        ensures
            self.tree() == (tree::TableField {
                name: self.name@,
                ty: self.ty.tree(),
                constraints: trees(self.constraints@),
            }),
    {
        reveal(table_field_tree);
        reveal(type_tree);
        field_constraint_trees_are(self.constraints@);
    }
}

impl FieldConstraint {
    pub proof fn unfold(self)
        ensures
            self.tree() == (match self {
                FieldConstraint::PrimaryKey => tree::FieldConstraint::PrimaryKey,
                FieldConstraint::AutoIncrement => tree::FieldConstraint::AutoIncrement,
                FieldConstraint::Unique => tree::FieldConstraint::Unique,
                FieldConstraint::NotNull => tree::FieldConstraint::NotNull,
                FieldConstraint::Default(a) => tree::FieldConstraint::Default(a.tree()),
            }),
    {
        reveal(field_constraint_tree);
        reveal(expr_tree);
    }
}

impl IndexDecl {
    pub proof fn unfold(self)
        ensures
            self.tree() == (tree::IndexDecl {
                name: self.name@,
                table: self.table@,
                column: self.column@,
                using_hash: self.using_hash,
            }),
    {
        reveal(index_decl_tree);
    }
}

impl SchemaDecl {
    pub proof fn unfold(self)
        ensures
            self.tree() == (tree::SchemaDecl {
                name: self.name@,
                versions: trees(self.versions@),
            }),
    {
        reveal(schema_decl_tree);
        version_trees_are(self.versions@);
    }
}

impl ServerDecl {
    pub proof fn unfold(self)
        ensures
            self.tree() == (tree::ServerDecl {
                name: self.name@,
                items: trees(self.items@),
            }),
    {
        reveal(server_decl_tree);
        server_item_trees_are(self.items@);
    }
}

impl ServerItem {
    pub proof fn unfold(self)
        ensures
            self.tree() == (match self {
                ServerItem::Listen(a) => tree::ServerItem::Listen(trees(a@)),
                ServerItem::On(a) => tree::ServerItem::On(a.tree()),
            }),
    {
        reveal(server_item_tree);
        reveal(on_handler_tree);
        match self {
            ServerItem::Listen(a) => {
                arg_trees_are(a@);
            },
            _ => {},
        }
    }
}

impl OnHandler {
    pub proof fn unfold(self)
        ensures
            self.tree() == (tree::OnHandler {
                name: self.name@,
                params: trees(self.params@),
                body: self.body.tree(),
            }),
    {
        reveal(on_handler_tree);
        reveal(block_tree);
        param_trees_are(self.params@);
    }
}

impl ActorDecl {
    pub proof fn unfold(self)
        ensures
            self.tree() == (tree::ActorDecl {
                name: self.name@,
                items: trees(self.items@),
            }),
    {
        reveal(actor_decl_tree);
        actor_item_trees_are(self.items@);
    }
}

impl ActorItem {
    pub proof fn unfold(self)
        ensures
            self.tree() == (match self {
                ActorItem::State(a) => tree::ActorItem::State(a.tree()),
                ActorItem::On(a) => tree::ActorItem::On(a.tree()),
            }),
    {
        reveal(actor_item_tree);
        reveal(on_handler_tree);
        reveal(state_decl_tree);
    }
}

impl StateDecl {
    pub proof fn unfold(self)
        ensures
            self.tree() == (tree::StateDecl {
                name: self.name@,
                ty: self.ty.tree(),
                value: self.value.tree(),
            }),
    {
        reveal(state_decl_tree);
        assert(self.tree().ty == self.ty.tree()) by {
            reveal(state_decl_tree);
            reveal(type_tree);
        }
        assert(self.tree().value == self.value.tree()) by {
            reveal(state_decl_tree);
            reveal(expr_tree);
        }
    }
}

impl UiDecl {
    pub proof fn unfold(self)
        ensures
            self.tree() == (tree::UiDecl {
                name: self.name@,
                items: trees(self.items@),
            }),
    {
        reveal(ui_decl_tree);
        ui_item_trees_are(self.items@);
    }
}

impl UiItem {
    pub proof fn unfold(self)
        ensures
            self.tree() == (match self {
                UiItem::State(a) => tree::UiItem::State(a.tree()),
                UiItem::Prop(a) => tree::UiItem::Prop(a.tree()),
                UiItem::Render(a) => tree::UiItem::Render(a.tree()),
                UiItem::Mount(a) => tree::UiItem::Mount(a.tree()),
                UiItem::Unmount(a) => tree::UiItem::Unmount(a.tree()),
                UiItem::Fn(a) => tree::UiItem::Fn(a.tree()),
            }),
    {
        reveal(ui_item_tree);
        reveal(block_tree);
        reveal(fn_decl_tree);
        reveal(prop_decl_tree);
        reveal(state_decl_tree);
    }
}

impl PropDecl {
    pub proof fn unfold(self)
        ensures
            self.tree() == (tree::PropDecl {
                name: self.name@,
                ty: self.ty.tree(),
            }),
    {
        reveal(prop_decl_tree);
        reveal(type_tree);
    }
}

impl Type {
    pub proof fn unfold(self)
        ensures
            self.tree() == (match self {
                Type::Primitive(a) => tree::Type::Primitive(a@),
                Type::Named(a, b) => tree::Type::Named(a@, trees(b@)),
                Type::Array(a, b) => tree::Type::Array(Box::new(a.tree()), opt_box_tree(b)),
                Type::Tuple(a) => tree::Type::Tuple(trees(a@)),
                Type::Ref { lifetime, mutable, inner } => tree::Type::Ref {
                    lifetime: opt_tree(lifetime),
                    mutable,
                    inner: Box::new(inner.tree()),
                },
                Type::Dyn(a, b) => tree::Type::Dyn(a@, trees(b@)),
                Type::Fn(a, b) => tree::Type::Fn(trees(a@), Box::new(b.tree())),
                Type::Option(a) => tree::Type::Option(Box::new(a.tree())),
                Type::Result(a, b) => tree::Type::Result(Box::new(a.tree()), Box::new(b.tree())),
                Type::Unit => tree::Type::Unit,
                Type::Never => tree::Type::Never,
                Type::ConstArg(a) => tree::Type::ConstArg(Box::new(a.tree())),
            }),
    {
        reveal(type_tree);
        reveal(expr_tree);
        match self {
            Type::Named(_, b) => {
                type_trees_are(b@);
            },
            Type::Tuple(a) => {
                type_trees_are(a@);
            },
            Type::Dyn(_, b) => {
                type_trees_are(b@);
            },
            Type::Fn(a, _) => {
                type_trees_are(a@);
            },
            _ => {},
        }
    }
}

impl Pattern {
    pub proof fn unfold(self)
        ensures
            self.tree() == (match self {
                Pattern::Wildcard => tree::Pattern::Wildcard,
                Pattern::Mut(a) => tree::Pattern::Mut(a@),
                Pattern::Tuple(a) => tree::Pattern::Tuple(trees(a@)),
                Pattern::Array(a, b) => tree::Pattern::Array(
                    trees(a@),
                    match b { Some(x) => Some(opt_tree(x)), None => None },
                ),
                Pattern::Literal(a) => tree::Pattern::Literal(a.tree()),
                Pattern::TupleStruct(a, b) => tree::Pattern::TupleStruct(a@, trees(b@)),
                Pattern::Ident(a) => tree::Pattern::Ident(a@),
                Pattern::Or(a) => tree::Pattern::Or(trees(a@)),
            }),
    {
        reveal(pattern_tree);
        reveal(literal_tree);
        match self {
            Pattern::Tuple(a) => {
                pattern_trees_are(a@);
            },
            Pattern::Array(a, _) => {
                pattern_trees_are(a@);
            },
            Pattern::TupleStruct(_, b) => {
                pattern_trees_are(b@);
            },
            Pattern::Or(a) => {
                pattern_trees_are(a@);
            },
            _ => {},
        }
    }
}

impl Literal {
    pub proof fn unfold(self)
        ensures
            self.tree() == (match self {
                Literal::Int(a) => tree::Literal::Int(a@),
                Literal::IntHex(a) => tree::Literal::IntHex(a@),
                Literal::IntOct(a) => tree::Literal::IntOct(a@),
                Literal::IntBin(a) => tree::Literal::IntBin(a@),
                Literal::Float(a) => tree::Literal::Float(a@),
                Literal::Str(a) => tree::Literal::Str(a@),
                Literal::RawStr(a) => tree::Literal::RawStr(a@),
                Literal::Char(a) => tree::Literal::Char(a@),
                Literal::Bool(a) => tree::Literal::Bool(a),
                Literal::Null => tree::Literal::Null,
            }),
    {
        reveal(literal_tree);
    }
}

impl Block {
    pub proof fn unfold(self)
        ensures
            self.tree() == (tree::Block {
                stmts: trees(self.stmts@),
                tail: opt_box_tree(self.tail),
            }),
    {
        reveal(block_tree);
        reveal(expr_tree);
        stmt_trees_are(self.stmts@);
    }
}

impl Stmt {
    pub proof fn unfold(self)
        ensures
            self.tree() == (match self {
                Stmt::Let { mutable, pattern, ty, value } => tree::Stmt::Let {
                    mutable,
                    pattern: pattern.tree(),
                    ty: opt_tree(ty),
                    value: opt_tree(value),
                },
                Stmt::Return(a) => tree::Stmt::Return(opt_tree(a)),
                Stmt::Break { label, value } => tree::Stmt::Break {
                    label: opt_tree(label),
                    value: opt_tree(value),
                },
                Stmt::Continue { label } => tree::Stmt::Continue { label: opt_tree(label) },
                Stmt::Yield(a) => tree::Stmt::Yield(a.tree()),
                Stmt::Expr(a) => tree::Stmt::Expr(a.tree()),
                Stmt::Item(a) => tree::Stmt::Item(Box::new(a.tree())),
                Stmt::TargetBlock(a, b) => tree::Stmt::TargetBlock(a, b.tree()),
            }),
    {
        reveal(stmt_tree);
        reveal(block_tree);
        reveal(expr_tree);
        reveal(item_tree);
        reveal(pattern_tree);
        reveal(type_tree);
    }
}

impl Expr {
    pub proof fn unfold(self)
        ensures
            self.tree() == (match self {
                Expr::Literal(a) => tree::Expr::Literal(a.tree()),
                Expr::Ident(a) => tree::Expr::Ident(a@),
                Expr::Path(a) => tree::Expr::Path(trees(a@)),
                Expr::Paren(a) => tree::Expr::Paren(Box::new(a.tree())),
                Expr::Unary { op, expr } => tree::Expr::Unary { op, expr: Box::new(expr.tree()) },
                Expr::Binary { op, lhs, rhs } => tree::Expr::Binary {
                    op,
                    lhs: Box::new(lhs.tree()),
                    rhs: Box::new(rhs.tree()),
                },
                Expr::Assign { op, lhs, rhs } => tree::Expr::Assign {
                    op,
                    lhs: Box::new(lhs.tree()),
                    rhs: Box::new(rhs.tree()),
                },
                Expr::Range { lo, hi, inclusive } => tree::Expr::Range {
                    lo: Box::new(lo.tree()),
                    hi: Box::new(hi.tree()),
                    inclusive,
                },
                Expr::Cast { expr, ty } => tree::Expr::Cast {
                    expr: Box::new(expr.tree()),
                    ty: Box::new(ty.tree()),
                },
                Expr::Await(a) => tree::Expr::Await(Box::new(a.tree())),
                Expr::Borrow { mutable, expr } => tree::Expr::Borrow {
                    mutable,
                    expr: Box::new(expr.tree()),
                },
                Expr::MethodCall { receiver, name, args } => tree::Expr::MethodCall {
                    receiver: Box::new(receiver.tree()),
                    name: name@,
                    args: trees(args@),
                },
                Expr::Field { expr, name } => tree::Expr::Field {
                    expr: Box::new(expr.tree()),
                    name: name@,
                },
                Expr::Propagate(a) => tree::Expr::Propagate(Box::new(a.tree())),
                Expr::Index { expr, index } => tree::Expr::Index {
                    expr: Box::new(expr.tree()),
                    index: Box::new(index.tree()),
                },
                Expr::Call { callee, args } => tree::Expr::Call {
                    callee: Box::new(callee.tree()),
                    args: trees(args@),
                },
                Expr::Styled { expr, props } => tree::Expr::Styled {
                    expr: Box::new(expr.tree()),
                    props: trees(props@),
                },
                Expr::Layout { expr, props, children } => tree::Expr::Layout {
                    expr: Box::new(expr.tree()),
                    props: trees(props@),
                    children: trees(children@),
                },
                Expr::EventHandler { event, body } => tree::Expr::EventHandler {
                    event: event@,
                    body: Box::new(body.tree()),
                },
                Expr::If(a) => tree::Expr::If(Box::new(a.tree())),
                Expr::Match(a) => tree::Expr::Match(Box::new(a.tree())),
                Expr::Loop(a) => tree::Expr::Loop(Box::new(a.tree())),
                Expr::Spawn { is_move, body } => tree::Expr::Spawn { is_move, body: body.tree() },
                Expr::Select(a) => tree::Expr::Select(trees(a@)),
                Expr::Query(a) => tree::Expr::Query(a.tree()),
                Expr::TryCatch { try_block, catch_var, catch_block } => tree::Expr::TryCatch {
                    try_block: try_block.tree(),
                    catch_var: catch_var@,
                    catch_block: catch_block.tree(),
                },
                Expr::Throw(a) => tree::Expr::Throw(Box::new(a.tree())),
                Expr::Return(a) => tree::Expr::Return(opt_box_tree(a)),
                Expr::Yield(a) => tree::Expr::Yield(Box::new(a.tree())),
                Expr::Closure(a) => tree::Expr::Closure(Box::new(a.tree())),
                Expr::Unsafe(a) => tree::Expr::Unsafe(Box::new(a.tree())),
                Expr::Block(a) => tree::Expr::Block(Box::new(a.tree())),
                Expr::Array(a) => tree::Expr::Array(trees(a@)),
                Expr::Tuple(a) => tree::Expr::Tuple(trees(a@)),
                Expr::ComponentChildren { name, children } => tree::Expr::ComponentChildren {
                    name: name@,
                    children: trees(children@),
                },
                Expr::StructLit { name, fields, spread } => tree::Expr::StructLit {
                    name: name@,
                    fields: trees(fields@),
                    spread: opt_box_tree(spread),
                },
            }),
    {
        reveal(expr_tree);
        reveal(block_tree);
        reveal(closure_expr_tree);
        reveal(if_expr_tree);
        reveal(literal_tree);
        reveal(loop_expr_tree);
        reveal(match_expr_tree);
        reveal(query_expr_tree);
        reveal(spawn_body_tree);
        reveal(type_tree);
        match self {
            Expr::MethodCall { args, .. } => {
                arg_trees_are(args@);
            },
            Expr::Call { args, .. } => {
                arg_trees_are(args@);
            },
            Expr::Styled { props, .. } => {
                named_expr_trees_are(props@);
            },
            Expr::Layout { props, children, .. } => {
                named_expr_trees_are(props@);
                expr_trees_are(children@);
            },
            Expr::Select(a) => {
                select_arm_trees_are(a@);
            },
            Expr::Array(a) => {
                expr_trees_are(a@);
            },
            Expr::Tuple(a) => {
                expr_trees_are(a@);
            },
            Expr::ComponentChildren { children, .. } => {
                expr_trees_are(children@);
            },
            Expr::StructLit { fields, .. } => {
                named_expr_trees_are(fields@);
            },
            _ => {},
        }
    }
}

impl Arg {
    pub proof fn unfold(self)
        ensures
            self.tree() == (tree::Arg {
                name: opt_tree(self.name),
                value: self.value.tree(),
            }),
    {
        reveal(arg_tree);
        reveal(expr_tree);
    }
}

impl IfExpr {
    pub proof fn unfold(self)
        ensures
            self.tree() == (tree::IfExpr {
                cond: self.cond.tree(),
                then_block: self.then_block.tree(),
                else_branch: opt_tree(self.else_branch),
            }),
    {
        reveal(if_expr_tree);
        reveal(block_tree);
        reveal(else_branch_tree);
        reveal(expr_tree);
    }
}

impl ElseBranch {
    pub proof fn unfold(self)
        ensures
            self.tree() == (match self {
                ElseBranch::If(a) => tree::ElseBranch::If(Box::new(a.tree())),
                ElseBranch::Block(a) => tree::ElseBranch::Block(a.tree()),
            }),
    {
        reveal(else_branch_tree);
        reveal(block_tree);
        reveal(if_expr_tree);
    }
}

impl MatchExpr {
    pub proof fn unfold(self)
        ensures
            self.tree() == (tree::MatchExpr {
                scrutinee: self.scrutinee.tree(),
                arms: trees(self.arms@),
            }),
    {
        reveal(match_expr_tree);
        reveal(expr_tree);
        match_arm_trees_are(self.arms@);
    }
}

impl MatchArm {
    pub proof fn unfold(self)
        ensures
            self.tree() == (tree::MatchArm {
                patterns: trees(self.patterns@),
                guard: opt_tree(self.guard),
                body: self.body.tree(),
            }),
    {
        reveal(match_arm_tree);
        reveal(expr_tree);
        reveal(match_arm_body_tree);
        pattern_trees_are(self.patterns@);
    }
}

impl MatchArmBody {
    pub proof fn unfold(self)
        ensures
            self.tree() == (match self {
                MatchArmBody::Block(a) => tree::MatchArmBody::Block(a.tree()),
                MatchArmBody::Expr(a) => tree::MatchArmBody::Expr(Box::new(a.tree())),
            }),
    {
        reveal(match_arm_body_tree);
        reveal(block_tree);
        reveal(expr_tree);
    }
}

impl LoopExpr {
    pub proof fn unfold(self)
        ensures
            self.tree() == (match self {
                LoopExpr::Loop { label, body } => tree::LoopExpr::Loop {
                    label: opt_tree(label),
                    body: body.tree(),
                },
                LoopExpr::While { label, cond, body } => tree::LoopExpr::While {
                    label: opt_tree(label),
                    cond: Box::new(cond.tree()),
                    body: body.tree(),
                },
                LoopExpr::For { label, pattern, iter, body } => tree::LoopExpr::For {
                    label: opt_tree(label),
                    pattern: pattern.tree(),
                    iter: Box::new(iter.tree()),
                    body: body.tree(),
                },
                LoopExpr::DoWhile { body, cond } => tree::LoopExpr::DoWhile {
                    body: body.tree(),
                    cond: Box::new(cond.tree()),
                },
            }),
    {
        reveal(loop_expr_tree);
        reveal(block_tree);
        reveal(expr_tree);
        reveal(pattern_tree);
    }
}

impl ClosureExpr {
    pub proof fn unfold(self)
        ensures
            self.tree() == (tree::ClosureExpr {
                is_move: self.is_move,
                params: trees(self.params@),
                return_type: opt_tree(self.return_type),
                body: self.body.tree(),
            }),
    {
        reveal(closure_expr_tree);
        reveal(closure_body_tree);
        reveal(type_tree);
        closure_param_trees_are(self.params@);
    }
}

impl ClosureBody {
    pub proof fn unfold(self)
        ensures
            self.tree() == (match self {
                ClosureBody::Block(a) => tree::ClosureBody::Block(a.tree()),
                ClosureBody::Expr(a) => tree::ClosureBody::Expr(Box::new(a.tree())),
            }),
    {
        reveal(closure_body_tree);
        reveal(block_tree);
        reveal(expr_tree);
    }
}

impl SpawnBody {
    pub proof fn unfold(self)
        ensures
            self.tree() == (match self {
                SpawnBody::Block(a) => tree::SpawnBody::Block(a.tree()),
                SpawnBody::Closure(a) => tree::SpawnBody::Closure(Box::new(a.tree())),
            }),
    {
        reveal(spawn_body_tree);
        reveal(block_tree);
        reveal(closure_expr_tree);
    }
}

impl SelectArm {
    pub proof fn unfold(self)
        ensures
            self.tree() == (tree::SelectArm {
                pattern: self.pattern.tree(),
                channel_expr: self.channel_expr.tree(),
                body: self.body.tree(),
            }),
    {
        reveal(select_arm_tree);
        reveal(expr_tree);
        reveal(pattern_tree);
    }
}

impl QueryExpr {
    pub proof fn unfold(self)
        ensures
            self.tree() == (tree::QueryExpr {
                table: self.table@,
                clauses: trees(self.clauses@),
            }),
    {
        reveal(query_expr_tree);
        query_clause_trees_are(self.clauses@);
    }
}

impl QueryClause {
    pub proof fn unfold(self)
        ensures
            self.tree() == (match self {
                QueryClause::Where(a) => tree::QueryClause::Where(Box::new(a.tree())),
                QueryClause::OrderBy(a) => tree::QueryClause::OrderBy(a@),
                QueryClause::Insert(a) => tree::QueryClause::Insert(Box::new(a.tree())),
                QueryClause::Update(a) => tree::QueryClause::Update(trees(a@)),
                QueryClause::Delete => tree::QueryClause::Delete,
                QueryClause::First => tree::QueryClause::First,
                QueryClause::Count => tree::QueryClause::Count,
                QueryClause::Join { table, on } => tree::QueryClause::Join {
                    table: table@,
                    on: Box::new(on.tree()),
                },
            }),
    {
        reveal(query_clause_tree);
        reveal(expr_tree);
        match self {
            QueryClause::Update(a) => {
                named_expr_trees_are(a@);
            },
            _ => {},
        }
    }
}

} // verus!
