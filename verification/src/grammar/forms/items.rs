//! Items: functions, types, traits, modules and the like.
use crate::ast::{OwnershipMod, TargetKind, Visibility};
use crate::grammar::cursor::{ident, word, Cur, Failure, Src, Step};
use crate::grammar::exprs::{expr, expr_list, opt_return_type, opt_value};
use crate::grammar::forms::{behind, list_end, listed};
use crate::grammar::items::{
    actor_tail, attr, attrs, const_tail, domain_item_kind, enum_tail, field_list, fn_body, fn_decl,
    for_target, impl_items, impl_tail, import_path, import_tail, index_tail, is_item_start, item,
    item_kind, item_list, mod_tail, more_names, more_params, param, param_list, schema_tail,
    server_tail, state_tail, static_tail, struct_body, struct_tail, table_tail, target_items,
    target_kind, trait_items, trait_tail, type_alias_tail, ui_tail, use_path, use_tail, valued_tail,
    variant, variant_list, visibility,
};
use crate::grammar::laws::{at, read};
use crate::grammar::stmts::block;
use crate::grammar::types::{generic_params, type_list, type_of, type_ref, where_clause};
use crate::token::{Delim, Keyword, Op, TokenKind};
use crate::tree::{
    Attribute, Block, ConstDecl, EnumDecl, EnumVariant, FieldDecl, FnDecl, ImplDecl, ImplItem, Item,
    ItemKind, ModDecl, Param, StateDecl, StaticDecl, StructBody, StructDecl, TraitDecl, TraitItem,
    Type, TypeAliasDecl, TypeRef, UsePath,
};
use vstd::prelude::*;

verus! {

/// Exactly these tokens begin an item.
pub proof fn starts_of_items(k: TokenKind)
    ensures
        is_item_start(k) <==> (k matches TokenKind::Keyword(w) && (w is Fn || w is Async || w
            is Struct || w is Enum || w is Trait || w is Impl || w is Mod || w is Use || w is Import
            || w is Const || w is Static || w is Type || w is Table || w is Index || w is Schema
            || w is Ui || w is Component || w is Server || w is Actor || w is Pub)) || k
            == TokenKind::Op(Op::At) || k == TokenKind::Op(Op::Hash),
{
}

/// `@name(args)` is an attribute with exactly these arguments.
pub proof fn attribute_with_arguments(g: Src, p: nat)
    requires
        g.kind(p + 1) == TokenKind::Delim(Delim::LParen),
    ensures
        ({
            let name = word(g, at(p));
            let q_name = behind(p, name);
            let args = expr_list(g, at(q_name + 1), Delim::RParen);
            let q_args = behind(q_name + 1, args);
            let fits = name.res is Ok
                && g.kind(q_name) == TokenKind::Delim(Delim::LParen)
                && args.res is Ok
                && g.kind(q_args) == TokenKind::Delim(Delim::RParen);
            &&& attr(g, at(p)).res is Ok <==> fits
            &&& fits
                ==> attr(g, at(p)) == read(
                    q_args + 1,
                    Attribute { name: name.out(), args: args.out() },
                )
        }),
{
    let name = word(g, at(p));
    let q_name = behind(p, name);
    let args = expr_list(g, at(q_name + 1), Delim::RParen);
    let q_args = behind(q_name + 1, args);
    assert(name.res is Ok ==> at(p).after(name) == at(q_name));
    assert(g.kind(q_name) == TokenKind::Delim(Delim::LParen)
        ==> at(q_name).delim(g, Delim::LParen) == at(q_name + 1));
    assert(args.res is Ok ==> at(q_name + 1).after(args) == at(q_args));
    assert(g.kind(q_args) == TokenKind::Delim(Delim::RParen)
        ==> at(q_args).delim(g, Delim::RParen) == at(q_args + 1));
    assert(name.res is Ok ==> q_name == p + 1);
    assert(at(p + 1).skip() == at(p + 2));
}

/// `@name` is an attribute without arguments.
pub proof fn attribute_without_arguments(g: Src, p: nat)
    requires
        g.kind(p + 1) != TokenKind::Delim(Delim::LParen),
    ensures
        ({
            let name = word(g, at(p));
            let q_name = behind(p, name);
            let fits = name.res is Ok;
            &&& attr(g, at(p)).res is Ok <==> fits
            &&& fits
                ==> attr(g, at(p)) == read(q_name, Attribute { name: name.out(), args: seq![] })
        }),
{
    let name = word(g, at(p));
    let q_name = behind(p, name);
    assert(name.res is Ok ==> at(p).after(name) == at(q_name));
    assert(name.res is Ok ==> q_name == p + 1);
}

/// An attribute is kept behind those before it.
pub proof fn one_attribute_more(g: Src, p: nat, done: Seq<Attribute>)
    requires
        g.kind(p) == TokenKind::Op(Op::At),
    ensures
        ({
            let a = attr(g, at(p + 1));
            let q_a = behind(p + 1, a);
            let fits = a.res is Ok;
            &&& !fits ==> attrs(g, at(p), done).res is Err
            &&& fits ==> attrs(g, at(p), done) == attrs(g, at(q_a), done.push(a.out()))
        }),
{
    let a = attr(g, at(p + 1));
    let q_a = behind(p + 1, a);
    assert(at(p).skip() == at(p + 1));
    assert(a.res is Ok ==> at(p + 1).after(a) == at(q_a));
    assert(attrs(g, at(p), done) == attrs(g, at(p + 1).after(a), done.push(a.out())));
}

/// Without `@` there is no further attribute.
pub proof fn no_further_attribute(g: Src, p: nat, done: Seq<Attribute>)
    requires
        g.kind(p) != TokenKind::Op(Op::At),
    ensures
        ({
            attrs(g, at(p), done) == read(p, done)
        }),
{
}

/// An item is private, public after `pub`, and public in its package after `pub(package)`.
pub proof fn visibilities(g: Src, p: nat, name: String)
    ensures
        g.kind(p) != TokenKind::Keyword(Keyword::Pub) ==> visibility(g, at(p)) == read(
            p,
            Visibility::Private,
        ),
        g.kind(p) == TokenKind::Keyword(Keyword::Pub) && g.kind(p + 1) != TokenKind::Delim(
            Delim::LParen,
        ) ==> visibility(g, at(p)) == read(p + 1, Visibility::Pub),
        g.kind(p) == TokenKind::Keyword(Keyword::Pub) && g.kind(p + 1) == TokenKind::Delim(
            Delim::LParen,
        ) && g.kind(p + 2) == TokenKind::Ident(name) && g.kind(p + 3) == TokenKind::Delim(
            Delim::RParen,
        ) ==> if name@ == "package"@ {
            visibility(g, at(p)) == read(p + 4, Visibility::PubPackage)
        } else {
            visibility(g, at(p)).res is Err
        },
        g.kind(p) == TokenKind::Keyword(Keyword::Pub) && g.kind(p + 1) == TokenKind::Delim(
            Delim::LParen,
        ) && !(g.kind(p + 2) is Ident && g.kind(p + 3) == TokenKind::Delim(Delim::RParen))
            ==> visibility(g, at(p)).res is Err,
{
    assert(at(p).skip() == at(p + 1));
    assert(at(p + 1).skip() == at(p + 2));
    assert(at(p + 2).skip() == at(p + 3));
    assert(at(p + 3).skip() == at(p + 4));
}

/// An item: attributes, visibility, and what it declares, with the place of its first token.
#[verifier::rlimit(20)]
pub proof fn item_form(g: Src, p: nat)
    ensures
        ({
            let a = attrs(g, at(p), seq![]);
            let q_a = behind(p, a);
            let v = visibility(g, at(q_a));
            let q_v = behind(q_a, v);
            let kind = item_kind(g, at(q_v));
            let q_kind = behind(q_v, kind);
            let fits = a.res is Ok
                && v.res is Ok
                && kind.res is Ok;
            &&& item(g, at(p)).res is Ok <==> fits
            &&& fits
                ==> item(g, at(p)) == read(
                    q_kind,
                    Item {
                        attrs: a.out(),
                        visibility: v.out(),
                        kind: kind.out(),
                        span: g.toks[p as int].span,
                    },
                )
        }),
{
    let a = attrs(g, at(p), seq![]);
    let q_a = behind(p, a);
    let v = visibility(g, at(q_a));
    let q_v = behind(q_a, v);
    let kind = item_kind(g, at(q_v));
    let q_kind = behind(q_v, kind);
    assert(a.res is Ok ==> at(p).after(a) == at(q_a));
    assert(v.res is Ok ==> at(q_a).after(v) == at(q_v));
    assert(kind.res is Ok ==> at(q_v).after(kind) == at(q_kind));
}

/// The keyword `struct` declares one.
pub proof fn struct_item(g: Src, p: nat)
    requires
        g.kind(p) == TokenKind::Keyword(Keyword::Struct),
    ensures
        ({
            let d = struct_tail(g, at(p + 1));
            let q_d = behind(p + 1, d);
            let fits = d.res is Ok;
            &&& item_kind(g, at(p)).res is Ok <==> fits
            &&& fits ==> item_kind(g, at(p)) == read(q_d, ItemKind::Struct(d.out()))
        }),
{
    let d = struct_tail(g, at(p + 1));
    let q_d = behind(p + 1, d);
    assert(at(p).skip() == at(p + 1));
    assert(d.res is Ok ==> at(p + 1).after(d) == at(q_d));
}

/// The keyword `enum` declares one.
pub proof fn enum_item(g: Src, p: nat)
    requires
        g.kind(p) == TokenKind::Keyword(Keyword::Enum),
    ensures
        ({
            let d = enum_tail(g, at(p + 1));
            let q_d = behind(p + 1, d);
            let fits = d.res is Ok;
            &&& item_kind(g, at(p)).res is Ok <==> fits
            &&& fits ==> item_kind(g, at(p)) == read(q_d, ItemKind::Enum(d.out()))
        }),
{
    let d = enum_tail(g, at(p + 1));
    let q_d = behind(p + 1, d);
    assert(at(p).skip() == at(p + 1));
    assert(d.res is Ok ==> at(p + 1).after(d) == at(q_d));
}

/// The keyword `trait` declares one.
pub proof fn trait_item(g: Src, p: nat)
    requires
        g.kind(p) == TokenKind::Keyword(Keyword::Trait),
    ensures
        ({
            let d = trait_tail(g, at(p + 1));
            let q_d = behind(p + 1, d);
            let fits = d.res is Ok;
            &&& item_kind(g, at(p)).res is Ok <==> fits
            &&& fits ==> item_kind(g, at(p)) == read(q_d, ItemKind::Trait(d.out()))
        }),
{
    let d = trait_tail(g, at(p + 1));
    let q_d = behind(p + 1, d);
    assert(at(p).skip() == at(p + 1));
    assert(d.res is Ok ==> at(p + 1).after(d) == at(q_d));
}

/// The keyword `impl` declares one.
pub proof fn impl_item(g: Src, p: nat)
    requires
        g.kind(p) == TokenKind::Keyword(Keyword::Impl),
    ensures
        ({
            let d = impl_tail(g, at(p + 1));
            let q_d = behind(p + 1, d);
            let fits = d.res is Ok;
            &&& item_kind(g, at(p)).res is Ok <==> fits
            &&& fits ==> item_kind(g, at(p)) == read(q_d, ItemKind::Impl(d.out()))
        }),
{
    let d = impl_tail(g, at(p + 1));
    let q_d = behind(p + 1, d);
    assert(at(p).skip() == at(p + 1));
    assert(d.res is Ok ==> at(p + 1).after(d) == at(q_d));
}

/// The keyword `mod` declares one.
pub proof fn mod_item(g: Src, p: nat)
    requires
        g.kind(p) == TokenKind::Keyword(Keyword::Mod),
    ensures
        ({
            let d = mod_tail(g, at(p + 1));
            let q_d = behind(p + 1, d);
            let fits = d.res is Ok;
            &&& item_kind(g, at(p)).res is Ok <==> fits
            &&& fits ==> item_kind(g, at(p)) == read(q_d, ItemKind::Mod(d.out()))
        }),
{
    let d = mod_tail(g, at(p + 1));
    let q_d = behind(p + 1, d);
    assert(at(p).skip() == at(p + 1));
    assert(d.res is Ok ==> at(p + 1).after(d) == at(q_d));
}

/// The keyword `use` declares one.
pub proof fn use_item(g: Src, p: nat)
    requires
        g.kind(p) == TokenKind::Keyword(Keyword::Use),
    ensures
        ({
            let d = use_tail(g, at(p + 1));
            let q_d = behind(p + 1, d);
            let fits = d.res is Ok;
            &&& item_kind(g, at(p)).res is Ok <==> fits
            &&& fits ==> item_kind(g, at(p)) == read(q_d, ItemKind::Use(d.out()))
        }),
{
    let d = use_tail(g, at(p + 1));
    let q_d = behind(p + 1, d);
    assert(at(p).skip() == at(p + 1));
    assert(d.res is Ok ==> at(p + 1).after(d) == at(q_d));
}

/// The keyword `import` declares one.
pub proof fn import_item(g: Src, p: nat)
    requires
        g.kind(p) == TokenKind::Keyword(Keyword::Import),
    ensures
        ({
            let d = import_tail(g, at(p + 1));
            let q_d = behind(p + 1, d);
            let fits = d.res is Ok;
            &&& item_kind(g, at(p)).res is Ok <==> fits
            &&& fits ==> item_kind(g, at(p)) == read(q_d, ItemKind::Import(d.out()))
        }),
{
    let d = import_tail(g, at(p + 1));
    let q_d = behind(p + 1, d);
    assert(at(p).skip() == at(p + 1));
    assert(d.res is Ok ==> at(p + 1).after(d) == at(q_d));
}

/// The keyword `const` declares one.
pub proof fn const_item(g: Src, p: nat)
    requires
        g.kind(p) == TokenKind::Keyword(Keyword::Const),
    ensures
        ({
            let d = const_tail(g, at(p + 1));
            let q_d = behind(p + 1, d);
            let fits = d.res is Ok;
            &&& item_kind(g, at(p)).res is Ok <==> fits
            &&& fits ==> item_kind(g, at(p)) == read(q_d, ItemKind::Const(d.out()))
        }),
{
    let d = const_tail(g, at(p + 1));
    let q_d = behind(p + 1, d);
    assert(at(p).skip() == at(p + 1));
    assert(d.res is Ok ==> at(p + 1).after(d) == at(q_d));
}

/// The keyword `static` declares one.
pub proof fn static_item(g: Src, p: nat)
    requires
        g.kind(p) == TokenKind::Keyword(Keyword::Static),
    ensures
        ({
            let d = static_tail(g, at(p + 1));
            let q_d = behind(p + 1, d);
            let fits = d.res is Ok;
            &&& item_kind(g, at(p)).res is Ok <==> fits
            &&& fits ==> item_kind(g, at(p)) == read(q_d, ItemKind::Static(d.out()))
        }),
{
    let d = static_tail(g, at(p + 1));
    let q_d = behind(p + 1, d);
    assert(at(p).skip() == at(p + 1));
    assert(d.res is Ok ==> at(p + 1).after(d) == at(q_d));
}

/// The keyword `type` declares one.
pub proof fn type_item(g: Src, p: nat)
    requires
        g.kind(p) == TokenKind::Keyword(Keyword::Type),
    ensures
        ({
            let d = type_alias_tail(g, at(p + 1));
            let q_d = behind(p + 1, d);
            let fits = d.res is Ok;
            &&& item_kind(g, at(p)).res is Ok <==> fits
            &&& fits ==> item_kind(g, at(p)) == read(q_d, ItemKind::TypeAlias(d.out()))
        }),
{
    let d = type_alias_tail(g, at(p + 1));
    let q_d = behind(p + 1, d);
    assert(at(p).skip() == at(p + 1));
    assert(d.res is Ok ==> at(p + 1).after(d) == at(q_d));
    assert(item_kind(g, at(p)) == domain_item_kind(g, at(p), Keyword::Type));
}

/// The keyword `table` declares one.
pub proof fn table_item(g: Src, p: nat)
    requires
        g.kind(p) == TokenKind::Keyword(Keyword::Table),
    ensures
        ({
            let d = table_tail(g, at(p + 1));
            let q_d = behind(p + 1, d);
            let fits = d.res is Ok;
            &&& item_kind(g, at(p)).res is Ok <==> fits
            &&& fits ==> item_kind(g, at(p)) == read(q_d, ItemKind::Table(d.out()))
        }),
{
    let d = table_tail(g, at(p + 1));
    let q_d = behind(p + 1, d);
    assert(at(p).skip() == at(p + 1));
    assert(d.res is Ok ==> at(p + 1).after(d) == at(q_d));
    assert(item_kind(g, at(p)) == domain_item_kind(g, at(p), Keyword::Table));
}

/// The keyword `index` declares one.
pub proof fn index_item(g: Src, p: nat)
    requires
        g.kind(p) == TokenKind::Keyword(Keyword::Index),
    ensures
        ({
            let d = index_tail(g, at(p + 1));
            let q_d = behind(p + 1, d);
            let fits = d.res is Ok;
            &&& item_kind(g, at(p)).res is Ok <==> fits
            &&& fits ==> item_kind(g, at(p)) == read(q_d, ItemKind::Index(d.out()))
        }),
{
    let d = index_tail(g, at(p + 1));
    let q_d = behind(p + 1, d);
    assert(at(p).skip() == at(p + 1));
    assert(d.res is Ok ==> at(p + 1).after(d) == at(q_d));
    assert(item_kind(g, at(p)) == domain_item_kind(g, at(p), Keyword::Index));
}

/// The keyword `schema` declares one.
pub proof fn schema_item(g: Src, p: nat)
    requires
        g.kind(p) == TokenKind::Keyword(Keyword::Schema),
    ensures
        ({
            let d = schema_tail(g, at(p + 1));
            let q_d = behind(p + 1, d);
            let fits = d.res is Ok;
            &&& item_kind(g, at(p)).res is Ok <==> fits
            &&& fits ==> item_kind(g, at(p)) == read(q_d, ItemKind::Schema(d.out()))
        }),
{
    let d = schema_tail(g, at(p + 1));
    let q_d = behind(p + 1, d);
    assert(at(p).skip() == at(p + 1));
    assert(d.res is Ok ==> at(p + 1).after(d) == at(q_d));
    assert(item_kind(g, at(p)) == domain_item_kind(g, at(p), Keyword::Schema));
}

/// The keyword `ui` declares one.
pub proof fn ui_item(g: Src, p: nat)
    requires
        g.kind(p) == TokenKind::Keyword(Keyword::Ui),
    ensures
        ({
            let d = ui_tail(g, at(p + 1));
            let q_d = behind(p + 1, d);
            let fits = d.res is Ok;
            &&& item_kind(g, at(p)).res is Ok <==> fits
            &&& fits ==> item_kind(g, at(p)) == read(q_d, ItemKind::Ui(d.out()))
        }),
{
    let d = ui_tail(g, at(p + 1));
    let q_d = behind(p + 1, d);
    assert(at(p).skip() == at(p + 1));
    assert(d.res is Ok ==> at(p + 1).after(d) == at(q_d));
    assert(item_kind(g, at(p)) == domain_item_kind(g, at(p), Keyword::Ui));
}

/// The keyword `component` declares one.
pub proof fn component_item(g: Src, p: nat)
    requires
        g.kind(p) == TokenKind::Keyword(Keyword::Component),
    ensures
        ({
            let d = ui_tail(g, at(p + 1));
            let q_d = behind(p + 1, d);
            let fits = d.res is Ok;
            &&& item_kind(g, at(p)).res is Ok <==> fits
            &&& fits ==> item_kind(g, at(p)) == read(q_d, ItemKind::Component(d.out()))
        }),
{
    let d = ui_tail(g, at(p + 1));
    let q_d = behind(p + 1, d);
    assert(at(p).skip() == at(p + 1));
    assert(d.res is Ok ==> at(p + 1).after(d) == at(q_d));
    assert(item_kind(g, at(p)) == domain_item_kind(g, at(p), Keyword::Component));
}

/// The keyword `server` declares one.
pub proof fn server_item(g: Src, p: nat)
    requires
        g.kind(p) == TokenKind::Keyword(Keyword::Server),
    ensures
        ({
            let d = server_tail(g, at(p + 1));
            let q_d = behind(p + 1, d);
            let fits = d.res is Ok;
            &&& item_kind(g, at(p)).res is Ok <==> fits
            &&& fits ==> item_kind(g, at(p)) == read(q_d, ItemKind::Server(d.out()))
        }),
{
    let d = server_tail(g, at(p + 1));
    let q_d = behind(p + 1, d);
    assert(at(p).skip() == at(p + 1));
    assert(d.res is Ok ==> at(p + 1).after(d) == at(q_d));
    assert(item_kind(g, at(p)) == domain_item_kind(g, at(p), Keyword::Server));
}

/// The keyword `actor` declares one.
pub proof fn actor_item(g: Src, p: nat)
    requires
        g.kind(p) == TokenKind::Keyword(Keyword::Actor),
    ensures
        ({
            let d = actor_tail(g, at(p + 1));
            let q_d = behind(p + 1, d);
            let fits = d.res is Ok;
            &&& item_kind(g, at(p)).res is Ok <==> fits
            &&& fits ==> item_kind(g, at(p)) == read(q_d, ItemKind::Actor(d.out()))
        }),
{
    let d = actor_tail(g, at(p + 1));
    let q_d = behind(p + 1, d);
    assert(at(p).skip() == at(p + 1));
    assert(d.res is Ok ==> at(p + 1).after(d) == at(q_d));
    assert(item_kind(g, at(p)) == domain_item_kind(g, at(p), Keyword::Actor));
}

/// `fn` and `async` declare a function.
pub proof fn function_item(g: Src, p: nat)
    requires
        g.kind(p) == TokenKind::Keyword(Keyword::Fn) || g.kind(p) == TokenKind::Keyword(
            Keyword::Async,
        ),
    ensures
        ({
            let d = fn_decl(g, at(p));
            let q_d = behind(p, d);
            let fits = d.res is Ok;
            &&& item_kind(g, at(p)).res is Ok <==> fits
            &&& fits ==> item_kind(g, at(p)) == read(q_d, ItemKind::Fn(d.out()))
        }),
{
    let d = fn_decl(g, at(p));
    let q_d = behind(p, d);
    assert(d.res is Ok ==> at(p).after(d) == at(q_d));
}

/// `#target(kind) { items }` is for one target.
pub proof fn target_item(g: Src, p: nat)
    requires
        g.kind(p) == TokenKind::Op(Op::Hash),
    ensures
        ({
            let t = target_items(g, at(p + 1));
            let q_t = behind(p + 1, t);
            let fits = t.res is Ok;
            &&& item_kind(g, at(p)).res is Ok <==> fits
            &&& fits
                ==> item_kind(g, at(p)) == read(q_t, ItemKind::TargetBlock(t.out().0, t.out().1))
        }),
{
    let t = target_items(g, at(p + 1));
    let q_t = behind(p + 1, t);
    assert(at(p).skip() == at(p + 1));
    assert(t.res is Ok ==> at(p + 1).after(t) == at(q_t));
}

/// A target block holds exactly its items.
#[verifier::rlimit(20)]
pub proof fn target_block(g: Src, p: nat)
    ensures
        ({
            let kind = target_kind(g, at(p));
            let q_kind = behind(p, kind);
            let items = item_list(g, at(q_kind + 1), seq![]);
            let q_items = behind(q_kind + 1, items);
            let fits = kind.res is Ok
                && g.kind(q_kind) == TokenKind::Delim(Delim::LBrace)
                && items.res is Ok
                && g.kind(q_items) == TokenKind::Delim(Delim::RBrace);
            &&& target_items(g, at(p)).res is Ok <==> fits
            &&& fits ==> target_items(g, at(p)) == read(q_items + 1, (kind.out(), items.out()))
        }),
{
    let kind = target_kind(g, at(p));
    let q_kind = behind(p, kind);
    let items = item_list(g, at(q_kind + 1), seq![]);
    let q_items = behind(q_kind + 1, items);
    assert(kind.res is Ok ==> at(p).after(kind) == at(q_kind));
    assert(g.kind(q_kind) == TokenKind::Delim(Delim::LBrace)
        ==> at(q_kind).delim(g, Delim::LBrace) == at(q_kind + 1));
    assert(items.res is Ok ==> at(q_kind + 1).after(items) == at(q_items));
    assert(g.kind(q_items) == TokenKind::Delim(Delim::RBrace)
        ==> at(q_items).delim(g, Delim::RBrace) == at(q_items + 1));
}

/// The three targets by their names, and no other.
pub proof fn targets(g: Src, p: nat, name: String, kind: String)
    requires
        g.kind(p) == TokenKind::Ident(name),
        g.kind(p + 1) == TokenKind::Delim(Delim::LParen),
        g.kind(p + 2) == TokenKind::Ident(kind),
        g.kind(p + 3) == TokenKind::Delim(Delim::RParen),
    ensures
        name@ != "target"@ ==> target_kind(g, at(p)).res is Err,
        name@ == "target"@ && kind@ == "native"@ ==> target_kind(g, at(p)) == read(
            p + 4,
            TargetKind::Native,
        ),
        name@ == "target"@ && kind@ == "wasm"@ ==> target_kind(g, at(p)) == read(
            p + 4,
            TargetKind::Wasm,
        ),
        name@ == "target"@ && kind@ == "all"@ ==> target_kind(g, at(p)) == read(
            p + 4,
            TargetKind::All,
        ),
        kind@ != "native"@ && kind@ != "wasm"@ && kind@ != "all"@ ==> target_kind(g, at(p)).res
            is Err,
{
    reveal_strlit("native");
    reveal_strlit("wasm");
    reveal_strlit("all");
    assert("native"@.len() == 6 && "wasm"@.len() == 4 && "all"@.len() == 3);
    assert(at(p).skip() == at(p + 1));
    assert(at(p + 1).skip() == at(p + 2));
    assert(at(p + 2).skip() == at(p + 3));
    assert(at(p + 3).skip() == at(p + 4));
}

/// `}` and the end of the stream end a list of items; an item is kept behind those before it.
pub proof fn items_in_order(g: Src, p: nat, done: Seq<Item>, x: Item, q: nat)
    ensures
        g.kind(p) == TokenKind::Delim(Delim::RBrace) || g.kind(p) is Eof ==> item_list(
            g,
            at(p),
            done,
        ) == read(p, done),
        g.kind(p) != TokenKind::Delim(Delim::RBrace) && !(g.kind(p) is Eof) && item(g, at(p))
            == read(q, x) && p < q ==> item_list(g, at(p), done) == item_list(
            g,
            at(q),
            done.push(x),
        ),
        g.kind(p) != TokenKind::Delim(Delim::RBrace) && !(g.kind(p) is Eof) && item(g, at(p)).res
            is Err ==> item_list(g, at(p), done).res is Err,
{
    let i = item(g, at(p));
    let s1 = at(p).after(i);
    if g.kind(p) != TokenKind::Delim(Delim::RBrace) && !(g.kind(p) is Eof) {
        assert(p < g.toks.len());
        if i.res is Err {
            assert(at(p).moved(g, s1));
            assert(item_list(g, at(p), done) == item_list(g, s1, done.push(i.out())));
        } else if i == read(q, x) && p < q {
            assert(s1 == at(q));
            assert(at(p).moved(g, at(q)));
        }
    }
}

/// `fn name<generics>(params) -> T where bounds body`, each part kept as it is.
#[verifier::rlimit(60)]
pub proof fn function(g: Src, p: nat)
    requires
        g.kind(p) == TokenKind::Keyword(Keyword::Fn),
    ensures
        ({
            let name = ident(g, at(p + 1));
            let q_name = behind(p + 1, name);
            let generics = generic_params(g, at(q_name));
            let q_generics = behind(q_name, generics);
            let params = param_list(g, at(q_generics + 1));
            let q_params = behind(q_generics + 1, params);
            let ret = opt_return_type(g, at(q_params + 1));
            let q_ret = behind(q_params + 1, ret);
            let bounds = where_clause(g, at(q_ret));
            let q_bounds = behind(q_ret, bounds);
            let body = fn_body(g, at(q_bounds));
            let q_body = behind(q_bounds, body);
            let fits = name.res is Ok
                && generics.res is Ok
                && g.kind(q_generics) == TokenKind::Delim(Delim::LParen)
                && params.res is Ok
                && g.kind(q_params) == TokenKind::Delim(Delim::RParen)
                && ret.res is Ok
                && bounds.res is Ok
                && body.res is Ok;
            &&& fn_decl(g, at(p)).res is Ok <==> fits
            &&& fits
                ==> fn_decl(g, at(p)) == read(
                    q_body,
                    FnDecl {
                        is_async: false,
                        name: name.out(),
                        generics: generics.out(),
                        params: params.out(),
                        return_type: ret.out(),
                        where_clause: bounds.out(),
                        body: body.out(),
                    },
                )
        }),
{
    let name = ident(g, at(p + 1));
    let q_name = behind(p + 1, name);
    let generics = generic_params(g, at(q_name));
    let q_generics = behind(q_name, generics);
    let params = param_list(g, at(q_generics + 1));
    let q_params = behind(q_generics + 1, params);
    let ret = opt_return_type(g, at(q_params + 1));
    let q_ret = behind(q_params + 1, ret);
    let bounds = where_clause(g, at(q_ret));
    let q_bounds = behind(q_ret, bounds);
    let body = fn_body(g, at(q_bounds));
    let q_body = behind(q_bounds, body);
    assert(at(p).skip() == at(p + 1));
    assert(name.res is Ok ==> at(p + 1).after(name) == at(q_name));
    assert(generics.res is Ok ==> at(q_name).after(generics) == at(q_generics));
    assert(g.kind(q_generics) == TokenKind::Delim(Delim::LParen)
        ==> at(q_generics).delim(g, Delim::LParen) == at(q_generics + 1));
    assert(params.res is Ok ==> at(q_generics + 1).after(params) == at(q_params));
    assert(g.kind(q_params) == TokenKind::Delim(Delim::RParen)
        ==> at(q_params).delim(g, Delim::RParen) == at(q_params + 1));
    assert(ret.res is Ok ==> at(q_params + 1).after(ret) == at(q_ret));
    assert(bounds.res is Ok ==> at(q_ret).after(bounds) == at(q_bounds));
    assert(body.res is Ok ==> at(q_bounds).after(body) == at(q_body));
    assert(at(p).kw(g, Keyword::Fn) == at(p + 1));
}

/// `async` in front makes it an async one.
#[verifier::rlimit(60)]
pub proof fn async_function(g: Src, p: nat)
    requires
        g.kind(p) == TokenKind::Keyword(Keyword::Async),
    ensures
        ({
            let name = ident(g, at(p + 2));
            let q_name = behind(p + 2, name);
            let generics = generic_params(g, at(q_name));
            let q_generics = behind(q_name, generics);
            let params = param_list(g, at(q_generics + 1));
            let q_params = behind(q_generics + 1, params);
            let ret = opt_return_type(g, at(q_params + 1));
            let q_ret = behind(q_params + 1, ret);
            let bounds = where_clause(g, at(q_ret));
            let q_bounds = behind(q_ret, bounds);
            let body = fn_body(g, at(q_bounds));
            let q_body = behind(q_bounds, body);
            let fits = g.kind(p + 1) == TokenKind::Keyword(Keyword::Fn)
                && name.res is Ok
                && generics.res is Ok
                && g.kind(q_generics) == TokenKind::Delim(Delim::LParen)
                && params.res is Ok
                && g.kind(q_params) == TokenKind::Delim(Delim::RParen)
                && ret.res is Ok
                && bounds.res is Ok
                && body.res is Ok;
            &&& fn_decl(g, at(p)).res is Ok <==> fits
            &&& fits
                ==> fn_decl(g, at(p)) == read(
                    q_body,
                    FnDecl {
                        is_async: true,
                        name: name.out(),
                        generics: generics.out(),
                        params: params.out(),
                        return_type: ret.out(),
                        where_clause: bounds.out(),
                        body: body.out(),
                    },
                )
        }),
{
    let name = ident(g, at(p + 2));
    let q_name = behind(p + 2, name);
    let generics = generic_params(g, at(q_name));
    let q_generics = behind(q_name, generics);
    let params = param_list(g, at(q_generics + 1));
    let q_params = behind(q_generics + 1, params);
    let ret = opt_return_type(g, at(q_params + 1));
    let q_ret = behind(q_params + 1, ret);
    let bounds = where_clause(g, at(q_ret));
    let q_bounds = behind(q_ret, bounds);
    let body = fn_body(g, at(q_bounds));
    let q_body = behind(q_bounds, body);
    assert(at(p).skip() == at(p + 1));
    assert(g.kind(p + 1) == TokenKind::Keyword(Keyword::Fn)
        ==> at(p + 1).kw(g, Keyword::Fn) == at(p + 2));
    assert(name.res is Ok ==> at(p + 2).after(name) == at(q_name));
    assert(generics.res is Ok ==> at(q_name).after(generics) == at(q_generics));
    assert(g.kind(q_generics) == TokenKind::Delim(Delim::LParen)
        ==> at(q_generics).delim(g, Delim::LParen) == at(q_generics + 1));
    assert(params.res is Ok ==> at(q_generics + 1).after(params) == at(q_params));
    assert(g.kind(q_params) == TokenKind::Delim(Delim::RParen)
        ==> at(q_params).delim(g, Delim::RParen) == at(q_params + 1));
    assert(ret.res is Ok ==> at(q_params + 1).after(ret) == at(q_ret));
    assert(bounds.res is Ok ==> at(q_ret).after(bounds) == at(q_bounds));
    assert(body.res is Ok ==> at(q_bounds).after(body) == at(q_body));
}

/// `;` in place of a body leaves it out.
pub proof fn signature_alone(g: Src, p: nat)
    requires
        g.kind(p) == TokenKind::Delim(Delim::Semi),
    ensures
        ({
            fn_body(g, at(p)) == read(p + 1, None::<Block>)
        }),
{
    assert(at(p).skip() == at(p + 1));
}

/// Anything else is a block.
pub proof fn function_body(g: Src, p: nat)
    requires
        g.kind(p) != TokenKind::Delim(Delim::Semi),
    ensures
        ({
            let b = block(g, at(p));
            let q_b = behind(p, b);
            let fits = b.res is Ok;
            &&& fn_body(g, at(p)).res is Ok <==> fits
            &&& fits ==> fn_body(g, at(p)) == read(q_b, Some(b.out()))
        }),
{
    let b = block(g, at(p));
    let q_b = behind(p, b);
    assert(b.res is Ok ==> at(p).after(b) == at(q_b));
}

/// A parameter from `a` up to `b`.
pub open spec fn a_param(g: Src) -> spec_fn(nat, Param, nat) -> bool {
    |a: nat, x: Param, b: nat| param(g, at(a)) == read(b, x)
}

#[verifier::rlimit(30)]
proof fn parameters_from(
    g: Src,
    xs: Seq<Param>,
    starts: Seq<nat>,
    ends: Seq<nat>,
    q: nat,
    k: int,
)
    requires
        0 <= k < xs.len(),
        listed(g, a_param(g), TokenKind::Delim(Delim::Comma), xs, starts, ends),
        forall|i: int| 0 <= i < xs.len()
            ==> g.kind(#[trigger] starts[i]) != TokenKind::Delim(Delim::RParen),
        list_end(g, ends[xs.len() - 1], TokenKind::Delim(Delim::RParen), q),
    ensures
        more_params(g, at(ends[k]), xs.take(k + 1)) == read(q, xs),
        ends[k] <= q,
    decreases xs.len() - k,
{
    let done = xs.take(k + 1);
    let p = ends[k];
    assert(at(p).skip() == at(p + 1));
    if k + 1 == xs.len() {
        assert(done =~= xs);
        assert(more_params(g, at(p), done) == read(q, xs));
    } else {
        parameters_from(g, xs, starts, ends, q, k + 1);
        let x = xs[k + 1];
        assert(a_param(g)(starts[k + 1], x, ends[k + 1]));
        assert(g.kind(ends[k]) == TokenKind::Delim(Delim::Comma) && starts[k + 1] == p + 1);
        assert(param(g, at(p + 1)) == read(ends[k + 1], x));
        assert(at(p + 1).after(param(g, at(p + 1))) == at(ends[k + 1]));
        assert(done.push(x) =~= xs.take((k + 1) + 1));
        assert(
            more_params(g, at(p), done) == more_params(g, at(ends[k + 1]), xs.take((k + 1) + 1))
        );
    }
}

/// Parameters with commas between them, perhaps with one behind the last, are read in their
/// order up to `)`.
#[verifier::rlimit(30)]
pub proof fn parameters(
    g: Src,
    p: nat,
    xs: Seq<Param>,
    starts: Seq<nat>,
    ends: Seq<nat>,
    q: nat,
)
    requires
        xs.len() > 0,
        listed(g, a_param(g), TokenKind::Delim(Delim::Comma), xs, starts, ends),
        p == starts[0],
        forall|i: int| 0 <= i < xs.len()
            ==> g.kind(#[trigger] starts[i]) != TokenKind::Delim(Delim::RParen),
        list_end(g, ends[xs.len() - 1], TokenKind::Delim(Delim::RParen), q),
    ensures
        param_list(g, at(p)) == read(q, xs),
{
    assert(at(p).skip() == at(p + 1));
    let x = xs[0];
    assert(a_param(g)(starts[0], x, ends[0]));
    assert(param(g, at(p)) == read(ends[0], x));
    assert(at(p).after(param(g, at(p))) == at(ends[0]));
    parameters_from(g, xs, starts, ends, q, 0);
    assert(seq![x] =~= xs.take(1));
    assert(g.kind(starts[0]) == g.kind(p));
}

/// There may be no parameters.
pub proof fn no_parameters(g: Src, p: nat)
    requires
        g.kind(p) == TokenKind::Delim(Delim::RParen),
    ensures
        param_list(g, at(p)) == read(p, Seq::<Param>::empty()),
{
}

/// `name: T = default` is a parameter, here plain.
#[verifier::rlimit(30)]
pub proof fn plain_parameter(g: Src, p: nat)
    requires
        g.kind(p) != TokenKind::Op(Op::DotDot),
        g.kind(p) != TokenKind::Keyword(Keyword::Borrow),
        g.kind(p) != TokenKind::Keyword(Keyword::Move),
        word(g, at(p)).out() != "self"@,
    ensures
        ({
            let name = word(g, at(p));
            let q_name = behind(p, name);
            let ty = type_of(g, at(q_name + 1));
            let q_ty = behind(q_name + 1, ty);
            let default = opt_value(g, at(q_ty));
            let q_default = behind(q_ty, default);
            let fits = name.res is Ok
                && g.kind(q_name) == TokenKind::Delim(Delim::Colon)
                && ty.res is Ok
                && default.res is Ok;
            &&& param(g, at(p)).res is Ok <==> fits
            &&& fits
                ==> param(g, at(p)) == read(
                    q_default,
                    Param {
                        ownership: OwnershipMod::Plain,
                        name: name.out(),
                        is_variadic: false,
                        ty: ty.out(),
                        default: default.out(),
                    },
                )
        }),
{
    let name = word(g, at(p));
    let q_name = behind(p, name);
    let ty = type_of(g, at(q_name + 1));
    let q_ty = behind(q_name + 1, ty);
    let default = opt_value(g, at(q_ty));
    let q_default = behind(q_ty, default);
    assert(name.res is Ok ==> at(p).after(name) == at(q_name));
    assert(g.kind(q_name) == TokenKind::Delim(Delim::Colon)
        ==> at(q_name).delim(g, Delim::Colon) == at(q_name + 1));
    assert(ty.res is Ok ==> at(q_name + 1).after(ty) == at(q_ty));
    assert(default.res is Ok ==> at(q_ty).after(default) == at(q_default));
}

/// `self` is a receiver, here plain, and has no type of its own.
#[verifier::rlimit(20)]
pub proof fn plain_receiver(g: Src, p: nat)
    requires
        g.kind(p) != TokenKind::Op(Op::DotDot),
        g.kind(p) != TokenKind::Keyword(Keyword::Borrow),
        g.kind(p) != TokenKind::Keyword(Keyword::Move),
        word(g, at(p)).out() == "self"@,
    ensures
        ({
            let name = word(g, at(p));
            let q_name = behind(p, name);
            let fits = name.res is Ok;
            &&& param(g, at(p)).res is Ok <==> fits
            &&& fits
                ==> param(g, at(p)) == read(
                    q_name,
                    Param {
                        ownership: OwnershipMod::Plain,
                        name: name.out(),
                        is_variadic: false,
                        ty: Type::Unit,
                        default: None,
                    },
                )
        }),
{
    let name = word(g, at(p));
    let q_name = behind(p, name);
    assert(name.res is Ok ==> at(p).after(name) == at(q_name));
}

/// `name: T = default` is a parameter, here borrowed.
#[verifier::rlimit(30)]
pub proof fn borrowed_parameter(g: Src, p: nat)
    requires
        g.kind(p) == TokenKind::Keyword(Keyword::Borrow),
        g.kind(p + 1) != TokenKind::Keyword(Keyword::Mut),
        word(g, at(p + 1)).out() != "self"@,
    ensures
        ({
            let name = word(g, at(p + 1));
            let q_name = behind(p + 1, name);
            let ty = type_of(g, at(q_name + 1));
            let q_ty = behind(q_name + 1, ty);
            let default = opt_value(g, at(q_ty));
            let q_default = behind(q_ty, default);
            let fits = name.res is Ok
                && g.kind(q_name) == TokenKind::Delim(Delim::Colon)
                && ty.res is Ok
                && default.res is Ok;
            &&& param(g, at(p)).res is Ok <==> fits
            &&& fits
                ==> param(g, at(p)) == read(
                    q_default,
                    Param {
                        ownership: OwnershipMod::Borrow,
                        name: name.out(),
                        is_variadic: false,
                        ty: ty.out(),
                        default: default.out(),
                    },
                )
        }),
{
    let name = word(g, at(p + 1));
    let q_name = behind(p + 1, name);
    let ty = type_of(g, at(q_name + 1));
    let q_ty = behind(q_name + 1, ty);
    let default = opt_value(g, at(q_ty));
    let q_default = behind(q_ty, default);
    assert(at(p).skip() == at(p + 1));
    assert(name.res is Ok ==> at(p + 1).after(name) == at(q_name));
    assert(g.kind(q_name) == TokenKind::Delim(Delim::Colon)
        ==> at(q_name).delim(g, Delim::Colon) == at(q_name + 1));
    assert(ty.res is Ok ==> at(q_name + 1).after(ty) == at(q_ty));
    assert(default.res is Ok ==> at(q_ty).after(default) == at(q_default));
}

/// `self` is a receiver, here borrowed, and has no type of its own.
#[verifier::rlimit(20)]
pub proof fn borrowed_receiver(g: Src, p: nat)
    requires
        g.kind(p) == TokenKind::Keyword(Keyword::Borrow),
        g.kind(p + 1) != TokenKind::Keyword(Keyword::Mut),
        word(g, at(p + 1)).out() == "self"@,
    ensures
        ({
            let name = word(g, at(p + 1));
            let q_name = behind(p + 1, name);
            let fits = name.res is Ok;
            &&& param(g, at(p)).res is Ok <==> fits
            &&& fits
                ==> param(g, at(p)) == read(
                    q_name,
                    Param {
                        ownership: OwnershipMod::Borrow,
                        name: name.out(),
                        is_variadic: false,
                        ty: Type::Unit,
                        default: None,
                    },
                )
        }),
{
    let name = word(g, at(p + 1));
    let q_name = behind(p + 1, name);
    assert(at(p).skip() == at(p + 1));
    assert(name.res is Ok ==> at(p + 1).after(name) == at(q_name));
}

/// `name: T = default` is a parameter, here mutably borrowed.
#[verifier::rlimit(30)]
pub proof fn mutably_borrowed_parameter(g: Src, p: nat)
    requires
        g.kind(p) == TokenKind::Keyword(Keyword::Borrow),
        g.kind(p + 1) == TokenKind::Keyword(Keyword::Mut),
        word(g, at(p + 2)).out() != "self"@,
    ensures
        ({
            let name = word(g, at(p + 2));
            let q_name = behind(p + 2, name);
            let ty = type_of(g, at(q_name + 1));
            let q_ty = behind(q_name + 1, ty);
            let default = opt_value(g, at(q_ty));
            let q_default = behind(q_ty, default);
            let fits = name.res is Ok
                && g.kind(q_name) == TokenKind::Delim(Delim::Colon)
                && ty.res is Ok
                && default.res is Ok;
            &&& param(g, at(p)).res is Ok <==> fits
            &&& fits
                ==> param(g, at(p)) == read(
                    q_default,
                    Param {
                        ownership: OwnershipMod::BorrowMut,
                        name: name.out(),
                        is_variadic: false,
                        ty: ty.out(),
                        default: default.out(),
                    },
                )
        }),
{
    let name = word(g, at(p + 2));
    let q_name = behind(p + 2, name);
    let ty = type_of(g, at(q_name + 1));
    let q_ty = behind(q_name + 1, ty);
    let default = opt_value(g, at(q_ty));
    let q_default = behind(q_ty, default);
    assert(at(p).skip() == at(p + 1));
    assert(at(p + 1).skip() == at(p + 2));
    assert(name.res is Ok ==> at(p + 2).after(name) == at(q_name));
    assert(g.kind(q_name) == TokenKind::Delim(Delim::Colon)
        ==> at(q_name).delim(g, Delim::Colon) == at(q_name + 1));
    assert(ty.res is Ok ==> at(q_name + 1).after(ty) == at(q_ty));
    assert(default.res is Ok ==> at(q_ty).after(default) == at(q_default));
}

/// `self` is a receiver, here mutably borrowed, and has no type of its own.
#[verifier::rlimit(20)]
pub proof fn mutably_borrowed_receiver(g: Src, p: nat)
    requires
        g.kind(p) == TokenKind::Keyword(Keyword::Borrow),
        g.kind(p + 1) == TokenKind::Keyword(Keyword::Mut),
        word(g, at(p + 2)).out() == "self"@,
    ensures
        ({
            let name = word(g, at(p + 2));
            let q_name = behind(p + 2, name);
            let fits = name.res is Ok;
            &&& param(g, at(p)).res is Ok <==> fits
            &&& fits
                ==> param(g, at(p)) == read(
                    q_name,
                    Param {
                        ownership: OwnershipMod::BorrowMut,
                        name: name.out(),
                        is_variadic: false,
                        ty: Type::Unit,
                        default: None,
                    },
                )
        }),
{
    let name = word(g, at(p + 2));
    let q_name = behind(p + 2, name);
    assert(at(p).skip() == at(p + 1));
    assert(at(p + 1).skip() == at(p + 2));
    assert(name.res is Ok ==> at(p + 2).after(name) == at(q_name));
}

/// `name: T = default` is a parameter, here moved.
#[verifier::rlimit(30)]
pub proof fn moved_parameter(g: Src, p: nat)
    requires
        g.kind(p) == TokenKind::Keyword(Keyword::Move),
        word(g, at(p + 1)).out() != "self"@,
    ensures
        ({
            let name = word(g, at(p + 1));
            let q_name = behind(p + 1, name);
            let ty = type_of(g, at(q_name + 1));
            let q_ty = behind(q_name + 1, ty);
            let default = opt_value(g, at(q_ty));
            let q_default = behind(q_ty, default);
            let fits = name.res is Ok
                && g.kind(q_name) == TokenKind::Delim(Delim::Colon)
                && ty.res is Ok
                && default.res is Ok;
            &&& param(g, at(p)).res is Ok <==> fits
            &&& fits
                ==> param(g, at(p)) == read(
                    q_default,
                    Param {
                        ownership: OwnershipMod::Move,
                        name: name.out(),
                        is_variadic: false,
                        ty: ty.out(),
                        default: default.out(),
                    },
                )
        }),
{
    let name = word(g, at(p + 1));
    let q_name = behind(p + 1, name);
    let ty = type_of(g, at(q_name + 1));
    let q_ty = behind(q_name + 1, ty);
    let default = opt_value(g, at(q_ty));
    let q_default = behind(q_ty, default);
    assert(at(p).skip() == at(p + 1));
    assert(name.res is Ok ==> at(p + 1).after(name) == at(q_name));
    assert(g.kind(q_name) == TokenKind::Delim(Delim::Colon)
        ==> at(q_name).delim(g, Delim::Colon) == at(q_name + 1));
    assert(ty.res is Ok ==> at(q_name + 1).after(ty) == at(q_ty));
    assert(default.res is Ok ==> at(q_ty).after(default) == at(q_default));
}

/// `self` is a receiver, here moved, and has no type of its own.
#[verifier::rlimit(20)]
pub proof fn moved_receiver(g: Src, p: nat)
    requires
        g.kind(p) == TokenKind::Keyword(Keyword::Move),
        word(g, at(p + 1)).out() == "self"@,
    ensures
        ({
            let name = word(g, at(p + 1));
            let q_name = behind(p + 1, name);
            let fits = name.res is Ok;
            &&& param(g, at(p)).res is Ok <==> fits
            &&& fits
                ==> param(g, at(p)) == read(
                    q_name,
                    Param {
                        ownership: OwnershipMod::Move,
                        name: name.out(),
                        is_variadic: false,
                        ty: Type::Unit,
                        default: None,
                    },
                )
        }),
{
    let name = word(g, at(p + 1));
    let q_name = behind(p + 1, name);
    assert(at(p).skip() == at(p + 1));
    assert(name.res is Ok ==> at(p + 1).after(name) == at(q_name));
}

/// `..name: T` takes all further arguments.
#[verifier::rlimit(20)]
pub proof fn variadic_parameter(g: Src, p: nat)
    requires
        g.kind(p) == TokenKind::Op(Op::DotDot),
        g.kind(p + 1) != TokenKind::Op(Op::Dot),
    ensures
        ({
            let name = word(g, at(p + 1));
            let q_name = behind(p + 1, name);
            let ty = type_of(g, at(q_name + 1));
            let q_ty = behind(q_name + 1, ty);
            let fits = name.res is Ok
                && g.kind(q_name) == TokenKind::Delim(Delim::Colon)
                && ty.res is Ok;
            &&& param(g, at(p)).res is Ok <==> fits
            &&& fits
                ==> param(g, at(p)) == read(
                    q_ty,
                    Param {
                        ownership: OwnershipMod::Plain,
                        name: name.out(),
                        is_variadic: true,
                        ty: ty.out(),
                        default: None,
                    },
                )
        }),
{
    let name = word(g, at(p + 1));
    let q_name = behind(p + 1, name);
    let ty = type_of(g, at(q_name + 1));
    let q_ty = behind(q_name + 1, ty);
    assert(at(p).skip() == at(p + 1));
    assert(name.res is Ok ==> at(p + 1).after(name) == at(q_name));
    assert(g.kind(q_name) == TokenKind::Delim(Delim::Colon)
        ==> at(q_name).delim(g, Delim::Colon) == at(q_name + 1));
    assert(ty.res is Ok ==> at(q_name + 1).after(ty) == at(q_ty));
}

/// `...name: T` takes all further arguments.
#[verifier::rlimit(20)]
pub proof fn variadic_parameter_with_three_dots(g: Src, p: nat)
    requires
        g.kind(p) == TokenKind::Op(Op::DotDot),
        g.kind(p + 1) == TokenKind::Op(Op::Dot),
    ensures
        ({
            let name = word(g, at(p + 2));
            let q_name = behind(p + 2, name);
            let ty = type_of(g, at(q_name + 1));
            let q_ty = behind(q_name + 1, ty);
            let fits = name.res is Ok
                && g.kind(q_name) == TokenKind::Delim(Delim::Colon)
                && ty.res is Ok;
            &&& param(g, at(p)).res is Ok <==> fits
            &&& fits
                ==> param(g, at(p)) == read(
                    q_ty,
                    Param {
                        ownership: OwnershipMod::Plain,
                        name: name.out(),
                        is_variadic: true,
                        ty: ty.out(),
                        default: None,
                    },
                )
        }),
{
    let name = word(g, at(p + 2));
    let q_name = behind(p + 2, name);
    let ty = type_of(g, at(q_name + 1));
    let q_ty = behind(q_name + 1, ty);
    assert(at(p).skip() == at(p + 1));
    assert(at(p + 1).skip() == at(p + 2));
    assert(name.res is Ok ==> at(p + 2).after(name) == at(q_name));
    assert(g.kind(q_name) == TokenKind::Delim(Delim::Colon)
        ==> at(q_name).delim(g, Delim::Colon) == at(q_name + 1));
    assert(ty.res is Ok ==> at(q_name + 1).after(ty) == at(q_ty));
}

/// After `struct`: a name, generic parameters, and a body.
pub proof fn struct_form(g: Src, p: nat)
    ensures
        ({
            let name = ident(g, at(p));
            let q_name = behind(p, name);
            let generics = generic_params(g, at(q_name));
            let q_generics = behind(q_name, generics);
            let body = struct_body(g, at(q_generics));
            let q_body = behind(q_generics, body);
            let fits = name.res is Ok
                && generics.res is Ok
                && body.res is Ok;
            &&& struct_tail(g, at(p)).res is Ok <==> fits
            &&& fits
                ==> struct_tail(g, at(p)) == read(
                    q_body,
                    StructDecl { name: name.out(), generics: generics.out(), body: body.out() },
                )
        }),
{
    let name = ident(g, at(p));
    let q_name = behind(p, name);
    let generics = generic_params(g, at(q_name));
    let q_generics = behind(q_name, generics);
    let body = struct_body(g, at(q_generics));
    let q_body = behind(q_generics, body);
    assert(name.res is Ok ==> at(p).after(name) == at(q_name));
    assert(generics.res is Ok ==> at(q_name).after(generics) == at(q_generics));
    assert(body.res is Ok ==> at(q_generics).after(body) == at(q_body));
}

/// `;` leaves a struct without fields.
pub proof fn unit_struct(g: Src, p: nat)
    requires
        g.kind(p) == TokenKind::Delim(Delim::Semi),
    ensures
        ({
            struct_body(g, at(p)) == read(p + 1, StructBody::Unit)
        }),
{
    assert(at(p).skip() == at(p + 1));
}

/// `(types);` is a tuple-like struct of exactly these.
pub proof fn tuple_struct(g: Src, p: nat)
    requires
        g.kind(p) == TokenKind::Delim(Delim::LParen),
    ensures
        ({
            let types = type_list(g, at(p + 1), Delim::RParen);
            let q_types = behind(p + 1, types);
            let fits = types.res is Ok
                && g.kind(q_types) == TokenKind::Delim(Delim::RParen)
                && g.kind(q_types + 1) == TokenKind::Delim(Delim::Semi);
            &&& struct_body(g, at(p)).res is Ok <==> fits
            &&& fits ==> struct_body(g, at(p)) == read(q_types + 2, StructBody::Tuple(types.out()))
        }),
{
    let types = type_list(g, at(p + 1), Delim::RParen);
    let q_types = behind(p + 1, types);
    assert(at(p).skip() == at(p + 1));
    assert(types.res is Ok ==> at(p + 1).after(types) == at(q_types));
    assert(g.kind(q_types) == TokenKind::Delim(Delim::RParen)
        ==> at(q_types).delim(g, Delim::RParen) == at(q_types + 1));
    assert(g.kind(q_types + 1) == TokenKind::Delim(Delim::Semi)
        ==> at(q_types + 1).delim(g, Delim::Semi) == at(q_types + 2));
}

/// `{ fields }` is a struct of exactly these.
pub proof fn named_struct(g: Src, p: nat)
    requires
        g.kind(p) != TokenKind::Delim(Delim::Semi),
        g.kind(p) != TokenKind::Delim(Delim::LParen),
    ensures
        ({
            let fields = field_list(g, at(p + 1), seq![]);
            let q_fields = behind(p + 1, fields);
            let fits = g.kind(p) == TokenKind::Delim(Delim::LBrace)
                && fields.res is Ok
                && g.kind(q_fields) == TokenKind::Delim(Delim::RBrace);
            &&& struct_body(g, at(p)).res is Ok <==> fits
            &&& fits
                ==> struct_body(g, at(p)) == read(q_fields + 1, StructBody::Named(fields.out()))
        }),
{
    let fields = field_list(g, at(p + 1), seq![]);
    let q_fields = behind(p + 1, fields);
    assert(g.kind(p) == TokenKind::Delim(Delim::LBrace)
        ==> at(p).delim(g, Delim::LBrace) == at(p + 1));
    assert(fields.res is Ok ==> at(p + 1).after(fields) == at(q_fields));
    assert(g.kind(q_fields) == TokenKind::Delim(Delim::RBrace)
        ==> at(q_fields).delim(g, Delim::RBrace) == at(q_fields + 1));
}

/// A field, `visibility name: type`, from `a` up to `b`.
pub open spec fn a_field(g: Src) -> spec_fn(nat, FieldDecl, nat) -> bool {
    |a: nat, x: FieldDecl, b: nat| {
        let v = visibility(g, at(a));
        let q = behind(a, v);
        &&& v.res == Ok::<Visibility, Failure>(x.visibility)
        &&& word(g, at(q)) == read(q + 1, x.name)
        &&& g.kind(q + 1) == TokenKind::Delim(Delim::Colon)
        &&& type_of(g, at(q + 2)) == read(b, x.ty)
        &&& q + 2 <= b
    }
}

#[verifier::rlimit(30)]
proof fn fields_from(
    g: Src,
    xs: Seq<FieldDecl>,
    starts: Seq<nat>,
    ends: Seq<nat>,
    q: nat,
    k: int,
)
    requires
        0 <= k < xs.len(),
        listed(g, a_field(g), TokenKind::Delim(Delim::Comma), xs, starts, ends),
        forall|i: int| 0 <= i < xs.len()
            ==> g.kind(#[trigger] starts[i]) != TokenKind::Delim(Delim::RBrace),
        list_end(g, ends[xs.len() - 1], TokenKind::Delim(Delim::RBrace), q),
    ensures
        field_list(g, at(starts[k]), xs.take(k)) == read(q, xs),
        starts[k] <= q,
    decreases xs.len() - k,
{
    let done = xs.take(k);
    let x = xs[k];
    let p = starts[k];
    let e = ends[k];
    assert(a_field(g)(p, x, e));
    assert(g.kind(starts[k]) == g.kind(p));
    assert(at(e).skip() == at(e + 1));
    assert(done.push(x) =~= xs.take(k + 1));
    let v = visibility(g, at(p));
    let q1 = behind(p, v);
    assert(at(p).after(v) == at(q1));
    assert(at(q1).after(word(g, at(q1))) == at(q1 + 1));
    assert(at(q1 + 1).delim(g, Delim::Colon) == at(q1 + 2));
    assert(at(q1 + 2).after(type_of(g, at(q1 + 2))) == at(e));
    assert(x == FieldDecl { visibility: x.visibility, name: x.name, ty: x.ty });
    if k + 1 == xs.len() {
        assert(xs.take(k + 1) =~= xs);
        if g.kind(e) == TokenKind::Delim(Delim::Comma) {
            assert(field_list(g, at(e + 1), xs) == read(e + 1, xs));
        }
    } else {
        fields_from(g, xs, starts, ends, q, k + 1);
        assert(g.kind(ends[k]) == TokenKind::Delim(Delim::Comma) && starts[k + 1] == e + 1);
    }
}

/// The fields of a struct, with commas between them, are read in their order up to `}`.
pub proof fn fields(
    g: Src,
    xs: Seq<FieldDecl>,
    starts: Seq<nat>,
    ends: Seq<nat>,
    q: nat,
)
    requires
        xs.len() > 0,
        listed(g, a_field(g), TokenKind::Delim(Delim::Comma), xs, starts, ends),
        forall|i: int| 0 <= i < xs.len()
            ==> g.kind(#[trigger] starts[i]) != TokenKind::Delim(Delim::RBrace),
        list_end(g, ends[xs.len() - 1], TokenKind::Delim(Delim::RBrace), q),
    ensures
        field_list(g, at(starts[0]), seq![]) == read(q, xs),
{
    fields_from(g, xs, starts, ends, q, 0);
    assert(xs.take(0) =~= Seq::<FieldDecl>::empty());
}

/// After `enum`: a name, generic parameters, and variants in braces.
#[verifier::rlimit(20)]
pub proof fn enum_form(g: Src, p: nat)
    ensures
        ({
            let name = word(g, at(p));
            let q_name = behind(p, name);
            let generics = generic_params(g, at(q_name));
            let q_generics = behind(q_name, generics);
            let variants = variant_list(g, at(q_generics + 1), seq![]);
            let q_variants = behind(q_generics + 1, variants);
            let fits = name.res is Ok
                && generics.res is Ok
                && g.kind(q_generics) == TokenKind::Delim(Delim::LBrace)
                && variants.res is Ok
                && g.kind(q_variants) == TokenKind::Delim(Delim::RBrace);
            &&& enum_tail(g, at(p)).res is Ok <==> fits
            &&& fits
                ==> enum_tail(g, at(p)) == read(
                    q_variants + 1,
                    EnumDecl {
                        name: name.out(),
                        generics: generics.out(),
                        variants: variants.out(),
                    },
                )
        }),
{
    let name = word(g, at(p));
    let q_name = behind(p, name);
    let generics = generic_params(g, at(q_name));
    let q_generics = behind(q_name, generics);
    let variants = variant_list(g, at(q_generics + 1), seq![]);
    let q_variants = behind(q_generics + 1, variants);
    assert(name.res is Ok ==> at(p).after(name) == at(q_name));
    assert(generics.res is Ok ==> at(q_name).after(generics) == at(q_generics));
    assert(g.kind(q_generics) == TokenKind::Delim(Delim::LBrace)
        ==> at(q_generics).delim(g, Delim::LBrace) == at(q_generics + 1));
    assert(variants.res is Ok ==> at(q_generics + 1).after(variants) == at(q_variants));
    assert(g.kind(q_variants) == TokenKind::Delim(Delim::RBrace)
        ==> at(q_variants).delim(g, Delim::RBrace) == at(q_variants + 1));
}

/// A variant from `a` up to `b`.
pub open spec fn a_variant(g: Src) -> spec_fn(nat, EnumVariant, nat) -> bool {
    |a: nat, x: EnumVariant, b: nat| variant(g, at(a)) == read(b, x)
}

#[verifier::rlimit(60)]
proof fn variants_from(
    g: Src,
    xs: Seq<EnumVariant>,
    starts: Seq<nat>,
    ends: Seq<nat>,
    q: nat,
    k: int,
)
    requires
        0 <= k < xs.len(),
        listed(g, a_variant(g), TokenKind::Delim(Delim::Comma), xs, starts, ends),
        forall|i: int| 0 <= i < xs.len()
            ==> g.kind(#[trigger] starts[i]) != TokenKind::Delim(Delim::RBrace),
        list_end(g, ends[xs.len() - 1], TokenKind::Delim(Delim::RBrace), q),
    ensures
        variant_list(g, at(starts[k]), xs.take(k)) == read(q, xs),
        starts[k] <= q,
    decreases xs.len() - k,
{
    let done = xs.take(k);
    let x = xs[k];
    let p = starts[k];
    let e = ends[k];
    assert(a_variant(g)(p, x, e));
    assert(g.kind(starts[k]) == g.kind(p));
    assert(at(e).skip() == at(e + 1));
    assert(done.push(x) =~= xs.take(k + 1));
    let step = variant(g, at(p));
    assert(step == read(e, x));
    assert(at(p).after(step) == at(e));
    let comma = TokenKind::Delim(Delim::Comma);
    assert(g.kind(e) == comma
        ==> variant_list(g, at(p), done) == variant_list(g, at(e + 1), done.push(x)));
    assert(g.kind(e) != comma ==> variant_list(g, at(p), done) == read(e, done.push(x)));
    if k + 1 == xs.len() {
        assert(xs.take(k + 1) =~= xs);
        if g.kind(e) == TokenKind::Delim(Delim::Comma) {
            assert(variant_list(g, at(e + 1), xs) == read(e + 1, xs));
        }
    } else {
        variants_from(g, xs, starts, ends, q, k + 1);
        assert(g.kind(ends[k]) == TokenKind::Delim(Delim::Comma) && starts[k + 1] == e + 1);
    }
}

/// The variants of an enum, with commas between them, are read in their order up to `}`.
pub proof fn variants(
    g: Src,
    xs: Seq<EnumVariant>,
    starts: Seq<nat>,
    ends: Seq<nat>,
    q: nat,
)
    requires
        xs.len() > 0,
        listed(g, a_variant(g), TokenKind::Delim(Delim::Comma), xs, starts, ends),
        forall|i: int| 0 <= i < xs.len()
            ==> g.kind(#[trigger] starts[i]) != TokenKind::Delim(Delim::RBrace),
        list_end(g, ends[xs.len() - 1], TokenKind::Delim(Delim::RBrace), q),
    ensures
        variant_list(g, at(starts[0]), seq![]) == read(q, xs),
{
    variants_from(g, xs, starts, ends, q, 0);
    assert(xs.take(0) =~= Seq::<EnumVariant>::empty());
}

/// `Name(types)` is a variant that carries exactly these.
pub proof fn variant_with_data(g: Src, p: nat)
    requires
        g.kind(p + 1) == TokenKind::Delim(Delim::LParen),
    ensures
        ({
            let name = word(g, at(p));
            let q_name = behind(p, name);
            let data = type_list(g, at(q_name + 1), Delim::RParen);
            let q_data = behind(q_name + 1, data);
            let fits = name.res is Ok
                && g.kind(q_name) == TokenKind::Delim(Delim::LParen)
                && data.res is Ok
                && g.kind(q_data) == TokenKind::Delim(Delim::RParen);
            &&& variant(g, at(p)).res is Ok <==> fits
            &&& fits
                ==> variant(g, at(p)) == read(
                    q_data + 1,
                    EnumVariant { name: name.out(), data: data.out() },
                )
        }),
{
    let name = word(g, at(p));
    let q_name = behind(p, name);
    let data = type_list(g, at(q_name + 1), Delim::RParen);
    let q_data = behind(q_name + 1, data);
    assert(name.res is Ok ==> at(p).after(name) == at(q_name));
    assert(g.kind(q_name) == TokenKind::Delim(Delim::LParen)
        ==> at(q_name).delim(g, Delim::LParen) == at(q_name + 1));
    assert(data.res is Ok ==> at(q_name + 1).after(data) == at(q_data));
    assert(g.kind(q_data) == TokenKind::Delim(Delim::RParen)
        ==> at(q_data).delim(g, Delim::RParen) == at(q_data + 1));
    assert(name.res is Ok ==> q_name == p + 1);
    assert(at(p + 1).skip() == at(p + 2));
}

/// `Name` is a variant that carries nothing.
pub proof fn variant_without_data(g: Src, p: nat)
    requires
        g.kind(p + 1) != TokenKind::Delim(Delim::LParen),
    ensures
        ({
            let name = word(g, at(p));
            let q_name = behind(p, name);
            let fits = name.res is Ok;
            &&& variant(g, at(p)).res is Ok <==> fits
            &&& fits
                ==> variant(g, at(p)) == read(
                    q_name,
                    EnumVariant { name: name.out(), data: seq![] },
                )
        }),
{
    let name = word(g, at(p));
    let q_name = behind(p, name);
    assert(name.res is Ok ==> at(p).after(name) == at(q_name));
    assert(name.res is Ok ==> q_name == p + 1);
}

/// After `trait`: a name, generic parameters, and items in braces.
#[verifier::rlimit(20)]
pub proof fn trait_form(g: Src, p: nat)
    ensures
        ({
            let name = word(g, at(p));
            let q_name = behind(p, name);
            let generics = generic_params(g, at(q_name));
            let q_generics = behind(q_name, generics);
            let items = trait_items(g, at(q_generics + 1), seq![]);
            let q_items = behind(q_generics + 1, items);
            let fits = name.res is Ok
                && generics.res is Ok
                && g.kind(q_generics) == TokenKind::Delim(Delim::LBrace)
                && items.res is Ok
                && g.kind(q_items) == TokenKind::Delim(Delim::RBrace);
            &&& trait_tail(g, at(p)).res is Ok <==> fits
            &&& fits
                ==> trait_tail(g, at(p)) == read(
                    q_items + 1,
                    TraitDecl { name: name.out(), generics: generics.out(), items: items.out() },
                )
        }),
{
    let name = word(g, at(p));
    let q_name = behind(p, name);
    let generics = generic_params(g, at(q_name));
    let q_generics = behind(q_name, generics);
    let items = trait_items(g, at(q_generics + 1), seq![]);
    let q_items = behind(q_generics + 1, items);
    assert(name.res is Ok ==> at(p).after(name) == at(q_name));
    assert(generics.res is Ok ==> at(q_name).after(generics) == at(q_generics));
    assert(g.kind(q_generics) == TokenKind::Delim(Delim::LBrace)
        ==> at(q_generics).delim(g, Delim::LBrace) == at(q_generics + 1));
    assert(items.res is Ok ==> at(q_generics + 1).after(items) == at(q_items));
    assert(g.kind(q_items) == TokenKind::Delim(Delim::RBrace)
        ==> at(q_items).delim(g, Delim::RBrace) == at(q_items + 1));
}

/// Where the first type behind an `impl` ends.
pub open spec fn behind_first_type(g: Src, p: nat) -> nat {
    let q = behind(p, generic_params(g, at(p)));
    behind(q, type_ref(g, at(q)))
}

/// After `impl`: generic parameters, a type, bounds, and items in braces.
#[verifier::rlimit(40)]
pub proof fn impl_form(g: Src, p: nat)
    requires
        g.kind(behind_first_type(g, p)) != TokenKind::Keyword(Keyword::For),
    ensures
        ({
            let generics = generic_params(g, at(p));
            let q_generics = behind(p, generics);
            let target = type_ref(g, at(q_generics));
            let q_target = behind(q_generics, target);
            let bounds = where_clause(g, at(q_target));
            let q_bounds = behind(q_target, bounds);
            let items = impl_items(g, at(q_bounds + 1), seq![]);
            let q_items = behind(q_bounds + 1, items);
            let fits = generics.res is Ok
                && target.res is Ok
                && g.kind(q_target) != TokenKind::Keyword(Keyword::For)
                && bounds.res is Ok
                && g.kind(q_bounds) == TokenKind::Delim(Delim::LBrace)
                && items.res is Ok
                && g.kind(q_items) == TokenKind::Delim(Delim::RBrace);
            &&& impl_tail(g, at(p)).res is Ok <==> fits
            &&& fits
                ==> impl_tail(g, at(p)) == read(
                    q_items + 1,
                    ImplDecl {
                        generics: generics.out(),
                        trait_ref: None,
                        target: target.out(),
                        where_clause: bounds.out(),
                        items: items.out(),
                    },
                )
        }),
{
    let generics = generic_params(g, at(p));
    let q_generics = behind(p, generics);
    let target = type_ref(g, at(q_generics));
    let q_target = behind(q_generics, target);
    let bounds = where_clause(g, at(q_target));
    let q_bounds = behind(q_target, bounds);
    let items = impl_items(g, at(q_bounds + 1), seq![]);
    let q_items = behind(q_bounds + 1, items);
    assert(generics.res is Ok ==> at(p).after(generics) == at(q_generics));
    assert(target.res is Ok ==> at(q_generics).after(target) == at(q_target));
    assert(bounds.res is Ok ==> at(q_target).after(bounds) == at(q_bounds));
    assert(g.kind(q_bounds) == TokenKind::Delim(Delim::LBrace)
        ==> at(q_bounds).delim(g, Delim::LBrace) == at(q_bounds + 1));
    assert(items.res is Ok ==> at(q_bounds + 1).after(items) == at(q_items));
    assert(g.kind(q_items) == TokenKind::Delim(Delim::RBrace)
        ==> at(q_items).delim(g, Delim::RBrace) == at(q_items + 1));
    assert(for_target(g, at(q_target)) == read(q_target, None::<TypeRef>));
    assert(at(q_target).after(for_target(g, at(q_target))) == at(q_target));
}

/// After `impl`: generic parameters, a trait, `for` and a type, bounds, and items in braces.
#[verifier::rlimit(40)]
pub proof fn trait_impl_form(g: Src, p: nat)
    requires
        g.kind(behind_first_type(g, p)) == TokenKind::Keyword(Keyword::For),
    ensures
        ({
            let generics = generic_params(g, at(p));
            let q_generics = behind(p, generics);
            let of = type_ref(g, at(q_generics));
            let q_of = behind(q_generics, of);
            let target = type_ref(g, at(q_of + 1));
            let q_target = behind(q_of + 1, target);
            let bounds = where_clause(g, at(q_target));
            let q_bounds = behind(q_target, bounds);
            let items = impl_items(g, at(q_bounds + 1), seq![]);
            let q_items = behind(q_bounds + 1, items);
            let fits = generics.res is Ok
                && of.res is Ok
                && g.kind(q_of) == TokenKind::Keyword(Keyword::For)
                && target.res is Ok
                && bounds.res is Ok
                && g.kind(q_bounds) == TokenKind::Delim(Delim::LBrace)
                && items.res is Ok
                && g.kind(q_items) == TokenKind::Delim(Delim::RBrace);
            &&& impl_tail(g, at(p)).res is Ok <==> fits
            &&& fits
                ==> impl_tail(g, at(p)) == read(
                    q_items + 1,
                    ImplDecl {
                        generics: generics.out(),
                        trait_ref: Some(of.out()),
                        target: target.out(),
                        where_clause: bounds.out(),
                        items: items.out(),
                    },
                )
        }),
{
    let generics = generic_params(g, at(p));
    let q_generics = behind(p, generics);
    let of = type_ref(g, at(q_generics));
    let q_of = behind(q_generics, of);
    let target = type_ref(g, at(q_of + 1));
    let q_target = behind(q_of + 1, target);
    let bounds = where_clause(g, at(q_target));
    let q_bounds = behind(q_target, bounds);
    let items = impl_items(g, at(q_bounds + 1), seq![]);
    let q_items = behind(q_bounds + 1, items);
    assert(generics.res is Ok ==> at(p).after(generics) == at(q_generics));
    assert(of.res is Ok ==> at(q_generics).after(of) == at(q_of));
    assert(g.kind(q_of) == TokenKind::Keyword(Keyword::For)
        ==> at(q_of).kw(g, Keyword::For) == at(q_of + 1));
    assert(target.res is Ok ==> at(q_of + 1).after(target) == at(q_target));
    assert(bounds.res is Ok ==> at(q_target).after(bounds) == at(q_bounds));
    assert(g.kind(q_bounds) == TokenKind::Delim(Delim::LBrace)
        ==> at(q_bounds).delim(g, Delim::LBrace) == at(q_bounds + 1));
    assert(items.res is Ok ==> at(q_bounds + 1).after(items) == at(q_items));
    assert(g.kind(q_items) == TokenKind::Delim(Delim::RBrace)
        ==> at(q_items).delim(g, Delim::RBrace) == at(q_items + 1));
    assert(at(q_of).skip() == at(q_of + 1));
    assert(target.res is Ok ==> for_target(g, at(q_of)) == read(q_target, Some(target.out())));
    assert(target.res is Err ==> for_target(g, at(q_of)).res is Err);
    assert(target.res is Ok ==> at(q_of).after(for_target(g, at(q_of))) == at(q_target));
}

/// `}` ends the items of a `trait`; a function is kept behind those before it.
pub proof fn functions_of_traits_in_order(g: Src, p: nat, done: Seq<TraitItem>, f: FnDecl, q: nat)
    ensures
        g.kind(p) == TokenKind::Delim(Delim::RBrace)
            ==> trait_items(g, at(p), done) == read(p, done),
        g.kind(p) != TokenKind::Delim(Delim::RBrace) && g.kind(p) != TokenKind::Keyword(
            Keyword::Type,
        ) && fn_decl(g, at(p)) == read(q, f) && p < q && p < g.toks.len() ==> trait_items(
            g,
            at(p),
            done,
        ) == trait_items(g, at(q), done.push(TraitItem::Fn(f))),
        g.kind(p) != TokenKind::Delim(Delim::RBrace) && g.kind(p) != TokenKind::Keyword(
            Keyword::Type,
        ) && fn_decl(g, at(p)).res is Err ==> trait_items(g, at(p), done).res is Err,
{
    let d = fn_decl(g, at(p));
    let s1 = at(p).after(d);
    if g.kind(p) != TokenKind::Delim(Delim::RBrace) && g.kind(p) != TokenKind::Keyword(
        Keyword::Type,
    ) {
        if d.res is Err {
            assert(at(p).moved(g, s1));
            assert(
                trait_items(g, at(p), done) == trait_items(g, s1, done.push(TraitItem::Fn(d.out())))
            );
        } else if d == read(q, f) && p < q && p < g.toks.len() {
            assert(s1 == at(q));
            assert(at(p).moved(g, at(q)));
        }
    }
}

/// `}` ends the items of an `impl`; a function is kept behind those before it.
pub proof fn functions_of_impls_in_order(g: Src, p: nat, done: Seq<ImplItem>, f: FnDecl, q: nat)
    ensures
        g.kind(p) == TokenKind::Delim(Delim::RBrace)
            ==> impl_items(g, at(p), done) == read(p, done),
        g.kind(p) != TokenKind::Delim(Delim::RBrace) && g.kind(p) != TokenKind::Keyword(
            Keyword::Type,
        ) && fn_decl(g, at(p)) == read(q, f) && p < q && p < g.toks.len() ==> impl_items(
            g,
            at(p),
            done,
        ) == impl_items(g, at(q), done.push(ImplItem::Fn(f))),
        g.kind(p) != TokenKind::Delim(Delim::RBrace) && g.kind(p) != TokenKind::Keyword(
            Keyword::Type,
        ) && fn_decl(g, at(p)).res is Err ==> impl_items(g, at(p), done).res is Err,
{
    let d = fn_decl(g, at(p));
    let s1 = at(p).after(d);
    if g.kind(p) != TokenKind::Delim(Delim::RBrace) && g.kind(p) != TokenKind::Keyword(
        Keyword::Type,
    ) {
        if d.res is Err {
            assert(at(p).moved(g, s1));
            assert(
                impl_items(g, at(p), done) == impl_items(g, s1, done.push(ImplItem::Fn(d.out())))
            );
        } else if d == read(q, f) && p < q && p < g.toks.len() {
            assert(s1 == at(q));
            assert(at(p).moved(g, at(q)));
        }
    }
}

/// `type Name;` in a trait names a type.
#[verifier::rlimit(20)]
pub proof fn type_of_a_trait(g: Src, p: nat, done: Seq<TraitItem>)
    requires
        g.kind(p) == TokenKind::Keyword(Keyword::Type),
    ensures
        ({
            let name = word(g, at(p + 1));
            let q_name = behind(p + 1, name);
            let fits = name.res is Ok
                && g.kind(q_name) == TokenKind::Delim(Delim::Semi);
            &&& !fits ==> trait_items(g, at(p), done).res is Err
            &&& fits
                ==> trait_items(g, at(p), done) == trait_items(
                    g,
                    at(q_name + 1),
                    done.push(TraitItem::AssocType(name.out())),
                )
        }),
{
    let name = word(g, at(p + 1));
    let q_name = behind(p + 1, name);
    assert(at(p).skip() == at(p + 1));
    assert(name.res is Ok ==> at(p + 1).after(name) == at(q_name));
    assert(g.kind(q_name) == TokenKind::Delim(Delim::Semi)
        ==> at(q_name).delim(g, Delim::Semi) == at(q_name + 1));
    assert(
        trait_items(g, at(p), done) == trait_items(
            g,
            at(p + 1).after(name).delim(g, Delim::Semi),
            done.push(TraitItem::AssocType(name.out())),
        )
    );
}

/// `type Name = T;` in an `impl` gives a type its name.
#[verifier::rlimit(30)]
pub proof fn type_of_an_impl(g: Src, p: nat, done: Seq<ImplItem>)
    requires
        g.kind(p) == TokenKind::Keyword(Keyword::Type),
    ensures
        ({
            let name = word(g, at(p + 1));
            let q_name = behind(p + 1, name);
            let ty = type_of(g, at(q_name + 1));
            let q_ty = behind(q_name + 1, ty);
            let fits = name.res is Ok
                && g.kind(q_name) == TokenKind::Op(Op::Eq)
                && ty.res is Ok
                && g.kind(q_ty) == TokenKind::Delim(Delim::Semi);
            &&& !fits ==> impl_items(g, at(p), done).res is Err
            &&& fits
                ==> impl_items(g, at(p), done) == impl_items(
                    g,
                    at(q_ty + 1),
                    done.push(ImplItem::AssocType(name.out(), ty.out())),
                )
        }),
{
    let name = word(g, at(p + 1));
    let q_name = behind(p + 1, name);
    let ty = type_of(g, at(q_name + 1));
    let q_ty = behind(q_name + 1, ty);
    assert(at(p).skip() == at(p + 1));
    assert(name.res is Ok ==> at(p + 1).after(name) == at(q_name));
    assert(g.kind(q_name) == TokenKind::Op(Op::Eq) ==> at(q_name).op(g, Op::Eq) == at(q_name + 1));
    assert(ty.res is Ok ==> at(q_name + 1).after(ty) == at(q_ty));
    assert(g.kind(q_ty) == TokenKind::Delim(Delim::Semi)
        ==> at(q_ty).delim(g, Delim::Semi) == at(q_ty + 1));
    let s1 = at(p + 1).after(name).op(g, Op::Eq);
    let tail = type_of(g, s1);
    assert(
        impl_items(g, at(p), done) == impl_items(
            g,
            s1.after(tail).delim(g, Delim::Semi),
            done.push(ImplItem::AssocType(name.out(), tail.out())),
        )
    );
}

/// `mod name { items }` holds exactly its items.
#[verifier::rlimit(20)]
pub proof fn module(g: Src, p: nat)
    ensures
        ({
            let name = word(g, at(p));
            let q_name = behind(p, name);
            let items = item_list(g, at(q_name + 1), seq![]);
            let q_items = behind(q_name + 1, items);
            let fits = name.res is Ok
                && g.kind(q_name) == TokenKind::Delim(Delim::LBrace)
                && items.res is Ok
                && g.kind(q_items) == TokenKind::Delim(Delim::RBrace);
            &&& mod_tail(g, at(p)).res is Ok <==> fits
            &&& fits
                ==> mod_tail(g, at(p)) == read(
                    q_items + 1,
                    ModDecl { name: name.out(), items: items.out() },
                )
        }),
{
    let name = word(g, at(p));
    let q_name = behind(p, name);
    let items = item_list(g, at(q_name + 1), seq![]);
    let q_items = behind(q_name + 1, items);
    assert(name.res is Ok ==> at(p).after(name) == at(q_name));
    assert(g.kind(q_name) == TokenKind::Delim(Delim::LBrace)
        ==> at(q_name).delim(g, Delim::LBrace) == at(q_name + 1));
    assert(items.res is Ok ==> at(q_name + 1).after(items) == at(q_items));
    assert(g.kind(q_items) == TokenKind::Delim(Delim::RBrace)
        ==> at(q_items).delim(g, Delim::RBrace) == at(q_items + 1));
}

/// `name: T = value`, each part kept as it is.
#[verifier::rlimit(20)]
pub proof fn name_type_and_value(g: Src, p: nat)
    ensures
        ({
            let name = word(g, at(p));
            let q_name = behind(p, name);
            let ty = type_of(g, at(q_name + 1));
            let q_ty = behind(q_name + 1, ty);
            let value = expr(g, at(q_ty + 1), 0);
            let q_value = behind(q_ty + 1, value);
            let fits = name.res is Ok
                && g.kind(q_name) == TokenKind::Delim(Delim::Colon)
                && ty.res is Ok
                && g.kind(q_ty) == TokenKind::Op(Op::Eq)
                && value.res is Ok;
            &&& valued_tail(g, at(p)).res is Ok <==> fits
            &&& fits ==> valued_tail(g, at(p)) == read(q_value, (name.out(), ty.out(), value.out()))
        }),
{
    let name = word(g, at(p));
    let q_name = behind(p, name);
    let ty = type_of(g, at(q_name + 1));
    let q_ty = behind(q_name + 1, ty);
    let value = expr(g, at(q_ty + 1), 0);
    let q_value = behind(q_ty + 1, value);
    assert(name.res is Ok ==> at(p).after(name) == at(q_name));
    assert(g.kind(q_name) == TokenKind::Delim(Delim::Colon)
        ==> at(q_name).delim(g, Delim::Colon) == at(q_name + 1));
    assert(ty.res is Ok ==> at(q_name + 1).after(ty) == at(q_ty));
    assert(g.kind(q_ty) == TokenKind::Op(Op::Eq) ==> at(q_ty).op(g, Op::Eq) == at(q_ty + 1));
    assert(value.res is Ok ==> at(q_ty + 1).after(value) == at(q_value));
}

/// After `const`: a name, a type and a value.
pub proof fn const_form(g: Src, p: nat)
    ensures
        ({
            let d = valued_tail(g, at(p));
            let q_d = behind(p, d);
            let fits = d.res is Ok
                && g.kind(q_d) == TokenKind::Delim(Delim::Semi);
            &&& const_tail(g, at(p)).res is Ok <==> fits
            &&& fits
                ==> const_tail(g, at(p)) == read(
                    q_d + 1,
                    ConstDecl { name: d.out().0, ty: d.out().1, value: d.out().2 },
                )
        }),
{
    let d = valued_tail(g, at(p));
    let q_d = behind(p, d);
    assert(d.res is Ok ==> at(p).after(d) == at(q_d));
    assert(g.kind(q_d) == TokenKind::Delim(Delim::Semi)
        ==> at(q_d).delim(g, Delim::Semi) == at(q_d + 1));
}

/// After `static`: a name, a type and a value.
pub proof fn static_form(g: Src, p: nat)
    ensures
        ({
            let d = valued_tail(g, at(p));
            let q_d = behind(p, d);
            let fits = d.res is Ok
                && g.kind(q_d) == TokenKind::Delim(Delim::Semi);
            &&& static_tail(g, at(p)).res is Ok <==> fits
            &&& fits
                ==> static_tail(g, at(p)) == read(
                    q_d + 1,
                    StaticDecl { name: d.out().0, ty: d.out().1, value: d.out().2 },
                )
        }),
{
    let d = valued_tail(g, at(p));
    let q_d = behind(p, d);
    assert(d.res is Ok ==> at(p).after(d) == at(q_d));
    assert(g.kind(q_d) == TokenKind::Delim(Delim::Semi)
        ==> at(q_d).delim(g, Delim::Semi) == at(q_d + 1));
}

/// After `state`: a name, a type and a value.
pub proof fn state_form(g: Src, p: nat)
    ensures
        ({
            let d = valued_tail(g, at(p));
            let q_d = behind(p, d);
            let fits = d.res is Ok
                && g.kind(q_d) == TokenKind::Delim(Delim::Semi);
            &&& state_tail(g, at(p)).res is Ok <==> fits
            &&& fits
                ==> state_tail(g, at(p)) == read(
                    q_d + 1,
                    StateDecl { name: d.out().0, ty: d.out().1, value: d.out().2 },
                )
        }),
{
    let d = valued_tail(g, at(p));
    let q_d = behind(p, d);
    assert(d.res is Ok ==> at(p).after(d) == at(q_d));
    assert(g.kind(q_d) == TokenKind::Delim(Delim::Semi)
        ==> at(q_d).delim(g, Delim::Semi) == at(q_d + 1));
}

/// After `type`: a name, generic parameters, and the type.
#[verifier::rlimit(20)]
pub proof fn type_alias(g: Src, p: nat)
    ensures
        ({
            let name = word(g, at(p));
            let q_name = behind(p, name);
            let generics = generic_params(g, at(q_name));
            let q_generics = behind(q_name, generics);
            let ty = type_of(g, at(q_generics + 1));
            let q_ty = behind(q_generics + 1, ty);
            let fits = name.res is Ok
                && generics.res is Ok
                && g.kind(q_generics) == TokenKind::Op(Op::Eq)
                && ty.res is Ok
                && g.kind(q_ty) == TokenKind::Delim(Delim::Semi);
            &&& type_alias_tail(g, at(p)).res is Ok <==> fits
            &&& fits
                ==> type_alias_tail(g, at(p)) == read(
                    q_ty + 1,
                    TypeAliasDecl { name: name.out(), generics: generics.out(), ty: ty.out() },
                )
        }),
{
    let name = word(g, at(p));
    let q_name = behind(p, name);
    let generics = generic_params(g, at(q_name));
    let q_generics = behind(q_name, generics);
    let ty = type_of(g, at(q_generics + 1));
    let q_ty = behind(q_generics + 1, ty);
    assert(name.res is Ok ==> at(p).after(name) == at(q_name));
    assert(generics.res is Ok ==> at(q_name).after(generics) == at(q_generics));
    assert(g.kind(q_generics) == TokenKind::Op(Op::Eq)
        ==> at(q_generics).op(g, Op::Eq) == at(q_generics + 1));
    assert(ty.res is Ok ==> at(q_generics + 1).after(ty) == at(q_ty));
    assert(g.kind(q_ty) == TokenKind::Delim(Delim::Semi)
        ==> at(q_ty).delim(g, Delim::Semi) == at(q_ty + 1));
}

/// A name from `a` up to `b`.
pub open spec fn a_name(g: Src) -> spec_fn(nat, Seq<char>, nat) -> bool {
    |a: nat, x: Seq<char>, b: nat| word(g, at(a)) == read(b, x)
}

/// After the names of a path that is used: where no `::` follows, the path alone.
pub proof fn end_of_a_used_path(g: Src, p: nat, done: Seq<Seq<char>>)
    requires
        g.kind(p) != TokenKind::Op(Op::ColonColon),
    ensures
        use_path(g, at(p), done) == read(p, UsePath { path: done, items: seq![] }),
        import_path(g, at(p), done) == read(p, done),
{
}

/// A name behind `::` is kept behind those before it.
pub proof fn further_name_of_a_used_path(g: Src, p: nat, done: Seq<Seq<char>>)
    requires
        g.kind(p) == TokenKind::Op(Op::ColonColon),
        g.kind(p + 1) != TokenKind::Delim(Delim::LBrace),
    ensures
        ({
            let name = word(g, at(p + 1));
            let q_name = behind(p + 1, name);
            let fits = name.res is Ok;
            &&& !fits ==> use_path(g, at(p), done).res is Err
            &&& fits ==> use_path(g, at(p), done) == use_path(g, at(q_name), done.push(name.out()))
        }),
{
    let name = word(g, at(p + 1));
    let q_name = behind(p + 1, name);
    assert(at(p).skip() == at(p + 1));
    assert(name.res is Ok ==> at(p + 1).after(name) == at(q_name));
    assert(use_path(g, at(p), done) == use_path(g, at(p + 1).after(name), done.push(name.out())));
}

/// A name behind `::` is kept behind those before it.
pub proof fn further_name_of_an_import(g: Src, p: nat, done: Seq<Seq<char>>)
    requires
        g.kind(p) == TokenKind::Op(Op::ColonColon),
    ensures
        ({
            let name = word(g, at(p + 1));
            let q_name = behind(p + 1, name);
            let fits = name.res is Ok;
            &&& !fits ==> import_path(g, at(p), done).res is Err
            &&& fits
                ==> import_path(g, at(p), done) == import_path(g, at(q_name), done.push(name.out()))
        }),
{
    let name = word(g, at(p + 1));
    let q_name = behind(p + 1, name);
    assert(at(p).skip() == at(p + 1));
    assert(name.res is Ok ==> at(p + 1).after(name) == at(q_name));
    assert(
        import_path(g, at(p), done) == import_path(g, at(p + 1).after(name), done.push(name.out()))
    );
}

/// `::{names}` ends a path that is used with exactly these names.
pub proof fn names_of_a_used_path(g: Src, p: nat, done: Seq<Seq<char>>)
    requires
        g.kind(p) == TokenKind::Op(Op::ColonColon),
        g.kind(p + 1) == TokenKind::Delim(Delim::LBrace),
    ensures
        ({
            let first = word(g, at(p + 2));
            let q_first = behind(p + 2, first);
            let names = more_names(g, at(q_first), seq![first.out()]);
            let q_names = behind(q_first, names);
            let fits = first.res is Ok
                && names.res is Ok
                && g.kind(q_names) == TokenKind::Delim(Delim::RBrace);
            &&& use_path(g, at(p), done).res is Ok <==> fits
            &&& fits
                ==> use_path(g, at(p), done) == read(
                    q_names + 1,
                    UsePath { path: done, items: names.out() },
                )
        }),
{
    let first = word(g, at(p + 2));
    let q_first = behind(p + 2, first);
    let names = more_names(g, at(q_first), seq![first.out()]);
    let q_names = behind(q_first, names);
    assert(at(p).skip() == at(p + 1));
    assert(at(p + 1).skip() == at(p + 2));
    assert(first.res is Ok ==> at(p + 2).after(first) == at(q_first));
    assert(names.res is Ok ==> at(q_first).after(names) == at(q_names));
    assert(g.kind(q_names) == TokenKind::Delim(Delim::RBrace)
        ==> at(q_names).delim(g, Delim::RBrace) == at(q_names + 1));
}

proof fn names_in_a_list_from(
    g: Src,
    xs: Seq<Seq<char>>,
    starts: Seq<nat>,
    ends: Seq<nat>,
    q: nat,
    k: int,
)
    requires
        0 <= k < xs.len(),
        listed(g, a_name(g), TokenKind::Delim(Delim::Comma), xs, starts, ends),
        forall|i: int| 0 <= i < xs.len()
            ==> g.kind(#[trigger] starts[i]) != TokenKind::Delim(Delim::RBrace),
        list_end(g, ends[xs.len() - 1], TokenKind::Delim(Delim::RBrace), q),
    ensures
        more_names(g, at(ends[k]), xs.take(k + 1)) == read(q, xs),
        ends[k] <= q,
    decreases xs.len() - k,
{
    let done = xs.take(k + 1);
    let p = ends[k];
    assert(at(p).skip() == at(p + 1));
    if k + 1 == xs.len() {
        assert(done =~= xs);
        assert(more_names(g, at(p), done) == read(q, xs));
    } else {
        names_in_a_list_from(g, xs, starts, ends, q, k + 1);
        let x = xs[k + 1];
        assert(a_name(g)(starts[k + 1], x, ends[k + 1]));
        assert(g.kind(ends[k]) == TokenKind::Delim(Delim::Comma) && starts[k + 1] == p + 1);
        assert(word(g, at(p + 1)) == read(ends[k + 1], x));
        assert(at(p + 1).after(word(g, at(p + 1))) == at(ends[k + 1]));
        assert(done.push(x) =~= xs.take((k + 1) + 1));
        assert(more_names(g, at(p), done) == more_names(g, at(ends[k + 1]), xs.take((k + 1) + 1)));
    }
}

/// Names with commas between them, perhaps with one behind the last, are read in their order.
pub proof fn names_in_a_list(
    g: Src,
    p: nat,
    xs: Seq<Seq<char>>,
    starts: Seq<nat>,
    ends: Seq<nat>,
    q: nat,
)
    requires
        xs.len() > 0,
        listed(g, a_name(g), TokenKind::Delim(Delim::Comma), xs, starts, ends),
        p == starts[0],
        forall|i: int| 0 <= i < xs.len()
            ==> g.kind(#[trigger] starts[i]) != TokenKind::Delim(Delim::RBrace),
        list_end(g, ends[xs.len() - 1], TokenKind::Delim(Delim::RBrace), q),
    ensures
        names_of(g, at(p)) == read(q, xs),
{
    assert(at(p).skip() == at(p + 1));
    let x = xs[0];
    assert(a_name(g)(starts[0], x, ends[0]));
    assert(word(g, at(p)) == read(ends[0], x));
    assert(at(p).after(word(g, at(p))) == at(ends[0]));
    names_in_a_list_from(g, xs, starts, ends, q, 0);
    assert(seq![x] =~= xs.take(1));
    assert(at(ends[0]).after(more_names(g, at(ends[0]), seq![x])) == at(q));
}

/// A name and the further names of a list.
pub open spec fn names_of(g: Src, s: Cur) -> Step<Seq<Seq<char>>> {
    let first = word(g, s);
    more_names(g, s.after(first), seq![first.out()])
}

/// After `use`: a path and `;`.
pub proof fn use_form(g: Src, p: nat)
    ensures
        ({
            let first = word(g, at(p));
            let q_first = behind(p, first);
            let path = use_path(g, at(q_first), seq![first.out()]);
            let q_path = behind(q_first, path);
            let fits = first.res is Ok
                && path.res is Ok
                && g.kind(q_path) == TokenKind::Delim(Delim::Semi);
            &&& use_tail(g, at(p)).res is Ok <==> fits
            &&& fits ==> use_tail(g, at(p)) == read(q_path + 1, path.out())
        }),
{
    let first = word(g, at(p));
    let q_first = behind(p, first);
    let path = use_path(g, at(q_first), seq![first.out()]);
    let q_path = behind(q_first, path);
    assert(first.res is Ok ==> at(p).after(first) == at(q_first));
    assert(path.res is Ok ==> at(q_first).after(path) == at(q_path));
    assert(g.kind(q_path) == TokenKind::Delim(Delim::Semi)
        ==> at(q_path).delim(g, Delim::Semi) == at(q_path + 1));
}

/// After `import`: a path and `;`.
pub proof fn import_form(g: Src, p: nat)
    ensures
        ({
            let first = word(g, at(p));
            let q_first = behind(p, first);
            let path = import_path(g, at(q_first), seq![first.out()]);
            let q_path = behind(q_first, path);
            let fits = first.res is Ok
                && path.res is Ok
                && g.kind(q_path) == TokenKind::Delim(Delim::Semi);
            &&& import_tail(g, at(p)).res is Ok <==> fits
            &&& fits ==> import_tail(g, at(p)) == read(q_path + 1, path.out())
        }),
{
    let first = word(g, at(p));
    let q_first = behind(p, first);
    let path = import_path(g, at(q_first), seq![first.out()]);
    let q_path = behind(q_first, path);
    assert(first.res is Ok ==> at(p).after(first) == at(q_first));
    assert(path.res is Ok ==> at(q_first).after(path) == at(q_path));
    assert(g.kind(q_path) == TokenKind::Delim(Delim::Semi)
        ==> at(q_path).delim(g, Delim::Semi) == at(q_path + 1));
}

} // verus!
