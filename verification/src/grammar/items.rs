//! Items and whole programs.
use crate::ast::{OwnershipMod, TargetKind, Visibility};
use crate::grammar::cursor::{ident, word, Cur, Failure, Src, Step};
use crate::grammar::exprs::{arg_list, expr, expr_list, opt_return_type, opt_value};
use crate::grammar::stmts::block;
use crate::grammar::types::{
    generic_params, type_list, type_of, type_ref, where_clause,
};
use crate::text::number_or_zero;
use crate::token::{Delim, Keyword, Op, TokenKind};
use crate::tree::{
    ActorDecl, ActorItem, Attribute, Block, ConstDecl, EnumDecl, EnumVariant, Expr, FieldConstraint,
    FieldDecl, FnDecl, ImplDecl, ImplItem, IndexDecl, Item, ItemKind, ModDecl, OnHandler, Param,
    Program, PropDecl, SchemaDecl, ServerDecl, ServerItem, StateDecl, StaticDecl, Stmt, StructBody,
    StructDecl, TableDecl, TableField, TraitDecl, TraitItem, Type, TypeAliasDecl, TypeRef, UiDecl,
    UiItem, UsePath,
};
use vstd::prelude::*;

verus! {

/// The tokens that begin an item.
pub open spec fn is_item_start(kind: TokenKind) -> bool {
    match kind {
        TokenKind::Keyword(k) => match k {
            Keyword::Fn | Keyword::Async | Keyword::Struct | Keyword::Enum | Keyword::Trait
            | Keyword::Impl | Keyword::Mod | Keyword::Use | Keyword::Import | Keyword::Const
            | Keyword::Static | Keyword::Type | Keyword::Table | Keyword::Index | Keyword::Schema
            | Keyword::Ui | Keyword::Component | Keyword::Server | Keyword::Actor
            | Keyword::Pub => true,
            _ => false,
        },
        TokenKind::Op(op) => op == Op::At || op == Op::Hash,
        _ => false,
    }
}

/// Any number of `@name(args)`.
pub open spec fn attrs(g: Src, s: Cur, done: Seq<Attribute>) -> Step<Seq<Attribute>>
    decreases s.left(g), 0nat,
{
    if !s.at_op(g, Op::At) {
        s.ok(done)
    } else {
        let a = attr(g, s.skip());
        attrs(g, s.skip().after(a), done.push(a.out()))
    }
}

/// After `@`.
pub open spec fn attr(g: Src, s: Cur) -> Step<Attribute>
    decreases s.left(g), 0nat,
{
    let name = word(g, s);
    let s1 = s.after(name);
    if s1.at_delim(g, Delim::LParen) {
        let args = expr_list(g, s1.skip(), Delim::RParen);
        s1.skip().after(args).delim(g, Delim::RParen).ok(
            Attribute { name: name.out(), args: args.out() },
        )
    } else {
        s1.ok(Attribute { name: name.out(), args: seq![] })
    }
}

/// `pub`, `pub(package)` or nothing.
pub open spec fn visibility(g: Src, s: Cur) -> Step<Visibility> {
    if !s.at_kw(g, Keyword::Pub) {
        s.ok(Visibility::Private)
    } else if !s.skip().at_delim(g, Delim::LParen) {
        s.skip().ok(Visibility::Pub)
    } else {
        let s1 = s.skip().skip();
        let name = ident(g, s1);
        let s2 = s1.after(name).delim(g, Delim::RParen);
        if s2.err is None && name.out() != "package"@ {
            s2.fail(g, "expected `package` inside pub(...)"@).stuck()
        } else {
            s2.ok(Visibility::PubPackage)
        }
    }
}

/// An item with its attributes and visibility.
pub open spec fn item(g: Src, s: Cur) -> Step<Item>
    decreases s.left(g), 18nat,
{
    if s.err is Some {
        s.stuck()
    } else {
        let a = attrs(g, s, seq![]);
        let s1 = s.after(a);
        let v = visibility(g, s1);
        let s2 = s1.after(v);
        let kind = item_kind(g, s2);
        s2.after(kind).ok(
            Item {
                attrs: a.out(),
                visibility: v.out(),
                kind: kind.out(),
                span: g.toks[s.pos as int].span,
            },
        )
    }
}

/// What an item declares, told by its first token.
pub open spec fn item_kind(g: Src, s: Cur) -> Step<ItemKind>
    decreases s.left(g), 16nat,
{
    if s.err is Some {
        s.stuck()
    } else {
        match g.kind(s.pos) {
            TokenKind::Op(Op::Hash) => {
                let t = target_items(g, s.skip());
                s.skip().after(t).ok(ItemKind::TargetBlock(t.out().0, t.out().1))
            },
            TokenKind::Keyword(k) => match k {
                Keyword::Async | Keyword::Fn => {
                    let d = fn_decl(g, s);
                    s.after(d).ok(ItemKind::Fn(d.out()))
                },
                Keyword::Struct => {
                    let d = struct_tail(g, s.skip());
                    s.skip().after(d).ok(ItemKind::Struct(d.out()))
                },
                Keyword::Enum => {
                    let d = enum_tail(g, s.skip());
                    s.skip().after(d).ok(ItemKind::Enum(d.out()))
                },
                Keyword::Trait => {
                    let d = trait_tail(g, s.skip());
                    s.skip().after(d).ok(ItemKind::Trait(d.out()))
                },
                Keyword::Impl => {
                    let d = impl_tail(g, s.skip());
                    s.skip().after(d).ok(ItemKind::Impl(d.out()))
                },
                Keyword::Mod => {
                    let d = mod_tail(g, s.skip());
                    s.skip().after(d).ok(ItemKind::Mod(d.out()))
                },
                Keyword::Use => {
                    let d = use_tail(g, s.skip());
                    s.skip().after(d).ok(ItemKind::Use(d.out()))
                },
                Keyword::Import => {
                    let d = import_tail(g, s.skip());
                    s.skip().after(d).ok(ItemKind::Import(d.out()))
                },
                Keyword::Const => {
                    let d = const_tail(g, s.skip());
                    s.skip().after(d).ok(ItemKind::Const(d.out()))
                },
                Keyword::Static => {
                    let d = static_tail(g, s.skip());
                    s.skip().after(d).ok(ItemKind::Static(d.out()))
                },
                _ => domain_item_kind(g, s, k),
            },
            other => s.fail(g, "expected item, found "@ + other.shown()).stuck(),
        }
    }
}

/// The item kinds beyond the core ones, at the keyword `k`.
pub open spec fn domain_item_kind(g: Src, s: Cur, k: Keyword) -> Step<ItemKind>
    decreases s.left(g), 14nat,
{
    if s.err is Some || g.kind(s.pos) != TokenKind::Keyword(k) {
        s.stuck()
    } else {
        match k {
            Keyword::Type => {
                let d = type_alias_tail(g, s.skip());
                s.skip().after(d).ok(ItemKind::TypeAlias(d.out()))
            },
            Keyword::Table => {
                let d = table_tail(g, s.skip());
                s.skip().after(d).ok(ItemKind::Table(d.out()))
            },
            Keyword::Index => {
                let d = index_tail(g, s.skip());
                s.skip().after(d).ok(ItemKind::Index(d.out()))
            },
            Keyword::Schema => {
                let d = schema_tail(g, s.skip());
                s.skip().after(d).ok(ItemKind::Schema(d.out()))
            },
            Keyword::Ui => {
                let d = ui_tail(g, s.skip());
                s.skip().after(d).ok(ItemKind::Ui(d.out()))
            },
            Keyword::Component => {
                let d = ui_tail(g, s.skip());
                s.skip().after(d).ok(ItemKind::Component(d.out()))
            },
            Keyword::Server => {
                let d = server_tail(g, s.skip());
                s.skip().after(d).ok(ItemKind::Server(d.out()))
            },
            Keyword::Actor => {
                let d = actor_tail(g, s.skip());
                s.skip().after(d).ok(ItemKind::Actor(d.out()))
            },
            _ => s.fail(g, "expected item, found "@ + g.kind(s.pos).shown()).stuck(),
        }
    }
}

/// After `#`: `target(kind)`.
pub open spec fn target_kind(g: Src, s: Cur) -> Step<TargetKind> {
    let name = word(g, s);
    let s1 = s.after(name);
    if s1.err is None && name.out() != "target"@ {
        s1.fail(g, "expected `target` after `#`"@).stuck()
    } else {
        let s2 = s1.delim(g, Delim::LParen);
        let kind = word(g, s2);
        let s3 = s2.after(kind);
        let s4 = s3.delim(g, Delim::RParen);
        if s3.err is Some {
            s3.stuck()
        } else if kind.out() == "native"@ {
            s4.ok(TargetKind::Native)
        } else if kind.out() == "wasm"@ {
            s4.ok(TargetKind::Wasm)
        } else if kind.out() == "all"@ {
            s4.ok(TargetKind::All)
        } else {
            s3.fail(g, "expected native|wasm|all inside #target(...)"@).stuck()
        }
    }
}

/// After `#`: `target(kind) { items }`.
pub open spec fn target_items(g: Src, s: Cur) -> Step<(TargetKind, Seq<Item>)>
    decreases s.left(g), 22nat,
{
    let kind = target_kind(g, s);
    let s1 = s.after(kind).delim(g, Delim::LBrace);
    let items = item_list(g, s1, seq![]);
    s1.after(items).delim(g, Delim::RBrace).ok((kind.out(), items.out()))
}

/// Items up to `}` or the end of the stream.
pub open spec fn item_list(g: Src, s: Cur, done: Seq<Item>) -> Step<Seq<Item>>
    decreases s.left(g), 20nat,
{
    if s.err is Some {
        s.stuck()
    } else if s.at_delim(g, Delim::RBrace) || s.at_end(g) {
        s.ok(done)
    } else {
        let i = item(g, s);
        let s1 = s.after(i);
        if s.moved(g, s1) {
            item_list(g, s1, done.push(i.out()))
        } else {
            s1.stuck()
        }
    }
}

/// A function. Its name is a plain identifier.
pub open spec fn fn_decl(g: Src, s: Cur) -> Step<FnDecl>
    decreases s.left(g), 0nat,
{
    if s.err is Some {
        s.stuck()
    } else {
        let is_async = s.at_kw(g, Keyword::Async);
        let s0 = if is_async { s.skip() } else { s };
        let s1 = s0.kw(g, Keyword::Fn);
        let name = ident(g, s1);
        let s2 = s1.after(name);
        let generics = generic_params(g, s2);
        let s3 = s2.after(generics).delim(g, Delim::LParen);
        let params = param_list(g, s3);
        let s4 = s3.after(params).delim(g, Delim::RParen);
        let ret = opt_return_type(g, s4);
        let s5 = s4.after(ret);
        let bounds = where_clause(g, s5);
        let s6 = s5.after(bounds);
        let body = fn_body(g, s6);
        s6.after(body).ok(
            FnDecl {
                is_async,
                name: name.out(),
                generics: generics.out(),
                params: params.out(),
                return_type: ret.out(),
                where_clause: bounds.out(),
                body: body.out(),
            },
        )
    }
}

/// `;` or a block.
pub open spec fn fn_body(g: Src, s: Cur) -> Step<Option<Block>>
    decreases s.left(g), 2nat,
{
    if s.at_delim(g, Delim::Semi) {
        s.skip().ok(None)
    } else {
        let body = block(g, s);
        s.after(body).ok(Some(body.out()))
    }
}

/// Parameters up to `)`.
pub open spec fn param_list(g: Src, s: Cur) -> Step<Seq<Param>>
    decreases s.left(g), 4nat,
{
    if s.at_delim(g, Delim::RParen) {
        s.ok(seq![])
    } else {
        let first = param(g, s);
        more_params(g, s.after(first), seq![first.out()])
    }
}

pub open spec fn more_params(g: Src, s: Cur, done: Seq<Param>) -> Step<Seq<Param>>
    decreases s.left(g), 0nat,
{
    if !s.at_delim(g, Delim::Comma) {
        s.ok(done)
    } else if s.skip().at_delim(g, Delim::RParen) {
        s.skip().ok(done)
    } else {
        let next = param(g, s.skip());
        more_params(g, s.skip().after(next), done.push(next.out()))
    }
}

/// A parameter: variadic after `..` or `...`, a receiver, or `name: type = default`.
pub open spec fn param(g: Src, s: Cur) -> Step<Param>
    decreases s.left(g), 2nat,
{
    if s.err is Some {
        s.stuck()
    } else if s.at_op(g, Op::DotDot) {
        let s1 = if s.skip().at_op(g, Op::Dot) { s.skip().skip() } else { s.skip() };
        let name = word(g, s1);
        let s2 = s1.after(name).delim(g, Delim::Colon);
        let ty = type_of(g, s2);
        s2.after(ty).ok(
            Param {
                ownership: OwnershipMod::Plain,
                name: name.out(),
                is_variadic: true,
                ty: ty.out(),
                default: None,
            },
        )
    } else {
        let (ownership, s1) = if s.at_kw(g, Keyword::Borrow) {
            if s.skip().at_kw(g, Keyword::Mut) {
                (OwnershipMod::BorrowMut, s.skip().skip())
            } else {
                (OwnershipMod::Borrow, s.skip())
            }
        } else if s.at_kw(g, Keyword::Move) {
            (OwnershipMod::Move, s.skip())
        } else {
            (OwnershipMod::Plain, s)
        };
        let name = word(g, s1);
        let s2 = s1.after(name);
        if s2.err is Some {
            s2.stuck()
        } else if name.out() == "self"@ {
            s2.ok(
                Param {
                    ownership,
                    name: name.out(),
                    is_variadic: false,
                    ty: Type::Unit,
                    default: None,
                },
            )
        } else {
            let s3 = s2.delim(g, Delim::Colon);
            let ty = type_of(g, s3);
            let s4 = s3.after(ty);
            let default = opt_value(g, s4);
            s4.after(default).ok(
                Param {
                    ownership,
                    name: name.out(),
                    is_variadic: false,
                    ty: ty.out(),
                    default: default.out(),
                },
            )
        }
    }
}

/// After `struct`. The name is a plain identifier.
pub open spec fn struct_tail(g: Src, s: Cur) -> Step<StructDecl>
    decreases s.left(g), 4nat,
{
    let name = ident(g, s);
    let s1 = s.after(name);
    let generics = generic_params(g, s1);
    let s2 = s1.after(generics);
    let body = struct_body(g, s2);
    s2.after(body).ok(
        StructDecl { name: name.out(), generics: generics.out(), body: body.out() },
    )
}

/// `;`, `(types);` or `{ fields }`.
pub open spec fn struct_body(g: Src, s: Cur) -> Step<StructBody>
    decreases s.left(g), 2nat,
{
    if s.err is Some {
        s.stuck()
    } else if s.at_delim(g, Delim::Semi) {
        s.skip().ok(StructBody::Unit)
    } else if s.at_delim(g, Delim::LParen) {
        let types = type_list(g, s.skip(), Delim::RParen);
        s.skip().after(types).delim(g, Delim::RParen).delim(g, Delim::Semi).ok(
            StructBody::Tuple(types.out()),
        )
    } else {
        let s1 = s.delim(g, Delim::LBrace);
        let fields = field_list(g, s1, seq![]);
        s1.after(fields).delim(g, Delim::RBrace).ok(StructBody::Named(fields.out()))
    }
}

/// Fields up to `}`, with commas between them.
pub open spec fn field_list(g: Src, s: Cur, done: Seq<FieldDecl>) -> Step<Seq<FieldDecl>>
    decreases s.left(g), 0nat,
{
    if s.err is Some {
        s.stuck()
    } else if s.at_delim(g, Delim::RBrace) {
        s.ok(done)
    } else {
        let v = visibility(g, s);
        let s1 = s.after(v);
        let name = word(g, s1);
        let s2 = s1.after(name).delim(g, Delim::Colon);
        let ty = type_of(g, s2);
        let s3 = s2.after(ty);
        let all = done.push(FieldDecl { visibility: v.out(), name: name.out(), ty: ty.out() });
        if s3.at_delim(g, Delim::Comma) {
            field_list(g, s3.skip(), all)
        } else {
            s3.ok(all)
        }
    }
}

/// After `enum`.
pub open spec fn enum_tail(g: Src, s: Cur) -> Step<EnumDecl>
    decreases s.left(g), 4nat,
{
    let name = word(g, s);
    let s1 = s.after(name);
    let generics = generic_params(g, s1);
    let s2 = s1.after(generics).delim(g, Delim::LBrace);
    let variants = variant_list(g, s2, seq![]);
    s2.after(variants).delim(g, Delim::RBrace).ok(
        EnumDecl { name: name.out(), generics: generics.out(), variants: variants.out() },
    )
}

/// Variants up to `}`, with commas between them.
pub open spec fn variant_list(g: Src, s: Cur, done: Seq<EnumVariant>) -> Step<Seq<EnumVariant>>
    decreases s.left(g), 2nat,
{
    if s.err is Some {
        s.stuck()
    } else if s.at_delim(g, Delim::RBrace) {
        s.ok(done)
    } else {
        let v = variant(g, s);
        let s1 = s.after(v);
        let all = done.push(v.out());
        if s1.at_delim(g, Delim::Comma) {
            variant_list(g, s1.skip(), all)
        } else {
            s1.ok(all)
        }
    }
}

pub open spec fn variant(g: Src, s: Cur) -> Step<EnumVariant>
    decreases s.left(g), 0nat,
{
    let name = word(g, s);
    let s1 = s.after(name);
    if s1.at_delim(g, Delim::LParen) {
        let data = type_list(g, s1.skip(), Delim::RParen);
        s1.skip().after(data).delim(g, Delim::RParen).ok(
            EnumVariant { name: name.out(), data: data.out() },
        )
    } else {
        s1.ok(EnumVariant { name: name.out(), data: seq![] })
    }
}

/// After `trait`.
pub open spec fn trait_tail(g: Src, s: Cur) -> Step<TraitDecl>
    decreases s.left(g), 4nat,
{
    let name = word(g, s);
    let s1 = s.after(name);
    let generics = generic_params(g, s1);
    let s2 = s1.after(generics).delim(g, Delim::LBrace);
    let items = trait_items(g, s2, seq![]);
    s2.after(items).delim(g, Delim::RBrace).ok(
        TraitDecl { name: name.out(), generics: generics.out(), items: items.out() },
    )
}

pub open spec fn trait_items(g: Src, s: Cur, done: Seq<TraitItem>) -> Step<Seq<TraitItem>>
    decreases s.left(g), 2nat,
{
    if s.err is Some {
        s.stuck()
    } else if s.at_delim(g, Delim::RBrace) {
        s.ok(done)
    } else if s.at_kw(g, Keyword::Type) {
        let name = word(g, s.skip());
        trait_items(
            g,
            s.skip().after(name).delim(g, Delim::Semi),
            done.push(TraitItem::AssocType(name.out())),
        )
    } else {
        let d = fn_decl(g, s);
        let s1 = s.after(d);
        if s.moved(g, s1) {
            trait_items(g, s1, done.push(TraitItem::Fn(d.out())))
        } else {
            s1.stuck()
        }
    }
}

/// After `impl`.
pub open spec fn impl_tail(g: Src, s: Cur) -> Step<ImplDecl>
    decreases s.left(g), 6nat,
{
    let generics = generic_params(g, s);
    let s1 = s.after(generics);
    let first = type_ref(g, s1);
    let s2 = s1.after(first);
    let second = for_target(g, s2);
    let s3 = s2.after(second);
    let bounds = where_clause(g, s3);
    let s4 = s3.after(bounds).delim(g, Delim::LBrace);
    let items = impl_items(g, s4, seq![]);
    s4.after(items).delim(g, Delim::RBrace).ok(
        ImplDecl {
            generics: generics.out(),
            trait_ref: match second.out() {
                Some(_) => Some(first.out()),
                None => None,
            },
            target: match second.out() {
                Some(target) => target,
                None => first.out(),
            },
            where_clause: bounds.out(),
            items: items.out(),
        },
    )
}

/// `for type` or nothing.
pub open spec fn for_target(g: Src, s: Cur) -> Step<Option<TypeRef>>
    decreases s.left(g), 0nat,
{
    if s.at_kw(g, Keyword::For) {
        let target = type_ref(g, s.skip());
        s.skip().after(target).ok(Some(target.out()))
    } else {
        s.ok(None)
    }
}

pub open spec fn impl_items(g: Src, s: Cur, done: Seq<ImplItem>) -> Step<Seq<ImplItem>>
    decreases s.left(g), 2nat,
{
    if s.err is Some {
        s.stuck()
    } else if s.at_delim(g, Delim::RBrace) {
        s.ok(done)
    } else if s.at_kw(g, Keyword::Type) {
        let name = word(g, s.skip());
        let s1 = s.skip().after(name).op(g, Op::Eq);
        let ty = type_of(g, s1);
        impl_items(
            g,
            s1.after(ty).delim(g, Delim::Semi),
            done.push(ImplItem::AssocType(name.out(), ty.out())),
        )
    } else {
        let d = fn_decl(g, s);
        let s1 = s.after(d);
        if s.moved(g, s1) {
            impl_items(g, s1, done.push(ImplItem::Fn(d.out())))
        } else {
            s1.stuck()
        }
    }
}

/// After `mod`.
pub open spec fn mod_tail(g: Src, s: Cur) -> Step<ModDecl>
    decreases s.left(g), 22nat,
{
    let name = word(g, s);
    let s1 = s.after(name).delim(g, Delim::LBrace);
    let items = item_list(g, s1, seq![]);
    s1.after(items).delim(g, Delim::RBrace).ok(ModDecl { name: name.out(), items: items.out() })
}

/// After `use`: a path, which may end in a list of names in braces.
pub open spec fn use_tail(g: Src, s: Cur) -> Step<UsePath> {
    let first = word(g, s);
    let s1 = s.after(first);
    let path = use_path(g, s1, seq![first.out()]);
    s1.after(path).delim(g, Delim::Semi).ok(path.out())
}

pub open spec fn use_path(g: Src, s: Cur, done: Seq<Seq<char>>) -> Step<UsePath>
    decreases s.left(g),
{
    if !s.at_op(g, Op::ColonColon) {
        s.ok(UsePath { path: done, items: seq![] })
    } else if s.skip().at_delim(g, Delim::LBrace) {
        let s1 = s.skip().skip();
        let first = word(g, s1);
        let s2 = s1.after(first);
        let names = more_names(g, s2, seq![first.out()]);
        s2.after(names).delim(g, Delim::RBrace).ok(UsePath { path: done, items: names.out() })
    } else {
        let name = word(g, s.skip());
        use_path(g, s.skip().after(name), done.push(name.out()))
    }
}

/// Further names with commas in front, perhaps with one behind the last.
pub open spec fn more_names(g: Src, s: Cur, done: Seq<Seq<char>>) -> Step<Seq<Seq<char>>>
    decreases s.left(g),
{
    if !s.at_delim(g, Delim::Comma) {
        s.ok(done)
    } else if s.skip().at_delim(g, Delim::RBrace) {
        s.skip().ok(done)
    } else {
        let name = word(g, s.skip());
        more_names(g, s.skip().after(name), done.push(name.out()))
    }
}

/// After `import`.
pub open spec fn import_tail(g: Src, s: Cur) -> Step<Seq<Seq<char>>> {
    let first = word(g, s);
    let s1 = s.after(first);
    let path = import_path(g, s1, seq![first.out()]);
    s1.after(path).delim(g, Delim::Semi).ok(path.out())
}

pub open spec fn import_path(g: Src, s: Cur, done: Seq<Seq<char>>) -> Step<Seq<Seq<char>>>
    decreases s.left(g),
{
    if !s.at_op(g, Op::ColonColon) {
        s.ok(done)
    } else {
        let name = word(g, s.skip());
        import_path(g, s.skip().after(name), done.push(name.out()))
    }
}

/// `name: type = value`
pub open spec fn valued_tail(g: Src, s: Cur) -> Step<(Seq<char>, Type, Expr)>
    decreases s.left(g), 10nat,
{
    let name = word(g, s);
    let s1 = s.after(name).delim(g, Delim::Colon);
    let ty = type_of(g, s1);
    let s2 = s1.after(ty).op(g, Op::Eq);
    let value = expr(g, s2, 0);
    s2.after(value).ok((name.out(), ty.out(), value.out()))
}

/// After `const`.
pub open spec fn const_tail(g: Src, s: Cur) -> Step<ConstDecl>
    decreases s.left(g), 12nat,
{
    let d = valued_tail(g, s);
    s.after(d).delim(g, Delim::Semi).ok(
        ConstDecl { name: d.out().0, ty: d.out().1, value: d.out().2 },
    )
}

/// After `static`.
pub open spec fn static_tail(g: Src, s: Cur) -> Step<StaticDecl>
    decreases s.left(g), 12nat,
{
    let d = valued_tail(g, s);
    s.after(d).delim(g, Delim::Semi).ok(
        StaticDecl { name: d.out().0, ty: d.out().1, value: d.out().2 },
    )
}

/// After `type`.
pub open spec fn type_alias_tail(g: Src, s: Cur) -> Step<TypeAliasDecl>
    decreases s.left(g), 4nat,
{
    let name = word(g, s);
    let s1 = s.after(name);
    let generics = generic_params(g, s1);
    let s2 = s1.after(generics).op(g, Op::Eq);
    let ty = type_of(g, s2);
    s2.after(ty).delim(g, Delim::Semi).ok(
        TypeAliasDecl { name: name.out(), generics: generics.out(), ty: ty.out() },
    )
}

/// After `table`.
pub open spec fn table_tail(g: Src, s: Cur) -> Step<TableDecl>
    decreases s.left(g), 6nat,
{
    let name = word(g, s);
    let s1 = s.after(name).delim(g, Delim::LBrace);
    let fields = table_fields(g, s1, seq![]);
    s1.after(fields).delim(g, Delim::RBrace).ok(
        TableDecl { name: name.out(), fields: fields.out() },
    )
}

/// Columns up to `}`, with commas between them.
pub open spec fn table_fields(g: Src, s: Cur, done: Seq<TableField>) -> Step<Seq<TableField>>
    decreases s.left(g), 4nat,
{
    if s.err is Some {
        s.stuck()
    } else if s.at_delim(g, Delim::RBrace) {
        s.ok(done)
    } else {
        let name = word(g, s);
        let s1 = s.after(name).delim(g, Delim::Colon);
        let ty = type_of(g, s1);
        let s2 = s1.after(ty);
        let constraints = constraints(g, s2, seq![]);
        let s3 = s2.after(constraints);
        let all = done.push(
            TableField { name: name.out(), ty: ty.out(), constraints: constraints.out() },
        );
        if s3.at_delim(g, Delim::Comma) {
            table_fields(g, s3.skip(), all)
        } else {
            s3.ok(all)
        }
    }
}

/// Column constraints, which are plain identifiers.
pub open spec fn constraints(g: Src, s: Cur, done: Seq<FieldConstraint>) -> Step<
    Seq<FieldConstraint>,
>
    decreases s.left(g), 0nat,
{
    if s.at_name(g, "primary_key"@) {
        constraints(g, s.skip(), done.push(FieldConstraint::PrimaryKey))
    } else if s.at_name(g, "auto_increment"@) {
        constraints(g, s.skip(), done.push(FieldConstraint::AutoIncrement))
    } else if s.at_name(g, "unique"@) {
        constraints(g, s.skip(), done.push(FieldConstraint::Unique))
    } else if s.at_name(g, "not_null"@) {
        constraints(g, s.skip(), done.push(FieldConstraint::NotNull))
    } else if s.at_name(g, "default"@) {
        let s1 = s.skip().delim(g, Delim::LParen);
        let value = expr(g, s1, 0);
        constraints(
            g,
            s1.after(value).delim(g, Delim::RParen),
            done.push(FieldConstraint::Default(value.out())),
        )
    } else {
        s.ok(done)
    }
}

/// After `index`.
pub open spec fn index_tail(g: Src, s: Cur) -> Step<IndexDecl> {
    let name = word(g, s);
    let s1 = s.after(name).kw(g, Keyword::On);
    let table = word(g, s1);
    let s2 = s1.after(table).delim(g, Delim::LParen);
    let column = word(g, s2);
    let s3 = s2.after(column).delim(g, Delim::RParen);
    let mode = word(g, s3.skip());
    let s4 = if s3.at_name(g, "using"@) { s3.skip().after(mode) } else { s3 };
    s4.delim(g, Delim::Semi).ok(
        IndexDecl {
            name: name.out(),
            table: table.out(),
            column: column.out(),
            using_hash: s3.at_name(g, "using"@) && mode.out() == "hash"@,
        },
    )
}

/// After `schema`.
pub open spec fn schema_tail(g: Src, s: Cur) -> Step<SchemaDecl>
    decreases s.left(g), 2nat,
{
    let name = word(g, s);
    let s1 = s.after(name).delim(g, Delim::LBrace);
    let versions = versions(g, s1, seq![]);
    s1.after(versions).delim(g, Delim::RBrace).ok(
        SchemaDecl { name: name.out(), versions: versions.out() },
    )
}

/// The items among statements, in order.
pub open spec fn items_of(stmts: Seq<Stmt>) -> Seq<Item>
    decreases stmts.len(),
{
    if stmts.len() == 0 {
        seq![]
    } else {
        match stmts.last() {
            Stmt::Item(i) => items_of(stmts.drop_last()).push(*i),
            _ => items_of(stmts.drop_last()),
        }
    }
}

/// `version number { ... }`, any number of times. Of a block only the items count.
pub open spec fn versions(g: Src, s: Cur, done: Seq<(u64, Seq<Item>)>) -> Step<
    Seq<(u64, Seq<Item>)>,
>
    decreases s.left(g), 0nat,
{
    if !s.at_name(g, "version"@) {
        s.ok(done)
    } else {
        let s1 = s.skip();
        let s2 = s1.advance(g);
        match g.kind(s1.pos) {
            TokenKind::Int(text) => {
                let body = block(g, s2);
                versions(
                    g,
                    s2.after(body),
                    done.push((number_or_zero(text@), items_of(body.out().stmts))),
                )
            },
            _ => s2.fail(g, "expected integer version number"@).stuck(),
        }
    }
}

/// After `server`.
pub open spec fn server_tail(g: Src, s: Cur) -> Step<ServerDecl>
    decreases s.left(g), 2nat,
{
    let name = word(g, s);
    let s1 = s.after(name).delim(g, Delim::LBrace);
    let items = server_items(g, s1, seq![]);
    s1.after(items).delim(g, Delim::RBrace).ok(ServerDecl { name: name.out(), items: items.out() })
}

pub open spec fn server_items(g: Src, s: Cur, done: Seq<ServerItem>) -> Step<Seq<ServerItem>>
    decreases s.left(g), 0nat,
{
    if s.err is Some {
        s.stuck()
    } else if s.at_delim(g, Delim::RBrace) {
        s.ok(done)
    } else if s.at_kw(g, Keyword::Listen) {
        let args = arg_list(g, s.skip());
        server_items(
            g,
            s.skip().after(args).delim(g, Delim::Semi),
            done.push(ServerItem::Listen(args.out())),
        )
    } else if s.at_kw(g, Keyword::On) {
        let h = on_handler(g, s.skip());
        server_items(g, s.skip().after(h), done.push(ServerItem::On(h.out())))
    } else {
        s.fail(g, "expected `listen` or `on` inside server block"@).stuck()
    }
}

/// After `on`.
pub open spec fn on_handler(g: Src, s: Cur) -> Step<OnHandler>
    decreases s.left(g), 6nat,
{
    let name = word(g, s);
    let s1 = s.after(name).delim(g, Delim::LParen);
    let params = param_list(g, s1);
    let s2 = s1.after(params).delim(g, Delim::RParen);
    let body = block(g, s2);
    s2.after(body).ok(OnHandler { name: name.out(), params: params.out(), body: body.out() })
}

/// After `actor`.
pub open spec fn actor_tail(g: Src, s: Cur) -> Step<ActorDecl>
    decreases s.left(g), 2nat,
{
    let name = word(g, s);
    let s1 = s.after(name).delim(g, Delim::LBrace);
    let items = actor_items(g, s1, seq![]);
    s1.after(items).delim(g, Delim::RBrace).ok(ActorDecl { name: name.out(), items: items.out() })
}

/// After `state`.
pub open spec fn state_tail(g: Src, s: Cur) -> Step<StateDecl>
    decreases s.left(g), 12nat,
{
    let d = valued_tail(g, s);
    s.after(d).delim(g, Delim::Semi).ok(
        StateDecl { name: d.out().0, ty: d.out().1, value: d.out().2 },
    )
}

pub open spec fn actor_items(g: Src, s: Cur, done: Seq<ActorItem>) -> Step<Seq<ActorItem>>
    decreases s.left(g), 0nat,
{
    if s.err is Some {
        s.stuck()
    } else if s.at_delim(g, Delim::RBrace) {
        s.ok(done)
    } else if s.at_kw(g, Keyword::State) {
        let d = state_tail(g, s.skip());
        actor_items(g, s.skip().after(d), done.push(ActorItem::State(d.out())))
    } else if s.at_kw(g, Keyword::On) {
        let h = on_handler(g, s.skip());
        actor_items(g, s.skip().after(h), done.push(ActorItem::On(h.out())))
    } else {
        s.fail(g, "expected `state` or `on` inside actor block"@).stuck()
    }
}

/// After `ui` or `component`.
pub open spec fn ui_tail(g: Src, s: Cur) -> Step<UiDecl>
    decreases s.left(g), 6nat,
{
    let name = word(g, s);
    let s1 = s.after(name).delim(g, Delim::LBrace);
    let items = ui_items(g, s1, seq![]);
    s1.after(items).delim(g, Delim::RBrace).ok(UiDecl { name: name.out(), items: items.out() })
}

/// After `prop`.
pub open spec fn prop_tail(g: Src, s: Cur) -> Step<PropDecl>
    decreases s.left(g), 4nat,
{
    let name = word(g, s);
    let s1 = s.after(name).delim(g, Delim::Colon);
    let ty = type_of(g, s1);
    s1.after(ty).delim(g, Delim::Semi).ok(PropDecl { name: name.out(), ty: ty.out() })
}

/// The parts of a `ui` or `component` up to `}`.
pub open spec fn ui_items(g: Src, s: Cur, done: Seq<UiItem>) -> Step<Seq<UiItem>>
    decreases s.left(g), 4nat,
{
    if s.err is Some {
        s.stuck()
    } else if s.at_delim(g, Delim::RBrace) {
        s.ok(done)
    } else {
        let i = ui_item(g, s);
        let s1 = s.after(i);
        if s.moved(g, s1) {
            ui_items(g, s1, done.push(i.out()))
        } else {
            s1.stuck()
        }
    }
}

pub open spec fn ui_item(g: Src, s: Cur) -> Step<UiItem>
    decreases s.left(g), 2nat,
{
    if s.err is Some {
        s.stuck()
    } else if s.at_kw(g, Keyword::State) {
        let d = state_tail(g, s.skip());
        s.skip().after(d).ok(UiItem::State(d.out()))
    } else if s.at_kw(g, Keyword::Prop) {
        let d = prop_tail(g, s.skip());
        s.skip().after(d).ok(UiItem::Prop(d.out()))
    } else if s.at_kw(g, Keyword::Render) {
        let b = block(g, s.skip());
        s.skip().after(b).ok(UiItem::Render(b.out()))
    } else if s.at_kw(g, Keyword::Mount) {
        let b = block(g, s.skip());
        s.skip().after(b).ok(UiItem::Mount(b.out()))
    } else if s.at_kw(g, Keyword::Unmount) {
        let b = block(g, s.skip());
        s.skip().after(b).ok(UiItem::Unmount(b.out()))
    } else if s.at_kw(g, Keyword::Async) || s.at_kw(g, Keyword::Fn) {
        let d = fn_decl(g, s);
        s.after(d).ok(UiItem::Fn(d.out()))
    } else {
        s.fail(
            g,
            "expected state/prop/render/mount/unmount/fn inside ui/component block, found "@
                + g.kind(s.pos).shown(),
        ).stuck()
    }
}

/// Where reading goes on after a failure in an item: past the next `;`, or at the next
/// token that begins an item, or at the end.
pub open spec fn resume(g: Src, p: nat) -> nat
    decreases g.toks.len() - p,
{
    if g.kind(p) is Eof {
        p
    } else if g.kind(p) == TokenKind::Delim(Delim::Semi) {
        p + 1
    } else if is_item_start(g.kind(p)) {
        p
    } else {
        resume(g, p + 1)
    }
}

/// All the items from `p` on, after those in `items`, and the failures, after those in
/// `errors`. After a failure reading goes on at the next item.
pub open spec fn program(g: Src, p: nat, items: Seq<Item>, errors: Seq<Failure>) -> (
    Program,
    Seq<Failure>,
)
    decreases (Cur { pos: p, err: None }).left(g),
{
    if g.kind(p) is Eof {
        (Program { items }, errors)
    } else {
        let i = item(g, Cur { pos: p, err: None });
        match i.res {
            Ok(x) => if i.end > p {
                program(g, i.end, items.push(x), errors)
            } else {
                (Program { items }, errors)
            },
            Err(e) => if resume(g, i.end) > p {
                program(g, resume(g, i.end), items, errors.push(e))
            } else {
                (Program { items }, errors)
            },
        }
    }
}

} // verus!
