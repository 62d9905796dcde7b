//! What the rules for items read.
use crate::ast::OwnershipMod;
use crate::grammar::cursor::{ident, word, Cur, Src};
use crate::grammar::exprs::{arg_list, expr, expr_list, opt_return_type, opt_value};
use crate::grammar::items::{
    actor_items, actor_tail, attr, attrs, const_tail, constraints, domain_item_kind, enum_tail,
    field_list, fn_body, fn_decl, for_target, impl_items, impl_tail, import_path, import_tail,
    index_tail, item, item_kind, item_list, items_of, mod_tail, more_names, more_params, on_handler,
    param, param_list, prop_tail, schema_tail, server_items, server_tail, state_tail, static_tail,
    struct_body, struct_tail, table_fields, table_tail, target_items, target_kind, trait_items,
    trait_tail, type_alias_tail, ui_item, ui_items, ui_tail, use_path, use_tail, valued_tail,
    variant, variant_list, versions, visibility,
};
use crate::grammar::stmts::block;
use crate::grammar::types::{generic_params, type_list, type_of, type_ref, where_clause};
use crate::grammar::windows::{
    at_start, past_advance, past_delim, past_fail, past_kw, past_op, past_part, past_token,
    past_whole, token_agrees, Window,
};
use crate::grammar::windows::exprs::{
    same_arg_list, same_expr, same_expr_list, same_opt_return_type, same_opt_value,
};
use crate::grammar::windows::stmts::same_block;
use crate::grammar::windows::types::{
    same_generic_params, same_ident, same_type_list, same_type_of, same_type_ref, same_where_clause,
    same_word,
};
use crate::text::number_or_zero;
use crate::token::{Delim, Keyword, Op, TokenKind};
use crate::tree::{
    ActorItem, Attribute, EnumVariant, FieldConstraint, FieldDecl, ImplItem, Item, Param,
    ServerItem, TableField, TraitItem, UiItem,
};
use vstd::prelude::*;

verus! {

pub(crate) proof fn same_attrs(w: Window, g: Src, g2: Src, s: Cur, done: Seq<Attribute>)
    requires
        w.links(g, g2),
        s.pos <= w.stop,
    ensures
        w.part(g, s, attrs(g, s, done), attrs(g2, w.moved(s), done)),
        attrs(g, s, done).end > s.pos ==> g.kind(s.pos) != TokenKind::Op(Op::ColonColon),
    decreases s.left(g), 0nat,
{
    at_start(w, g, g2, s);
    let o = w.moved(s);
    if !s.at_op(g, Op::At) {
    } else {
        past_token(w, g, g2, s, o);
        same_attr(w, g, g2, s.skip());
        let a = attr(g, s.skip());
        let a2 = attr(g2, o.skip());
        past_part(w, g, g2, s.skip(), o.skip(), a, a2, attr(g2, w.moved(s.skip())));
        same_attrs(w, g, g2, s.skip().after(a), done.push(a.out()));
        past_part(
            w,
            g,
            g2,
            s.skip().after(a),
            o.skip().after(a2),
            attrs(g, s.skip().after(a), done.push(a.out())),
            attrs(g2, o.skip().after(a2), done.push(a2.out())),
            attrs(g2, w.moved(s.skip().after(a)), done.push(a.out())),
        );
    }
}

pub(crate) proof fn same_attr(w: Window, g: Src, g2: Src, s: Cur)
    requires
        w.links(g, g2),
        s.pos <= w.stop,
    ensures
        w.part(g, s, attr(g, s), attr(g2, w.moved(s))),
    decreases s.left(g), 0nat,
{
    at_start(w, g, g2, s);
    let o = w.moved(s);
    same_word(w, g, g2, s);
    let name = word(g, s);
    let name2 = word(g2, o);
    past_part(w, g, g2, s, o, name, name2, word(g2, w.moved(s)));
    let s1 = s.after(name);
    let o1 = o.after(name2);
    if s1.at_delim(g, Delim::LParen) {
        past_token(w, g, g2, s1, o1);
        same_expr_list(w, g, g2, s1.skip(), Delim::RParen);
        let args = expr_list(g, s1.skip(), Delim::RParen);
        let args2 = expr_list(g2, o1.skip(), Delim::RParen);
        past_part(
            w,
            g,
            g2,
            s1.skip(),
            o1.skip(),
            args,
            args2,
            expr_list(g2, w.moved(s1.skip()), Delim::RParen),
        );
        past_delim(w, g, g2, s1.skip().after(args), o1.skip().after(args2), Delim::RParen);
    }
}

pub(crate) proof fn same_visibility(w: Window, g: Src, g2: Src, s: Cur)
    requires
        w.links(g, g2),
        s.pos <= w.stop,
    ensures
        w.part(g, s, visibility(g, s), visibility(g2, w.moved(s))),
        visibility(g, s).end > s.pos ==> g.kind(s.pos) != TokenKind::Op(Op::ColonColon),
{
    at_start(w, g, g2, s);
    let o = w.moved(s);
    if !s.at_kw(g, Keyword::Pub) {
    } else if !s.skip().at_delim(g, Delim::LParen) {
        past_token(w, g, g2, s, o);
    } else {
        past_token(w, g, g2, s, o);
        past_token(w, g, g2, s.skip(), o.skip());
        let s1 = s.skip().skip();
        let o1 = o.skip().skip();
        same_ident(w, g, g2, s1);
        let name = ident(g, s1);
        let name2 = ident(g2, o1);
        past_part(w, g, g2, s1, o1, name, name2, ident(g2, w.moved(s1)));
        past_delim(w, g, g2, s1.after(name), o1.after(name2), Delim::RParen);
        let s2 = s1.after(name).delim(g, Delim::RParen);
        let o2 = o1.after(name2).delim(g2, Delim::RParen);
        if s2.err is None && name.out() != "package"@ {
            past_fail(w, g, g2, s2, o2, "expected `package` inside pub(...)"@);
        }
    }
}

pub(crate) proof fn same_item(w: Window, g: Src, g2: Src, s: Cur)
    requires
        w.links(g, g2),
        s.pos <= w.stop,
    ensures
        w.whole(g, s, item(g, s), item(g2, w.moved(s))),
    decreases s.left(g), 18nat,
{
    at_start(w, g, g2, s);
    let o = w.moved(s);
    token_agrees(w, g, g2, s.pos);
    if s.err is Some {
    } else {
        same_attrs(w, g, g2, s, seq![]);
        let a = attrs(g, s, seq![]);
        let a2 = attrs(g2, o, seq![]);
        past_part(w, g, g2, s, o, a, a2, attrs(g2, w.moved(s), seq![]));
        let s1 = s.after(a);
        let o1 = o.after(a2);
        same_visibility(w, g, g2, s1);
        let v = visibility(g, s1);
        let v2 = visibility(g2, o1);
        past_part(w, g, g2, s1, o1, v, v2, visibility(g2, w.moved(s1)));
        let s2 = s1.after(v);
        let o2 = o1.after(v2);
        same_item_kind(w, g, g2, s2);
        let kind = item_kind(g, s2);
        let kind2 = item_kind(g2, o2);
        past_whole(w, g, g2, s2, o2, kind, kind2, item_kind(g2, w.moved(s2)));
    }
}

pub(crate) proof fn same_item_kind(w: Window, g: Src, g2: Src, s: Cur)
    requires
        w.links(g, g2),
        s.pos <= w.stop,
    ensures
        w.whole(g, s, item_kind(g, s), item_kind(g2, w.moved(s))),
    decreases s.left(g), 16nat,
{
    at_start(w, g, g2, s);
    let o = w.moved(s);
    if s.err is Some {
    } else {
        match g.kind(s.pos) {
            TokenKind::Op(Op::Hash) => {
                past_token(w, g, g2, s, o);
                same_target_items(w, g, g2, s.skip());
                let t = target_items(g, s.skip());
                let t2 = target_items(g2, o.skip());
                past_whole(
                    w,
                    g,
                    g2,
                    s.skip(),
                    o.skip(),
                    t,
                    t2,
                    target_items(g2, w.moved(s.skip())),
                );
            },
            TokenKind::Keyword(k) => {
                match k {
                    Keyword::Async | Keyword::Fn => {
                        same_fn_decl(w, g, g2, s);
                        let d = fn_decl(g, s);
                        let d2 = fn_decl(g2, o);
                        past_whole(w, g, g2, s, o, d, d2, fn_decl(g2, w.moved(s)));
                    },
                    Keyword::Struct => {
                        past_token(w, g, g2, s, o);
                        same_struct_tail(w, g, g2, s.skip());
                        let d = struct_tail(g, s.skip());
                        let d2 = struct_tail(g2, o.skip());
                        past_whole(
                            w,
                            g,
                            g2,
                            s.skip(),
                            o.skip(),
                            d,
                            d2,
                            struct_tail(g2, w.moved(s.skip())),
                        );
                    },
                    Keyword::Enum => {
                        past_token(w, g, g2, s, o);
                        same_enum_tail(w, g, g2, s.skip());
                        let d = enum_tail(g, s.skip());
                        let d2 = enum_tail(g2, o.skip());
                        past_whole(
                            w,
                            g,
                            g2,
                            s.skip(),
                            o.skip(),
                            d,
                            d2,
                            enum_tail(g2, w.moved(s.skip())),
                        );
                    },
                    Keyword::Trait => {
                        past_token(w, g, g2, s, o);
                        same_trait_tail(w, g, g2, s.skip());
                        let d = trait_tail(g, s.skip());
                        let d2 = trait_tail(g2, o.skip());
                        past_whole(
                            w,
                            g,
                            g2,
                            s.skip(),
                            o.skip(),
                            d,
                            d2,
                            trait_tail(g2, w.moved(s.skip())),
                        );
                    },
                    Keyword::Impl => {
                        past_token(w, g, g2, s, o);
                        same_impl_tail(w, g, g2, s.skip());
                        let d = impl_tail(g, s.skip());
                        let d2 = impl_tail(g2, o.skip());
                        past_whole(
                            w,
                            g,
                            g2,
                            s.skip(),
                            o.skip(),
                            d,
                            d2,
                            impl_tail(g2, w.moved(s.skip())),
                        );
                    },
                    Keyword::Mod => {
                        past_token(w, g, g2, s, o);
                        same_mod_tail(w, g, g2, s.skip());
                        let d = mod_tail(g, s.skip());
                        let d2 = mod_tail(g2, o.skip());
                        past_whole(
                            w,
                            g,
                            g2,
                            s.skip(),
                            o.skip(),
                            d,
                            d2,
                            mod_tail(g2, w.moved(s.skip())),
                        );
                    },
                    Keyword::Use => {
                        past_token(w, g, g2, s, o);
                        same_use_tail(w, g, g2, s.skip());
                        let d = use_tail(g, s.skip());
                        let d2 = use_tail(g2, o.skip());
                        past_whole(
                            w,
                            g,
                            g2,
                            s.skip(),
                            o.skip(),
                            d,
                            d2,
                            use_tail(g2, w.moved(s.skip())),
                        );
                    },
                    Keyword::Import => {
                        past_token(w, g, g2, s, o);
                        same_import_tail(w, g, g2, s.skip());
                        let d = import_tail(g, s.skip());
                        let d2 = import_tail(g2, o.skip());
                        past_whole(
                            w,
                            g,
                            g2,
                            s.skip(),
                            o.skip(),
                            d,
                            d2,
                            import_tail(g2, w.moved(s.skip())),
                        );
                    },
                    Keyword::Const => {
                        past_token(w, g, g2, s, o);
                        same_const_tail(w, g, g2, s.skip());
                        let d = const_tail(g, s.skip());
                        let d2 = const_tail(g2, o.skip());
                        past_whole(
                            w,
                            g,
                            g2,
                            s.skip(),
                            o.skip(),
                            d,
                            d2,
                            const_tail(g2, w.moved(s.skip())),
                        );
                    },
                    Keyword::Static => {
                        past_token(w, g, g2, s, o);
                        same_static_tail(w, g, g2, s.skip());
                        let d = static_tail(g, s.skip());
                        let d2 = static_tail(g2, o.skip());
                        past_whole(
                            w,
                            g,
                            g2,
                            s.skip(),
                            o.skip(),
                            d,
                            d2,
                            static_tail(g2, w.moved(s.skip())),
                        );
                    },
                    _ => {
                        same_domain_item_kind(w, g, g2, s, k);
                        past_whole(
                            w,
                            g,
                            g2,
                            s,
                            o,
                            domain_item_kind(g, s, k),
                            domain_item_kind(g2, o, k),
                            domain_item_kind(g2, w.moved(s), k),
                        );
                    },
                }
            },
            other => {
                past_fail(w, g, g2, s, o, "expected item, found "@ + other.shown());
            },
        }
    }
}

pub(crate) proof fn same_domain_item_kind(w: Window, g: Src, g2: Src, s: Cur, k: Keyword)
    requires
        w.links(g, g2),
        s.pos <= w.stop,
    ensures
        w.whole(g, s, domain_item_kind(g, s, k), domain_item_kind(g2, w.moved(s), k)),
    decreases s.left(g), 14nat,
{
    at_start(w, g, g2, s);
    let o = w.moved(s);
    if s.err is Some || g.kind(s.pos) != TokenKind::Keyword(k) {
    } else {
        match k {
            Keyword::Type => {
                past_token(w, g, g2, s, o);
                same_type_alias_tail(w, g, g2, s.skip());
                let d = type_alias_tail(g, s.skip());
                let d2 = type_alias_tail(g2, o.skip());
                past_whole(
                    w,
                    g,
                    g2,
                    s.skip(),
                    o.skip(),
                    d,
                    d2,
                    type_alias_tail(g2, w.moved(s.skip())),
                );
            },
            Keyword::Table => {
                past_token(w, g, g2, s, o);
                same_table_tail(w, g, g2, s.skip());
                let d = table_tail(g, s.skip());
                let d2 = table_tail(g2, o.skip());
                past_whole(w, g, g2, s.skip(), o.skip(), d, d2, table_tail(g2, w.moved(s.skip())));
            },
            Keyword::Index => {
                past_token(w, g, g2, s, o);
                same_index_tail(w, g, g2, s.skip());
                let d = index_tail(g, s.skip());
                let d2 = index_tail(g2, o.skip());
                past_whole(w, g, g2, s.skip(), o.skip(), d, d2, index_tail(g2, w.moved(s.skip())));
            },
            Keyword::Schema => {
                past_token(w, g, g2, s, o);
                same_schema_tail(w, g, g2, s.skip());
                let d = schema_tail(g, s.skip());
                let d2 = schema_tail(g2, o.skip());
                past_whole(w, g, g2, s.skip(), o.skip(), d, d2, schema_tail(g2, w.moved(s.skip())));
            },
            Keyword::Ui => {
                past_token(w, g, g2, s, o);
                same_ui_tail(w, g, g2, s.skip());
                let d = ui_tail(g, s.skip());
                let d2 = ui_tail(g2, o.skip());
                past_whole(w, g, g2, s.skip(), o.skip(), d, d2, ui_tail(g2, w.moved(s.skip())));
            },
            Keyword::Component => {
                past_token(w, g, g2, s, o);
                same_ui_tail(w, g, g2, s.skip());
                let d = ui_tail(g, s.skip());
                let d2 = ui_tail(g2, o.skip());
                past_whole(w, g, g2, s.skip(), o.skip(), d, d2, ui_tail(g2, w.moved(s.skip())));
            },
            Keyword::Server => {
                past_token(w, g, g2, s, o);
                same_server_tail(w, g, g2, s.skip());
                let d = server_tail(g, s.skip());
                let d2 = server_tail(g2, o.skip());
                past_whole(w, g, g2, s.skip(), o.skip(), d, d2, server_tail(g2, w.moved(s.skip())));
            },
            Keyword::Actor => {
                past_token(w, g, g2, s, o);
                same_actor_tail(w, g, g2, s.skip());
                let d = actor_tail(g, s.skip());
                let d2 = actor_tail(g2, o.skip());
                past_whole(w, g, g2, s.skip(), o.skip(), d, d2, actor_tail(g2, w.moved(s.skip())));
            },
            _ => {
                past_fail(w, g, g2, s, o, "expected item, found "@ + g.kind(s.pos).shown());
            },
        }
    }
}

pub(crate) proof fn same_target_kind(w: Window, g: Src, g2: Src, s: Cur)
    requires
        w.links(g, g2),
        s.pos <= w.stop,
    ensures
        w.part(g, s, target_kind(g, s), target_kind(g2, w.moved(s))),
{
    at_start(w, g, g2, s);
    let o = w.moved(s);
    same_word(w, g, g2, s);
    let name = word(g, s);
    let name2 = word(g2, o);
    past_part(w, g, g2, s, o, name, name2, word(g2, w.moved(s)));
    let s1 = s.after(name);
    let o1 = o.after(name2);
    if s1.err is None && name.out() != "target"@ {
        past_fail(w, g, g2, s1, o1, "expected `target` after `#`"@);
    } else {
        past_delim(w, g, g2, s1, o1, Delim::LParen);
        let s2 = s1.delim(g, Delim::LParen);
        let o2 = o1.delim(g2, Delim::LParen);
        same_word(w, g, g2, s2);
        let kind = word(g, s2);
        let kind2 = word(g2, o2);
        past_part(w, g, g2, s2, o2, kind, kind2, word(g2, w.moved(s2)));
        let s3 = s2.after(kind);
        let o3 = o2.after(kind2);
        past_delim(w, g, g2, s3, o3, Delim::RParen);
        if s3.err is Some {
        } else if kind.out() == "native"@ {
        } else if kind.out() == "wasm"@ {
        } else if kind.out() == "all"@ {
        } else {
            past_fail(w, g, g2, s3, o3, "expected native|wasm|all inside #target(...)"@);
        }
    }
}

pub(crate) proof fn same_target_items(w: Window, g: Src, g2: Src, s: Cur)
    requires
        w.links(g, g2),
        s.pos <= w.stop,
    ensures
        w.whole(g, s, target_items(g, s), target_items(g2, w.moved(s))),
    decreases s.left(g), 22nat,
{
    at_start(w, g, g2, s);
    let o = w.moved(s);
    same_target_kind(w, g, g2, s);
    let kind = target_kind(g, s);
    let kind2 = target_kind(g2, o);
    past_part(w, g, g2, s, o, kind, kind2, target_kind(g2, w.moved(s)));
    past_delim(w, g, g2, s.after(kind), o.after(kind2), Delim::LBrace);
    let s1 = s.after(kind).delim(g, Delim::LBrace);
    let o1 = o.after(kind2).delim(g2, Delim::LBrace);
    same_item_list(w, g, g2, s1, seq![]);
    let items = item_list(g, s1, seq![]);
    let items2 = item_list(g2, o1, seq![]);
    past_part(w, g, g2, s1, o1, items, items2, item_list(g2, w.moved(s1), seq![]));
    past_delim(w, g, g2, s1.after(items), o1.after(items2), Delim::RBrace);
}

pub(crate) proof fn same_item_list(w: Window, g: Src, g2: Src, s: Cur, done: Seq<Item>)
    requires
        w.links(g, g2),
        s.pos <= w.stop,
    ensures
        w.part(g, s, item_list(g, s, done), item_list(g2, w.moved(s), done)),
    decreases s.left(g), 20nat,
{
    at_start(w, g, g2, s);
    let o = w.moved(s);
    if s.err is Some {
    } else if s.at_delim(g, Delim::RBrace) || s.at_end(g) {
    } else {
        same_item(w, g, g2, s);
        let i = item(g, s);
        let i2 = item(g2, o);
        past_whole(w, g, g2, s, o, i, i2, item(g2, w.moved(s)));
        let s1 = s.after(i);
        let o1 = o.after(i2);
        if s.moved(g, s1) {
            same_item_list(w, g, g2, s1, done.push(i.out()));
            past_part(
                w,
                g,
                g2,
                s1,
                o1,
                item_list(g, s1, done.push(i.out())),
                item_list(g2, o1, done.push(i2.out())),
                item_list(g2, w.moved(s1), done.push(i.out())),
            );
        }
    }
}

pub(crate) proof fn same_fn_decl(w: Window, g: Src, g2: Src, s: Cur)
    requires
        w.links(g, g2),
        s.pos <= w.stop,
    ensures
        w.whole(g, s, fn_decl(g, s), fn_decl(g2, w.moved(s))),
    decreases s.left(g), 0nat,
{
    at_start(w, g, g2, s);
    let o = w.moved(s);
    if s.err is Some {
    } else {
        let is_async = s.at_kw(g, Keyword::Async);
        let is_async2 = o.at_kw(g2, Keyword::Async);
        if is_async {
            past_token(w, g, g2, s, o);
        }
        let s0 = if is_async { s.skip() } else { s };
        let o0 = if is_async2 { o.skip() } else { o };
        past_kw(w, g, g2, s0, o0, Keyword::Fn);
        let s1 = s0.kw(g, Keyword::Fn);
        let o1 = o0.kw(g2, Keyword::Fn);
        same_ident(w, g, g2, s1);
        let name = ident(g, s1);
        let name2 = ident(g2, o1);
        past_part(w, g, g2, s1, o1, name, name2, ident(g2, w.moved(s1)));
        let s2 = s1.after(name);
        let o2 = o1.after(name2);
        same_generic_params(w, g, g2, s2);
        let generics = generic_params(g, s2);
        let generics2 = generic_params(g2, o2);
        past_part(w, g, g2, s2, o2, generics, generics2, generic_params(g2, w.moved(s2)));
        past_delim(w, g, g2, s2.after(generics), o2.after(generics2), Delim::LParen);
        let s3 = s2.after(generics).delim(g, Delim::LParen);
        let o3 = o2.after(generics2).delim(g2, Delim::LParen);
        same_param_list(w, g, g2, s3);
        let params = param_list(g, s3);
        let params2 = param_list(g2, o3);
        past_part(w, g, g2, s3, o3, params, params2, param_list(g2, w.moved(s3)));
        past_delim(w, g, g2, s3.after(params), o3.after(params2), Delim::RParen);
        let s4 = s3.after(params).delim(g, Delim::RParen);
        let o4 = o3.after(params2).delim(g2, Delim::RParen);
        same_opt_return_type(w, g, g2, s4);
        let ret = opt_return_type(g, s4);
        let ret2 = opt_return_type(g2, o4);
        past_part(w, g, g2, s4, o4, ret, ret2, opt_return_type(g2, w.moved(s4)));
        let s5 = s4.after(ret);
        let o5 = o4.after(ret2);
        same_where_clause(w, g, g2, s5);
        let bounds = where_clause(g, s5);
        let bounds2 = where_clause(g2, o5);
        past_part(w, g, g2, s5, o5, bounds, bounds2, where_clause(g2, w.moved(s5)));
        let s6 = s5.after(bounds);
        let o6 = o5.after(bounds2);
        same_fn_body(w, g, g2, s6);
        let body = fn_body(g, s6);
        let body2 = fn_body(g2, o6);
        past_whole(w, g, g2, s6, o6, body, body2, fn_body(g2, w.moved(s6)));
    }
}

pub(crate) proof fn same_fn_body(w: Window, g: Src, g2: Src, s: Cur)
    requires
        w.links(g, g2),
        s.pos <= w.stop,
    ensures
        w.whole(g, s, fn_body(g, s), fn_body(g2, w.moved(s))),
    decreases s.left(g), 2nat,
{
    at_start(w, g, g2, s);
    let o = w.moved(s);
    if s.at_delim(g, Delim::Semi) {
        past_token(w, g, g2, s, o);
    } else {
        same_block(w, g, g2, s);
        let body = block(g, s);
        let body2 = block(g2, o);
        past_whole(w, g, g2, s, o, body, body2, block(g2, w.moved(s)));
    }
}

pub(crate) proof fn same_param_list(w: Window, g: Src, g2: Src, s: Cur)
    requires
        w.links(g, g2),
        s.pos <= w.stop,
    ensures
        w.part(g, s, param_list(g, s), param_list(g2, w.moved(s))),
    decreases s.left(g), 4nat,
{
    at_start(w, g, g2, s);
    let o = w.moved(s);
    if s.at_delim(g, Delim::RParen) {
    } else {
        same_param(w, g, g2, s);
        let first = param(g, s);
        let first2 = param(g2, o);
        past_part(w, g, g2, s, o, first, first2, param(g2, w.moved(s)));
        same_more_params(w, g, g2, s.after(first), seq![first.out()]);
        past_part(
            w,
            g,
            g2,
            s.after(first),
            o.after(first2),
            more_params(g, s.after(first), seq![first.out()]),
            more_params(g2, o.after(first2), seq![first2.out()]),
            more_params(g2, w.moved(s.after(first)), seq![first.out()]),
        );
    }
}

pub(crate) proof fn same_more_params(w: Window, g: Src, g2: Src, s: Cur, done: Seq<Param>)
    requires
        w.links(g, g2),
        s.pos <= w.stop,
    ensures
        w.part(g, s, more_params(g, s, done), more_params(g2, w.moved(s), done)),
    decreases s.left(g), 0nat,
{
    at_start(w, g, g2, s);
    let o = w.moved(s);
    if !s.at_delim(g, Delim::Comma) {
    } else if s.skip().at_delim(g, Delim::RParen) {
        past_token(w, g, g2, s, o);
    } else {
        past_token(w, g, g2, s, o);
        same_param(w, g, g2, s.skip());
        let next = param(g, s.skip());
        let next2 = param(g2, o.skip());
        past_part(w, g, g2, s.skip(), o.skip(), next, next2, param(g2, w.moved(s.skip())));
        same_more_params(w, g, g2, s.skip().after(next), done.push(next.out()));
        past_part(
            w,
            g,
            g2,
            s.skip().after(next),
            o.skip().after(next2),
            more_params(g, s.skip().after(next), done.push(next.out())),
            more_params(g2, o.skip().after(next2), done.push(next2.out())),
            more_params(g2, w.moved(s.skip().after(next)), done.push(next.out())),
        );
    }
}

pub(crate) proof fn same_param(w: Window, g: Src, g2: Src, s: Cur)
    requires
        w.links(g, g2),
        s.pos <= w.stop,
    ensures
        w.part(g, s, param(g, s), param(g2, w.moved(s))),
    decreases s.left(g), 2nat,
{
    at_start(w, g, g2, s);
    let o = w.moved(s);
    if s.err is Some {
    } else if s.at_op(g, Op::DotDot) {
        if s.skip().at_op(g, Op::Dot) {
            past_token(w, g, g2, s, o);
            past_token(w, g, g2, s.skip(), o.skip());
        } else {
            past_token(w, g, g2, s, o);
        }
        let s1 = if s.skip().at_op(g, Op::Dot) { s.skip().skip() } else { s.skip() };
        let o1 = if o.skip().at_op(g2, Op::Dot) { o.skip().skip() } else { o.skip() };
        same_word(w, g, g2, s1);
        let name = word(g, s1);
        let name2 = word(g2, o1);
        past_part(w, g, g2, s1, o1, name, name2, word(g2, w.moved(s1)));
        past_delim(w, g, g2, s1.after(name), o1.after(name2), Delim::Colon);
        let s2 = s1.after(name).delim(g, Delim::Colon);
        let o2 = o1.after(name2).delim(g2, Delim::Colon);
        same_type_of(w, g, g2, s2);
        let ty = type_of(g, s2);
        let ty2 = type_of(g2, o2);
        past_part(w, g, g2, s2, o2, ty, ty2, type_of(g2, w.moved(s2)));
    } else {
        if s.at_kw(g, Keyword::Borrow) {
            past_token(w, g, g2, s, o);
            if s.skip().at_kw(g, Keyword::Mut) {
                past_token(w, g, g2, s.skip(), o.skip());
            }
        } else if s.at_kw(g, Keyword::Move) {
            past_token(w, g, g2, s, o);
        }
        let (ownership, s1) = if s.at_kw(g, Keyword::Borrow) {
            if s.skip().at_kw(g, Keyword::Mut) {
                (OwnershipMod::BorrowMut, s.skip().skip())
            } else {
                (OwnershipMod::Borrow, s.skip())
            }
        } else if s.at_kw(g, Keyword::Move) {
            (OwnershipMod::Move, s.skip())
        } else {
            (OwnershipMod::Plain, s)
        };
        let (ownership2, o1) = if o.at_kw(g2, Keyword::Borrow) {
            if o.skip().at_kw(g2, Keyword::Mut) {
                (OwnershipMod::BorrowMut, o.skip().skip())
            } else {
                (OwnershipMod::Borrow, o.skip())
            }
        } else if o.at_kw(g2, Keyword::Move) {
            (OwnershipMod::Move, o.skip())
        } else {
            (OwnershipMod::Plain, o)
        };
        same_word(w, g, g2, s1);
        let name = word(g, s1);
        let name2 = word(g2, o1);
        past_part(w, g, g2, s1, o1, name, name2, word(g2, w.moved(s1)));
        let s2 = s1.after(name);
        let o2 = o1.after(name2);
        if s2.err is Some {
        } else if name.out() == "self"@ {
        } else {
            past_delim(w, g, g2, s2, o2, Delim::Colon);
            let s3 = s2.delim(g, Delim::Colon);
            let o3 = o2.delim(g2, Delim::Colon);
            same_type_of(w, g, g2, s3);
            let ty = type_of(g, s3);
            let ty2 = type_of(g2, o3);
            past_part(w, g, g2, s3, o3, ty, ty2, type_of(g2, w.moved(s3)));
            let s4 = s3.after(ty);
            let o4 = o3.after(ty2);
            same_opt_value(w, g, g2, s4);
            let default = opt_value(g, s4);
            let default2 = opt_value(g2, o4);
            past_part(w, g, g2, s4, o4, default, default2, opt_value(g2, w.moved(s4)));
        }
    }
}

pub(crate) proof fn same_struct_tail(w: Window, g: Src, g2: Src, s: Cur)
    requires
        w.links(g, g2),
        s.pos <= w.stop,
    ensures
        w.whole(g, s, struct_tail(g, s), struct_tail(g2, w.moved(s))),
    decreases s.left(g), 4nat,
{
    at_start(w, g, g2, s);
    let o = w.moved(s);
    same_ident(w, g, g2, s);
    let name = ident(g, s);
    let name2 = ident(g2, o);
    past_part(w, g, g2, s, o, name, name2, ident(g2, w.moved(s)));
    let s1 = s.after(name);
    let o1 = o.after(name2);
    same_generic_params(w, g, g2, s1);
    let generics = generic_params(g, s1);
    let generics2 = generic_params(g2, o1);
    past_part(w, g, g2, s1, o1, generics, generics2, generic_params(g2, w.moved(s1)));
    let s2 = s1.after(generics);
    let o2 = o1.after(generics2);
    same_struct_body(w, g, g2, s2);
    let body = struct_body(g, s2);
    let body2 = struct_body(g2, o2);
    past_whole(w, g, g2, s2, o2, body, body2, struct_body(g2, w.moved(s2)));
}

pub(crate) proof fn same_struct_body(w: Window, g: Src, g2: Src, s: Cur)
    requires
        w.links(g, g2),
        s.pos <= w.stop,
    ensures
        w.whole(g, s, struct_body(g, s), struct_body(g2, w.moved(s))),
    decreases s.left(g), 2nat,
{
    at_start(w, g, g2, s);
    let o = w.moved(s);
    if s.err is Some {
    } else if s.at_delim(g, Delim::Semi) {
        past_token(w, g, g2, s, o);
    } else if s.at_delim(g, Delim::LParen) {
        past_token(w, g, g2, s, o);
        same_type_list(w, g, g2, s.skip(), Delim::RParen);
        let types = type_list(g, s.skip(), Delim::RParen);
        let types2 = type_list(g2, o.skip(), Delim::RParen);
        past_part(
            w,
            g,
            g2,
            s.skip(),
            o.skip(),
            types,
            types2,
            type_list(g2, w.moved(s.skip()), Delim::RParen),
        );
        past_delim(w, g, g2, s.skip().after(types), o.skip().after(types2), Delim::RParen);
        past_delim(
            w,
            g,
            g2,
            s.skip().after(types).delim(g, Delim::RParen),
            o.skip().after(types2).delim(g2, Delim::RParen),
            Delim::Semi,
        );
    } else {
        past_delim(w, g, g2, s, o, Delim::LBrace);
        let s1 = s.delim(g, Delim::LBrace);
        let o1 = o.delim(g2, Delim::LBrace);
        same_field_list(w, g, g2, s1, seq![]);
        let fields = field_list(g, s1, seq![]);
        let fields2 = field_list(g2, o1, seq![]);
        past_part(w, g, g2, s1, o1, fields, fields2, field_list(g2, w.moved(s1), seq![]));
        past_delim(w, g, g2, s1.after(fields), o1.after(fields2), Delim::RBrace);
    }
}

pub(crate) proof fn same_field_list(w: Window, g: Src, g2: Src, s: Cur, done: Seq<FieldDecl>)
    requires
        w.links(g, g2),
        s.pos <= w.stop,
    ensures
        w.part(g, s, field_list(g, s, done), field_list(g2, w.moved(s), done)),
    decreases s.left(g), 0nat,
{
    at_start(w, g, g2, s);
    let o = w.moved(s);
    if s.err is Some {
    } else if s.at_delim(g, Delim::RBrace) {
    } else {
        same_visibility(w, g, g2, s);
        let v = visibility(g, s);
        let v2 = visibility(g2, o);
        past_part(w, g, g2, s, o, v, v2, visibility(g2, w.moved(s)));
        let s1 = s.after(v);
        let o1 = o.after(v2);
        same_word(w, g, g2, s1);
        let name = word(g, s1);
        let name2 = word(g2, o1);
        past_part(w, g, g2, s1, o1, name, name2, word(g2, w.moved(s1)));
        past_delim(w, g, g2, s1.after(name), o1.after(name2), Delim::Colon);
        let s2 = s1.after(name).delim(g, Delim::Colon);
        let o2 = o1.after(name2).delim(g2, Delim::Colon);
        same_type_of(w, g, g2, s2);
        let ty = type_of(g, s2);
        let ty2 = type_of(g2, o2);
        past_part(w, g, g2, s2, o2, ty, ty2, type_of(g2, w.moved(s2)));
        let s3 = s2.after(ty);
        let o3 = o2.after(ty2);
        let all = done.push(FieldDecl { visibility: v.out(), name: name.out(), ty: ty.out() });
        let all2 = done.push(FieldDecl { visibility: v2.out(), name: name2.out(), ty: ty2.out() });
        if s3.at_delim(g, Delim::Comma) {
            past_token(w, g, g2, s3, o3);
            same_field_list(w, g, g2, s3.skip(), all);
            past_part(
                w,
                g,
                g2,
                s3.skip(),
                o3.skip(),
                field_list(g, s3.skip(), all),
                field_list(g2, o3.skip(), all2),
                field_list(g2, w.moved(s3.skip()), all),
            );
        }
    }
}

pub(crate) proof fn same_enum_tail(w: Window, g: Src, g2: Src, s: Cur)
    requires
        w.links(g, g2),
        s.pos <= w.stop,
    ensures
        w.whole(g, s, enum_tail(g, s), enum_tail(g2, w.moved(s))),
    decreases s.left(g), 4nat,
{
    at_start(w, g, g2, s);
    let o = w.moved(s);
    same_word(w, g, g2, s);
    let name = word(g, s);
    let name2 = word(g2, o);
    past_part(w, g, g2, s, o, name, name2, word(g2, w.moved(s)));
    let s1 = s.after(name);
    let o1 = o.after(name2);
    same_generic_params(w, g, g2, s1);
    let generics = generic_params(g, s1);
    let generics2 = generic_params(g2, o1);
    past_part(w, g, g2, s1, o1, generics, generics2, generic_params(g2, w.moved(s1)));
    past_delim(w, g, g2, s1.after(generics), o1.after(generics2), Delim::LBrace);
    let s2 = s1.after(generics).delim(g, Delim::LBrace);
    let o2 = o1.after(generics2).delim(g2, Delim::LBrace);
    same_variant_list(w, g, g2, s2, seq![]);
    let variants = variant_list(g, s2, seq![]);
    let variants2 = variant_list(g2, o2, seq![]);
    past_part(w, g, g2, s2, o2, variants, variants2, variant_list(g2, w.moved(s2), seq![]));
    past_delim(w, g, g2, s2.after(variants), o2.after(variants2), Delim::RBrace);
}

pub(crate) proof fn same_variant_list(w: Window, g: Src, g2: Src, s: Cur, done: Seq<EnumVariant>)
    requires
        w.links(g, g2),
        s.pos <= w.stop,
    ensures
        w.part(g, s, variant_list(g, s, done), variant_list(g2, w.moved(s), done)),
    decreases s.left(g), 2nat,
{
    at_start(w, g, g2, s);
    let o = w.moved(s);
    if s.err is Some {
    } else if s.at_delim(g, Delim::RBrace) {
    } else {
        same_variant(w, g, g2, s);
        let v = variant(g, s);
        let v2 = variant(g2, o);
        past_part(w, g, g2, s, o, v, v2, variant(g2, w.moved(s)));
        let s1 = s.after(v);
        let o1 = o.after(v2);
        let all = done.push(v.out());
        let all2 = done.push(v2.out());
        if s1.at_delim(g, Delim::Comma) {
            past_token(w, g, g2, s1, o1);
            same_variant_list(w, g, g2, s1.skip(), all);
            past_part(
                w,
                g,
                g2,
                s1.skip(),
                o1.skip(),
                variant_list(g, s1.skip(), all),
                variant_list(g2, o1.skip(), all2),
                variant_list(g2, w.moved(s1.skip()), all),
            );
        }
    }
}

pub(crate) proof fn same_variant(w: Window, g: Src, g2: Src, s: Cur)
    requires
        w.links(g, g2),
        s.pos <= w.stop,
    ensures
        w.part(g, s, variant(g, s), variant(g2, w.moved(s))),
    decreases s.left(g), 0nat,
{
    at_start(w, g, g2, s);
    let o = w.moved(s);
    same_word(w, g, g2, s);
    let name = word(g, s);
    let name2 = word(g2, o);
    past_part(w, g, g2, s, o, name, name2, word(g2, w.moved(s)));
    let s1 = s.after(name);
    let o1 = o.after(name2);
    if s1.at_delim(g, Delim::LParen) {
        past_token(w, g, g2, s1, o1);
        same_type_list(w, g, g2, s1.skip(), Delim::RParen);
        let data = type_list(g, s1.skip(), Delim::RParen);
        let data2 = type_list(g2, o1.skip(), Delim::RParen);
        past_part(
            w,
            g,
            g2,
            s1.skip(),
            o1.skip(),
            data,
            data2,
            type_list(g2, w.moved(s1.skip()), Delim::RParen),
        );
        past_delim(w, g, g2, s1.skip().after(data), o1.skip().after(data2), Delim::RParen);
    }
}

pub(crate) proof fn same_trait_tail(w: Window, g: Src, g2: Src, s: Cur)
    requires
        w.links(g, g2),
        s.pos <= w.stop,
    ensures
        w.whole(g, s, trait_tail(g, s), trait_tail(g2, w.moved(s))),
    decreases s.left(g), 4nat,
{
    at_start(w, g, g2, s);
    let o = w.moved(s);
    same_word(w, g, g2, s);
    let name = word(g, s);
    let name2 = word(g2, o);
    past_part(w, g, g2, s, o, name, name2, word(g2, w.moved(s)));
    let s1 = s.after(name);
    let o1 = o.after(name2);
    same_generic_params(w, g, g2, s1);
    let generics = generic_params(g, s1);
    let generics2 = generic_params(g2, o1);
    past_part(w, g, g2, s1, o1, generics, generics2, generic_params(g2, w.moved(s1)));
    past_delim(w, g, g2, s1.after(generics), o1.after(generics2), Delim::LBrace);
    let s2 = s1.after(generics).delim(g, Delim::LBrace);
    let o2 = o1.after(generics2).delim(g2, Delim::LBrace);
    same_trait_items(w, g, g2, s2, seq![]);
    let items = trait_items(g, s2, seq![]);
    let items2 = trait_items(g2, o2, seq![]);
    past_part(w, g, g2, s2, o2, items, items2, trait_items(g2, w.moved(s2), seq![]));
    past_delim(w, g, g2, s2.after(items), o2.after(items2), Delim::RBrace);
}

pub(crate) proof fn same_trait_items(w: Window, g: Src, g2: Src, s: Cur, done: Seq<TraitItem>)
    requires
        w.links(g, g2),
        s.pos <= w.stop,
    ensures
        w.part(g, s, trait_items(g, s, done), trait_items(g2, w.moved(s), done)),
    decreases s.left(g), 2nat,
{
    at_start(w, g, g2, s);
    let o = w.moved(s);
    if s.err is Some {
    } else if s.at_delim(g, Delim::RBrace) {
    } else if s.at_kw(g, Keyword::Type) {
        past_token(w, g, g2, s, o);
        same_word(w, g, g2, s.skip());
        let name = word(g, s.skip());
        let name2 = word(g2, o.skip());
        past_part(w, g, g2, s.skip(), o.skip(), name, name2, word(g2, w.moved(s.skip())));
        past_delim(w, g, g2, s.skip().after(name), o.skip().after(name2), Delim::Semi);
        same_trait_items(
            w,
            g,
            g2,
            s.skip().after(name).delim(g, Delim::Semi),
            done.push(TraitItem::AssocType(name.out())),
        );
        past_part(
            w,
            g,
            g2,
            s.skip().after(name).delim(g, Delim::Semi),
            o.skip().after(name2).delim(g2, Delim::Semi),
            trait_items(
                g,
                s.skip().after(name).delim(g, Delim::Semi),
                done.push(TraitItem::AssocType(name.out())),
            ),
            trait_items(
                g2,
                o.skip().after(name2).delim(g2, Delim::Semi),
                done.push(TraitItem::AssocType(name2.out())),
            ),
            trait_items(
                g2,
                w.moved(s.skip().after(name).delim(g, Delim::Semi)),
                done.push(TraitItem::AssocType(name.out())),
            ),
        );
    } else {
        same_fn_decl(w, g, g2, s);
        let d = fn_decl(g, s);
        let d2 = fn_decl(g2, o);
        past_whole(w, g, g2, s, o, d, d2, fn_decl(g2, w.moved(s)));
        let s1 = s.after(d);
        let o1 = o.after(d2);
        if s.moved(g, s1) {
            same_trait_items(w, g, g2, s1, done.push(TraitItem::Fn(d.out())));
            past_part(
                w,
                g,
                g2,
                s1,
                o1,
                trait_items(g, s1, done.push(TraitItem::Fn(d.out()))),
                trait_items(g2, o1, done.push(TraitItem::Fn(d2.out()))),
                trait_items(g2, w.moved(s1), done.push(TraitItem::Fn(d.out()))),
            );
        }
    }
}

pub(crate) proof fn same_impl_tail(w: Window, g: Src, g2: Src, s: Cur)
    requires
        w.links(g, g2),
        s.pos <= w.stop,
    ensures
        w.whole(g, s, impl_tail(g, s), impl_tail(g2, w.moved(s))),
    decreases s.left(g), 6nat,
{
    at_start(w, g, g2, s);
    let o = w.moved(s);
    same_generic_params(w, g, g2, s);
    let generics = generic_params(g, s);
    let generics2 = generic_params(g2, o);
    past_part(w, g, g2, s, o, generics, generics2, generic_params(g2, w.moved(s)));
    let s1 = s.after(generics);
    let o1 = o.after(generics2);
    same_type_ref(w, g, g2, s1);
    let first = type_ref(g, s1);
    let first2 = type_ref(g2, o1);
    past_part(w, g, g2, s1, o1, first, first2, type_ref(g2, w.moved(s1)));
    let s2 = s1.after(first);
    let o2 = o1.after(first2);
    same_for_target(w, g, g2, s2);
    let second = for_target(g, s2);
    let second2 = for_target(g2, o2);
    past_part(w, g, g2, s2, o2, second, second2, for_target(g2, w.moved(s2)));
    let s3 = s2.after(second);
    let o3 = o2.after(second2);
    same_where_clause(w, g, g2, s3);
    let bounds = where_clause(g, s3);
    let bounds2 = where_clause(g2, o3);
    past_part(w, g, g2, s3, o3, bounds, bounds2, where_clause(g2, w.moved(s3)));
    past_delim(w, g, g2, s3.after(bounds), o3.after(bounds2), Delim::LBrace);
    let s4 = s3.after(bounds).delim(g, Delim::LBrace);
    let o4 = o3.after(bounds2).delim(g2, Delim::LBrace);
    same_impl_items(w, g, g2, s4, seq![]);
    let items = impl_items(g, s4, seq![]);
    let items2 = impl_items(g2, o4, seq![]);
    past_part(w, g, g2, s4, o4, items, items2, impl_items(g2, w.moved(s4), seq![]));
    past_delim(w, g, g2, s4.after(items), o4.after(items2), Delim::RBrace);
}

pub(crate) proof fn same_for_target(w: Window, g: Src, g2: Src, s: Cur)
    requires
        w.links(g, g2),
        s.pos <= w.stop,
    ensures
        w.part(g, s, for_target(g, s), for_target(g2, w.moved(s))),
    decreases s.left(g), 0nat,
{
    at_start(w, g, g2, s);
    let o = w.moved(s);
    if s.at_kw(g, Keyword::For) {
        past_token(w, g, g2, s, o);
        same_type_ref(w, g, g2, s.skip());
        let target = type_ref(g, s.skip());
        let target2 = type_ref(g2, o.skip());
        past_part(w, g, g2, s.skip(), o.skip(), target, target2, type_ref(g2, w.moved(s.skip())));
    }
}

pub(crate) proof fn same_impl_items(w: Window, g: Src, g2: Src, s: Cur, done: Seq<ImplItem>)
    requires
        w.links(g, g2),
        s.pos <= w.stop,
    ensures
        w.part(g, s, impl_items(g, s, done), impl_items(g2, w.moved(s), done)),
    decreases s.left(g), 2nat,
{
    at_start(w, g, g2, s);
    let o = w.moved(s);
    if s.err is Some {
    } else if s.at_delim(g, Delim::RBrace) {
    } else if s.at_kw(g, Keyword::Type) {
        past_token(w, g, g2, s, o);
        same_word(w, g, g2, s.skip());
        let name = word(g, s.skip());
        let name2 = word(g2, o.skip());
        past_part(w, g, g2, s.skip(), o.skip(), name, name2, word(g2, w.moved(s.skip())));
        past_op(w, g, g2, s.skip().after(name), o.skip().after(name2), Op::Eq);
        let s1 = s.skip().after(name).op(g, Op::Eq);
        let o1 = o.skip().after(name2).op(g2, Op::Eq);
        same_type_of(w, g, g2, s1);
        let ty = type_of(g, s1);
        let ty2 = type_of(g2, o1);
        past_part(w, g, g2, s1, o1, ty, ty2, type_of(g2, w.moved(s1)));
        past_delim(w, g, g2, s1.after(ty), o1.after(ty2), Delim::Semi);
        same_impl_items(
            w,
            g,
            g2,
            s1.after(ty).delim(g, Delim::Semi),
            done.push(ImplItem::AssocType(name.out(), ty.out())),
        );
        past_part(
            w,
            g,
            g2,
            s1.after(ty).delim(g, Delim::Semi),
            o1.after(ty2).delim(g2, Delim::Semi),
            impl_items(
                g,
                s1.after(ty).delim(g, Delim::Semi),
                done.push(ImplItem::AssocType(name.out(), ty.out())),
            ),
            impl_items(
                g2,
                o1.after(ty2).delim(g2, Delim::Semi),
                done.push(ImplItem::AssocType(name2.out(), ty2.out())),
            ),
            impl_items(
                g2,
                w.moved(s1.after(ty).delim(g, Delim::Semi)),
                done.push(ImplItem::AssocType(name.out(), ty.out())),
            ),
        );
    } else {
        same_fn_decl(w, g, g2, s);
        let d = fn_decl(g, s);
        let d2 = fn_decl(g2, o);
        past_whole(w, g, g2, s, o, d, d2, fn_decl(g2, w.moved(s)));
        let s1 = s.after(d);
        let o1 = o.after(d2);
        if s.moved(g, s1) {
            same_impl_items(w, g, g2, s1, done.push(ImplItem::Fn(d.out())));
            past_part(
                w,
                g,
                g2,
                s1,
                o1,
                impl_items(g, s1, done.push(ImplItem::Fn(d.out()))),
                impl_items(g2, o1, done.push(ImplItem::Fn(d2.out()))),
                impl_items(g2, w.moved(s1), done.push(ImplItem::Fn(d.out()))),
            );
        }
    }
}

pub(crate) proof fn same_mod_tail(w: Window, g: Src, g2: Src, s: Cur)
    requires
        w.links(g, g2),
        s.pos <= w.stop,
    ensures
        w.whole(g, s, mod_tail(g, s), mod_tail(g2, w.moved(s))),
    decreases s.left(g), 22nat,
{
    at_start(w, g, g2, s);
    let o = w.moved(s);
    same_word(w, g, g2, s);
    let name = word(g, s);
    let name2 = word(g2, o);
    past_part(w, g, g2, s, o, name, name2, word(g2, w.moved(s)));
    past_delim(w, g, g2, s.after(name), o.after(name2), Delim::LBrace);
    let s1 = s.after(name).delim(g, Delim::LBrace);
    let o1 = o.after(name2).delim(g2, Delim::LBrace);
    same_item_list(w, g, g2, s1, seq![]);
    let items = item_list(g, s1, seq![]);
    let items2 = item_list(g2, o1, seq![]);
    past_part(w, g, g2, s1, o1, items, items2, item_list(g2, w.moved(s1), seq![]));
    past_delim(w, g, g2, s1.after(items), o1.after(items2), Delim::RBrace);
}

pub(crate) proof fn same_use_tail(w: Window, g: Src, g2: Src, s: Cur)
    requires
        w.links(g, g2),
        s.pos <= w.stop,
    ensures
        w.whole(g, s, use_tail(g, s), use_tail(g2, w.moved(s))),
{
    at_start(w, g, g2, s);
    let o = w.moved(s);
    same_word(w, g, g2, s);
    let first = word(g, s);
    let first2 = word(g2, o);
    past_part(w, g, g2, s, o, first, first2, word(g2, w.moved(s)));
    let s1 = s.after(first);
    let o1 = o.after(first2);
    same_use_path(w, g, g2, s1, seq![first.out()]);
    let path = use_path(g, s1, seq![first.out()]);
    let path2 = use_path(g2, o1, seq![first2.out()]);
    past_part(w, g, g2, s1, o1, path, path2, use_path(g2, w.moved(s1), seq![first.out()]));
    past_delim(w, g, g2, s1.after(path), o1.after(path2), Delim::Semi);
}

pub(crate) proof fn same_use_path(w: Window, g: Src, g2: Src, s: Cur, done: Seq<Seq<char>>)
    requires
        w.links(g, g2),
        s.pos <= w.stop,
    ensures
        w.part(g, s, use_path(g, s, done), use_path(g2, w.moved(s), done)),
    decreases s.left(g),
{
    at_start(w, g, g2, s);
    let o = w.moved(s);
    if !s.at_op(g, Op::ColonColon) {
    } else if s.skip().at_delim(g, Delim::LBrace) {
        past_token(w, g, g2, s, o);
        past_token(w, g, g2, s.skip(), o.skip());
        let s1 = s.skip().skip();
        let o1 = o.skip().skip();
        same_word(w, g, g2, s1);
        let first = word(g, s1);
        let first2 = word(g2, o1);
        past_part(w, g, g2, s1, o1, first, first2, word(g2, w.moved(s1)));
        let s2 = s1.after(first);
        let o2 = o1.after(first2);
        same_more_names(w, g, g2, s2, seq![first.out()]);
        let names = more_names(g, s2, seq![first.out()]);
        let names2 = more_names(g2, o2, seq![first2.out()]);
        past_part(w, g, g2, s2, o2, names, names2, more_names(g2, w.moved(s2), seq![first.out()]));
        past_delim(w, g, g2, s2.after(names), o2.after(names2), Delim::RBrace);
    } else {
        past_token(w, g, g2, s, o);
        same_word(w, g, g2, s.skip());
        let name = word(g, s.skip());
        let name2 = word(g2, o.skip());
        past_part(w, g, g2, s.skip(), o.skip(), name, name2, word(g2, w.moved(s.skip())));
        same_use_path(w, g, g2, s.skip().after(name), done.push(name.out()));
        past_part(
            w,
            g,
            g2,
            s.skip().after(name),
            o.skip().after(name2),
            use_path(g, s.skip().after(name), done.push(name.out())),
            use_path(g2, o.skip().after(name2), done.push(name2.out())),
            use_path(g2, w.moved(s.skip().after(name)), done.push(name.out())),
        );
    }
}

pub(crate) proof fn same_more_names(w: Window, g: Src, g2: Src, s: Cur, done: Seq<Seq<char>>)
    requires
        w.links(g, g2),
        s.pos <= w.stop,
    ensures
        w.part(g, s, more_names(g, s, done), more_names(g2, w.moved(s), done)),
    decreases s.left(g),
{
    at_start(w, g, g2, s);
    let o = w.moved(s);
    if !s.at_delim(g, Delim::Comma) {
    } else if s.skip().at_delim(g, Delim::RBrace) {
        past_token(w, g, g2, s, o);
    } else {
        past_token(w, g, g2, s, o);
        same_word(w, g, g2, s.skip());
        let name = word(g, s.skip());
        let name2 = word(g2, o.skip());
        past_part(w, g, g2, s.skip(), o.skip(), name, name2, word(g2, w.moved(s.skip())));
        same_more_names(w, g, g2, s.skip().after(name), done.push(name.out()));
        past_part(
            w,
            g,
            g2,
            s.skip().after(name),
            o.skip().after(name2),
            more_names(g, s.skip().after(name), done.push(name.out())),
            more_names(g2, o.skip().after(name2), done.push(name2.out())),
            more_names(g2, w.moved(s.skip().after(name)), done.push(name.out())),
        );
    }
}

pub(crate) proof fn same_import_tail(w: Window, g: Src, g2: Src, s: Cur)
    requires
        w.links(g, g2),
        s.pos <= w.stop,
    ensures
        w.whole(g, s, import_tail(g, s), import_tail(g2, w.moved(s))),
{
    at_start(w, g, g2, s);
    let o = w.moved(s);
    same_word(w, g, g2, s);
    let first = word(g, s);
    let first2 = word(g2, o);
    past_part(w, g, g2, s, o, first, first2, word(g2, w.moved(s)));
    let s1 = s.after(first);
    let o1 = o.after(first2);
    same_import_path(w, g, g2, s1, seq![first.out()]);
    let path = import_path(g, s1, seq![first.out()]);
    let path2 = import_path(g2, o1, seq![first2.out()]);
    past_part(w, g, g2, s1, o1, path, path2, import_path(g2, w.moved(s1), seq![first.out()]));
    past_delim(w, g, g2, s1.after(path), o1.after(path2), Delim::Semi);
}

pub(crate) proof fn same_import_path(w: Window, g: Src, g2: Src, s: Cur, done: Seq<Seq<char>>)
    requires
        w.links(g, g2),
        s.pos <= w.stop,
    ensures
        w.part(g, s, import_path(g, s, done), import_path(g2, w.moved(s), done)),
    decreases s.left(g),
{
    at_start(w, g, g2, s);
    let o = w.moved(s);
    if !s.at_op(g, Op::ColonColon) {
    } else {
        past_token(w, g, g2, s, o);
        same_word(w, g, g2, s.skip());
        let name = word(g, s.skip());
        let name2 = word(g2, o.skip());
        past_part(w, g, g2, s.skip(), o.skip(), name, name2, word(g2, w.moved(s.skip())));
        same_import_path(w, g, g2, s.skip().after(name), done.push(name.out()));
        past_part(
            w,
            g,
            g2,
            s.skip().after(name),
            o.skip().after(name2),
            import_path(g, s.skip().after(name), done.push(name.out())),
            import_path(g2, o.skip().after(name2), done.push(name2.out())),
            import_path(g2, w.moved(s.skip().after(name)), done.push(name.out())),
        );
    }
}

pub(crate) proof fn same_valued_tail(w: Window, g: Src, g2: Src, s: Cur)
    requires
        w.links(g, g2),
        s.pos <= w.stop,
    ensures
        w.part(g, s, valued_tail(g, s), valued_tail(g2, w.moved(s))),
    decreases s.left(g), 10nat,
{
    at_start(w, g, g2, s);
    let o = w.moved(s);
    same_word(w, g, g2, s);
    let name = word(g, s);
    let name2 = word(g2, o);
    past_part(w, g, g2, s, o, name, name2, word(g2, w.moved(s)));
    past_delim(w, g, g2, s.after(name), o.after(name2), Delim::Colon);
    let s1 = s.after(name).delim(g, Delim::Colon);
    let o1 = o.after(name2).delim(g2, Delim::Colon);
    same_type_of(w, g, g2, s1);
    let ty = type_of(g, s1);
    let ty2 = type_of(g2, o1);
    past_part(w, g, g2, s1, o1, ty, ty2, type_of(g2, w.moved(s1)));
    past_op(w, g, g2, s1.after(ty), o1.after(ty2), Op::Eq);
    let s2 = s1.after(ty).op(g, Op::Eq);
    let o2 = o1.after(ty2).op(g2, Op::Eq);
    same_expr(w, g, g2, s2, 0);
    let value = expr(g, s2, 0);
    let value2 = expr(g2, o2, 0);
    past_part(w, g, g2, s2, o2, value, value2, expr(g2, w.moved(s2), 0));
}

pub(crate) proof fn same_const_tail(w: Window, g: Src, g2: Src, s: Cur)
    requires
        w.links(g, g2),
        s.pos <= w.stop,
    ensures
        w.whole(g, s, const_tail(g, s), const_tail(g2, w.moved(s))),
    decreases s.left(g), 12nat,
{
    at_start(w, g, g2, s);
    let o = w.moved(s);
    same_valued_tail(w, g, g2, s);
    let d = valued_tail(g, s);
    let d2 = valued_tail(g2, o);
    past_part(w, g, g2, s, o, d, d2, valued_tail(g2, w.moved(s)));
    past_delim(w, g, g2, s.after(d), o.after(d2), Delim::Semi);
}

pub(crate) proof fn same_static_tail(w: Window, g: Src, g2: Src, s: Cur)
    requires
        w.links(g, g2),
        s.pos <= w.stop,
    ensures
        w.whole(g, s, static_tail(g, s), static_tail(g2, w.moved(s))),
    decreases s.left(g), 12nat,
{
    at_start(w, g, g2, s);
    let o = w.moved(s);
    same_valued_tail(w, g, g2, s);
    let d = valued_tail(g, s);
    let d2 = valued_tail(g2, o);
    past_part(w, g, g2, s, o, d, d2, valued_tail(g2, w.moved(s)));
    past_delim(w, g, g2, s.after(d), o.after(d2), Delim::Semi);
}

pub(crate) proof fn same_type_alias_tail(w: Window, g: Src, g2: Src, s: Cur)
    requires
        w.links(g, g2),
        s.pos <= w.stop,
    ensures
        w.whole(g, s, type_alias_tail(g, s), type_alias_tail(g2, w.moved(s))),
    decreases s.left(g), 4nat,
{
    at_start(w, g, g2, s);
    let o = w.moved(s);
    same_word(w, g, g2, s);
    let name = word(g, s);
    let name2 = word(g2, o);
    past_part(w, g, g2, s, o, name, name2, word(g2, w.moved(s)));
    let s1 = s.after(name);
    let o1 = o.after(name2);
    same_generic_params(w, g, g2, s1);
    let generics = generic_params(g, s1);
    let generics2 = generic_params(g2, o1);
    past_part(w, g, g2, s1, o1, generics, generics2, generic_params(g2, w.moved(s1)));
    past_op(w, g, g2, s1.after(generics), o1.after(generics2), Op::Eq);
    let s2 = s1.after(generics).op(g, Op::Eq);
    let o2 = o1.after(generics2).op(g2, Op::Eq);
    same_type_of(w, g, g2, s2);
    let ty = type_of(g, s2);
    let ty2 = type_of(g2, o2);
    past_part(w, g, g2, s2, o2, ty, ty2, type_of(g2, w.moved(s2)));
    past_delim(w, g, g2, s2.after(ty), o2.after(ty2), Delim::Semi);
}

pub(crate) proof fn same_table_tail(w: Window, g: Src, g2: Src, s: Cur)
    requires
        w.links(g, g2),
        s.pos <= w.stop,
    ensures
        w.whole(g, s, table_tail(g, s), table_tail(g2, w.moved(s))),
    decreases s.left(g), 6nat,
{
    at_start(w, g, g2, s);
    let o = w.moved(s);
    same_word(w, g, g2, s);
    let name = word(g, s);
    let name2 = word(g2, o);
    past_part(w, g, g2, s, o, name, name2, word(g2, w.moved(s)));
    past_delim(w, g, g2, s.after(name), o.after(name2), Delim::LBrace);
    let s1 = s.after(name).delim(g, Delim::LBrace);
    let o1 = o.after(name2).delim(g2, Delim::LBrace);
    same_table_fields(w, g, g2, s1, seq![]);
    let fields = table_fields(g, s1, seq![]);
    let fields2 = table_fields(g2, o1, seq![]);
    past_part(w, g, g2, s1, o1, fields, fields2, table_fields(g2, w.moved(s1), seq![]));
    past_delim(w, g, g2, s1.after(fields), o1.after(fields2), Delim::RBrace);
}

pub(crate) proof fn same_table_fields(w: Window, g: Src, g2: Src, s: Cur, done: Seq<TableField>)
    requires
        w.links(g, g2),
        s.pos <= w.stop,
    ensures
        w.part(g, s, table_fields(g, s, done), table_fields(g2, w.moved(s), done)),
    decreases s.left(g), 4nat,
{
    at_start(w, g, g2, s);
    let o = w.moved(s);
    if s.err is Some {
    } else if s.at_delim(g, Delim::RBrace) {
    } else {
        same_word(w, g, g2, s);
        let name = word(g, s);
        let name2 = word(g2, o);
        past_part(w, g, g2, s, o, name, name2, word(g2, w.moved(s)));
        past_delim(w, g, g2, s.after(name), o.after(name2), Delim::Colon);
        let s1 = s.after(name).delim(g, Delim::Colon);
        let o1 = o.after(name2).delim(g2, Delim::Colon);
        same_type_of(w, g, g2, s1);
        let ty = type_of(g, s1);
        let ty2 = type_of(g2, o1);
        past_part(w, g, g2, s1, o1, ty, ty2, type_of(g2, w.moved(s1)));
        let s2 = s1.after(ty);
        let o2 = o1.after(ty2);
        same_constraints(w, g, g2, s2, seq![]);
        let all_constraints = constraints(g, s2, seq![]);
        let all_constraints2 = constraints(g2, o2, seq![]);
        past_part(
            w,
            g,
            g2,
            s2,
            o2,
            all_constraints,
            all_constraints2,
            constraints(g2, w.moved(s2), seq![]),
        );
        let s3 = s2.after(all_constraints);
        let o3 = o2.after(all_constraints2);
        let all = done.push(
            TableField { name: name.out(), ty: ty.out(), constraints: all_constraints.out() },
        );
        let all2 = done.push(
            TableField { name: name2.out(), ty: ty2.out(), constraints: all_constraints2.out() },
        );
        if s3.at_delim(g, Delim::Comma) {
            past_token(w, g, g2, s3, o3);
            same_table_fields(w, g, g2, s3.skip(), all);
            past_part(
                w,
                g,
                g2,
                s3.skip(),
                o3.skip(),
                table_fields(g, s3.skip(), all),
                table_fields(g2, o3.skip(), all2),
                table_fields(g2, w.moved(s3.skip()), all),
            );
        }
    }
}

pub(crate) proof fn same_constraints(w: Window, g: Src, g2: Src, s: Cur, done: Seq<FieldConstraint>)
    requires
        w.links(g, g2),
        s.pos <= w.stop,
    ensures
        w.part(g, s, constraints(g, s, done), constraints(g2, w.moved(s), done)),
    decreases s.left(g), 0nat,
{
    at_start(w, g, g2, s);
    let o = w.moved(s);
    if s.at_name(g, "primary_key"@) {
        past_token(w, g, g2, s, o);
        same_constraints(w, g, g2, s.skip(), done.push(FieldConstraint::PrimaryKey));
        past_part(
            w,
            g,
            g2,
            s.skip(),
            o.skip(),
            constraints(g, s.skip(), done.push(FieldConstraint::PrimaryKey)),
            constraints(g2, o.skip(), done.push(FieldConstraint::PrimaryKey)),
            constraints(g2, w.moved(s.skip()), done.push(FieldConstraint::PrimaryKey)),
        );
    } else if s.at_name(g, "auto_increment"@) {
        past_token(w, g, g2, s, o);
        same_constraints(w, g, g2, s.skip(), done.push(FieldConstraint::AutoIncrement));
        past_part(
            w,
            g,
            g2,
            s.skip(),
            o.skip(),
            constraints(g, s.skip(), done.push(FieldConstraint::AutoIncrement)),
            constraints(g2, o.skip(), done.push(FieldConstraint::AutoIncrement)),
            constraints(g2, w.moved(s.skip()), done.push(FieldConstraint::AutoIncrement)),
        );
    } else if s.at_name(g, "unique"@) {
        past_token(w, g, g2, s, o);
        same_constraints(w, g, g2, s.skip(), done.push(FieldConstraint::Unique));
        past_part(
            w,
            g,
            g2,
            s.skip(),
            o.skip(),
            constraints(g, s.skip(), done.push(FieldConstraint::Unique)),
            constraints(g2, o.skip(), done.push(FieldConstraint::Unique)),
            constraints(g2, w.moved(s.skip()), done.push(FieldConstraint::Unique)),
        );
    } else if s.at_name(g, "not_null"@) {
        past_token(w, g, g2, s, o);
        same_constraints(w, g, g2, s.skip(), done.push(FieldConstraint::NotNull));
        past_part(
            w,
            g,
            g2,
            s.skip(),
            o.skip(),
            constraints(g, s.skip(), done.push(FieldConstraint::NotNull)),
            constraints(g2, o.skip(), done.push(FieldConstraint::NotNull)),
            constraints(g2, w.moved(s.skip()), done.push(FieldConstraint::NotNull)),
        );
    } else if s.at_name(g, "default"@) {
        past_token(w, g, g2, s, o);
        past_delim(w, g, g2, s.skip(), o.skip(), Delim::LParen);
        let s1 = s.skip().delim(g, Delim::LParen);
        let o1 = o.skip().delim(g2, Delim::LParen);
        same_expr(w, g, g2, s1, 0);
        let value = expr(g, s1, 0);
        let value2 = expr(g2, o1, 0);
        past_part(w, g, g2, s1, o1, value, value2, expr(g2, w.moved(s1), 0));
        past_delim(w, g, g2, s1.after(value), o1.after(value2), Delim::RParen);
        same_constraints(
            w,
            g,
            g2,
            s1.after(value).delim(g, Delim::RParen),
            done.push(FieldConstraint::Default(value.out())),
        );
        past_part(
            w,
            g,
            g2,
            s1.after(value).delim(g, Delim::RParen),
            o1.after(value2).delim(g2, Delim::RParen),
            constraints(
                g,
                s1.after(value).delim(g, Delim::RParen),
                done.push(FieldConstraint::Default(value.out())),
            ),
            constraints(
                g2,
                o1.after(value2).delim(g2, Delim::RParen),
                done.push(FieldConstraint::Default(value2.out())),
            ),
            constraints(
                g2,
                w.moved(s1.after(value).delim(g, Delim::RParen)),
                done.push(FieldConstraint::Default(value.out())),
            ),
        );
    }
}

pub(crate) proof fn same_index_tail(w: Window, g: Src, g2: Src, s: Cur)
    requires
        w.links(g, g2),
        s.pos <= w.stop,
    ensures
        w.whole(g, s, index_tail(g, s), index_tail(g2, w.moved(s))),
{
    at_start(w, g, g2, s);
    let o = w.moved(s);
    same_word(w, g, g2, s);
    let name = word(g, s);
    let name2 = word(g2, o);
    past_part(w, g, g2, s, o, name, name2, word(g2, w.moved(s)));
    past_kw(w, g, g2, s.after(name), o.after(name2), Keyword::On);
    let s1 = s.after(name).kw(g, Keyword::On);
    let o1 = o.after(name2).kw(g2, Keyword::On);
    same_word(w, g, g2, s1);
    let table = word(g, s1);
    let table2 = word(g2, o1);
    past_part(w, g, g2, s1, o1, table, table2, word(g2, w.moved(s1)));
    past_delim(w, g, g2, s1.after(table), o1.after(table2), Delim::LParen);
    let s2 = s1.after(table).delim(g, Delim::LParen);
    let o2 = o1.after(table2).delim(g2, Delim::LParen);
    same_word(w, g, g2, s2);
    let column = word(g, s2);
    let column2 = word(g2, o2);
    past_part(w, g, g2, s2, o2, column, column2, word(g2, w.moved(s2)));
    past_delim(w, g, g2, s2.after(column), o2.after(column2), Delim::RParen);
    let s3 = s2.after(column).delim(g, Delim::RParen);
    let o3 = o2.after(column2).delim(g2, Delim::RParen);
    if s3.at_name(g, "using"@) {
        past_token(w, g, g2, s3, o3);
        same_word(w, g, g2, s3.skip());
    }
    let mode = word(g, s3.skip());
    let mode2 = word(g2, o3.skip());
    if s3.at_name(g, "using"@) {
        past_token(w, g, g2, s3, o3);
        past_part(w, g, g2, s3.skip(), o3.skip(), mode, mode2, word(g2, w.moved(s3.skip())));
    }
    let s4 = if s3.at_name(g, "using"@) { s3.skip().after(mode) } else { s3 };
    let o4 = if o3.at_name(g2, "using"@) { o3.skip().after(mode2) } else { o3 };
    past_delim(w, g, g2, s4, o4, Delim::Semi);
}

pub(crate) proof fn same_schema_tail(w: Window, g: Src, g2: Src, s: Cur)
    requires
        w.links(g, g2),
        s.pos <= w.stop,
    ensures
        w.whole(g, s, schema_tail(g, s), schema_tail(g2, w.moved(s))),
    decreases s.left(g), 2nat,
{
    at_start(w, g, g2, s);
    let o = w.moved(s);
    same_word(w, g, g2, s);
    let name = word(g, s);
    let name2 = word(g2, o);
    past_part(w, g, g2, s, o, name, name2, word(g2, w.moved(s)));
    past_delim(w, g, g2, s.after(name), o.after(name2), Delim::LBrace);
    let s1 = s.after(name).delim(g, Delim::LBrace);
    let o1 = o.after(name2).delim(g2, Delim::LBrace);
    same_versions(w, g, g2, s1, seq![]);
    let all_versions = versions(g, s1, seq![]);
    let all_versions2 = versions(g2, o1, seq![]);
    past_part(w, g, g2, s1, o1, all_versions, all_versions2, versions(g2, w.moved(s1), seq![]));
    past_delim(w, g, g2, s1.after(all_versions), o1.after(all_versions2), Delim::RBrace);
}

pub(crate) proof fn same_versions(w: Window, g: Src, g2: Src, s: Cur, done: Seq<(u64, Seq<Item>)>)
    requires
        w.links(g, g2),
        s.pos <= w.stop,
    ensures
        w.part(g, s, versions(g, s, done), versions(g2, w.moved(s), done)),
    decreases s.left(g), 0nat,
{
    at_start(w, g, g2, s);
    let o = w.moved(s);
    if !s.at_name(g, "version"@) {
    } else {
        past_token(w, g, g2, s, o);
        let s1 = s.skip();
        let o1 = o.skip();
        past_advance(w, g, g2, s1, o1);
        let s2 = s1.advance(g);
        let o2 = o1.advance(g2);
        match g.kind(s1.pos) {
            TokenKind::Int(text) => {
                same_block(w, g, g2, s2);
                let body = block(g, s2);
                let body2 = block(g2, o2);
                past_whole(w, g, g2, s2, o2, body, body2, block(g2, w.moved(s2)));
                same_versions(
                    w,
                    g,
                    g2,
                    s2.after(body),
                    done.push((number_or_zero(text@), items_of(body.out().stmts))),
                );
                past_part(
                    w,
                    g,
                    g2,
                    s2.after(body),
                    o2.after(body2),
                    versions(
                        g,
                        s2.after(body),
                        done.push((number_or_zero(text@), items_of(body.out().stmts))),
                    ),
                    versions(
                        g2,
                        o2.after(body2),
                        done.push((number_or_zero(text@), items_of(body2.out().stmts))),
                    ),
                    versions(
                        g2,
                        w.moved(s2.after(body)),
                        done.push((number_or_zero(text@), items_of(body.out().stmts))),
                    ),
                );
            },
            _ => {
                past_fail(w, g, g2, s2, o2, "expected integer version number"@);
            },
        }
    }
}

pub(crate) proof fn same_server_tail(w: Window, g: Src, g2: Src, s: Cur)
    requires
        w.links(g, g2),
        s.pos <= w.stop,
    ensures
        w.whole(g, s, server_tail(g, s), server_tail(g2, w.moved(s))),
    decreases s.left(g), 2nat,
{
    at_start(w, g, g2, s);
    let o = w.moved(s);
    same_word(w, g, g2, s);
    let name = word(g, s);
    let name2 = word(g2, o);
    past_part(w, g, g2, s, o, name, name2, word(g2, w.moved(s)));
    past_delim(w, g, g2, s.after(name), o.after(name2), Delim::LBrace);
    let s1 = s.after(name).delim(g, Delim::LBrace);
    let o1 = o.after(name2).delim(g2, Delim::LBrace);
    same_server_items(w, g, g2, s1, seq![]);
    let items = server_items(g, s1, seq![]);
    let items2 = server_items(g2, o1, seq![]);
    past_part(w, g, g2, s1, o1, items, items2, server_items(g2, w.moved(s1), seq![]));
    past_delim(w, g, g2, s1.after(items), o1.after(items2), Delim::RBrace);
}

pub(crate) proof fn same_server_items(w: Window, g: Src, g2: Src, s: Cur, done: Seq<ServerItem>)
    requires
        w.links(g, g2),
        s.pos <= w.stop,
    ensures
        w.part(g, s, server_items(g, s, done), server_items(g2, w.moved(s), done)),
    decreases s.left(g), 0nat,
{
    at_start(w, g, g2, s);
    let o = w.moved(s);
    if s.err is Some {
    } else if s.at_delim(g, Delim::RBrace) {
    } else if s.at_kw(g, Keyword::Listen) {
        past_token(w, g, g2, s, o);
        same_arg_list(w, g, g2, s.skip());
        let args = arg_list(g, s.skip());
        let args2 = arg_list(g2, o.skip());
        past_part(w, g, g2, s.skip(), o.skip(), args, args2, arg_list(g2, w.moved(s.skip())));
        past_delim(w, g, g2, s.skip().after(args), o.skip().after(args2), Delim::Semi);
        same_server_items(
            w,
            g,
            g2,
            s.skip().after(args).delim(g, Delim::Semi),
            done.push(ServerItem::Listen(args.out())),
        );
        past_part(
            w,
            g,
            g2,
            s.skip().after(args).delim(g, Delim::Semi),
            o.skip().after(args2).delim(g2, Delim::Semi),
            server_items(
                g,
                s.skip().after(args).delim(g, Delim::Semi),
                done.push(ServerItem::Listen(args.out())),
            ),
            server_items(
                g2,
                o.skip().after(args2).delim(g2, Delim::Semi),
                done.push(ServerItem::Listen(args2.out())),
            ),
            server_items(
                g2,
                w.moved(s.skip().after(args).delim(g, Delim::Semi)),
                done.push(ServerItem::Listen(args.out())),
            ),
        );
    } else if s.at_kw(g, Keyword::On) {
        past_token(w, g, g2, s, o);
        same_on_handler(w, g, g2, s.skip());
        let h = on_handler(g, s.skip());
        let h2 = on_handler(g2, o.skip());
        past_whole(w, g, g2, s.skip(), o.skip(), h, h2, on_handler(g2, w.moved(s.skip())));
        same_server_items(w, g, g2, s.skip().after(h), done.push(ServerItem::On(h.out())));
        past_part(
            w,
            g,
            g2,
            s.skip().after(h),
            o.skip().after(h2),
            server_items(g, s.skip().after(h), done.push(ServerItem::On(h.out()))),
            server_items(g2, o.skip().after(h2), done.push(ServerItem::On(h2.out()))),
            server_items(g2, w.moved(s.skip().after(h)), done.push(ServerItem::On(h.out()))),
        );
    } else {
        past_fail(w, g, g2, s, o, "expected `listen` or `on` inside server block"@);
    }
}

pub(crate) proof fn same_on_handler(w: Window, g: Src, g2: Src, s: Cur)
    requires
        w.links(g, g2),
        s.pos <= w.stop,
    ensures
        w.whole(g, s, on_handler(g, s), on_handler(g2, w.moved(s))),
    decreases s.left(g), 6nat,
{
    at_start(w, g, g2, s);
    let o = w.moved(s);
    same_word(w, g, g2, s);
    let name = word(g, s);
    let name2 = word(g2, o);
    past_part(w, g, g2, s, o, name, name2, word(g2, w.moved(s)));
    past_delim(w, g, g2, s.after(name), o.after(name2), Delim::LParen);
    let s1 = s.after(name).delim(g, Delim::LParen);
    let o1 = o.after(name2).delim(g2, Delim::LParen);
    same_param_list(w, g, g2, s1);
    let params = param_list(g, s1);
    let params2 = param_list(g2, o1);
    past_part(w, g, g2, s1, o1, params, params2, param_list(g2, w.moved(s1)));
    past_delim(w, g, g2, s1.after(params), o1.after(params2), Delim::RParen);
    let s2 = s1.after(params).delim(g, Delim::RParen);
    let o2 = o1.after(params2).delim(g2, Delim::RParen);
    same_block(w, g, g2, s2);
    let body = block(g, s2);
    let body2 = block(g2, o2);
    past_whole(w, g, g2, s2, o2, body, body2, block(g2, w.moved(s2)));
}

pub(crate) proof fn same_actor_tail(w: Window, g: Src, g2: Src, s: Cur)
    requires
        w.links(g, g2),
        s.pos <= w.stop,
    ensures
        w.whole(g, s, actor_tail(g, s), actor_tail(g2, w.moved(s))),
    decreases s.left(g), 2nat,
{
    at_start(w, g, g2, s);
    let o = w.moved(s);
    same_word(w, g, g2, s);
    let name = word(g, s);
    let name2 = word(g2, o);
    past_part(w, g, g2, s, o, name, name2, word(g2, w.moved(s)));
    past_delim(w, g, g2, s.after(name), o.after(name2), Delim::LBrace);
    let s1 = s.after(name).delim(g, Delim::LBrace);
    let o1 = o.after(name2).delim(g2, Delim::LBrace);
    same_actor_items(w, g, g2, s1, seq![]);
    let items = actor_items(g, s1, seq![]);
    let items2 = actor_items(g2, o1, seq![]);
    past_part(w, g, g2, s1, o1, items, items2, actor_items(g2, w.moved(s1), seq![]));
    past_delim(w, g, g2, s1.after(items), o1.after(items2), Delim::RBrace);
}

pub(crate) proof fn same_state_tail(w: Window, g: Src, g2: Src, s: Cur)
    requires
        w.links(g, g2),
        s.pos <= w.stop,
    ensures
        w.whole(g, s, state_tail(g, s), state_tail(g2, w.moved(s))),
    decreases s.left(g), 12nat,
{
    at_start(w, g, g2, s);
    let o = w.moved(s);
    same_valued_tail(w, g, g2, s);
    let d = valued_tail(g, s);
    let d2 = valued_tail(g2, o);
    past_part(w, g, g2, s, o, d, d2, valued_tail(g2, w.moved(s)));
    past_delim(w, g, g2, s.after(d), o.after(d2), Delim::Semi);
}

pub(crate) proof fn same_actor_items(w: Window, g: Src, g2: Src, s: Cur, done: Seq<ActorItem>)
    requires
        w.links(g, g2),
        s.pos <= w.stop,
    ensures
        w.part(g, s, actor_items(g, s, done), actor_items(g2, w.moved(s), done)),
    decreases s.left(g), 0nat,
{
    at_start(w, g, g2, s);
    let o = w.moved(s);
    if s.err is Some {
    } else if s.at_delim(g, Delim::RBrace) {
    } else if s.at_kw(g, Keyword::State) {
        past_token(w, g, g2, s, o);
        same_state_tail(w, g, g2, s.skip());
        let d = state_tail(g, s.skip());
        let d2 = state_tail(g2, o.skip());
        past_whole(w, g, g2, s.skip(), o.skip(), d, d2, state_tail(g2, w.moved(s.skip())));
        same_actor_items(w, g, g2, s.skip().after(d), done.push(ActorItem::State(d.out())));
        past_part(
            w,
            g,
            g2,
            s.skip().after(d),
            o.skip().after(d2),
            actor_items(g, s.skip().after(d), done.push(ActorItem::State(d.out()))),
            actor_items(g2, o.skip().after(d2), done.push(ActorItem::State(d2.out()))),
            actor_items(g2, w.moved(s.skip().after(d)), done.push(ActorItem::State(d.out()))),
        );
    } else if s.at_kw(g, Keyword::On) {
        past_token(w, g, g2, s, o);
        same_on_handler(w, g, g2, s.skip());
        let h = on_handler(g, s.skip());
        let h2 = on_handler(g2, o.skip());
        past_whole(w, g, g2, s.skip(), o.skip(), h, h2, on_handler(g2, w.moved(s.skip())));
        same_actor_items(w, g, g2, s.skip().after(h), done.push(ActorItem::On(h.out())));
        past_part(
            w,
            g,
            g2,
            s.skip().after(h),
            o.skip().after(h2),
            actor_items(g, s.skip().after(h), done.push(ActorItem::On(h.out()))),
            actor_items(g2, o.skip().after(h2), done.push(ActorItem::On(h2.out()))),
            actor_items(g2, w.moved(s.skip().after(h)), done.push(ActorItem::On(h.out()))),
        );
    } else {
        past_fail(w, g, g2, s, o, "expected `state` or `on` inside actor block"@);
    }
}

pub(crate) proof fn same_ui_tail(w: Window, g: Src, g2: Src, s: Cur)
    requires
        w.links(g, g2),
        s.pos <= w.stop,
    ensures
        w.whole(g, s, ui_tail(g, s), ui_tail(g2, w.moved(s))),
    decreases s.left(g), 6nat,
{
    at_start(w, g, g2, s);
    let o = w.moved(s);
    same_word(w, g, g2, s);
    let name = word(g, s);
    let name2 = word(g2, o);
    past_part(w, g, g2, s, o, name, name2, word(g2, w.moved(s)));
    past_delim(w, g, g2, s.after(name), o.after(name2), Delim::LBrace);
    let s1 = s.after(name).delim(g, Delim::LBrace);
    let o1 = o.after(name2).delim(g2, Delim::LBrace);
    same_ui_items(w, g, g2, s1, seq![]);
    let items = ui_items(g, s1, seq![]);
    let items2 = ui_items(g2, o1, seq![]);
    past_part(w, g, g2, s1, o1, items, items2, ui_items(g2, w.moved(s1), seq![]));
    past_delim(w, g, g2, s1.after(items), o1.after(items2), Delim::RBrace);
}

pub(crate) proof fn same_prop_tail(w: Window, g: Src, g2: Src, s: Cur)
    requires
        w.links(g, g2),
        s.pos <= w.stop,
    ensures
        w.whole(g, s, prop_tail(g, s), prop_tail(g2, w.moved(s))),
    decreases s.left(g), 4nat,
{
    at_start(w, g, g2, s);
    let o = w.moved(s);
    same_word(w, g, g2, s);
    let name = word(g, s);
    let name2 = word(g2, o);
    past_part(w, g, g2, s, o, name, name2, word(g2, w.moved(s)));
    past_delim(w, g, g2, s.after(name), o.after(name2), Delim::Colon);
    let s1 = s.after(name).delim(g, Delim::Colon);
    let o1 = o.after(name2).delim(g2, Delim::Colon);
    same_type_of(w, g, g2, s1);
    let ty = type_of(g, s1);
    let ty2 = type_of(g2, o1);
    past_part(w, g, g2, s1, o1, ty, ty2, type_of(g2, w.moved(s1)));
    past_delim(w, g, g2, s1.after(ty), o1.after(ty2), Delim::Semi);
}

pub(crate) proof fn same_ui_items(w: Window, g: Src, g2: Src, s: Cur, done: Seq<UiItem>)
    requires
        w.links(g, g2),
        s.pos <= w.stop,
    ensures
        w.part(g, s, ui_items(g, s, done), ui_items(g2, w.moved(s), done)),
    decreases s.left(g), 4nat,
{
    at_start(w, g, g2, s);
    let o = w.moved(s);
    if s.err is Some {
    } else if s.at_delim(g, Delim::RBrace) {
    } else {
        same_ui_item(w, g, g2, s);
        let i = ui_item(g, s);
        let i2 = ui_item(g2, o);
        past_whole(w, g, g2, s, o, i, i2, ui_item(g2, w.moved(s)));
        let s1 = s.after(i);
        let o1 = o.after(i2);
        if s.moved(g, s1) {
            same_ui_items(w, g, g2, s1, done.push(i.out()));
            past_part(
                w,
                g,
                g2,
                s1,
                o1,
                ui_items(g, s1, done.push(i.out())),
                ui_items(g2, o1, done.push(i2.out())),
                ui_items(g2, w.moved(s1), done.push(i.out())),
            );
        }
    }
}

pub(crate) proof fn same_ui_item(w: Window, g: Src, g2: Src, s: Cur)
    requires
        w.links(g, g2),
        s.pos <= w.stop,
    ensures
        w.whole(g, s, ui_item(g, s), ui_item(g2, w.moved(s))),
    decreases s.left(g), 2nat,
{
    at_start(w, g, g2, s);
    let o = w.moved(s);
    if s.err is Some {
    } else if s.at_kw(g, Keyword::State) {
        past_token(w, g, g2, s, o);
        same_state_tail(w, g, g2, s.skip());
        let d = state_tail(g, s.skip());
        let d2 = state_tail(g2, o.skip());
        past_whole(w, g, g2, s.skip(), o.skip(), d, d2, state_tail(g2, w.moved(s.skip())));
    } else if s.at_kw(g, Keyword::Prop) {
        past_token(w, g, g2, s, o);
        same_prop_tail(w, g, g2, s.skip());
        let d = prop_tail(g, s.skip());
        let d2 = prop_tail(g2, o.skip());
        past_whole(w, g, g2, s.skip(), o.skip(), d, d2, prop_tail(g2, w.moved(s.skip())));
    } else if s.at_kw(g, Keyword::Render) {
        past_token(w, g, g2, s, o);
        same_block(w, g, g2, s.skip());
        let b = block(g, s.skip());
        let b2 = block(g2, o.skip());
        past_whole(w, g, g2, s.skip(), o.skip(), b, b2, block(g2, w.moved(s.skip())));
    } else if s.at_kw(g, Keyword::Mount) {
        past_token(w, g, g2, s, o);
        same_block(w, g, g2, s.skip());
        let b = block(g, s.skip());
        let b2 = block(g2, o.skip());
        past_whole(w, g, g2, s.skip(), o.skip(), b, b2, block(g2, w.moved(s.skip())));
    } else if s.at_kw(g, Keyword::Unmount) {
        past_token(w, g, g2, s, o);
        same_block(w, g, g2, s.skip());
        let b = block(g, s.skip());
        let b2 = block(g2, o.skip());
        past_whole(w, g, g2, s.skip(), o.skip(), b, b2, block(g2, w.moved(s.skip())));
    } else if s.at_kw(g, Keyword::Async) || s.at_kw(g, Keyword::Fn) {
        same_fn_decl(w, g, g2, s);
        let d = fn_decl(g, s);
        let d2 = fn_decl(g2, o);
        past_whole(w, g, g2, s, o, d, d2, fn_decl(g2, w.moved(s)));
    } else {
        past_fail(
            w,
            g,
            g2,
            s,
            o,
            "expected state/prop/render/mount/unmount/fn inside ui/component block, found "@ + g.kind(s.pos).shown(
            ),
        );
    }
}

} // verus!
