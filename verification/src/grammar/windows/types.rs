//! What the rules for names, types and patterns read.
use crate::grammar::cursor::{ident, path_name, segments, word, Cur, Src};
use crate::grammar::exprs::expr;
use crate::grammar::items::param;
use crate::grammar::types::{
    array_pattern, array_pattern_tail, array_type, dyn_type, fn_type, generic_arg, generic_args,
    generic_param, generic_param_list, generic_params, is_pattern_literal, is_primitive, literal,
    literal_of, more_alternatives, more_generic_args, more_patterns, more_trait_bounds, more_types,
    named_type, option_type, paren_type, path_pattern, pattern, pattern_list, pattern_single,
    ref_type, result_type, trait_bound, trait_bounds, type_list, type_of, type_ref, where_bounds,
    where_clause,
};
use crate::grammar::windows::{
    at_start, past_advance, past_delim, past_fail, past_op, past_part, past_token, Window,
};
use crate::grammar::windows::exprs::same_expr;
use crate::token::{Delim, Keyword, Op};
use crate::tree::{GenericParam, Pattern, TraitBound, Type, WhereBound};
use vstd::prelude::*;

verus! {

pub(crate) proof fn same_word(w: Window, g: Src, g2: Src, s: Cur)
    requires
        w.links(g, g2),
        s.pos <= w.stop,
    ensures
        w.part(g, s, word(g, s), word(g2, w.moved(s))),
        s.err is None && word(g, s).res is Ok ==> word(g, s).end > s.pos,
        w.sees(g, s) || (s.err is None && s.pos < w.n)
            ==> word(g2, w.moved(s)) == w.moved_step(word(g, s)),
{
    reveal(Window::links);
}

pub(crate) proof fn same_ident(w: Window, g: Src, g2: Src, s: Cur)
    requires
        w.links(g, g2),
        s.pos <= w.stop,
    ensures
        w.part(g, s, ident(g, s), ident(g2, w.moved(s))),
        s.err is None && ident(g, s).res is Ok ==> ident(g, s).end > s.pos,
        w.sees(g, s) || (s.err is None && s.pos < w.n)
            ==> ident(g2, w.moved(s)) == w.moved_step(ident(g, s)),
{
    reveal(Window::links);
}

pub(crate) proof fn same_segments(w: Window, g: Src, g2: Src, s: Cur, done: Seq<Seq<char>>)
    requires
        w.links(g, g2),
        s.pos <= w.stop,
    ensures
        w.part(g, s, segments(g, s, done), segments(g2, w.moved(s), done)),
    decreases s.left(g),
{
    reveal(Window::links);
    at_start(w, g, g2, s);
    let o = w.moved(s);
    if s.at_op(g, Op::ColonColon) && !s.skip().at_op(g, Op::Lt) {
        past_token(w, g, g2, s, o);
        same_word(w, g, g2, s.skip());
        let name = word(g, s.skip());
        let name2 = word(g2, o.skip());
        past_part(w, g, g2, s.skip(), o.skip(), name, name2, word(g2, w.moved(s.skip())));
        same_segments(w, g, g2, s.skip().after(name), done.push(name.out()));
        past_part(
            w,
            g,
            g2,
            s.skip().after(name),
            o.skip().after(name2),
            segments(g, s.skip().after(name), done.push(name.out())),
            segments(g2, o.skip().after(name2), done.push(name2.out())),
            segments(g2, w.moved(s.skip().after(name)), done.push(name.out())),
        );
    }
}

pub(crate) proof fn same_path_name(w: Window, g: Src, g2: Src, s: Cur)
    requires
        w.links(g, g2),
        s.pos <= w.stop,
    ensures
        w.part(g, s, path_name(g, s), path_name(g2, w.moved(s))),
{
    at_start(w, g, g2, s);
    let o = w.moved(s);
    same_word(w, g, g2, s);
    let first = word(g, s);
    let first2 = word(g2, o);
    past_part(w, g, g2, s, o, first, first2, word(g2, w.moved(s)));
    let s1 = s.after(first);
    let o1 = o.after(first2);
    same_segments(w, g, g2, s1, seq![first.out()]);
    let rest = segments(g, s1, seq![first.out()]);
    let rest2 = segments(g2, o1, seq![first2.out()]);
    past_part(w, g, g2, s1, o1, rest, rest2, segments(g2, w.moved(s1), seq![first.out()]));
}

pub(crate) proof fn same_literal(w: Window, g: Src, g2: Src, s: Cur)
    requires
        w.links(g, g2),
        s.pos <= w.stop,
    ensures
        w.part(g, s, literal(g, s), literal(g2, w.moved(s))),
        s.err is None && literal(g, s).res is Ok ==> literal(g, s).end > s.pos,
{
    at_start(w, g, g2, s);
    let o = w.moved(s);
    if s.err is Some {
    } else {
        past_advance(w, g, g2, s, o);
        let s1 = s.advance(g);
        let o1 = o.advance(g2);
        match literal_of(g.kind(s.pos)) {
            Some(x) => {},
            None => {
                past_fail(w, g, g2, s1, o1, "expected literal, found "@ + g.kind(s.pos).shown());
            },
        }
    }
}

pub(crate) proof fn same_type_of(w: Window, g: Src, g2: Src, s: Cur)
    requires
        w.links(g, g2),
        s.pos <= w.stop,
    ensures
        w.part(g, s, type_of(g, s), type_of(g2, w.moved(s))),
    decreases s.left(g), 2nat,
{
    at_start(w, g, g2, s);
    let o = w.moved(s);
    if s.err is Some {
    } else if s.at_delim(g, Delim::LParen) {
        past_token(w, g, g2, s, o);
        same_paren_type(w, g, g2, s.skip());
        past_part(
            w,
            g,
            g2,
            s.skip(),
            o.skip(),
            paren_type(g, s.skip()),
            paren_type(g2, o.skip()),
            paren_type(g2, w.moved(s.skip())),
        );
    } else if s.at_op(g, Op::Not) {
        past_token(w, g, g2, s, o);
    } else if s.at_delim(g, Delim::LBracket) {
        past_token(w, g, g2, s, o);
        same_array_type(w, g, g2, s.skip());
        past_part(
            w,
            g,
            g2,
            s.skip(),
            o.skip(),
            array_type(g, s.skip()),
            array_type(g2, o.skip()),
            array_type(g2, w.moved(s.skip())),
        );
    } else if s.at_op(g, Op::Amp) || s.at_kw(g, Keyword::Borrow) {
        past_token(w, g, g2, s, o);
        same_ref_type(w, g, g2, s.skip());
        past_part(
            w,
            g,
            g2,
            s.skip(),
            o.skip(),
            ref_type(g, s.skip()),
            ref_type(g2, o.skip()),
            ref_type(g2, w.moved(s.skip())),
        );
    } else if s.at_kw(g, Keyword::Dyn) {
        past_token(w, g, g2, s, o);
        same_dyn_type(w, g, g2, s.skip());
        past_part(
            w,
            g,
            g2,
            s.skip(),
            o.skip(),
            dyn_type(g, s.skip()),
            dyn_type(g2, o.skip()),
            dyn_type(g2, w.moved(s.skip())),
        );
    } else if s.at_kw(g, Keyword::Fn) {
        past_token(w, g, g2, s, o);
        same_fn_type(w, g, g2, s.skip());
        past_part(
            w,
            g,
            g2,
            s.skip(),
            o.skip(),
            fn_type(g, s.skip()),
            fn_type(g2, o.skip()),
            fn_type(g2, w.moved(s.skip())),
        );
    } else if s.at_kw(g, Keyword::Option) {
        past_token(w, g, g2, s, o);
        same_option_type(w, g, g2, s.skip());
        past_part(
            w,
            g,
            g2,
            s.skip(),
            o.skip(),
            option_type(g, s.skip()),
            option_type(g2, o.skip()),
            option_type(g2, w.moved(s.skip())),
        );
    } else if s.at_kw(g, Keyword::Result) {
        past_token(w, g, g2, s, o);
        same_result_type(w, g, g2, s.skip());
        past_part(
            w,
            g,
            g2,
            s.skip(),
            o.skip(),
            result_type(g, s.skip()),
            result_type(g2, o.skip()),
            result_type(g2, w.moved(s.skip())),
        );
    } else {
        same_named_type(w, g, g2, s);
        past_part(w, g, g2, s, o, named_type(g, s), named_type(g2, o), named_type(g2, w.moved(s)));
    }
}

pub(crate) proof fn same_paren_type(w: Window, g: Src, g2: Src, s: Cur)
    requires
        w.links(g, g2),
        s.pos <= w.stop,
    ensures
        w.part(g, s, paren_type(g, s), paren_type(g2, w.moved(s))),
    decreases s.left(g), 4nat,
{
    at_start(w, g, g2, s);
    let o = w.moved(s);
    if s.at_delim(g, Delim::RParen) {
        past_token(w, g, g2, s, o);
    } else {
        same_type_of(w, g, g2, s);
        let first = type_of(g, s);
        let first2 = type_of(g2, o);
        past_part(w, g, g2, s, o, first, first2, type_of(g2, w.moved(s)));
        let s1 = s.after(first);
        let o1 = o.after(first2);
        same_more_types(w, g, g2, s1, Delim::RParen, seq![first.out()]);
        let all = more_types(g, s1, Delim::RParen, seq![first.out()]);
        let all2 = more_types(g2, o1, Delim::RParen, seq![first2.out()]);
        past_part(
            w,
            g,
            g2,
            s1,
            o1,
            all,
            all2,
            more_types(g2, w.moved(s1), Delim::RParen, seq![first.out()]),
        );
        past_delim(w, g, g2, s1.after(all), o1.after(all2), Delim::RParen);
    }
}

pub(crate) proof fn same_type_list(w: Window, g: Src, g2: Src, s: Cur, close: Delim)
    requires
        w.links(g, g2),
        s.pos <= w.stop,
    ensures
        w.part(g, s, type_list(g, s, close), type_list(g2, w.moved(s), close)),
    decreases s.left(g), 4nat,
{
    at_start(w, g, g2, s);
    let o = w.moved(s);
    if s.at_delim(g, close) {
    } else {
        same_type_of(w, g, g2, s);
        let first = type_of(g, s);
        let first2 = type_of(g2, o);
        past_part(w, g, g2, s, o, first, first2, type_of(g2, w.moved(s)));
        same_more_types(w, g, g2, s.after(first), close, seq![first.out()]);
        past_part(
            w,
            g,
            g2,
            s.after(first),
            o.after(first2),
            more_types(g, s.after(first), close, seq![first.out()]),
            more_types(g2, o.after(first2), close, seq![first2.out()]),
            more_types(g2, w.moved(s.after(first)), close, seq![first.out()]),
        );
    }
}

pub(crate) proof fn same_more_types(
    w: Window,
    g: Src,
    g2: Src,
    s: Cur,
    close: Delim,
    done: Seq<Type>,
)
    requires
        w.links(g, g2),
        s.pos <= w.stop,
    ensures
        w.part(g, s, more_types(g, s, close, done), more_types(g2, w.moved(s), close, done)),
    decreases s.left(g), 0nat,
{
    at_start(w, g, g2, s);
    let o = w.moved(s);
    if !s.at_delim(g, Delim::Comma) {
    } else if s.skip().at_delim(g, close) {
        past_token(w, g, g2, s, o);
    } else {
        past_token(w, g, g2, s, o);
        same_type_of(w, g, g2, s.skip());
        let next = type_of(g, s.skip());
        let next2 = type_of(g2, o.skip());
        past_part(w, g, g2, s.skip(), o.skip(), next, next2, type_of(g2, w.moved(s.skip())));
        same_more_types(w, g, g2, s.skip().after(next), close, done.push(next.out()));
        past_part(
            w,
            g,
            g2,
            s.skip().after(next),
            o.skip().after(next2),
            more_types(g, s.skip().after(next), close, done.push(next.out())),
            more_types(g2, o.skip().after(next2), close, done.push(next2.out())),
            more_types(g2, w.moved(s.skip().after(next)), close, done.push(next.out())),
        );
    }
}

pub(crate) proof fn same_array_type(w: Window, g: Src, g2: Src, s: Cur)
    requires
        w.links(g, g2),
        s.pos <= w.stop,
    ensures
        w.part(g, s, array_type(g, s), array_type(g2, w.moved(s))),
    decreases s.left(g), 4nat,
{
    at_start(w, g, g2, s);
    let o = w.moved(s);
    same_type_of(w, g, g2, s);
    let elem = type_of(g, s);
    let elem2 = type_of(g2, o);
    past_part(w, g, g2, s, o, elem, elem2, type_of(g2, w.moved(s)));
    let s1 = s.after(elem);
    let o1 = o.after(elem2);
    if s1.at_delim(g, Delim::Semi) {
        past_token(w, g, g2, s1, o1);
        same_expr(w, g, g2, s1.skip(), 0);
        let size = expr(g, s1.skip(), 0);
        let size2 = expr(g2, o1.skip(), 0);
        past_part(w, g, g2, s1.skip(), o1.skip(), size, size2, expr(g2, w.moved(s1.skip()), 0));
        past_delim(w, g, g2, s1.skip().after(size), o1.skip().after(size2), Delim::RBracket);
    } else {
        past_delim(w, g, g2, s1, o1, Delim::RBracket);
    }
}

pub(crate) proof fn same_ref_type(w: Window, g: Src, g2: Src, s: Cur)
    requires
        w.links(g, g2),
        s.pos <= w.stop,
    ensures
        w.part(g, s, ref_type(g, s), ref_type(g2, w.moved(s))),
    decreases s.left(g), 4nat,
{
    at_start(w, g, g2, s);
    let o = w.moved(s);
    let mutable = s.at_kw(g, Keyword::Mut);
    let mutable2 = o.at_kw(g2, Keyword::Mut);
    if mutable {
        past_token(w, g, g2, s, o);
    }
    let s1 = if mutable { s.skip() } else { s };
    let o1 = if mutable2 { o.skip() } else { o };
    same_type_of(w, g, g2, s1);
    let inner = type_of(g, s1);
    let inner2 = type_of(g2, o1);
    past_part(w, g, g2, s1, o1, inner, inner2, type_of(g2, w.moved(s1)));
}

pub(crate) proof fn same_dyn_type(w: Window, g: Src, g2: Src, s: Cur)
    requires
        w.links(g, g2),
        s.pos <= w.stop,
    ensures
        w.part(g, s, dyn_type(g, s), dyn_type(g2, w.moved(s))),
    decreases s.left(g), 4nat,
{
    at_start(w, g, g2, s);
    let o = w.moved(s);
    same_word(w, g, g2, s);
    let name = word(g, s);
    let name2 = word(g2, o);
    past_part(w, g, g2, s, o, name, name2, word(g2, w.moved(s)));
    let s1 = s.after(name);
    let o1 = o.after(name2);
    same_generic_args(w, g, g2, s1);
    let args = generic_args(g, s1);
    let args2 = generic_args(g2, o1);
    past_part(w, g, g2, s1, o1, args, args2, generic_args(g2, w.moved(s1)));
}

pub(crate) proof fn same_fn_type(w: Window, g: Src, g2: Src, s: Cur)
    requires
        w.links(g, g2),
        s.pos <= w.stop,
    ensures
        w.part(g, s, fn_type(g, s), fn_type(g2, w.moved(s))),
    decreases s.left(g), 4nat,
{
    at_start(w, g, g2, s);
    let o = w.moved(s);
    if s.err is Some {
    } else {
        past_delim(w, g, g2, s, o, Delim::LParen);
        let s1 = s.delim(g, Delim::LParen);
        let o1 = o.delim(g2, Delim::LParen);
        same_type_list(w, g, g2, s1, Delim::RParen);
        let params = type_list(g, s1, Delim::RParen);
        let params2 = type_list(g2, o1, Delim::RParen);
        past_part(w, g, g2, s1, o1, params, params2, type_list(g2, w.moved(s1), Delim::RParen));
        past_delim(w, g, g2, s1.after(params), o1.after(params2), Delim::RParen);
        past_op(
            w,
            g,
            g2,
            s1.after(params).delim(g, Delim::RParen),
            o1.after(params2).delim(g2, Delim::RParen),
            Op::Arrow,
        );
        let s2 = s1.after(params).delim(g, Delim::RParen).op(g, Op::Arrow);
        let o2 = o1.after(params2).delim(g2, Delim::RParen).op(g2, Op::Arrow);
        same_type_of(w, g, g2, s2);
        let ret = type_of(g, s2);
        let ret2 = type_of(g2, o2);
        past_part(w, g, g2, s2, o2, ret, ret2, type_of(g2, w.moved(s2)));
    }
}

pub(crate) proof fn same_option_type(w: Window, g: Src, g2: Src, s: Cur)
    requires
        w.links(g, g2),
        s.pos <= w.stop,
    ensures
        w.part(g, s, option_type(g, s), option_type(g2, w.moved(s))),
    decreases s.left(g), 4nat,
{
    at_start(w, g, g2, s);
    let o = w.moved(s);
    if s.err is Some {
    } else {
        past_op(w, g, g2, s, o, Op::Lt);
        let s1 = s.op(g, Op::Lt);
        let o1 = o.op(g2, Op::Lt);
        same_type_of(w, g, g2, s1);
        let inner = type_of(g, s1);
        let inner2 = type_of(g2, o1);
        past_part(w, g, g2, s1, o1, inner, inner2, type_of(g2, w.moved(s1)));
        past_op(w, g, g2, s1.after(inner), o1.after(inner2), Op::Gt);
    }
}

pub(crate) proof fn same_result_type(w: Window, g: Src, g2: Src, s: Cur)
    requires
        w.links(g, g2),
        s.pos <= w.stop,
    ensures
        w.part(g, s, result_type(g, s), result_type(g2, w.moved(s))),
    decreases s.left(g), 4nat,
{
    at_start(w, g, g2, s);
    let o = w.moved(s);
    if s.err is Some {
    } else {
        past_op(w, g, g2, s, o, Op::Lt);
        let s1 = s.op(g, Op::Lt);
        let o1 = o.op(g2, Op::Lt);
        same_type_of(w, g, g2, s1);
        let good = type_of(g, s1);
        let good2 = type_of(g2, o1);
        past_part(w, g, g2, s1, o1, good, good2, type_of(g2, w.moved(s1)));
        past_delim(w, g, g2, s1.after(good), o1.after(good2), Delim::Comma);
        let s2 = s1.after(good).delim(g, Delim::Comma);
        let o2 = o1.after(good2).delim(g2, Delim::Comma);
        same_type_of(w, g, g2, s2);
        let bad = type_of(g, s2);
        let bad2 = type_of(g2, o2);
        past_part(w, g, g2, s2, o2, bad, bad2, type_of(g2, w.moved(s2)));
        past_op(w, g, g2, s2.after(bad), o2.after(bad2), Op::Gt);
    }
}

pub(crate) proof fn same_named_type(w: Window, g: Src, g2: Src, s: Cur)
    requires
        w.links(g, g2),
        s.pos <= w.stop,
    ensures
        w.part(g, s, named_type(g, s), named_type(g2, w.moved(s))),
    decreases s.left(g), 1nat,
{
    at_start(w, g, g2, s);
    let o = w.moved(s);
    if s.err is Some {
    } else {
        same_path_name(w, g, g2, s);
        let name = path_name(g, s);
        let name2 = path_name(g2, o);
        past_part(w, g, g2, s, o, name, name2, path_name(g2, w.moved(s)));
        let s1 = s.after(name);
        let o1 = o.after(name2);
        if s1.err is Some {
        } else if is_primitive(name.out()) {
        } else {
            same_generic_args(w, g, g2, s1);
            let args = generic_args(g, s1);
            let args2 = generic_args(g2, o1);
            past_part(w, g, g2, s1, o1, args, args2, generic_args(g2, w.moved(s1)));
        }
    }
}

pub(crate) proof fn same_generic_args(w: Window, g: Src, g2: Src, s: Cur)
    requires
        w.links(g, g2),
        s.pos <= w.stop,
    ensures
        w.part(g, s, generic_args(g, s), generic_args(g2, w.moved(s))),
    decreases s.left(g), 0nat,
{
    at_start(w, g, g2, s);
    let o = w.moved(s);
    if !s.at_op(g, Op::Lt) {
    } else if s.skip().at_op(g, Op::Gt) {
        past_token(w, g, g2, s, o);
        past_token(w, g, g2, s.skip(), o.skip());
    } else {
        past_token(w, g, g2, s, o);
        let s1 = s.skip();
        let o1 = o.skip();
        same_generic_arg(w, g, g2, s1);
        let first = generic_arg(g, s1);
        let first2 = generic_arg(g2, o1);
        past_part(w, g, g2, s1, o1, first, first2, generic_arg(g2, w.moved(s1)));
        let s2 = s1.after(first);
        let o2 = o1.after(first2);
        same_more_generic_args(w, g, g2, s2, seq![first.out()]);
        let all = more_generic_args(g, s2, seq![first.out()]);
        let all2 = more_generic_args(g2, o2, seq![first2.out()]);
        past_part(
            w,
            g,
            g2,
            s2,
            o2,
            all,
            all2,
            more_generic_args(g2, w.moved(s2), seq![first.out()]),
        );
        past_op(w, g, g2, s2.after(all), o2.after(all2), Op::Gt);
    }
}

pub(crate) proof fn same_more_generic_args(w: Window, g: Src, g2: Src, s: Cur, done: Seq<Type>)
    requires
        w.links(g, g2),
        s.pos <= w.stop,
    ensures
        w.part(g, s, more_generic_args(g, s, done), more_generic_args(g2, w.moved(s), done)),
    decreases s.left(g), 0nat,
{
    at_start(w, g, g2, s);
    let o = w.moved(s);
    if !s.at_delim(g, Delim::Comma) {
    } else {
        past_token(w, g, g2, s, o);
        same_generic_arg(w, g, g2, s.skip());
        let next = generic_arg(g, s.skip());
        let next2 = generic_arg(g2, o.skip());
        past_part(w, g, g2, s.skip(), o.skip(), next, next2, generic_arg(g2, w.moved(s.skip())));
        same_more_generic_args(w, g, g2, s.skip().after(next), done.push(next.out()));
        past_part(
            w,
            g,
            g2,
            s.skip().after(next),
            o.skip().after(next2),
            more_generic_args(g, s.skip().after(next), done.push(next.out())),
            more_generic_args(g2, o.skip().after(next2), done.push(next2.out())),
            more_generic_args(g2, w.moved(s.skip().after(next)), done.push(next.out())),
        );
    }
}

pub(crate) proof fn same_generic_arg(w: Window, g: Src, g2: Src, s: Cur)
    requires
        w.links(g, g2),
        s.pos <= w.stop,
    ensures
        w.part(g, s, generic_arg(g, s), generic_arg(g2, w.moved(s))),
    decreases s.left(g), 4nat,
{
    at_start(w, g, g2, s);
    let o = w.moved(s);
    if s.err is None && literal_of(g.kind(s.pos)) is Some {
        same_literal(w, g, g2, s);
        let value = literal(g, s);
        let value2 = literal(g2, o);
        past_part(w, g, g2, s, o, value, value2, literal(g2, w.moved(s)));
    } else {
        same_type_of(w, g, g2, s);
        past_part(w, g, g2, s, o, type_of(g, s), type_of(g2, o), type_of(g2, w.moved(s)));
    }
}

pub(crate) proof fn same_trait_bound(w: Window, g: Src, g2: Src, s: Cur)
    requires
        w.links(g, g2),
        s.pos <= w.stop,
    ensures
        w.part(g, s, trait_bound(g, s), trait_bound(g2, w.moved(s))),
    decreases s.left(g), 4nat,
{
    at_start(w, g, g2, s);
    let o = w.moved(s);
    same_word(w, g, g2, s);
    let name = word(g, s);
    let name2 = word(g2, o);
    past_part(w, g, g2, s, o, name, name2, word(g2, w.moved(s)));
    let s1 = s.after(name);
    let o1 = o.after(name2);
    same_generic_args(w, g, g2, s1);
    let args = generic_args(g, s1);
    let args2 = generic_args(g2, o1);
    past_part(w, g, g2, s1, o1, args, args2, generic_args(g2, w.moved(s1)));
}

pub(crate) proof fn same_type_ref(w: Window, g: Src, g2: Src, s: Cur)
    requires
        w.links(g, g2),
        s.pos <= w.stop,
    ensures
        w.part(g, s, type_ref(g, s), type_ref(g2, w.moved(s))),
    decreases s.left(g), 4nat,
{
    at_start(w, g, g2, s);
    let o = w.moved(s);
    same_word(w, g, g2, s);
    let name = word(g, s);
    let name2 = word(g2, o);
    past_part(w, g, g2, s, o, name, name2, word(g2, w.moved(s)));
    let s1 = s.after(name);
    let o1 = o.after(name2);
    same_generic_args(w, g, g2, s1);
    let args = generic_args(g, s1);
    let args2 = generic_args(g2, o1);
    past_part(w, g, g2, s1, o1, args, args2, generic_args(g2, w.moved(s1)));
}

pub(crate) proof fn same_trait_bounds(w: Window, g: Src, g2: Src, s: Cur)
    requires
        w.links(g, g2),
        s.pos <= w.stop,
    ensures
        w.part(g, s, trait_bounds(g, s), trait_bounds(g2, w.moved(s))),
    decreases s.left(g), 6nat,
{
    at_start(w, g, g2, s);
    let o = w.moved(s);
    same_trait_bound(w, g, g2, s);
    let first = trait_bound(g, s);
    let first2 = trait_bound(g2, o);
    past_part(w, g, g2, s, o, first, first2, trait_bound(g2, w.moved(s)));
    same_more_trait_bounds(w, g, g2, s.after(first), seq![first.out()]);
    past_part(
        w,
        g,
        g2,
        s.after(first),
        o.after(first2),
        more_trait_bounds(g, s.after(first), seq![first.out()]),
        more_trait_bounds(g2, o.after(first2), seq![first2.out()]),
        more_trait_bounds(g2, w.moved(s.after(first)), seq![first.out()]),
    );
}

pub(crate) proof fn same_more_trait_bounds(
    w: Window,
    g: Src,
    g2: Src,
    s: Cur,
    done: Seq<TraitBound>,
)
    requires
        w.links(g, g2),
        s.pos <= w.stop,
    ensures
        w.part(g, s, more_trait_bounds(g, s, done), more_trait_bounds(g2, w.moved(s), done)),
    decreases s.left(g), 0nat,
{
    at_start(w, g, g2, s);
    let o = w.moved(s);
    if !s.at_op(g, Op::Plus) {
    } else {
        past_token(w, g, g2, s, o);
        same_trait_bound(w, g, g2, s.skip());
        let next = trait_bound(g, s.skip());
        let next2 = trait_bound(g2, o.skip());
        past_part(w, g, g2, s.skip(), o.skip(), next, next2, trait_bound(g2, w.moved(s.skip())));
        same_more_trait_bounds(w, g, g2, s.skip().after(next), done.push(next.out()));
        past_part(
            w,
            g,
            g2,
            s.skip().after(next),
            o.skip().after(next2),
            more_trait_bounds(g, s.skip().after(next), done.push(next.out())),
            more_trait_bounds(g2, o.skip().after(next2), done.push(next2.out())),
            more_trait_bounds(g2, w.moved(s.skip().after(next)), done.push(next.out())),
        );
    }
}

pub(crate) proof fn same_generic_params(w: Window, g: Src, g2: Src, s: Cur)
    requires
        w.links(g, g2),
        s.pos <= w.stop,
    ensures
        w.part(g, s, generic_params(g, s), generic_params(g2, w.moved(s))),
    decreases s.left(g), 0nat,
{
    at_start(w, g, g2, s);
    let o = w.moved(s);
    if !s.at_op(g, Op::Lt) {
    } else {
        past_token(w, g, g2, s, o);
        same_generic_param_list(w, g, g2, s.skip(), seq![]);
        let all = generic_param_list(g, s.skip(), seq![]);
        let all2 = generic_param_list(g2, o.skip(), seq![]);
        past_part(
            w,
            g,
            g2,
            s.skip(),
            o.skip(),
            all,
            all2,
            generic_param_list(g2, w.moved(s.skip()), seq![]),
        );
        past_op(w, g, g2, s.skip().after(all), o.skip().after(all2), Op::Gt);
    }
}

pub(crate) proof fn same_generic_param_list(
    w: Window,
    g: Src,
    g2: Src,
    s: Cur,
    done: Seq<GenericParam>,
)
    requires
        w.links(g, g2),
        s.pos <= w.stop,
    ensures
        w.part(g, s, generic_param_list(g, s, done), generic_param_list(g2, w.moved(s), done)),
    decreases s.left(g), 10nat,
{
    at_start(w, g, g2, s);
    let o = w.moved(s);
    if s.at_op(g, Op::Gt) {
    } else {
        same_generic_param(w, g, g2, s);
        let param = generic_param(g, s);
        let param2 = generic_param(g2, o);
        past_part(w, g, g2, s, o, param, param2, generic_param(g2, w.moved(s)));
        let s1 = s.after(param);
        let o1 = o.after(param2);
        let all = done.push(param.out());
        let all2 = done.push(param2.out());
        if s1.at_delim(g, Delim::Comma) {
            past_token(w, g, g2, s1, o1);
            same_generic_param_list(w, g, g2, s1.skip(), all);
            past_part(
                w,
                g,
                g2,
                s1.skip(),
                o1.skip(),
                generic_param_list(g, s1.skip(), all),
                generic_param_list(g2, o1.skip(), all2),
                generic_param_list(g2, w.moved(s1.skip()), all),
            );
        }
    }
}

pub(crate) proof fn same_generic_param(w: Window, g: Src, g2: Src, s: Cur)
    requires
        w.links(g, g2),
        s.pos <= w.stop,
    ensures
        w.part(g, s, generic_param(g, s), generic_param(g2, w.moved(s))),
    decreases s.left(g), 8nat,
{
    at_start(w, g, g2, s);
    let o = w.moved(s);
    if s.err is Some {
    } else if s.at_kw(g, Keyword::Const) {
        past_token(w, g, g2, s, o);
        same_word(w, g, g2, s.skip());
        let name = word(g, s.skip());
        let name2 = word(g2, o.skip());
        past_part(w, g, g2, s.skip(), o.skip(), name, name2, word(g2, w.moved(s.skip())));
        past_delim(w, g, g2, s.skip().after(name), o.skip().after(name2), Delim::Colon);
        let s1 = s.skip().after(name).delim(g, Delim::Colon);
        let o1 = o.skip().after(name2).delim(g2, Delim::Colon);
        same_type_of(w, g, g2, s1);
        let ty = type_of(g, s1);
        let ty2 = type_of(g2, o1);
        past_part(w, g, g2, s1, o1, ty, ty2, type_of(g2, w.moved(s1)));
    } else {
        same_word(w, g, g2, s);
        let name = word(g, s);
        let name2 = word(g2, o);
        past_part(w, g, g2, s, o, name, name2, word(g2, w.moved(s)));
        let s1 = s.after(name);
        let o1 = o.after(name2);
        if s1.at_delim(g, Delim::Colon) {
            past_token(w, g, g2, s1, o1);
            same_trait_bounds(w, g, g2, s1.skip());
            let bounds = trait_bounds(g, s1.skip());
            let bounds2 = trait_bounds(g2, o1.skip());
            past_part(
                w,
                g,
                g2,
                s1.skip(),
                o1.skip(),
                bounds,
                bounds2,
                trait_bounds(g2, w.moved(s1.skip())),
            );
        }
    }
}

pub(crate) proof fn same_where_clause(w: Window, g: Src, g2: Src, s: Cur)
    requires
        w.links(g, g2),
        s.pos <= w.stop,
    ensures
        w.part(g, s, where_clause(g, s), where_clause(g2, w.moved(s))),
    decreases s.left(g), 0nat,
{
    at_start(w, g, g2, s);
    let o = w.moved(s);
    if s.at_kw(g, Keyword::Where) {
        past_token(w, g, g2, s, o);
        same_where_bounds(w, g, g2, s.skip(), seq![]);
        past_part(
            w,
            g,
            g2,
            s.skip(),
            o.skip(),
            where_bounds(g, s.skip(), seq![]),
            where_bounds(g2, o.skip(), seq![]),
            where_bounds(g2, w.moved(s.skip()), seq![]),
        );
    }
}

pub(crate) proof fn same_where_bounds(w: Window, g: Src, g2: Src, s: Cur, done: Seq<WhereBound>)
    requires
        w.links(g, g2),
        s.pos <= w.stop,
    ensures
        w.part(g, s, where_bounds(g, s, done), where_bounds(g2, w.moved(s), done)),
    decreases s.left(g), 0nat,
{
    at_start(w, g, g2, s);
    let o = w.moved(s);
    if s.err is Some {
    } else {
        same_word(w, g, g2, s);
        let name = word(g, s);
        let name2 = word(g2, o);
        past_part(w, g, g2, s, o, name, name2, word(g2, w.moved(s)));
        past_delim(w, g, g2, s.after(name), o.after(name2), Delim::Colon);
        let s1 = s.after(name).delim(g, Delim::Colon);
        let o1 = o.after(name2).delim(g2, Delim::Colon);
        same_trait_bounds(w, g, g2, s1);
        let bounds = trait_bounds(g, s1);
        let bounds2 = trait_bounds(g2, o1);
        past_part(w, g, g2, s1, o1, bounds, bounds2, trait_bounds(g2, w.moved(s1)));
        let s2 = s1.after(bounds);
        let o2 = o1.after(bounds2);
        let all = done.push(WhereBound { name: name.out(), bounds: bounds.out() });
        let all2 = done.push(WhereBound { name: name2.out(), bounds: bounds2.out() });
        if !s2.at_delim(g, Delim::Comma) {
        } else if s2.skip().at_delim(g, Delim::LBrace) {
            past_token(w, g, g2, s2, o2);
        } else {
            past_token(w, g, g2, s2, o2);
            same_where_bounds(w, g, g2, s2.skip(), all);
            past_part(
                w,
                g,
                g2,
                s2.skip(),
                o2.skip(),
                where_bounds(g, s2.skip(), all),
                where_bounds(g2, o2.skip(), all2),
                where_bounds(g2, w.moved(s2.skip()), all),
            );
        }
    }
}

pub(crate) proof fn same_pattern(w: Window, g: Src, g2: Src, s: Cur)
    requires
        w.links(g, g2),
        s.pos <= w.stop,
    ensures
        w.part(g, s, pattern(g, s), pattern(g2, w.moved(s))),
    decreases s.left(g), 4nat,
{
    at_start(w, g, g2, s);
    let o = w.moved(s);
    same_pattern_single(w, g, g2, s);
    let first = pattern_single(g, s);
    let first2 = pattern_single(g2, o);
    past_part(w, g, g2, s, o, first, first2, pattern_single(g2, w.moved(s)));
    let s1 = s.after(first);
    let o1 = o.after(first2);
    if s1.at_op(g, Op::Pipe) {
        same_more_alternatives(w, g, g2, s1, seq![first.out()]);
        let all = more_alternatives(g, s1, seq![first.out()]);
        let all2 = more_alternatives(g2, o1, seq![first2.out()]);
        past_part(
            w,
            g,
            g2,
            s1,
            o1,
            all,
            all2,
            more_alternatives(g2, w.moved(s1), seq![first.out()]),
        );
    }
}

pub(crate) proof fn same_more_alternatives(w: Window, g: Src, g2: Src, s: Cur, done: Seq<Pattern>)
    requires
        w.links(g, g2),
        s.pos <= w.stop,
    ensures
        w.part(g, s, more_alternatives(g, s, done), more_alternatives(g2, w.moved(s), done)),
    decreases s.left(g), 0nat,
{
    at_start(w, g, g2, s);
    let o = w.moved(s);
    if !s.at_op(g, Op::Pipe) {
    } else {
        past_token(w, g, g2, s, o);
        same_pattern_single(w, g, g2, s.skip());
        let next = pattern_single(g, s.skip());
        let next2 = pattern_single(g2, o.skip());
        past_part(w, g, g2, s.skip(), o.skip(), next, next2, pattern_single(g2, w.moved(s.skip())));
        same_more_alternatives(w, g, g2, s.skip().after(next), done.push(next.out()));
        past_part(
            w,
            g,
            g2,
            s.skip().after(next),
            o.skip().after(next2),
            more_alternatives(g, s.skip().after(next), done.push(next.out())),
            more_alternatives(g2, o.skip().after(next2), done.push(next2.out())),
            more_alternatives(g2, w.moved(s.skip().after(next)), done.push(next.out())),
        );
    }
}

pub(crate) proof fn same_pattern_single(w: Window, g: Src, g2: Src, s: Cur)
    requires
        w.links(g, g2),
        s.pos <= w.stop,
    ensures
        w.part(g, s, pattern_single(g, s), pattern_single(g2, w.moved(s))),
    decreases s.left(g), 2nat,
{
    at_start(w, g, g2, s);
    let o = w.moved(s);
    if s.err is Some {
    } else if s.at_name(g, "_"@) {
        past_token(w, g, g2, s, o);
    } else if s.at_kw(g, Keyword::Mut) {
        past_token(w, g, g2, s, o);
        same_word(w, g, g2, s.skip());
        let name = word(g, s.skip());
        let name2 = word(g2, o.skip());
        past_part(w, g, g2, s.skip(), o.skip(), name, name2, word(g2, w.moved(s.skip())));
    } else if s.at_delim(g, Delim::LParen) {
        past_token(w, g, g2, s, o);
        same_pattern_list(w, g, g2, s.skip());
        let parts = pattern_list(g, s.skip());
        let parts2 = pattern_list(g2, o.skip());
        past_part(w, g, g2, s.skip(), o.skip(), parts, parts2, pattern_list(g2, w.moved(s.skip())));
        past_delim(w, g, g2, s.skip().after(parts), o.skip().after(parts2), Delim::RParen);
    } else if s.at_delim(g, Delim::LBracket) {
        past_token(w, g, g2, s, o);
        same_array_pattern_tail(w, g, g2, s.skip());
        past_part(
            w,
            g,
            g2,
            s.skip(),
            o.skip(),
            array_pattern_tail(g, s.skip()),
            array_pattern_tail(g2, o.skip()),
            array_pattern_tail(g2, w.moved(s.skip())),
        );
    } else if is_pattern_literal(g.kind(s.pos)) {
        same_literal(w, g, g2, s);
        let value = literal(g, s);
        let value2 = literal(g2, o);
        past_part(w, g, g2, s, o, value, value2, literal(g2, w.moved(s)));
    } else {
        same_path_pattern(w, g, g2, s);
        past_part(
            w,
            g,
            g2,
            s,
            o,
            path_pattern(g, s),
            path_pattern(g2, o),
            path_pattern(g2, w.moved(s)),
        );
    }
}

pub(crate) proof fn same_path_pattern(w: Window, g: Src, g2: Src, s: Cur)
    requires
        w.links(g, g2),
        s.pos <= w.stop,
    ensures
        w.part(g, s, path_pattern(g, s), path_pattern(g2, w.moved(s))),
    decreases s.left(g), 0nat,
{
    at_start(w, g, g2, s);
    let o = w.moved(s);
    if s.err is Some {
    } else {
        same_path_name(w, g, g2, s);
        let name = path_name(g, s);
        let name2 = path_name(g2, o);
        past_part(w, g, g2, s, o, name, name2, path_name(g2, w.moved(s)));
        let s1 = s.after(name);
        let o1 = o.after(name2);
        if s1.at_delim(g, Delim::LParen) {
            past_token(w, g, g2, s1, o1);
            same_pattern_list(w, g, g2, s1.skip());
            let parts = pattern_list(g, s1.skip());
            let parts2 = pattern_list(g2, o1.skip());
            past_part(
                w,
                g,
                g2,
                s1.skip(),
                o1.skip(),
                parts,
                parts2,
                pattern_list(g2, w.moved(s1.skip())),
            );
            past_delim(w, g, g2, s1.skip().after(parts), o1.skip().after(parts2), Delim::RParen);
        }
    }
}

pub(crate) proof fn same_pattern_list(w: Window, g: Src, g2: Src, s: Cur)
    requires
        w.links(g, g2),
        s.pos <= w.stop,
    ensures
        w.part(g, s, pattern_list(g, s), pattern_list(g2, w.moved(s))),
    decreases s.left(g), 6nat,
{
    at_start(w, g, g2, s);
    let o = w.moved(s);
    if s.at_delim(g, Delim::RParen) {
    } else {
        same_pattern(w, g, g2, s);
        let first = pattern(g, s);
        let first2 = pattern(g2, o);
        past_part(w, g, g2, s, o, first, first2, pattern(g2, w.moved(s)));
        same_more_patterns(w, g, g2, s.after(first), seq![first.out()]);
        past_part(
            w,
            g,
            g2,
            s.after(first),
            o.after(first2),
            more_patterns(g, s.after(first), seq![first.out()]),
            more_patterns(g2, o.after(first2), seq![first2.out()]),
            more_patterns(g2, w.moved(s.after(first)), seq![first.out()]),
        );
    }
}

pub(crate) proof fn same_more_patterns(w: Window, g: Src, g2: Src, s: Cur, done: Seq<Pattern>)
    requires
        w.links(g, g2),
        s.pos <= w.stop,
    ensures
        w.part(g, s, more_patterns(g, s, done), more_patterns(g2, w.moved(s), done)),
    decreases s.left(g), 0nat,
{
    at_start(w, g, g2, s);
    let o = w.moved(s);
    if !s.at_delim(g, Delim::Comma) {
    } else if s.skip().at_delim(g, Delim::RParen) {
        past_token(w, g, g2, s, o);
    } else {
        past_token(w, g, g2, s, o);
        same_pattern(w, g, g2, s.skip());
        let next = pattern(g, s.skip());
        let next2 = pattern(g2, o.skip());
        past_part(w, g, g2, s.skip(), o.skip(), next, next2, pattern(g2, w.moved(s.skip())));
        same_more_patterns(w, g, g2, s.skip().after(next), done.push(next.out()));
        past_part(
            w,
            g,
            g2,
            s.skip().after(next),
            o.skip().after(next2),
            more_patterns(g, s.skip().after(next), done.push(next.out())),
            more_patterns(g2, o.skip().after(next2), done.push(next2.out())),
            more_patterns(g2, w.moved(s.skip().after(next)), done.push(next.out())),
        );
    }
}

pub(crate) proof fn same_array_pattern_tail(w: Window, g: Src, g2: Src, s: Cur)
    requires
        w.links(g, g2),
        s.pos <= w.stop,
    ensures
        w.part(g, s, array_pattern_tail(g, s), array_pattern_tail(g2, w.moved(s))),
    decreases s.left(g), 7nat,
{
    at_start(w, g, g2, s);
    let o = w.moved(s);
    same_array_pattern(w, g, g2, s, seq![]);
    let parts = array_pattern(g, s, seq![]);
    let parts2 = array_pattern(g2, o, seq![]);
    past_part(w, g, g2, s, o, parts, parts2, array_pattern(g2, w.moved(s), seq![]));
    past_delim(w, g, g2, s.after(parts), o.after(parts2), Delim::RBracket);
}

pub(crate) proof fn same_array_pattern(w: Window, g: Src, g2: Src, s: Cur, done: Seq<Pattern>)
    requires
        w.links(g, g2),
        s.pos <= w.stop,
    ensures
        w.part(g, s, array_pattern(g, s, done), array_pattern(g2, w.moved(s), done)),
    decreases s.left(g), 6nat,
{
    at_start(w, g, g2, s);
    let o = w.moved(s);
    if s.at_delim(g, Delim::RBracket) {
    } else if s.at_op(g, Op::DotDot) {
        if s.skip().at_ident(g) {
            past_token(w, g, g2, s, o);
            same_word(w, g, g2, s.skip());
            let name = word(g, s.skip());
            let name2 = word(g2, o.skip());
            past_part(w, g, g2, s.skip(), o.skip(), name, name2, word(g2, w.moved(s.skip())));
        } else {
            past_token(w, g, g2, s, o);
        }
    } else {
        same_pattern(w, g, g2, s);
        let next = pattern(g, s);
        let next2 = pattern(g2, o);
        past_part(w, g, g2, s, o, next, next2, pattern(g2, w.moved(s)));
        let s1 = s.after(next);
        let o1 = o.after(next2);
        let all = done.push(next.out());
        let all2 = done.push(next2.out());
        if s1.at_delim(g, Delim::Comma) {
            past_token(w, g, g2, s1, o1);
            same_array_pattern(w, g, g2, s1.skip(), all);
            past_part(
                w,
                g,
                g2,
                s1.skip(),
                o1.skip(),
                array_pattern(g, s1.skip(), all),
                array_pattern(g2, o1.skip(), all2),
                array_pattern(g2, w.moved(s1.skip()), all),
            );
        }
    }
}

} // verus!
