//! What the rules for expressions read.
use crate::ast::UnaryOp;
use crate::grammar::cursor::{segments, word, Cur, Src};
use crate::grammar::exprs::{
    arg, arg_list, args_tail, arm_body, arm_guard, children, closure, closure_params,
    closure_primary, closure_tail, component_tail, event_handler, expr, expr_list, if_tail,
    infix_at, infix_tail, is_word, join_infix, keyword_primary, loop_expr, loop_tail, match_arm,
    match_arms, match_tail, member, more_args, more_arm_patterns, more_exprs, no_chain,
    opt_return_type, opt_type, opt_value, paren_primary, path_primary, postfix, postfix_tail, power,
    prefix, primary, prop_list, props, query_clause, query_clauses, query_tail, return_tail,
    select_arms, select_tail, spawn_tail, starts_clause, starts_suffix, struct_fields,
    struct_lit_tail, suffix, try_tail, turbofish, unary,
};
use crate::grammar::stmts::block;
use crate::grammar::types::{generic_args, literal, literal_of, pattern, pattern_single, type_of};
use crate::grammar::windows::{
    ahead_agrees, at_start, kind_agrees, past_delim, past_fail, past_kw, past_op, past_part,
    past_token, past_whole, without_literals, Window,
};
use crate::grammar::windows::stmts::same_block;
use crate::grammar::windows::types::{
    same_generic_args, same_literal, same_pattern, same_pattern_single, same_segments, same_type_of,
    same_word,
};
use crate::text::joined;
use crate::token::{Delim, Keyword, Op, TokenKind};
use crate::tree::{Arg, Expr, MatchArm, Pattern, QueryClause, SelectArm, Type};
use vstd::prelude::*;

verus! {

pub(crate) proof fn same_expr(w: Window, g: Src, g2: Src, s: Cur, min: u8)
    requires
        w.links(g, g2),
        s.pos <= w.stop,
    ensures
        w.part(g, s, expr(g, s, min), expr(g2, w.moved(s), min)),
        s.err is None && expr(g, s, min).res is Ok ==> expr(g, s, min).end > s.pos,
    decreases s.left(g), 8nat,
{
    at_start(w, g, g2, s);
    let o = w.moved(s);
    same_prefix(w, g, g2, s);
    let first = prefix(g, s);
    let first2 = prefix(g2, o);
    past_part(w, g, g2, s, o, first, first2, prefix(g2, w.moved(s)));
    same_infix_tail(w, g, g2, s.after(first), min, None, first.out());
    past_part(
        w,
        g,
        g2,
        s.after(first),
        o.after(first2),
        infix_tail(g, s.after(first), min, None, first.out()),
        infix_tail(g2, o.after(first2), min, None, first2.out()),
        infix_tail(g2, w.moved(s.after(first)), min, None, first.out()),
    );
}

pub(crate) proof fn same_infix_tail(
    w: Window,
    g: Src,
    g2: Src,
    s: Cur,
    min: u8,
    last: Option<u8>,
    lhs: Expr,
)
    requires
        w.links(g, g2),
        s.pos <= w.stop,
    ensures
        w.part(g, s, infix_tail(g, s, min, last, lhs), infix_tail(g2, w.moved(s), min, last, lhs)),
    decreases s.left(g), 0nat,
{
    at_start(w, g, g2, s);
    let o = w.moved(s);
    if s.err is Some {
    } else if s.at_kw(g, Keyword::As) {
        past_token(w, g, g2, s, o);
        same_type_of(w, g, g2, s.skip());
        let ty = type_of(g, s.skip());
        let ty2 = type_of(g2, o.skip());
        past_part(w, g, g2, s.skip(), o.skip(), ty, ty2, type_of(g2, w.moved(s.skip())));
        same_infix_tail(
            w,
            g,
            g2,
            s.skip().after(ty),
            min,
            last,
            Expr::Cast { expr: Box::new(lhs), ty: Box::new(ty.out()) },
        );
        past_part(
            w,
            g,
            g2,
            s.skip().after(ty),
            o.skip().after(ty2),
            infix_tail(
                g,
                s.skip().after(ty),
                min,
                last,
                Expr::Cast { expr: Box::new(lhs), ty: Box::new(ty.out()) },
            ),
            infix_tail(
                g2,
                o.skip().after(ty2),
                min,
                last,
                Expr::Cast { expr: Box::new(lhs), ty: Box::new(ty2.out()) },
            ),
            infix_tail(
                g2,
                w.moved(s.skip().after(ty)),
                min,
                last,
                Expr::Cast { expr: Box::new(lhs), ty: Box::new(ty.out()) },
            ),
        );
    } else {
        match infix_at(g.kind(s.pos)) {
            None => {},
            Some(op) => {
                if power(op).0 < min {
                } else if no_chain(op) && last == Some(power(op).0) {
                    past_fail(
                        w,
                        g,
                        g2,
                        s,
                        o,
                        "chained comparison is not allowed; use `&&` to combine comparisons explicitly"@,
                    );
                } else {
                    past_token(w, g, g2, s, o);
                    same_expr(w, g, g2, s.skip(), power(op).1);
                    let rhs = expr(g, s.skip(), power(op).1);
                    let rhs2 = expr(g2, o.skip(), power(op).1);
                    past_part(
                        w,
                        g,
                        g2,
                        s.skip(),
                        o.skip(),
                        rhs,
                        rhs2,
                        expr(g2, w.moved(s.skip()), power(op).1),
                    );
                    same_infix_tail(
                        w,
                        g,
                        g2,
                        s.skip().after(rhs),
                        min,
                        if no_chain(op) { Some(power(op).0) } else { last },
                        join_infix(op, lhs, rhs.out()),
                    );
                    past_part(
                        w,
                        g,
                        g2,
                        s.skip().after(rhs),
                        o.skip().after(rhs2),
                        infix_tail(
                            g,
                            s.skip().after(rhs),
                            min,
                            if no_chain(op) { Some(power(op).0) } else { last },
                            join_infix(op, lhs, rhs.out()),
                        ),
                        infix_tail(
                            g2,
                            o.skip().after(rhs2),
                            min,
                            if no_chain(op) { Some(power(op).0) } else { last },
                            join_infix(op, lhs, rhs2.out()),
                        ),
                        infix_tail(
                            g2,
                            w.moved(s.skip().after(rhs)),
                            min,
                            if no_chain(op) { Some(power(op).0) } else { last },
                            join_infix(op, lhs, rhs.out()),
                        ),
                    );
                }
            },
        }
    }
}

pub(crate) proof fn same_prefix(w: Window, g: Src, g2: Src, s: Cur)
    requires
        w.links(g, g2),
        s.pos <= w.stop,
    ensures
        w.part(g, s, prefix(g, s), prefix(g2, w.moved(s))),
        s.err is None && prefix(g, s).res is Ok ==> prefix(g, s).end > s.pos,
    decreases s.left(g), 6nat,
{
    at_start(w, g, g2, s);
    let o = w.moved(s);
    if s.err is Some {
    } else if s.at_op(g, Op::Not) {
        past_token(w, g, g2, s, o);
        same_unary(w, g, g2, s.skip(), UnaryOp::Not);
        past_part(
            w,
            g,
            g2,
            s.skip(),
            o.skip(),
            unary(g, s.skip(), UnaryOp::Not),
            unary(g2, o.skip(), UnaryOp::Not),
            unary(g2, w.moved(s.skip()), UnaryOp::Not),
        );
    } else if s.at_op(g, Op::Tilde) {
        past_token(w, g, g2, s, o);
        same_unary(w, g, g2, s.skip(), UnaryOp::BitNot);
        past_part(
            w,
            g,
            g2,
            s.skip(),
            o.skip(),
            unary(g, s.skip(), UnaryOp::BitNot),
            unary(g2, o.skip(), UnaryOp::BitNot),
            unary(g2, w.moved(s.skip()), UnaryOp::BitNot),
        );
    } else if s.at_op(g, Op::Minus) {
        past_token(w, g, g2, s, o);
        same_unary(w, g, g2, s.skip(), UnaryOp::Neg);
        past_part(
            w,
            g,
            g2,
            s.skip(),
            o.skip(),
            unary(g, s.skip(), UnaryOp::Neg),
            unary(g2, o.skip(), UnaryOp::Neg),
            unary(g2, w.moved(s.skip()), UnaryOp::Neg),
        );
    } else if s.at_kw(g, Keyword::Await) {
        past_token(w, g, g2, s, o);
        same_prefix(w, g, g2, s.skip());
        let e = prefix(g, s.skip());
        let e2 = prefix(g2, o.skip());
        past_part(w, g, g2, s.skip(), o.skip(), e, e2, prefix(g2, w.moved(s.skip())));
    } else if s.at_kw(g, Keyword::Borrow) {
        let mutable = s.skip().at_kw(g, Keyword::Mut);
        let mutable2 = o.skip().at_kw(g2, Keyword::Mut);
        if mutable {
            past_token(w, g, g2, s, o);
            past_token(w, g, g2, s.skip(), o.skip());
        } else {
            past_token(w, g, g2, s, o);
        }
        let s1 = if mutable { s.skip().skip() } else { s.skip() };
        let o1 = if mutable2 { o.skip().skip() } else { o.skip() };
        same_prefix(w, g, g2, s1);
        let e = prefix(g, s1);
        let e2 = prefix(g2, o1);
        past_part(w, g, g2, s1, o1, e, e2, prefix(g2, w.moved(s1)));
    } else {
        same_postfix(w, g, g2, s);
        past_part(w, g, g2, s, o, postfix(g, s), postfix(g2, o), postfix(g2, w.moved(s)));
    }
}

pub(crate) proof fn same_unary(w: Window, g: Src, g2: Src, s: Cur, op: UnaryOp)
    requires
        w.links(g, g2),
        s.pos <= w.stop,
    ensures
        w.part(g, s, unary(g, s, op), unary(g2, w.moved(s), op)),
        s.err is None && unary(g, s, op).res is Ok ==> unary(g, s, op).end > s.pos,
    decreases s.left(g), 8nat,
{
    at_start(w, g, g2, s);
    let o = w.moved(s);
    same_prefix(w, g, g2, s);
    let e = prefix(g, s);
    let e2 = prefix(g2, o);
    past_part(w, g, g2, s, o, e, e2, prefix(g2, w.moved(s)));
}

pub(crate) proof fn same_postfix(w: Window, g: Src, g2: Src, s: Cur)
    requires
        w.links(g, g2),
        s.pos <= w.stop,
    ensures
        w.part(g, s, postfix(g, s), postfix(g2, w.moved(s))),
        s.err is None && postfix(g, s).res is Ok ==> postfix(g, s).end > s.pos,
    decreases s.left(g), 4nat,
{
    at_start(w, g, g2, s);
    let o = w.moved(s);
    same_primary(w, g, g2, s);
    let e = primary(g, s);
    let e2 = primary(g2, o);
    past_part(w, g, g2, s, o, e, e2, primary(g2, w.moved(s)));
    same_postfix_tail(w, g, g2, s.after(e), e.out());
    past_part(
        w,
        g,
        g2,
        s.after(e),
        o.after(e2),
        postfix_tail(g, s.after(e), e.out()),
        postfix_tail(g2, o.after(e2), e2.out()),
        postfix_tail(g2, w.moved(s.after(e)), e.out()),
    );
}

pub(crate) proof fn same_postfix_tail(w: Window, g: Src, g2: Src, s: Cur, e: Expr)
    requires
        w.links(g, g2),
        s.pos <= w.stop,
    ensures
        w.part(g, s, postfix_tail(g, s, e), postfix_tail(g2, w.moved(s), e)),
    decreases s.left(g), 0nat,
{
    at_start(w, g, g2, s);
    let o = w.moved(s);
    if s.err is Some {
    } else if starts_suffix(g.kind(s.pos)) {
        past_token(w, g, g2, s, o);
        same_suffix(w, g, g2, s.skip(), g.kind(s.pos), e);
        let all = suffix(g, s.skip(), g.kind(s.pos), e);
        let all2 = suffix(g2, o.skip(), g2.kind(o.pos), e);
        past_part(
            w,
            g,
            g2,
            s.skip(),
            o.skip(),
            all,
            all2,
            suffix(g2, w.moved(s.skip()), g.kind(s.pos), e),
        );
        same_postfix_tail(w, g, g2, s.skip().after(all), all.out());
        past_part(
            w,
            g,
            g2,
            s.skip().after(all),
            o.skip().after(all2),
            postfix_tail(g, s.skip().after(all), all.out()),
            postfix_tail(g2, o.skip().after(all2), all2.out()),
            postfix_tail(g2, w.moved(s.skip().after(all)), all.out()),
        );
    }
}

pub(crate) proof fn same_suffix(w: Window, g: Src, g2: Src, s: Cur, start: TokenKind, e: Expr)
    requires
        w.links(g, g2),
        s.pos <= w.stop,
    ensures
        w.part(g, s, suffix(g, s, start, e), suffix(g2, w.moved(s), start, e)),
    decreases s.left(g), 20nat,
{
    at_start(w, g, g2, s);
    let o = w.moved(s);
    match start {
        TokenKind::Op(Op::Dot) => {
            same_member(w, g, g2, s, e);
            past_part(w, g, g2, s, o, member(g, s, e), member(g2, o, e), member(g2, w.moved(s), e));
        },
        TokenKind::Op(_) => {},
        TokenKind::Delim(Delim::LBracket) => {
            same_expr(w, g, g2, s, 0);
            let index = expr(g, s, 0);
            let index2 = expr(g2, o, 0);
            past_part(w, g, g2, s, o, index, index2, expr(g2, w.moved(s), 0));
            past_delim(w, g, g2, s.after(index), o.after(index2), Delim::RBracket);
        },
        TokenKind::Delim(_) => {
            same_args_tail(w, g, g2, s);
            let args = args_tail(g, s);
            let args2 = args_tail(g2, o);
            past_part(w, g, g2, s, o, args, args2, args_tail(g2, w.moved(s)));
        },
        TokenKind::Keyword(Keyword::Style) => {
            same_props(w, g, g2, s);
            let all_props = props(g, s);
            let all_props2 = props(g2, o);
            past_part(w, g, g2, s, o, all_props, all_props2, props(g2, w.moved(s)));
        },
        _ => {
            same_props(w, g, g2, s);
            let all_props = props(g, s);
            let all_props2 = props(g2, o);
            past_part(w, g, g2, s, o, all_props, all_props2, props(g2, w.moved(s)));
            past_delim(w, g, g2, s.after(all_props), o.after(all_props2), Delim::LBrace);
            let s1 = s.after(all_props).delim(g, Delim::LBrace);
            let o1 = o.after(all_props2).delim(g2, Delim::LBrace);
            same_children(w, g, g2, s1, seq![]);
            let all_children = children(g, s1, seq![]);
            let all_children2 = children(g2, o1, seq![]);
            past_part(
                w,
                g,
                g2,
                s1,
                o1,
                all_children,
                all_children2,
                children(g2, w.moved(s1), seq![]),
            );
            past_delim(w, g, g2, s1.after(all_children), o1.after(all_children2), Delim::RBrace);
        },
    }
}

pub(crate) proof fn same_turbofish(w: Window, g: Src, g2: Src, s: Cur)
    requires
        w.links(g, g2),
        s.pos <= w.stop,
    ensures
        w.part(g, s, turbofish(g, s), turbofish(g2, w.moved(s))),
    decreases s.left(g), 0nat,
{
    at_start(w, g, g2, s);
    let o = w.moved(s);
    if s.at_op(g, Op::ColonColon) {
        past_token(w, g, g2, s, o);
        kind_agrees(w, g, g2, s.pos + 1);
    }
    if s.at_op(g, Op::ColonColon) && s.skip().at_op(g, Op::Lt) {
        past_token(w, g, g2, s, o);
        same_generic_args(w, g, g2, s.skip());
        let args = generic_args(g, s.skip());
        let args2 = generic_args(g2, o.skip());
        past_part(w, g, g2, s.skip(), o.skip(), args, args2, generic_args(g2, w.moved(s.skip())));
    }
}

pub(crate) proof fn same_member(w: Window, g: Src, g2: Src, s: Cur, e: Expr)
    requires
        w.links(g, g2),
        s.pos <= w.stop,
    ensures
        w.part(g, s, member(g, s, e), member(g2, w.moved(s), e)),
    decreases s.left(g), 2nat,
{
    at_start(w, g, g2, s);
    let o = w.moved(s);
    same_word(w, g, g2, s);
    let name = word(g, s);
    let name2 = word(g2, o);
    past_part(w, g, g2, s, o, name, name2, word(g2, w.moved(s)));
    let s1 = s.after(name);
    let o1 = o.after(name2);
    same_turbofish(w, g, g2, s1);
    past_part(w, g, g2, s1, o1, turbofish(g, s1), turbofish(g2, o1), turbofish(g2, w.moved(s1)));
    let s2 = s1.after(turbofish(g, s1));
    let o2 = o1.after(turbofish(g2, o1));
    if s2.at_delim(g, Delim::LParen) {
        past_token(w, g, g2, s2, o2);
        same_args_tail(w, g, g2, s2.skip());
        let args = args_tail(g, s2.skip());
        let args2 = args_tail(g2, o2.skip());
        past_part(w, g, g2, s2.skip(), o2.skip(), args, args2, args_tail(g2, w.moved(s2.skip())));
    }
}

pub(crate) proof fn same_props(w: Window, g: Src, g2: Src, s: Cur)
    requires
        w.links(g, g2),
        s.pos <= w.stop,
    ensures
        w.part(g, s, props(g, s), props(g2, w.moved(s))),
    decreases s.left(g), 0nat,
{
    at_start(w, g, g2, s);
    let o = w.moved(s);
    if s.err is Some {
    } else {
        past_delim(w, g, g2, s, o, Delim::LBrace);
        let s1 = s.delim(g, Delim::LBrace);
        let o1 = o.delim(g2, Delim::LBrace);
        same_prop_list(w, g, g2, s1, seq![]);
        let all = prop_list(g, s1, seq![]);
        let all2 = prop_list(g2, o1, seq![]);
        past_part(w, g, g2, s1, o1, all, all2, prop_list(g2, w.moved(s1), seq![]));
        past_delim(w, g, g2, s1.after(all), o1.after(all2), Delim::RBrace);
    }
}

pub(crate) proof fn same_prop_list(w: Window, g: Src, g2: Src, s: Cur, done: Seq<(Seq<char>, Expr)>)
    requires
        w.links(g, g2),
        s.pos <= w.stop,
    ensures
        w.part(g, s, prop_list(g, s, done), prop_list(g2, w.moved(s), done)),
    decreases s.left(g), 0nat,
{
    at_start(w, g, g2, s);
    let o = w.moved(s);
    if s.err is Some {
    } else if s.at_delim(g, Delim::RBrace) {
    } else {
        same_word(w, g, g2, s);
        let name = word(g, s);
        let name2 = word(g2, o);
        past_part(w, g, g2, s, o, name, name2, word(g2, w.moved(s)));
        past_delim(w, g, g2, s.after(name), o.after(name2), Delim::Colon);
        let s1 = s.after(name).delim(g, Delim::Colon);
        let o1 = o.after(name2).delim(g2, Delim::Colon);
        same_expr(w, g, g2, s1, 0);
        let value = expr(g, s1, 0);
        let value2 = expr(g2, o1, 0);
        past_part(w, g, g2, s1, o1, value, value2, expr(g2, w.moved(s1), 0));
        let s2 = s1.after(value);
        let o2 = o1.after(value2);
        let all = done.push((name.out(), value.out()));
        let all2 = done.push((name2.out(), value2.out()));
        if s2.at_delim(g, Delim::Comma) {
            past_token(w, g, g2, s2, o2);
            same_prop_list(w, g, g2, s2.skip(), all);
            past_part(
                w,
                g,
                g2,
                s2.skip(),
                o2.skip(),
                prop_list(g, s2.skip(), all),
                prop_list(g2, o2.skip(), all2),
                prop_list(g2, w.moved(s2.skip()), all),
            );
        }
    }
}

pub(crate) proof fn same_children(w: Window, g: Src, g2: Src, s: Cur, done: Seq<Expr>)
    requires
        w.links(g, g2),
        s.pos <= w.stop,
    ensures
        w.part(g, s, children(g, s, done), children(g2, w.moved(s), done)),
    decreases s.left(g), 10nat,
{
    at_start(w, g, g2, s);
    let o = w.moved(s);
    if s.at_delim(g, Delim::RBrace) {
    } else {
        same_expr(w, g, g2, s, 0);
        let next = expr(g, s, 0);
        let next2 = expr(g2, o, 0);
        past_part(w, g, g2, s, o, next, next2, expr(g2, w.moved(s), 0));
        let s1 = s.after(next);
        let o1 = o.after(next2);
        let all = done.push(next.out());
        let all2 = done.push(next2.out());
        if s1.at_delim(g, Delim::Comma) {
            past_token(w, g, g2, s1, o1);
            same_children(w, g, g2, s1.skip(), all);
            past_part(
                w,
                g,
                g2,
                s1.skip(),
                o1.skip(),
                children(g, s1.skip(), all),
                children(g2, o1.skip(), all2),
                children(g2, w.moved(s1.skip()), all),
            );
        }
    }
}

pub(crate) proof fn same_expr_list(w: Window, g: Src, g2: Src, s: Cur, close: Delim)
    requires
        w.links(g, g2),
        s.pos <= w.stop,
    ensures
        w.part(g, s, expr_list(g, s, close), expr_list(g2, w.moved(s), close)),
    decreases s.left(g), 10nat,
{
    at_start(w, g, g2, s);
    let o = w.moved(s);
    if s.at_delim(g, close) {
    } else {
        same_expr(w, g, g2, s, 0);
        let first = expr(g, s, 0);
        let first2 = expr(g2, o, 0);
        past_part(w, g, g2, s, o, first, first2, expr(g2, w.moved(s), 0));
        same_more_exprs(w, g, g2, s.after(first), close, seq![first.out()]);
        past_part(
            w,
            g,
            g2,
            s.after(first),
            o.after(first2),
            more_exprs(g, s.after(first), close, seq![first.out()]),
            more_exprs(g2, o.after(first2), close, seq![first2.out()]),
            more_exprs(g2, w.moved(s.after(first)), close, seq![first.out()]),
        );
    }
}

pub(crate) proof fn same_more_exprs(
    w: Window,
    g: Src,
    g2: Src,
    s: Cur,
    close: Delim,
    done: Seq<Expr>,
)
    requires
        w.links(g, g2),
        s.pos <= w.stop,
    ensures
        w.part(g, s, more_exprs(g, s, close, done), more_exprs(g2, w.moved(s), close, done)),
    decreases s.left(g), 0nat,
{
    at_start(w, g, g2, s);
    let o = w.moved(s);
    if !s.at_delim(g, Delim::Comma) {
    } else if s.skip().at_delim(g, close) {
        past_token(w, g, g2, s, o);
    } else {
        past_token(w, g, g2, s, o);
        same_expr(w, g, g2, s.skip(), 0);
        let next = expr(g, s.skip(), 0);
        let next2 = expr(g2, o.skip(), 0);
        past_part(w, g, g2, s.skip(), o.skip(), next, next2, expr(g2, w.moved(s.skip()), 0));
        same_more_exprs(w, g, g2, s.skip().after(next), close, done.push(next.out()));
        past_part(
            w,
            g,
            g2,
            s.skip().after(next),
            o.skip().after(next2),
            more_exprs(g, s.skip().after(next), close, done.push(next.out())),
            more_exprs(g2, o.skip().after(next2), close, done.push(next2.out())),
            more_exprs(g2, w.moved(s.skip().after(next)), close, done.push(next.out())),
        );
    }
}

pub(crate) proof fn same_arg_list(w: Window, g: Src, g2: Src, s: Cur)
    requires
        w.links(g, g2),
        s.pos <= w.stop,
    ensures
        w.part(g, s, arg_list(g, s), arg_list(g2, w.moved(s))),
    decreases s.left(g), 0nat,
{
    at_start(w, g, g2, s);
    let o = w.moved(s);
    if s.err is Some {
    } else {
        past_delim(w, g, g2, s, o, Delim::LParen);
        let s1 = s.delim(g, Delim::LParen);
        let o1 = o.delim(g2, Delim::LParen);
        same_args_tail(w, g, g2, s1);
        past_part(
            w,
            g,
            g2,
            s1,
            o1,
            args_tail(g, s1),
            args_tail(g2, o1),
            args_tail(g2, w.moved(s1)),
        );
    }
}

pub(crate) proof fn same_args_tail(w: Window, g: Src, g2: Src, s: Cur)
    requires
        w.links(g, g2),
        s.pos <= w.stop,
    ensures
        w.part(g, s, args_tail(g, s), args_tail(g2, w.moved(s))),
    decreases s.left(g), 14nat,
{
    at_start(w, g, g2, s);
    let o = w.moved(s);
    if s.at_delim(g, Delim::RParen) {
        past_token(w, g, g2, s, o);
    } else {
        same_arg(w, g, g2, s);
        let first = arg(g, s);
        let first2 = arg(g2, o);
        past_part(w, g, g2, s, o, first, first2, arg(g2, w.moved(s)));
        let s1 = s.after(first);
        let o1 = o.after(first2);
        same_more_args(w, g, g2, s1, seq![first.out()]);
        let all = more_args(g, s1, seq![first.out()]);
        let all2 = more_args(g2, o1, seq![first2.out()]);
        past_part(w, g, g2, s1, o1, all, all2, more_args(g2, w.moved(s1), seq![first.out()]));
        past_delim(w, g, g2, s1.after(all), o1.after(all2), Delim::RParen);
    }
}

pub(crate) proof fn same_more_args(w: Window, g: Src, g2: Src, s: Cur, done: Seq<Arg>)
    requires
        w.links(g, g2),
        s.pos <= w.stop,
    ensures
        w.part(g, s, more_args(g, s, done), more_args(g2, w.moved(s), done)),
    decreases s.left(g), 0nat,
{
    at_start(w, g, g2, s);
    let o = w.moved(s);
    if !s.at_delim(g, Delim::Comma) {
    } else if s.skip().at_delim(g, Delim::RParen) {
        past_token(w, g, g2, s, o);
    } else {
        past_token(w, g, g2, s, o);
        same_arg(w, g, g2, s.skip());
        let next = arg(g, s.skip());
        let next2 = arg(g2, o.skip());
        past_part(w, g, g2, s.skip(), o.skip(), next, next2, arg(g2, w.moved(s.skip())));
        same_more_args(w, g, g2, s.skip().after(next), done.push(next.out()));
        past_part(
            w,
            g,
            g2,
            s.skip().after(next),
            o.skip().after(next2),
            more_args(g, s.skip().after(next), done.push(next.out())),
            more_args(g2, o.skip().after(next2), done.push(next2.out())),
            more_args(g2, w.moved(s.skip().after(next)), done.push(next.out())),
        );
    }
}

pub(crate) proof fn same_arg(w: Window, g: Src, g2: Src, s: Cur)
    requires
        w.links(g, g2),
        s.pos <= w.stop,
    ensures
        w.part(g, s, arg(g, s), arg(g2, w.moved(s))),
    decreases s.left(g), 12nat,
{
    at_start(w, g, g2, s);
    let o = w.moved(s);
    same_word(w, g, g2, s);
    let name = word(g, s);
    let name2 = word(g2, o);
    past_part(w, g, g2, s, o, name, name2, word(g2, w.moved(s)));
    let s1 = s.after(name);
    let o1 = o.after(name2);
    if s1.at_delim(g, Delim::Colon) {
        past_token(w, g, g2, s1, o1);
        if name.out() == "on"@ {
            same_event_handler(w, g, g2, s1.skip());
        } else {
            same_expr(w, g, g2, s1.skip(), 0);
        }
        let value = if name.out() == "on"@ {
            event_handler(g, s1.skip())
        } else {
            expr(g, s1.skip(), 0)
        };
        let value2 = if name2.out() == "on"@ {
            event_handler(g2, o1.skip())
        } else {
            expr(g2, o1.skip(), 0)
        };
        past_part(
            w,
            g,
            g2,
            s1.skip(),
            o1.skip(),
            value,
            value2,
            if name.out() == "on"@ {
                event_handler(g2, w.moved(s1.skip()))
            } else {
                expr(g2, w.moved(s1.skip()), 0)
            },
        );
    } else {
        same_expr(w, g, g2, s, 0);
        let value = expr(g, s, 0);
        let value2 = expr(g2, o, 0);
        past_part(w, g, g2, s, o, value, value2, expr(g2, w.moved(s), 0));
        if w.to_the_end || (value.res is Ok && w.covers(g, value.end)) {
            assert(w.sees(g, s));
            assert(name2 == w.moved_step(name));
            assert(name.res is Ok ==> w.sees(g, s1));
            assert(o1 == w.moved(s1));
            assert(!o1.at_delim(g2, Delim::Colon));
        }
    }
}

pub(crate) proof fn same_event_handler(w: Window, g: Src, g2: Src, s: Cur)
    requires
        w.links(g, g2),
        s.pos <= w.stop,
    ensures
        w.part(g, s, event_handler(g, s), event_handler(g2, w.moved(s))),
    decreases s.left(g), 10nat,
{
    at_start(w, g, g2, s);
    let o = w.moved(s);
    if w.to_the_end || s.pos + 1 < w.n {
        ahead_agrees(w, g, g2, s.pos, 1);
    }
    if s.err is None && is_word(g.kind(s.pos)) && g.ahead(s.pos, 1) == TokenKind::Op(Op::FatArrow) {
        same_word(w, g, g2, s);
        let event = word(g, s);
        let event2 = word(g2, o);
        past_part(w, g, g2, s, o, event, event2, word(g2, w.moved(s)));
        past_op(w, g, g2, s.after(event), o.after(event2), Op::FatArrow);
        let s1 = s.after(event).op(g, Op::FatArrow);
        let o1 = o.after(event2).op(g2, Op::FatArrow);
        same_expr(w, g, g2, s1, 0);
        let body = expr(g, s1, 0);
        let body2 = expr(g2, o1, 0);
        past_part(w, g, g2, s1, o1, body, body2, expr(g2, w.moved(s1), 0));
    } else {
        same_expr(w, g, g2, s, 0);
        past_part(w, g, g2, s, o, expr(g, s, 0), expr(g2, o, 0), expr(g2, w.moved(s), 0));
    }
}

pub(crate) proof fn same_primary(w: Window, g: Src, g2: Src, s: Cur)
    requires
        w.links(g, g2),
        s.pos <= w.stop,
    ensures
        w.part(g, s, primary(g, s), primary(g2, w.moved(s))),
        s.err is None && primary(g, s).res is Ok ==> primary(g, s).end > s.pos,
    decreases s.left(g), 3nat,
{
    at_start(w, g, g2, s);
    let o = w.moved(s);
    if s.err is Some {
    } else {
        match g.kind(s.pos) {
            TokenKind::Keyword(k) => {
                same_keyword_primary(w, g, g2, s, k);
                past_part(
                    w,
                    g,
                    g2,
                    s,
                    o,
                    keyword_primary(g, s, k),
                    keyword_primary(g2, o, k),
                    keyword_primary(g2, w.moved(s), k),
                );
            },
            TokenKind::Ident(_) => {
                same_path_primary(w, g, g2, s);
                past_part(
                    w,
                    g,
                    g2,
                    s,
                    o,
                    path_primary(g, s),
                    path_primary(g2, o),
                    path_primary(g2, w.moved(s)),
                );
            },
            TokenKind::Op(Op::Pipe) | TokenKind::Op(Op::OrOr) => {
                same_closure_primary(w, g, g2, s, false);
                past_part(
                    w,
                    g,
                    g2,
                    s,
                    o,
                    closure_primary(g, s, false),
                    closure_primary(g2, o, false),
                    closure_primary(g2, w.moved(s), false),
                );
            },
            TokenKind::Delim(Delim::LBrace) => {
                same_block(w, g, g2, s);
                let body = block(g, s);
                let body2 = block(g2, o);
                past_whole(w, g, g2, s, o, body, body2, block(g2, w.moved(s)));
            },
            TokenKind::Delim(Delim::LBracket) => {
                past_token(w, g, g2, s, o);
                same_expr_list(w, g, g2, s.skip(), Delim::RBracket);
                let items = expr_list(g, s.skip(), Delim::RBracket);
                let items2 = expr_list(g2, o.skip(), Delim::RBracket);
                past_part(
                    w,
                    g,
                    g2,
                    s.skip(),
                    o.skip(),
                    items,
                    items2,
                    expr_list(g2, w.moved(s.skip()), Delim::RBracket),
                );
                past_delim(
                    w,
                    g,
                    g2,
                    s.skip().after(items),
                    o.skip().after(items2),
                    Delim::RBracket,
                );
            },
            TokenKind::Delim(Delim::LParen) => {
                past_token(w, g, g2, s, o);
                same_paren_primary(w, g, g2, s.skip());
                past_part(
                    w,
                    g,
                    g2,
                    s.skip(),
                    o.skip(),
                    paren_primary(g, s.skip()),
                    paren_primary(g2, o.skip()),
                    paren_primary(g2, w.moved(s.skip())),
                );
            },
            other => {
                if literal_of(other) is Some {
                    same_literal(w, g, g2, s);
                    let value = literal(g, s);
                    let value2 = literal(g2, o);
                    past_part(w, g, g2, s, o, value, value2, literal(g2, w.moved(s)));
                } else {
                    past_fail(w, g, g2, s, o, "expected expression, found "@ + other.shown());
                }
            },
        }
    }
}

#[verifier::rlimit(30)]
pub(crate) proof fn same_keyword_primary(w: Window, g: Src, g2: Src, s: Cur, k: Keyword)
    requires
        w.links(g, g2),
        s.pos <= w.stop,
    ensures
        w.part(g, s, keyword_primary(g, s, k), keyword_primary(g2, w.moved(s), k)),
        s.err is None && keyword_primary(g, s, k).res is Ok
            ==> keyword_primary(g, s, k).end > s.pos,
    decreases s.left(g), 2nat,
{
    at_start(w, g, g2, s);
    let o = w.moved(s);
    if s.err is None && !(g.kind(s.pos) is Eof) {
        past_token(w, g, g2, s, o);
    }
    let s1 = s.skip();
    let o1 = o.skip();
    if s.err is Some || g.kind(s.pos) != TokenKind::Keyword(k) {
    } else {
        match k {
            Keyword::If => {
                same_if_tail(w, g, g2, s1);
                let e = if_tail(g, s1);
                let e2 = if_tail(g2, o1);
                past_part(w, g, g2, s1, o1, e, e2, if_tail(g2, w.moved(s1)));
            },
            Keyword::Match => {
                same_match_tail(w, g, g2, s1);
                let e = match_tail(g, s1);
                let e2 = match_tail(g2, o1);
                past_part(w, g, g2, s1, o1, e, e2, match_tail(g2, w.moved(s1)));
            },
            Keyword::Loop | Keyword::While | Keyword::For | Keyword::Do => {
                same_loop_expr(w, g, g2, s);
                let e = loop_expr(g, s);
                let e2 = loop_expr(g2, o);
                past_part(w, g, g2, s, o, e, e2, loop_expr(g2, w.moved(s)));
            },
            Keyword::Spawn => {
                same_spawn_tail(w, g, g2, s1);
                past_part(
                    w,
                    g,
                    g2,
                    s1,
                    o1,
                    spawn_tail(g, s1),
                    spawn_tail(g2, o1),
                    spawn_tail(g2, w.moved(s1)),
                );
            },
            Keyword::Select => {
                same_select_tail(w, g, g2, s1);
                past_part(
                    w,
                    g,
                    g2,
                    s1,
                    o1,
                    select_tail(g, s1),
                    select_tail(g2, o1),
                    select_tail(g2, w.moved(s1)),
                );
            },
            Keyword::Query => {
                same_query_tail(w, g, g2, s1);
                let e = query_tail(g, s1);
                let e2 = query_tail(g2, o1);
                past_part(w, g, g2, s1, o1, e, e2, query_tail(g2, w.moved(s1)));
            },
            Keyword::Try => {
                same_try_tail(w, g, g2, s1);
                past_part(
                    w,
                    g,
                    g2,
                    s1,
                    o1,
                    try_tail(g, s1),
                    try_tail(g2, o1),
                    try_tail(g2, w.moved(s1)),
                );
            },
            Keyword::Throw => {
                same_expr(w, g, g2, s1, 0);
                let e = expr(g, s1, 0);
                let e2 = expr(g2, o1, 0);
                past_part(w, g, g2, s1, o1, e, e2, expr(g2, w.moved(s1), 0));
            },
            Keyword::Return => {
                same_return_tail(w, g, g2, s1);
                past_part(
                    w,
                    g,
                    g2,
                    s1,
                    o1,
                    return_tail(g, s1),
                    return_tail(g2, o1),
                    return_tail(g2, w.moved(s1)),
                );
            },
            Keyword::Move => {
                same_closure_primary(w, g, g2, s1, true);
                past_part(
                    w,
                    g,
                    g2,
                    s1,
                    o1,
                    closure_primary(g, s1, true),
                    closure_primary(g2, o1, true),
                    closure_primary(g2, w.moved(s1), true),
                );
            },
            Keyword::Unsafe => {
                same_block(w, g, g2, s1);
                let body = block(g, s1);
                let body2 = block(g2, o1);
                past_whole(w, g, g2, s1, o1, body, body2, block(g2, w.moved(s1)));
            },
            _ => {
                same_path_primary(w, g, g2, s);
                past_part(
                    w,
                    g,
                    g2,
                    s,
                    o,
                    path_primary(g, s),
                    path_primary(g2, o),
                    path_primary(g2, w.moved(s)),
                );
            },
        }
    }
}

pub(crate) proof fn same_closure_primary(w: Window, g: Src, g2: Src, s: Cur, is_move: bool)
    requires
        w.links(g, g2),
        s.pos <= w.stop,
    ensures
        w.part(g, s, closure_primary(g, s, is_move), closure_primary(g2, w.moved(s), is_move)),
        s.err is None && closure_primary(g, s, is_move).res is Ok
            ==> closure_primary(g, s, is_move).end > s.pos,
    decreases s.left(g), 1nat,
{
    at_start(w, g, g2, s);
    let o = w.moved(s);
    same_closure(w, g, g2, s, is_move);
    let c = closure(g, s, is_move);
    let c2 = closure(g2, o, is_move);
    past_part(w, g, g2, s, o, c, c2, closure(g2, w.moved(s), is_move));
}

pub(crate) proof fn same_paren_primary(w: Window, g: Src, g2: Src, s: Cur)
    requires
        w.links(g, g2),
        s.pos <= w.stop,
    ensures
        w.part(g, s, paren_primary(g, s), paren_primary(g2, w.moved(s))),
    decreases s.left(g), 10nat,
{
    at_start(w, g, g2, s);
    let o = w.moved(s);
    if s.at_delim(g, Delim::RParen) {
        past_token(w, g, g2, s, o);
    } else {
        same_expr(w, g, g2, s, 0);
        let first = expr(g, s, 0);
        let first2 = expr(g2, o, 0);
        past_part(w, g, g2, s, o, first, first2, expr(g2, w.moved(s), 0));
        let s1 = s.after(first);
        let o1 = o.after(first2);
        same_more_exprs(w, g, g2, s1, Delim::RParen, seq![first.out()]);
        let all = more_exprs(g, s1, Delim::RParen, seq![first.out()]);
        let all2 = more_exprs(g2, o1, Delim::RParen, seq![first2.out()]);
        past_part(
            w,
            g,
            g2,
            s1,
            o1,
            all,
            all2,
            more_exprs(g2, w.moved(s1), Delim::RParen, seq![first.out()]),
        );
        past_delim(w, g, g2, s1.after(all), o1.after(all2), Delim::RParen);
    }
}

pub(crate) proof fn same_path_primary(w: Window, g: Src, g2: Src, s: Cur)
    requires
        w.links(g, g2),
        s.pos <= w.stop,
    ensures
        w.part(g, s, path_primary(g, s), path_primary(g2, w.moved(s))),
        s.err is None && path_primary(g, s).res is Ok ==> path_primary(g, s).end > s.pos,
    decreases s.left(g), 1nat,
{
    without_literals(w, g, g2);
    at_start(w, g, g2, s);
    let o = w.moved(s);
    if s.err is Some {
    } else {
        same_word(w, g, g2, s);
        let first = word(g, s);
        let first2 = word(g2, o);
        past_part(w, g, g2, s, o, first, first2, word(g2, w.moved(s)));
        let s1 = s.after(first);
        let o1 = o.after(first2);
        same_segments(w, g, g2, s1, seq![first.out()]);
        let path = segments(g, s1, seq![first.out()]);
        let path2 = segments(g2, o1, seq![first2.out()]);
        past_part(w, g, g2, s1, o1, path, path2, segments(g2, w.moved(s1), seq![first.out()]));
        let s2 = s1.after(path);
        let o2 = o1.after(path2);
        same_turbofish(w, g, g2, s2);
        past_part(
            w,
            g,
            g2,
            s2,
            o2,
            turbofish(g, s2),
            turbofish(g2, o2),
            turbofish(g2, w.moved(s2)),
        );
        let s3 = s2.after(turbofish(g, s2));
        let o3 = o2.after(turbofish(g2, o2));
        if g.lit && s3.at_delim(g, Delim::LBrace) {
            if w.to_the_end || s3.pos + 2 < w.n {
                ahead_agrees(w, g, g2, s3.pos, 1);
                ahead_agrees(w, g, g2, s3.pos, 2);
            }
            if is_word(g.ahead(s3.pos, 1)) && g.ahead(s3.pos, 2) == TokenKind::Delim(Delim::Colon) {
                past_token(w, g, g2, s3, o3);
                same_struct_lit_tail(w, g, g2, s3.skip(), joined(path.out()));
                past_part(
                    w,
                    g,
                    g2,
                    s3.skip(),
                    o3.skip(),
                    struct_lit_tail(g, s3.skip(), joined(path.out())),
                    struct_lit_tail(g2, o3.skip(), joined(path2.out())),
                    struct_lit_tail(g2, w.moved(s3.skip()), joined(path.out())),
                );
            } else {
                past_token(w, g, g2, s3, o3);
                same_component_tail(w, g, g2, s3.skip(), joined(path.out()));
                past_part(
                    w,
                    g,
                    g2,
                    s3.skip(),
                    o3.skip(),
                    component_tail(g, s3.skip(), joined(path.out())),
                    component_tail(g2, o3.skip(), joined(path2.out())),
                    component_tail(g2, w.moved(s3.skip()), joined(path.out())),
                );
            }
        }
    }
}

pub(crate) proof fn same_component_tail(w: Window, g: Src, g2: Src, s: Cur, name: Seq<char>)
    requires
        w.links(g, g2),
        s.pos <= w.stop,
    ensures
        w.part(g, s, component_tail(g, s, name), component_tail(g2, w.moved(s), name)),
        s.err is None && component_tail(g, s, name).res is Ok
            ==> component_tail(g, s, name).end > s.pos,
    decreases s.left(g), 12nat,
{
    at_start(w, g, g2, s);
    let o = w.moved(s);
    same_children(w, g, g2, s, seq![]);
    let all = children(g, s, seq![]);
    let all2 = children(g2, o, seq![]);
    past_part(w, g, g2, s, o, all, all2, children(g2, w.moved(s), seq![]));
    past_delim(w, g, g2, s.after(all), o.after(all2), Delim::RBrace);
}

pub(crate) proof fn same_struct_lit_tail(w: Window, g: Src, g2: Src, s: Cur, name: Seq<char>)
    requires
        w.links(g, g2),
        s.pos <= w.stop,
    ensures
        w.part(g, s, struct_lit_tail(g, s, name), struct_lit_tail(g2, w.moved(s), name)),
        s.err is None && struct_lit_tail(g, s, name).res is Ok
            ==> struct_lit_tail(g, s, name).end > s.pos,
    decreases s.left(g), 12nat,
{
    at_start(w, g, g2, s);
    let o = w.moved(s);
    same_struct_fields(w, g, g2, s, seq![]);
    let parts = struct_fields(g, s, seq![]);
    let parts2 = struct_fields(g2, o, seq![]);
    past_part(w, g, g2, s, o, parts, parts2, struct_fields(g2, w.moved(s), seq![]));
    past_delim(w, g, g2, s.after(parts), o.after(parts2), Delim::RBrace);
}

pub(crate) proof fn same_struct_fields(
    w: Window,
    g: Src,
    g2: Src,
    s: Cur,
    done: Seq<(Seq<char>, Expr)>,
)
    requires
        w.links(g, g2),
        s.pos <= w.stop,
    ensures
        w.part(g, s, struct_fields(g, s, done), struct_fields(g2, w.moved(s), done)),
    decreases s.left(g), 10nat,
{
    at_start(w, g, g2, s);
    let o = w.moved(s);
    if s.err is Some {
    } else if s.at_delim(g, Delim::RBrace) {
    } else if s.at_op(g, Op::DotDot) {
        past_token(w, g, g2, s, o);
        same_expr(w, g, g2, s.skip(), 0);
        let rest = expr(g, s.skip(), 0);
        let rest2 = expr(g2, o.skip(), 0);
        past_part(w, g, g2, s.skip(), o.skip(), rest, rest2, expr(g2, w.moved(s.skip()), 0));
    } else {
        same_word(w, g, g2, s);
        let name = word(g, s);
        let name2 = word(g2, o);
        past_part(w, g, g2, s, o, name, name2, word(g2, w.moved(s)));
        past_delim(w, g, g2, s.after(name), o.after(name2), Delim::Colon);
        let s1 = s.after(name).delim(g, Delim::Colon);
        let o1 = o.after(name2).delim(g2, Delim::Colon);
        same_expr(w, g, g2, s1, 0);
        let value = expr(g, s1, 0);
        let value2 = expr(g2, o1, 0);
        past_part(w, g, g2, s1, o1, value, value2, expr(g2, w.moved(s1), 0));
        let s2 = s1.after(value);
        let o2 = o1.after(value2);
        let all = done.push((name.out(), value.out()));
        let all2 = done.push((name2.out(), value2.out()));
        if s2.at_delim(g, Delim::Comma) {
            past_token(w, g, g2, s2, o2);
            same_struct_fields(w, g, g2, s2.skip(), all);
            past_part(
                w,
                g,
                g2,
                s2.skip(),
                o2.skip(),
                struct_fields(g, s2.skip(), all),
                struct_fields(g2, o2.skip(), all2),
                struct_fields(g2, w.moved(s2.skip()), all),
            );
        }
    }
}

pub(crate) proof fn same_if_tail(w: Window, g: Src, g2: Src, s: Cur)
    requires
        w.links(g, g2),
        s.pos <= w.stop,
    ensures
        w.part(g, s, if_tail(g, s), if_tail(g2, w.moved(s))),
    decreases s.left(g), 10nat,
{
    without_literals(w, g, g2);
    at_start(w, g, g2, s);
    let o = w.moved(s);
    same_expr(w, g.no_lit(), g2.no_lit(), s, 0);
    let cond = expr(g.no_lit(), s, 0);
    let cond2 = expr(g2.no_lit(), o, 0);
    past_part(w, g, g2, s, o, cond, cond2, expr(g2.no_lit(), w.moved(s), 0));
    let s1 = s.after(cond);
    let o1 = o.after(cond2);
    same_block(w, g, g2, s1);
    let then_block = block(g, s1);
    let then_block2 = block(g2, o1);
    past_whole(w, g, g2, s1, o1, then_block, then_block2, block(g2, w.moved(s1)));
    let s2 = s1.after(then_block);
    let o2 = o1.after(then_block2);
    if !s2.at_kw(g, Keyword::Else) {
    } else if s2.skip().at_kw(g, Keyword::If) {
        past_token(w, g, g2, s2, o2);
        past_token(w, g, g2, s2.skip(), o2.skip());
        same_if_tail(w, g, g2, s2.skip().skip());
        let other = if_tail(g, s2.skip().skip());
        let other2 = if_tail(g2, o2.skip().skip());
        past_part(
            w,
            g,
            g2,
            s2.skip().skip(),
            o2.skip().skip(),
            other,
            other2,
            if_tail(g2, w.moved(s2.skip().skip())),
        );
    } else {
        past_token(w, g, g2, s2, o2);
        same_block(w, g, g2, s2.skip());
        let other = block(g, s2.skip());
        let other2 = block(g2, o2.skip());
        past_whole(w, g, g2, s2.skip(), o2.skip(), other, other2, block(g2, w.moved(s2.skip())));
    }
}

pub(crate) proof fn same_match_tail(w: Window, g: Src, g2: Src, s: Cur)
    requires
        w.links(g, g2),
        s.pos <= w.stop,
    ensures
        w.part(g, s, match_tail(g, s), match_tail(g2, w.moved(s))),
    decreases s.left(g), 10nat,
{
    without_literals(w, g, g2);
    at_start(w, g, g2, s);
    let o = w.moved(s);
    same_expr(w, g.no_lit(), g2.no_lit(), s, 0);
    let scrutinee = expr(g.no_lit(), s, 0);
    let scrutinee2 = expr(g2.no_lit(), o, 0);
    past_part(w, g, g2, s, o, scrutinee, scrutinee2, expr(g2.no_lit(), w.moved(s), 0));
    past_delim(w, g, g2, s.after(scrutinee), o.after(scrutinee2), Delim::LBrace);
    let s1 = s.after(scrutinee).delim(g, Delim::LBrace);
    let o1 = o.after(scrutinee2).delim(g2, Delim::LBrace);
    same_match_arms(w, g, g2, s1, seq![]);
    let arms = match_arms(g, s1, seq![]);
    let arms2 = match_arms(g2, o1, seq![]);
    past_part(w, g, g2, s1, o1, arms, arms2, match_arms(g2, w.moved(s1), seq![]));
    past_delim(w, g, g2, s1.after(arms), o1.after(arms2), Delim::RBrace);
}

pub(crate) proof fn same_match_arms(w: Window, g: Src, g2: Src, s: Cur, done: Seq<MatchArm>)
    requires
        w.links(g, g2),
        s.pos <= w.stop,
    ensures
        w.part(g, s, match_arms(g, s, done), match_arms(g2, w.moved(s), done)),
    decreases s.left(g), 8nat,
{
    at_start(w, g, g2, s);
    let o = w.moved(s);
    if s.err is Some {
    } else if s.at_delim(g, Delim::RBrace) {
    } else {
        same_match_arm(w, g, g2, s);
        let arm = match_arm(g, s);
        let arm2 = match_arm(g2, o);
        past_part(w, g, g2, s, o, arm, arm2, match_arm(g2, w.moved(s)));
        let s1 = s.after(arm);
        let o1 = o.after(arm2);
        let all = done.push(arm.out());
        let all2 = done.push(arm2.out());
        if s1.at_delim(g, Delim::Comma) {
            past_token(w, g, g2, s1, o1);
            same_match_arms(w, g, g2, s1.skip(), all);
            past_part(
                w,
                g,
                g2,
                s1.skip(),
                o1.skip(),
                match_arms(g, s1.skip(), all),
                match_arms(g2, o1.skip(), all2),
                match_arms(g2, w.moved(s1.skip()), all),
            );
        } else if s1.at_delim(g, Delim::RBrace) || !s.moved(g, s1) {
        } else {
            same_match_arms(w, g, g2, s1, all);
            past_part(
                w,
                g,
                g2,
                s1,
                o1,
                match_arms(g, s1, all),
                match_arms(g2, o1, all2),
                match_arms(g2, w.moved(s1), all),
            );
        }
    }
}

pub(crate) proof fn same_match_arm(w: Window, g: Src, g2: Src, s: Cur)
    requires
        w.links(g, g2),
        s.pos <= w.stop,
    ensures
        w.part(g, s, match_arm(g, s), match_arm(g2, w.moved(s))),
    decreases s.left(g), 6nat,
{
    at_start(w, g, g2, s);
    let o = w.moved(s);
    if s.err is Some {
    } else {
        same_pattern(w, g, g2, s);
        let first = pattern(g, s);
        let first2 = pattern(g2, o);
        past_part(w, g, g2, s, o, first, first2, pattern(g2, w.moved(s)));
        let s1 = s.after(first);
        let o1 = o.after(first2);
        same_more_arm_patterns(w, g, g2, s1, seq![first.out()]);
        let patterns = more_arm_patterns(g, s1, seq![first.out()]);
        let patterns2 = more_arm_patterns(g2, o1, seq![first2.out()]);
        past_part(
            w,
            g,
            g2,
            s1,
            o1,
            patterns,
            patterns2,
            more_arm_patterns(g2, w.moved(s1), seq![first.out()]),
        );
        let s2 = s1.after(patterns);
        let o2 = o1.after(patterns2);
        same_arm_guard(w, g, g2, s2);
        let guard = arm_guard(g, s2);
        let guard2 = arm_guard(g2, o2);
        past_part(w, g, g2, s2, o2, guard, guard2, arm_guard(g2, w.moved(s2)));
        past_op(w, g, g2, s2.after(guard), o2.after(guard2), Op::FatArrow);
        let s3 = s2.after(guard).op(g, Op::FatArrow);
        let o3 = o2.after(guard2).op(g2, Op::FatArrow);
        same_arm_body(w, g, g2, s3);
        let body = arm_body(g, s3);
        let body2 = arm_body(g2, o3);
        past_part(w, g, g2, s3, o3, body, body2, arm_body(g2, w.moved(s3)));
    }
}

pub(crate) proof fn same_more_arm_patterns(w: Window, g: Src, g2: Src, s: Cur, done: Seq<Pattern>)
    requires
        w.links(g, g2),
        s.pos <= w.stop,
    ensures
        w.part(g, s, more_arm_patterns(g, s, done), more_arm_patterns(g2, w.moved(s), done)),
    decreases s.left(g), 0nat,
{
    at_start(w, g, g2, s);
    let o = w.moved(s);
    if !s.at_op(g, Op::Pipe) {
    } else {
        past_token(w, g, g2, s, o);
        same_pattern(w, g, g2, s.skip());
        let next = pattern(g, s.skip());
        let next2 = pattern(g2, o.skip());
        past_part(w, g, g2, s.skip(), o.skip(), next, next2, pattern(g2, w.moved(s.skip())));
        same_more_arm_patterns(w, g, g2, s.skip().after(next), done.push(next.out()));
        past_part(
            w,
            g,
            g2,
            s.skip().after(next),
            o.skip().after(next2),
            more_arm_patterns(g, s.skip().after(next), done.push(next.out())),
            more_arm_patterns(g2, o.skip().after(next2), done.push(next2.out())),
            more_arm_patterns(g2, w.moved(s.skip().after(next)), done.push(next.out())),
        );
    }
}

pub(crate) proof fn same_arm_guard(w: Window, g: Src, g2: Src, s: Cur)
    requires
        w.links(g, g2),
        s.pos <= w.stop,
    ensures
        w.part(g, s, arm_guard(g, s), arm_guard(g2, w.moved(s))),
    decreases s.left(g), 0nat,
{
    at_start(w, g, g2, s);
    let o = w.moved(s);
    if s.at_kw(g, Keyword::If) {
        past_token(w, g, g2, s, o);
        same_expr(w, g, g2, s.skip(), 0);
        let cond = expr(g, s.skip(), 0);
        let cond2 = expr(g2, o.skip(), 0);
        past_part(w, g, g2, s.skip(), o.skip(), cond, cond2, expr(g2, w.moved(s.skip()), 0));
    }
}

pub(crate) proof fn same_arm_body(w: Window, g: Src, g2: Src, s: Cur)
    requires
        w.links(g, g2),
        s.pos <= w.stop,
    ensures
        w.part(g, s, arm_body(g, s), arm_body(g2, w.moved(s))),
    decreases s.left(g), 10nat,
{
    at_start(w, g, g2, s);
    let o = w.moved(s);
    if s.at_delim(g, Delim::LBrace) {
        same_block(w, g, g2, s);
        let body = block(g, s);
        let body2 = block(g2, o);
        past_whole(w, g, g2, s, o, body, body2, block(g2, w.moved(s)));
    } else {
        same_expr(w, g, g2, s, 0);
        let body = expr(g, s, 0);
        let body2 = expr(g2, o, 0);
        past_part(w, g, g2, s, o, body, body2, expr(g2, w.moved(s), 0));
    }
}

pub(crate) proof fn same_loop_expr(w: Window, g: Src, g2: Src, s: Cur)
    requires
        w.links(g, g2),
        s.pos <= w.stop,
    ensures
        w.part(g, s, loop_expr(g, s), loop_expr(g2, w.moved(s))),
        s.err is None && loop_expr(g, s).res is Ok ==> loop_expr(g, s).end > s.pos,
    decreases s.left(g), 1nat,
{
    at_start(w, g, g2, s);
    let o = w.moved(s);
    if s.err is Some {
    } else if s.at_kw(g, Keyword::Loop) {
        past_token(w, g, g2, s, o);
        same_loop_tail(w, g, g2, s.skip(), Keyword::Loop);
        past_part(
            w,
            g,
            g2,
            s.skip(),
            o.skip(),
            loop_tail(g, s.skip(), Keyword::Loop),
            loop_tail(g2, o.skip(), Keyword::Loop),
            loop_tail(g2, w.moved(s.skip()), Keyword::Loop),
        );
    } else if s.at_kw(g, Keyword::While) {
        past_token(w, g, g2, s, o);
        same_loop_tail(w, g, g2, s.skip(), Keyword::While);
        past_part(
            w,
            g,
            g2,
            s.skip(),
            o.skip(),
            loop_tail(g, s.skip(), Keyword::While),
            loop_tail(g2, o.skip(), Keyword::While),
            loop_tail(g2, w.moved(s.skip()), Keyword::While),
        );
    } else if s.at_kw(g, Keyword::For) {
        past_token(w, g, g2, s, o);
        same_loop_tail(w, g, g2, s.skip(), Keyword::For);
        past_part(
            w,
            g,
            g2,
            s.skip(),
            o.skip(),
            loop_tail(g, s.skip(), Keyword::For),
            loop_tail(g2, o.skip(), Keyword::For),
            loop_tail(g2, w.moved(s.skip()), Keyword::For),
        );
    } else if s.at_kw(g, Keyword::Do) {
        past_token(w, g, g2, s, o);
        same_loop_tail(w, g, g2, s.skip(), Keyword::Do);
        past_part(
            w,
            g,
            g2,
            s.skip(),
            o.skip(),
            loop_tail(g, s.skip(), Keyword::Do),
            loop_tail(g2, o.skip(), Keyword::Do),
            loop_tail(g2, w.moved(s.skip()), Keyword::Do),
        );
    } else {
        past_fail(w, g, g2, s, o, "expected loop/while/for/do"@);
    }
}

#[verifier::rlimit(40)]
pub(crate) proof fn same_loop_tail(w: Window, g: Src, g2: Src, s: Cur, k: Keyword)
    requires
        w.links(g, g2),
        s.pos <= w.stop,
    ensures
        w.part(g, s, loop_tail(g, s, k), loop_tail(g2, w.moved(s), k)),
    decreases s.left(g), 10nat,
{
    without_literals(w, g, g2);
    at_start(w, g, g2, s);
    let o = w.moved(s);
    match k {
        Keyword::Loop => {
            same_block(w, g, g2, s);
            let body = block(g, s);
            let body2 = block(g2, o);
            past_whole(w, g, g2, s, o, body, body2, block(g2, w.moved(s)));
        },
        Keyword::While => {
            same_expr(w, g.no_lit(), g2.no_lit(), s, 0);
            let cond = expr(g.no_lit(), s, 0);
            let cond2 = expr(g2.no_lit(), o, 0);
            past_part(w, g, g2, s, o, cond, cond2, expr(g2.no_lit(), w.moved(s), 0));
            let s1 = s.after(cond);
            let o1 = o.after(cond2);
            same_block(w, g, g2, s1);
            let body = block(g, s1);
            let body2 = block(g2, o1);
            past_whole(w, g, g2, s1, o1, body, body2, block(g2, w.moved(s1)));
        },
        Keyword::For => {
            same_pattern(w, g, g2, s);
            let pat = pattern(g, s);
            let pat2 = pattern(g2, o);
            past_part(w, g, g2, s, o, pat, pat2, pattern(g2, w.moved(s)));
            past_kw(w, g, g2, s.after(pat), o.after(pat2), Keyword::In);
            let s1 = s.after(pat).kw(g, Keyword::In);
            let o1 = o.after(pat2).kw(g2, Keyword::In);
            same_expr(w, g.no_lit(), g2.no_lit(), s1, 0);
            let iter = expr(g.no_lit(), s1, 0);
            let iter2 = expr(g2.no_lit(), o1, 0);
            past_part(w, g, g2, s1, o1, iter, iter2, expr(g2.no_lit(), w.moved(s1), 0));
            let s2 = s1.after(iter);
            let o2 = o1.after(iter2);
            same_block(w, g, g2, s2);
            let body = block(g, s2);
            let body2 = block(g2, o2);
            past_whole(w, g, g2, s2, o2, body, body2, block(g2, w.moved(s2)));
        },
        _ => {
            same_block(w, g, g2, s);
            let body = block(g, s);
            let body2 = block(g2, o);
            past_whole(w, g, g2, s, o, body, body2, block(g2, w.moved(s)));
            past_kw(w, g, g2, s.after(body), o.after(body2), Keyword::While);
            past_delim(
                w,
                g,
                g2,
                s.after(body).kw(g, Keyword::While),
                o.after(body2).kw(g2, Keyword::While),
                Delim::LParen,
            );
            let s1 = s.after(body).kw(g, Keyword::While).delim(g, Delim::LParen);
            let o1 = o.after(body2).kw(g2, Keyword::While).delim(g2, Delim::LParen);
            same_expr(w, g, g2, s1, 0);
            let cond = expr(g, s1, 0);
            let cond2 = expr(g2, o1, 0);
            past_part(w, g, g2, s1, o1, cond, cond2, expr(g2, w.moved(s1), 0));
            past_delim(w, g, g2, s1.after(cond), o1.after(cond2), Delim::RParen);
            past_delim(
                w,
                g,
                g2,
                s1.after(cond).delim(g, Delim::RParen),
                o1.after(cond2).delim(g2, Delim::RParen),
                Delim::Semi,
            );
        },
    }
}

pub(crate) proof fn same_spawn_tail(w: Window, g: Src, g2: Src, s: Cur)
    requires
        w.links(g, g2),
        s.pos <= w.stop,
    ensures
        w.part(g, s, spawn_tail(g, s), spawn_tail(g2, w.moved(s))),
    decreases s.left(g), 2nat,
{
    at_start(w, g, g2, s);
    let o = w.moved(s);
    let is_move = s.at_kw(g, Keyword::Move);
    let is_move2 = o.at_kw(g2, Keyword::Move);
    if is_move {
        past_token(w, g, g2, s, o);
    }
    let s1 = if is_move { s.skip() } else { s };
    let o1 = if is_move2 { o.skip() } else { o };
    if s1.at_delim(g, Delim::LBrace) {
        same_block(w, g, g2, s1);
        let body = block(g, s1);
        let body2 = block(g2, o1);
        past_whole(w, g, g2, s1, o1, body, body2, block(g2, w.moved(s1)));
    } else {
        same_closure(w, g, g2, s1, false);
        let body = closure(g, s1, false);
        let body2 = closure(g2, o1, false);
        past_part(w, g, g2, s1, o1, body, body2, closure(g2, w.moved(s1), false));
    }
}

pub(crate) proof fn same_closure(w: Window, g: Src, g2: Src, s: Cur, is_move: bool)
    requires
        w.links(g, g2),
        s.pos <= w.stop,
    ensures
        w.part(g, s, closure(g, s, is_move), closure(g2, w.moved(s), is_move)),
        s.err is None && closure(g, s, is_move).res is Ok ==> closure(g, s, is_move).end > s.pos,
    decreases s.left(g), 0nat,
{
    at_start(w, g, g2, s);
    let o = w.moved(s);
    if s.err is Some {
    } else if s.at_op(g, Op::OrOr) {
        past_token(w, g, g2, s, o);
        same_closure_tail(w, g, g2, s.skip(), is_move, seq![]);
        past_part(
            w,
            g,
            g2,
            s.skip(),
            o.skip(),
            closure_tail(g, s.skip(), is_move, seq![]),
            closure_tail(g2, o.skip(), is_move, seq![]),
            closure_tail(g2, w.moved(s.skip()), is_move, seq![]),
        );
    } else {
        past_op(w, g, g2, s, o, Op::Pipe);
        let s1 = s.op(g, Op::Pipe);
        let o1 = o.op(g2, Op::Pipe);
        if s1.at_op(g, Op::Pipe) {
            past_token(w, g, g2, s1, o1);
            same_closure_tail(w, g, g2, s1.skip(), is_move, seq![]);
            past_part(
                w,
                g,
                g2,
                s1.skip(),
                o1.skip(),
                closure_tail(g, s1.skip(), is_move, seq![]),
                closure_tail(g2, o1.skip(), is_move, seq![]),
                closure_tail(g2, w.moved(s1.skip()), is_move, seq![]),
            );
        } else {
            same_closure_params(w, g, g2, s1, seq![]);
            let params = closure_params(g, s1, seq![]);
            let params2 = closure_params(g2, o1, seq![]);
            past_part(w, g, g2, s1, o1, params, params2, closure_params(g2, w.moved(s1), seq![]));
            past_op(w, g, g2, s1.after(params), o1.after(params2), Op::Pipe);
            same_closure_tail(w, g, g2, s1.after(params).op(g, Op::Pipe), is_move, params.out());
            past_part(
                w,
                g,
                g2,
                s1.after(params).op(g, Op::Pipe),
                o1.after(params2).op(g2, Op::Pipe),
                closure_tail(g, s1.after(params).op(g, Op::Pipe), is_move, params.out()),
                closure_tail(g2, o1.after(params2).op(g2, Op::Pipe), is_move, params2.out()),
                closure_tail(g2, w.moved(s1.after(params).op(g, Op::Pipe)), is_move, params.out()),
            );
        }
    }
}

pub(crate) proof fn same_closure_params(
    w: Window,
    g: Src,
    g2: Src,
    s: Cur,
    done: Seq<(Pattern, Option<Type>)>,
)
    requires
        w.links(g, g2),
        s.pos <= w.stop,
    ensures
        w.part(g, s, closure_params(g, s, done), closure_params(g2, w.moved(s), done)),
    decreases s.left(g), 4nat,
{
    at_start(w, g, g2, s);
    let o = w.moved(s);
    same_pattern_single(w, g, g2, s);
    let pat = pattern_single(g, s);
    let pat2 = pattern_single(g2, o);
    past_part(w, g, g2, s, o, pat, pat2, pattern_single(g2, w.moved(s)));
    let s1 = s.after(pat);
    let o1 = o.after(pat2);
    same_opt_type(w, g, g2, s1);
    let ty = opt_type(g, s1);
    let ty2 = opt_type(g2, o1);
    past_part(w, g, g2, s1, o1, ty, ty2, opt_type(g2, w.moved(s1)));
    let s2 = s1.after(ty);
    let o2 = o1.after(ty2);
    let all = done.push((pat.out(), ty.out()));
    let all2 = done.push((pat2.out(), ty2.out()));
    if s2.at_delim(g, Delim::Comma) {
        past_token(w, g, g2, s2, o2);
        same_closure_params(w, g, g2, s2.skip(), all);
        past_part(
            w,
            g,
            g2,
            s2.skip(),
            o2.skip(),
            closure_params(g, s2.skip(), all),
            closure_params(g2, o2.skip(), all2),
            closure_params(g2, w.moved(s2.skip()), all),
        );
    }
}

pub(crate) proof fn same_opt_type(w: Window, g: Src, g2: Src, s: Cur)
    requires
        w.links(g, g2),
        s.pos <= w.stop,
    ensures
        w.part(g, s, opt_type(g, s), opt_type(g2, w.moved(s))),
    decreases s.left(g), 0nat,
{
    at_start(w, g, g2, s);
    let o = w.moved(s);
    if s.at_delim(g, Delim::Colon) {
        past_token(w, g, g2, s, o);
        same_type_of(w, g, g2, s.skip());
        let ty = type_of(g, s.skip());
        let ty2 = type_of(g2, o.skip());
        past_part(w, g, g2, s.skip(), o.skip(), ty, ty2, type_of(g2, w.moved(s.skip())));
    }
}

pub(crate) proof fn same_opt_return_type(w: Window, g: Src, g2: Src, s: Cur)
    requires
        w.links(g, g2),
        s.pos <= w.stop,
    ensures
        w.part(g, s, opt_return_type(g, s), opt_return_type(g2, w.moved(s))),
    decreases s.left(g), 0nat,
{
    at_start(w, g, g2, s);
    let o = w.moved(s);
    if s.at_op(g, Op::Arrow) {
        past_token(w, g, g2, s, o);
        same_type_of(w, g, g2, s.skip());
        let ty = type_of(g, s.skip());
        let ty2 = type_of(g2, o.skip());
        past_part(w, g, g2, s.skip(), o.skip(), ty, ty2, type_of(g2, w.moved(s.skip())));
    }
}

pub(crate) proof fn same_opt_value(w: Window, g: Src, g2: Src, s: Cur)
    requires
        w.links(g, g2),
        s.pos <= w.stop,
    ensures
        w.part(g, s, opt_value(g, s), opt_value(g2, w.moved(s))),
    decreases s.left(g), 0nat,
{
    at_start(w, g, g2, s);
    let o = w.moved(s);
    if s.at_op(g, Op::Eq) {
        past_token(w, g, g2, s, o);
        same_expr(w, g, g2, s.skip(), 0);
        let value = expr(g, s.skip(), 0);
        let value2 = expr(g2, o.skip(), 0);
        past_part(w, g, g2, s.skip(), o.skip(), value, value2, expr(g2, w.moved(s.skip()), 0));
    }
}

pub(crate) proof fn same_closure_tail(
    w: Window,
    g: Src,
    g2: Src,
    s: Cur,
    is_move: bool,
    params: Seq<(Pattern, Option<Type>)>,
)
    requires
        w.links(g, g2),
        s.pos <= w.stop,
    ensures
        w.part(
            g,
            s,
            closure_tail(g, s, is_move, params),
            closure_tail(g2, w.moved(s), is_move, params),
        ),
    decreases s.left(g), 10nat,
{
    at_start(w, g, g2, s);
    let o = w.moved(s);
    same_opt_return_type(w, g, g2, s);
    let ret = opt_return_type(g, s);
    let ret2 = opt_return_type(g2, o);
    past_part(w, g, g2, s, o, ret, ret2, opt_return_type(g2, w.moved(s)));
    let s1 = s.after(ret);
    let o1 = o.after(ret2);
    if s1.at_delim(g, Delim::LBrace) {
        same_block(w, g, g2, s1);
        let body = block(g, s1);
        let body2 = block(g2, o1);
        past_whole(w, g, g2, s1, o1, body, body2, block(g2, w.moved(s1)));
    } else {
        same_expr(w, g, g2, s1, 0);
        let body = expr(g, s1, 0);
        let body2 = expr(g2, o1, 0);
        past_part(w, g, g2, s1, o1, body, body2, expr(g2, w.moved(s1), 0));
    }
}

pub(crate) proof fn same_select_tail(w: Window, g: Src, g2: Src, s: Cur)
    requires
        w.links(g, g2),
        s.pos <= w.stop,
    ensures
        w.part(g, s, select_tail(g, s), select_tail(g2, w.moved(s))),
    decreases s.left(g), 0nat,
{
    at_start(w, g, g2, s);
    let o = w.moved(s);
    if s.err is Some {
    } else {
        past_delim(w, g, g2, s, o, Delim::LBrace);
        let s1 = s.delim(g, Delim::LBrace);
        let o1 = o.delim(g2, Delim::LBrace);
        same_select_arms(w, g, g2, s1, seq![]);
        let arms = select_arms(g, s1, seq![]);
        let arms2 = select_arms(g2, o1, seq![]);
        past_part(w, g, g2, s1, o1, arms, arms2, select_arms(g2, w.moved(s1), seq![]));
        past_delim(w, g, g2, s1.after(arms), o1.after(arms2), Delim::RBrace);
    }
}

pub(crate) proof fn same_select_arms(w: Window, g: Src, g2: Src, s: Cur, done: Seq<SelectArm>)
    requires
        w.links(g, g2),
        s.pos <= w.stop,
    ensures
        w.part(g, s, select_arms(g, s, done), select_arms(g2, w.moved(s), done)),
    decreases s.left(g), 0nat,
{
    at_start(w, g, g2, s);
    let o = w.moved(s);
    if s.err is Some {
    } else if s.at_delim(g, Delim::RBrace) {
    } else {
        past_kw(w, g, g2, s, o, Keyword::Case);
        let s1 = s.kw(g, Keyword::Case);
        let o1 = o.kw(g2, Keyword::Case);
        same_pattern(w, g, g2, s1);
        let pat = pattern(g, s1);
        let pat2 = pattern(g2, o1);
        past_part(w, g, g2, s1, o1, pat, pat2, pattern(g2, w.moved(s1)));
        past_op(w, g, g2, s1.after(pat), o1.after(pat2), Op::Eq);
        past_op(w, g, g2, s1.after(pat).op(g, Op::Eq), o1.after(pat2).op(g2, Op::Eq), Op::Lt);
        past_op(
            w,
            g,
            g2,
            s1.after(pat).op(g, Op::Eq).op(g, Op::Lt),
            o1.after(pat2).op(g2, Op::Eq).op(g2, Op::Lt),
            Op::Minus,
        );
        let s2 = s1.after(pat).op(g, Op::Eq).op(g, Op::Lt).op(g, Op::Minus);
        let o2 = o1.after(pat2).op(g2, Op::Eq).op(g2, Op::Lt).op(g2, Op::Minus);
        same_expr(w, g, g2, s2, 0);
        let channel = expr(g, s2, 0);
        let channel2 = expr(g2, o2, 0);
        past_part(w, g, g2, s2, o2, channel, channel2, expr(g2, w.moved(s2), 0));
        past_delim(w, g, g2, s2.after(channel), o2.after(channel2), Delim::Colon);
        let s3 = s2.after(channel).delim(g, Delim::Colon);
        let o3 = o2.after(channel2).delim(g2, Delim::Colon);
        same_expr(w, g, g2, s3, 0);
        let body = expr(g, s3, 0);
        let body2 = expr(g2, o3, 0);
        past_part(w, g, g2, s3, o3, body, body2, expr(g2, w.moved(s3), 0));
        let s4 = s3.after(body);
        let o4 = o3.after(body2);
        let all = done.push(
            SelectArm { pattern: pat.out(), channel_expr: channel.out(), body: body.out() },
        );
        let all2 = done.push(
            SelectArm { pattern: pat2.out(), channel_expr: channel2.out(), body: body2.out() },
        );
        if s4.at_delim(g, Delim::Comma) {
            past_token(w, g, g2, s4, o4);
            same_select_arms(w, g, g2, s4.skip(), all);
            past_part(
                w,
                g,
                g2,
                s4.skip(),
                o4.skip(),
                select_arms(g, s4.skip(), all),
                select_arms(g2, o4.skip(), all2),
                select_arms(g2, w.moved(s4.skip()), all),
            );
        }
    }
}

pub(crate) proof fn same_query_tail(w: Window, g: Src, g2: Src, s: Cur)
    requires
        w.links(g, g2),
        s.pos <= w.stop,
    ensures
        w.part(g, s, query_tail(g, s), query_tail(g2, w.moved(s))),
    decreases s.left(g), 4nat,
{
    at_start(w, g, g2, s);
    let o = w.moved(s);
    same_word(w, g, g2, s);
    let table = word(g, s);
    let table2 = word(g2, o);
    past_part(w, g, g2, s, o, table, table2, word(g2, w.moved(s)));
    let s1 = s.after(table);
    let o1 = o.after(table2);
    same_query_clauses(w, g, g2, s1, seq![]);
    let clauses = query_clauses(g, s1, seq![]);
    let clauses2 = query_clauses(g2, o1, seq![]);
    past_part(w, g, g2, s1, o1, clauses, clauses2, query_clauses(g2, w.moved(s1), seq![]));
}

pub(crate) proof fn same_query_clauses(w: Window, g: Src, g2: Src, s: Cur, done: Seq<QueryClause>)
    requires
        w.links(g, g2),
        s.pos <= w.stop,
    ensures
        w.part(g, s, query_clauses(g, s, done), query_clauses(g2, w.moved(s), done)),
    decreases s.left(g), 2nat,
{
    at_start(w, g, g2, s);
    let o = w.moved(s);
    if s.err is Some {
    } else if starts_clause(g, s) {
        past_token(w, g, g2, s, o);
        same_query_clause(w, g, g2, s.skip(), g.kind(s.pos));
        let clause = query_clause(g, s.skip(), g.kind(s.pos));
        let clause2 = query_clause(g2, o.skip(), g2.kind(o.pos));
        past_part(
            w,
            g,
            g2,
            s.skip(),
            o.skip(),
            clause,
            clause2,
            query_clause(g2, w.moved(s.skip()), g.kind(s.pos)),
        );
        same_query_clauses(w, g, g2, s.skip().after(clause), done.push(clause.out()));
        past_part(
            w,
            g,
            g2,
            s.skip().after(clause),
            o.skip().after(clause2),
            query_clauses(g, s.skip().after(clause), done.push(clause.out())),
            query_clauses(g2, o.skip().after(clause2), done.push(clause2.out())),
            query_clauses(g2, w.moved(s.skip().after(clause)), done.push(clause.out())),
        );
    }
}

pub(crate) proof fn same_query_clause(w: Window, g: Src, g2: Src, s: Cur, start: TokenKind)
    requires
        w.links(g, g2),
        s.pos <= w.stop,
    ensures
        w.part(g, s, query_clause(g, s, start), query_clause(g2, w.moved(s), start)),
    decreases s.left(g), 10nat,
{
    at_start(w, g, g2, s);
    let o = w.moved(s);
    match start {
        TokenKind::Keyword(Keyword::Where) => {
            same_expr(w, g, g2, s, 0);
            let e = expr(g, s, 0);
            let e2 = expr(g2, o, 0);
            past_part(w, g, g2, s, o, e, e2, expr(g2, w.moved(s), 0));
        },
        TokenKind::Keyword(Keyword::Insert) => {
            same_expr(w, g, g2, s, 0);
            let e = expr(g, s, 0);
            let e2 = expr(g2, o, 0);
            past_part(w, g, g2, s, o, e, e2, expr(g2, w.moved(s), 0));
        },
        TokenKind::Keyword(Keyword::Update) => {
            same_props(w, g, g2, s);
            let fields = props(g, s);
            let fields2 = props(g2, o);
            past_part(w, g, g2, s, o, fields, fields2, props(g2, w.moved(s)));
        },
        TokenKind::Keyword(Keyword::Delete) => {},
        TokenKind::Ident(name) => {
            if name@ == "orderBy"@ {
                same_word(w, g, g2, s);
                let column = word(g, s);
                let column2 = word(g2, o);
                past_part(w, g, g2, s, o, column, column2, word(g2, w.moved(s)));
            } else if name@ == "first"@ {
            } else if name@ == "count"@ {
                past_delim(w, g, g2, s, o, Delim::LParen);
                past_delim(
                    w,
                    g,
                    g2,
                    s.delim(g, Delim::LParen),
                    o.delim(g2, Delim::LParen),
                    Delim::RParen,
                );
            } else {
                same_word(w, g, g2, s);
                let table = word(g, s);
                let table2 = word(g2, o);
                past_part(w, g, g2, s, o, table, table2, word(g2, w.moved(s)));
                past_kw(w, g, g2, s.after(table), o.after(table2), Keyword::On);
                let s1 = s.after(table).kw(g, Keyword::On);
                let o1 = o.after(table2).kw(g2, Keyword::On);
                same_expr(w, g, g2, s1, 0);
                let on = expr(g, s1, 0);
                let on2 = expr(g2, o1, 0);
                past_part(w, g, g2, s1, o1, on, on2, expr(g2, w.moved(s1), 0));
            }
        },
        _ => {
            past_fail(w, g, g2, s, o, "expected a query clause"@);
        },
    }
}

pub(crate) proof fn same_try_tail(w: Window, g: Src, g2: Src, s: Cur)
    requires
        w.links(g, g2),
        s.pos <= w.stop,
    ensures
        w.part(g, s, try_tail(g, s), try_tail(g2, w.moved(s))),
    decreases s.left(g), 2nat,
{
    at_start(w, g, g2, s);
    let o = w.moved(s);
    same_block(w, g, g2, s);
    let body = block(g, s);
    let body2 = block(g2, o);
    past_whole(w, g, g2, s, o, body, body2, block(g2, w.moved(s)));
    past_kw(w, g, g2, s.after(body), o.after(body2), Keyword::Catch);
    past_delim(
        w,
        g,
        g2,
        s.after(body).kw(g, Keyword::Catch),
        o.after(body2).kw(g2, Keyword::Catch),
        Delim::LParen,
    );
    let s1 = s.after(body).kw(g, Keyword::Catch).delim(g, Delim::LParen);
    let o1 = o.after(body2).kw(g2, Keyword::Catch).delim(g2, Delim::LParen);
    same_word(w, g, g2, s1);
    let name = word(g, s1);
    let name2 = word(g2, o1);
    past_part(w, g, g2, s1, o1, name, name2, word(g2, w.moved(s1)));
    past_delim(w, g, g2, s1.after(name), o1.after(name2), Delim::RParen);
    let s2 = s1.after(name).delim(g, Delim::RParen);
    let o2 = o1.after(name2).delim(g2, Delim::RParen);
    same_block(w, g, g2, s2);
    let handler = block(g, s2);
    let handler2 = block(g2, o2);
    past_whole(w, g, g2, s2, o2, handler, handler2, block(g2, w.moved(s2)));
}

pub(crate) proof fn same_return_tail(w: Window, g: Src, g2: Src, s: Cur)
    requires
        w.links(g, g2),
        s.pos <= w.stop,
    ensures
        w.part(g, s, return_tail(g, s), return_tail(g2, w.moved(s))),
    decreases s.left(g), 10nat,
{
    at_start(w, g, g2, s);
    let o = w.moved(s);
    if s.at_delim(g, Delim::Semi) || s.at_delim(g, Delim::RBrace) || s.at_delim(g, Delim::Comma) {
    } else {
        same_expr(w, g, g2, s, 0);
        let e = expr(g, s, 0);
        let e2 = expr(g2, o, 0);
        past_part(w, g, g2, s, o, e, e2, expr(g2, w.moved(s), 0));
    }
}

} // verus!
