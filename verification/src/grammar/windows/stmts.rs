//! What the rules for statements and blocks read.
use crate::grammar::cursor::{Cur, Src};
use crate::grammar::exprs::{expr, opt_type, opt_value};
use crate::grammar::items::{is_item_start, item, target_items};
use crate::grammar::stmts::{
    block, block_body, is_block_like, item_stmts, let_stmt, stmt, value_or_semi, StmtOrTail,
};
use crate::grammar::types::pattern;
use crate::grammar::windows::{
    at_start, past_delim, past_fail, past_part, past_token, past_whole, Window,
};
use crate::grammar::windows::exprs::{same_expr, same_opt_type, same_opt_value};
use crate::grammar::windows::items::{same_item, same_target_items};
use crate::grammar::windows::types::same_pattern;
use crate::token::{Delim, Keyword, Op};
use crate::tree::{Block, Stmt};
use vstd::prelude::*;

verus! {

pub(crate) proof fn same_block(w: Window, g: Src, g2: Src, s: Cur)
    requires
        w.links(g, g2),
        s.pos <= w.stop,
    ensures
        w.whole(g, s, block(g, s), block(g2, w.moved(s))),
    decreases s.left(g), 0nat,
{
    at_start(w, g, g2, s);
    let o = w.moved(s);
    if s.err is Some {
    } else {
        past_delim(w, g, g2, s, o, Delim::LBrace);
        let s1 = s.delim(g, Delim::LBrace);
        let o1 = o.delim(g2, Delim::LBrace);
        same_block_body(w, g, g2, s1, seq![]);
        let body = block_body(g, s1, seq![]);
        let body2 = block_body(g2, o1, seq![]);
        past_part(w, g, g2, s1, o1, body, body2, block_body(g2, w.moved(s1), seq![]));
        past_delim(w, g, g2, s1.after(body), o1.after(body2), Delim::RBrace);
    }
}

pub(crate) proof fn same_block_body(w: Window, g: Src, g2: Src, s: Cur, done: Seq<Stmt>)
    requires
        w.links(g, g2),
        s.pos <= w.stop,
    ensures
        w.part(g, s, block_body(g, s, done), block_body(g2, w.moved(s), done)),
    decreases s.left(g), 20nat,
{
    at_start(w, g, g2, s);
    let o = w.moved(s);
    if s.err is Some {
    } else if s.at_delim(g, Delim::RBrace) || s.at_end(g) {
    } else if s.at_op(g, Op::Hash) {
        past_token(w, g, g2, s, o);
        same_target_items(w, g, g2, s.skip());
        let t = target_items(g, s.skip());
        let t2 = target_items(g2, o.skip());
        let body = Block { stmts: item_stmts(t.out().1), tail: None };
        let body2 = Block { stmts: item_stmts(t2.out().1), tail: None };
        past_whole(w, g, g2, s.skip(), o.skip(), t, t2, target_items(g2, w.moved(s.skip())));
        same_block_body(w, g, g2, s.skip().after(t), done.push(Stmt::TargetBlock(t.out().0, body)));
        past_part(
            w,
            g,
            g2,
            s.skip().after(t),
            o.skip().after(t2),
            block_body(g, s.skip().after(t), done.push(Stmt::TargetBlock(t.out().0, body))),
            block_body(g2, o.skip().after(t2), done.push(Stmt::TargetBlock(t2.out().0, body2))),
            block_body(
                g2,
                w.moved(s.skip().after(t)),
                done.push(Stmt::TargetBlock(t.out().0, body)),
            ),
        );
    } else if is_item_start(g.kind(s.pos)) {
        same_item(w, g, g2, s);
        let i = item(g, s);
        let i2 = item(g2, o);
        past_whole(w, g, g2, s, o, i, i2, item(g2, w.moved(s)));
        let s1 = s.after(i);
        let o1 = o.after(i2);
        if s.moved(g, s1) {
            same_block_body(w, g, g2, s1, done.push(Stmt::Item(Box::new(i.out()))));
            past_part(
                w,
                g,
                g2,
                s1,
                o1,
                block_body(g, s1, done.push(Stmt::Item(Box::new(i.out())))),
                block_body(g2, o1, done.push(Stmt::Item(Box::new(i2.out())))),
                block_body(g2, w.moved(s1), done.push(Stmt::Item(Box::new(i.out())))),
            );
        }
    } else {
        same_stmt(w, g, g2, s);
        let st = stmt(g, s);
        let st2 = stmt(g2, o);
        past_part(w, g, g2, s, o, st, st2, stmt(g2, w.moved(s)));
        let s1 = s.after(st);
        let o1 = o.after(st2);
        if s1.err is Some {
        } else {
            match st.out() {
                StmtOrTail::Stmt(x) => {
                    if s.moved(g, s1) {
                        same_block_body(w, g, g2, s1, done.push(x));
                        past_part(
                            w,
                            g,
                            g2,
                            s1,
                            o1,
                            block_body(g, s1, done.push(x)),
                            block_body(g2, o1, done.push(x)),
                            block_body(g2, w.moved(s1), done.push(x)),
                        );
                    }
                },
                StmtOrTail::Tail(e) => {},
            }
        }
    }
}

pub(crate) proof fn same_value_or_semi(w: Window, g: Src, g2: Src, s: Cur)
    requires
        w.links(g, g2),
        s.pos <= w.stop,
    ensures
        w.part(g, s, value_or_semi(g, s), value_or_semi(g2, w.moved(s))),
    decreases s.left(g), 10nat,
{
    at_start(w, g, g2, s);
    let o = w.moved(s);
    if s.at_delim(g, Delim::Semi) {
    } else {
        same_expr(w, g, g2, s, 0);
        let e = expr(g, s, 0);
        let e2 = expr(g2, o, 0);
        past_part(w, g, g2, s, o, e, e2, expr(g2, w.moved(s), 0));
    }
}

pub(crate) proof fn same_stmt(w: Window, g: Src, g2: Src, s: Cur)
    requires
        w.links(g, g2),
        s.pos <= w.stop,
    ensures
        w.part(g, s, stmt(g, s), stmt(g2, w.moved(s))),
    decreases s.left(g), 10nat,
{
    at_start(w, g, g2, s);
    let o = w.moved(s);
    if s.err is Some {
    } else if s.at_kw(g, Keyword::Let) {
        past_token(w, g, g2, s, o);
        same_let_stmt(w, g, g2, s.skip());
        past_part(
            w,
            g,
            g2,
            s.skip(),
            o.skip(),
            let_stmt(g, s.skip()),
            let_stmt(g2, o.skip()),
            let_stmt(g2, w.moved(s.skip())),
        );
    } else if s.at_kw(g, Keyword::Return) {
        past_token(w, g, g2, s, o);
        same_value_or_semi(w, g, g2, s.skip());
        let value = value_or_semi(g, s.skip());
        let value2 = value_or_semi(g2, o.skip());
        past_part(
            w,
            g,
            g2,
            s.skip(),
            o.skip(),
            value,
            value2,
            value_or_semi(g2, w.moved(s.skip())),
        );
        past_delim(w, g, g2, s.skip().after(value), o.skip().after(value2), Delim::Semi);
    } else if s.at_kw(g, Keyword::Break) {
        past_token(w, g, g2, s, o);
        same_value_or_semi(w, g, g2, s.skip());
        let value = value_or_semi(g, s.skip());
        let value2 = value_or_semi(g2, o.skip());
        past_part(
            w,
            g,
            g2,
            s.skip(),
            o.skip(),
            value,
            value2,
            value_or_semi(g2, w.moved(s.skip())),
        );
        past_delim(w, g, g2, s.skip().after(value), o.skip().after(value2), Delim::Semi);
    } else if s.at_kw(g, Keyword::Continue) {
        past_token(w, g, g2, s, o);
        past_delim(w, g, g2, s.skip(), o.skip(), Delim::Semi);
    } else if s.at_kw(g, Keyword::Yield) {
        past_token(w, g, g2, s, o);
        same_expr(w, g, g2, s.skip(), 0);
        let e = expr(g, s.skip(), 0);
        let e2 = expr(g2, o.skip(), 0);
        past_part(w, g, g2, s.skip(), o.skip(), e, e2, expr(g2, w.moved(s.skip()), 0));
        past_delim(w, g, g2, s.skip().after(e), o.skip().after(e2), Delim::Semi);
    } else {
        same_expr(w, g, g2, s, 0);
        let e = expr(g, s, 0);
        let e2 = expr(g2, o, 0);
        past_part(w, g, g2, s, o, e, e2, expr(g2, w.moved(s), 0));
        let s1 = s.after(e);
        let o1 = o.after(e2);
        if s1.err is Some {
        } else if s1.at_delim(g, Delim::Semi) {
            past_token(w, g, g2, s1, o1);
        } else if s1.at_delim(g, Delim::RBrace) {
        } else if is_block_like(e.out()) {
        } else {
            past_fail(w, g, g2, s1, o1, "expected `;` after expression statement"@);
        }
    }
}

pub(crate) proof fn same_let_stmt(w: Window, g: Src, g2: Src, s: Cur)
    requires
        w.links(g, g2),
        s.pos <= w.stop,
    ensures
        w.part(g, s, let_stmt(g, s), let_stmt(g2, w.moved(s))),
    decreases s.left(g), 6nat,
{
    at_start(w, g, g2, s);
    let o = w.moved(s);
    let mutable = s.at_kw(g, Keyword::Mut);
    let mutable2 = o.at_kw(g2, Keyword::Mut);
    if mutable {
        past_token(w, g, g2, s, o);
    }
    let s1 = if mutable { s.skip() } else { s };
    let o1 = if mutable2 { o.skip() } else { o };
    same_pattern(w, g, g2, s1);
    let pat = pattern(g, s1);
    let pat2 = pattern(g2, o1);
    past_part(w, g, g2, s1, o1, pat, pat2, pattern(g2, w.moved(s1)));
    let s2 = s1.after(pat);
    let o2 = o1.after(pat2);
    same_opt_type(w, g, g2, s2);
    let ty = opt_type(g, s2);
    let ty2 = opt_type(g2, o2);
    past_part(w, g, g2, s2, o2, ty, ty2, opt_type(g2, w.moved(s2)));
    let s3 = s2.after(ty);
    let o3 = o2.after(ty2);
    same_opt_value(w, g, g2, s3);
    let value = opt_value(g, s3);
    let value2 = opt_value(g2, o3);
    past_part(w, g, g2, s3, o3, value, value2, opt_value(g2, w.moved(s3)));
    past_delim(w, g, g2, s3.after(value), o3.after(value2), Delim::Semi);
}

} // verus!
