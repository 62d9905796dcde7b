//! Going on after a failure.
use crate::grammar::cursor::{Cur, Src};
use crate::grammar::items::{attr, attrs, is_item_start, item, item_kind, resume, visibility};
use crate::token::{Keyword, Op};
use vstd::prelude::*;

verus! {

/// An item that cannot be read is left behind, if only by its first token.
pub proof fn failing_item_moves(g: Src, p: nat)
    requires
        is_item_start(g.kind(p)),
    ensures
        item(g, Cur { pos: p, err: None }).end > p,
{
    let s = Cur { pos: p, err: None };
    let a = attrs(g, s, seq![]);
    let s1 = s.after(a);
    if s.at_op(g, Op::At) {
        let x = attr(g, s.skip());
        attrs_go_on(g, s.skip().after(x), seq![x.out()]);
        assert(seq![].push(x.out()) =~= seq![x.out()]);
        assert(s1.pos > p);
    } else {
        assert(s1 == s);
        let v = visibility(g, s1);
        let s2 = s1.after(v);
        if !s.at_kw(g, Keyword::Pub) {
            assert(s2 == s);
            assert(item_kind(g, s2).end > p);
        }
    }
}

/// Attributes never go back.
proof fn attrs_go_on(g: Src, s: Cur, done: Seq<crate::tree::Attribute>)
    ensures
        attrs(g, s, done).end >= s.pos,
    decreases s.left(g),
{
    if s.at_op(g, Op::At) {
        let a = attr(g, s.skip());
        attrs_go_on(g, s.skip().after(a), done.push(a.out()));
    }
}

/// Where reading goes on after a failure lies no further back.
pub proof fn resume_moves(g: Src, p: nat)
    ensures
        resume(g, p) >= p,
        !is_item_start(g.kind(p)) && !(g.kind(p) is Eof) ==> resume(g, p) > p,
    decreases g.toks.len() - p,
{
    if !(g.kind(p) is Eof) && !is_item_start(g.kind(p)) {
        resume_moves(g, p + 1);
    }
}

} // verus!
