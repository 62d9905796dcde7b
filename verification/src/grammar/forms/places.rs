//! Places in a stream, and what is said of a token that does not fit.
use crate::grammar::cursor::{ident, word, Cur, Failure, Src, Step};
use crate::grammar::items::program;
use crate::grammar::laws::{at, read};
use crate::parser::stream::without_docs;
use crate::token::{Delim, Keyword, Op, Token, TokenKind};
use crate::tree::{Item, Program};
use vstd::prelude::*;

verus! {

/// A token that is asked for is passed where it stands; where another one stands, reading stops
/// there, and the failure names both and the place.
pub proof fn tokens_that_are_asked_for(g: Src, p: nat, k: Keyword, op: Op, d: Delim)
    ensures
        g.kind(p) == TokenKind::Keyword(k) ==> at(p).kw(g, k) == at(p + 1),
        g.kind(p) == TokenKind::Op(op) ==> at(p).op(g, op) == at(p + 1),
        g.kind(p) == TokenKind::Delim(d) ==> at(p).delim(g, d) == at(p + 1),
        g.kind(p) != TokenKind::Keyword(k) ==> at(p).kw(g, k) == (Cur {
            pos: p,
            err: Some(
                Failure {
                    message: "expected keyword `"@ + k.name() + "`, found "@ + g.kind(p).shown(),
                    span: g.toks[p as int].span,
                },
            ),
        }),
        g.kind(p) != TokenKind::Op(op) ==> at(p).op(g, op) == (Cur {
            pos: p,
            err: Some(
                Failure {
                    message: "expected `"@ + op.source() + "`, found "@ + g.kind(p).shown(),
                    span: g.toks[p as int].span,
                },
            ),
        }),
        g.kind(p) != TokenKind::Delim(d) ==> at(p).delim(g, d) == (Cur {
            pos: p,
            err: Some(
                Failure {
                    message: "expected `"@ + d.source() + "`, found "@ + g.kind(p).shown(),
                    span: g.toks[p as int].span,
                },
            ),
        }),
{
}

/// Where a name is asked for and none stands, the failure says so and names the place.
pub proof fn names_that_are_asked_for(g: Src, p: nat)
    ensures
        !(g.kind(p) is Ident || g.kind(p) is Keyword) ==> word(g, at(p)) == (Step::<Seq<char>> {
            end: p,
            res: Err(
                Failure {
                    message: "expected identifier, found "@ + g.kind(p).shown(),
                    span: g.toks[p as int].span,
                },
            ),
        }),
        !(g.kind(p) is Ident) ==> ident(g, at(p)) == (Step::<Seq<char>> {
            end: p,
            res: Err(
                Failure {
                    message: "expected identifier, found "@ + g.kind(p).shown(),
                    span: g.toks[p as int].span,
                },
            ),
        }),
{
}

/// After a failure nothing is read any more: the place and the failure stay, and every rule hands
/// the failure on.
pub proof fn failures_stay<T>(
    g: Src,
    s: Cur,
    step: Step<T>,
    v: T,
    k: Keyword,
    op: Op,
    d: Delim,
    message: Seq<char>,
)
    requires
        s.err is Some,
    ensures
        s.after(step) == s,
        s.kw(g, k) == s,
        s.op(g, op) == s,
        s.delim(g, d) == s,
        s.advance(g) == s,
        s.fail(g, message) == s,
        s.ok(v) == (Step::<T> { end: s.pos, res: Err(s.err->0) }),
        s.stuck::<T>() == (Step::<T> { end: s.pos, res: Err(s.err->0) }),
        !s.at_kw(g, k) && !s.at_op(g, op) && !s.at_delim(g, d) && !s.at_ident(g) && !s.at_end(g),
{
}

/// A rule that applied leads to its end, and one that did not to its failure; a rule never goes
/// back.
pub proof fn where_rules_lead<T>(p: nat, end: nat, v: T, e: Failure)
    ensures
        p <= end ==> at(p).after(Step::<T> { end, res: Ok(v) }) == at(end),
        end < p ==> at(p).after(Step::<T> { end, res: Ok(v) }) == at(p),
        p <= end
            ==> at(p).after(Step::<T> { end, res: Err(e) }) == (Cur { pos: end, err: Some(e) }),
        at(p).ok(v) == read(p, v),
{
}

/// A place is at the token that stands there, and at no other. The end of the stream is not
/// passed.
pub proof fn what_stands_at_a_place(g: Src, p: nat, k: Keyword, op: Op, d: Delim, name: Seq<char>)
    ensures
        at(p).at_kw(g, k) <==> g.kind(p) == TokenKind::Keyword(k),
        at(p).at_op(g, op) <==> g.kind(p) == TokenKind::Op(op),
        at(p).at_delim(g, d) <==> g.kind(p) == TokenKind::Delim(d),
        at(p).at_ident(g) <==> g.kind(p) is Ident,
        at(p).at_end(g) <==> g.kind(p) is Eof,
        at(p).at_name(g, name) <==> (g.kind(p) matches TokenKind::Ident(s) && s@ == name),
        at(p).advance(g) == (if g.kind(p) is Eof {
            at(p)
        } else {
            at(p + 1)
        }),
        p < g.toks.len() ==> g.kind(p) == g.toks[p as int].kind,
        p >= g.toks.len() ==> g.kind(p) is Eof,
{
}

/// What stands further on, or at the end where the stream is not that long. Where literals may
/// stand makes no difference to the tokens.
pub proof fn what_stands_further_on(g: Src, p: nat, k: nat)
    ensures
        p + k < g.toks.len() ==> g.ahead(p, k) == g.kind(p + k),
        p + k >= g.toks.len() ==> g.ahead(p, k) == g.toks.last().kind,
        g.no_lit().toks == g.toks,
        !g.no_lit().lit,
        g.no_lit().kind(p) == g.kind(p),
{
}

/// Doc comments are left out of a stream, and no other token is.
pub proof fn tokens_that_are_kept(toks: Seq<Token>, t: Token)
    ensures
        without_docs(seq![]) == Seq::<Token>::empty(),
        t.kind is DocComment ==> without_docs(toks.push(t)) == without_docs(toks),
        !(t.kind is DocComment) ==> without_docs(toks.push(t)) == without_docs(toks).push(t),
{
    reveal(Seq::filter);
    assert(toks.push(t).drop_last() =~= toks);
}

/// Reading ends with the stream.
pub proof fn end_of_a_program(g: Src, p: nat, items: Seq<Item>, errors: Seq<Failure>)
    requires
        g.kind(p) is Eof,
    ensures
        program(g, p, items, errors) == (Program { items }, errors),
{
}

} // verus!
