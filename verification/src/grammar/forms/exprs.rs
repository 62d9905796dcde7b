//! Operands and lists of expressions.
use crate::grammar::cursor::{segments, word, Cur, Src, Step};
use crate::grammar::exprs::{
    arg, args_tail, children, component_tail, event_handler, expr, expr_list, is_word,
    keyword_primary, more_args, more_exprs, paren_primary, path_primary, primary, prop_list, props,
    struct_fields, struct_lit_tail, turbofish,
};
use crate::grammar::forms::{behind, list_end, listed};
use crate::grammar::laws::{at, read};
use crate::grammar::stmts::block;
use crate::grammar::types::literal_of;
use crate::text::joined;
use crate::token::{Delim, Keyword, Op, TokenKind};
use crate::tree::{Arg, Expr};
use vstd::prelude::*;

verus! {

/// An expression from `a` up to `b`.
pub open spec fn an_expr(g: Src) -> spec_fn(nat, Expr, nat) -> bool {
    |a: nat, x: Expr, b: nat| expr(g, at(a), 0) == read(b, x)
}

/// An argument from `a` up to `b`.
pub open spec fn an_arg(g: Src) -> spec_fn(nat, Arg, nat) -> bool {
    |a: nat, x: Arg, b: nat| arg(g, at(a)) == read(b, x)
}

/// A name from `a` up to `b`.
pub open spec fn a_word(g: Src) -> spec_fn(nat, Seq<char>, nat) -> bool {
    |a: nat, x: Seq<char>, b: nat| word(g, at(a)) == read(b, x)
}

#[verifier::rlimit(30)]
proof fn exprs_in_a_list_from(
    g: Src, close: Delim,
    xs: Seq<Expr>,
    starts: Seq<nat>,
    ends: Seq<nat>,
    q: nat,
    k: int,
)
    requires
        0 <= k < xs.len(),
        listed(g, an_expr(g), TokenKind::Delim(Delim::Comma), xs, starts, ends),
        forall|i: int| 0 <= i < xs.len()
            ==> g.kind(#[trigger] starts[i]) != TokenKind::Delim(close),
        list_end(g, ends[xs.len() - 1], TokenKind::Delim(close), q),
    ensures
        more_exprs(g, at(ends[k]), close, xs.take(k + 1)) == read(q, xs),
        ends[k] <= q,
    decreases xs.len() - k,
{
    let done = xs.take(k + 1);
    let p = ends[k];
    assert(at(p).skip() == at(p + 1));
    if k + 1 == xs.len() {
        assert(done =~= xs);
        assert(more_exprs(g, at(p), close, done) == read(q, xs));
    } else {
        exprs_in_a_list_from(g, close, xs, starts, ends, q, k + 1);
        let x = xs[k + 1];
        assert(an_expr(g)(starts[k + 1], x, ends[k + 1]));
        assert(g.kind(ends[k]) == TokenKind::Delim(Delim::Comma) && starts[k + 1] == p + 1);
        assert(expr(g, at(p + 1), 0) == read(ends[k + 1], x));
        assert(at(p + 1).after(expr(g, at(p + 1), 0)) == at(ends[k + 1]));
        assert(done.push(x) =~= xs.take((k + 1) + 1));
        assert(
            more_exprs(g, at(p), close, done) == more_exprs(
                g,
                at(ends[k + 1]),
                close,
                xs.take((k + 1) + 1),
            )
        );
    }
}

/// Expressions with commas between them, perhaps with one behind the last, are read in their
/// order up to the closing token.
#[verifier::rlimit(30)]
pub proof fn exprs_in_a_list(
    g: Src, close: Delim,
    p: nat,
    xs: Seq<Expr>,
    starts: Seq<nat>,
    ends: Seq<nat>,
    q: nat,
)
    requires
        xs.len() > 0,
        listed(g, an_expr(g), TokenKind::Delim(Delim::Comma), xs, starts, ends),
        p == starts[0],
        forall|i: int| 0 <= i < xs.len()
            ==> g.kind(#[trigger] starts[i]) != TokenKind::Delim(close),
        list_end(g, ends[xs.len() - 1], TokenKind::Delim(close), q),
    ensures
        expr_list(g, at(p), close) == read(q, xs),
{
    assert(at(p).skip() == at(p + 1));
    let x = xs[0];
    assert(an_expr(g)(starts[0], x, ends[0]));
    assert(expr(g, at(p), 0) == read(ends[0], x));
    assert(at(p).after(expr(g, at(p), 0)) == at(ends[0]));
    exprs_in_a_list_from(g, close, xs, starts, ends, q, 0);
    assert(seq![x] =~= xs.take(1));
    assert(g.kind(starts[0]) == g.kind(p));
}

#[verifier::rlimit(30)]
proof fn tuple_in_parentheses_from(
    g: Src,
    xs: Seq<Expr>,
    starts: Seq<nat>,
    ends: Seq<nat>,
    q: nat,
    k: int,
)
    requires
        0 <= k < xs.len(),
        listed(g, an_expr(g), TokenKind::Delim(Delim::Comma), xs, starts, ends),
        forall|i: int| 0 <= i < xs.len()
            ==> g.kind(#[trigger] starts[i]) != TokenKind::Delim(Delim::RParen),
        list_end(g, ends[xs.len() - 1], TokenKind::Delim(Delim::RParen), q),
    ensures
        more_exprs(g, at(ends[k]), Delim::RParen, xs.take(k + 1)) == read(q, xs),
        ends[k] <= q,
    decreases xs.len() - k,
{
    let done = xs.take(k + 1);
    let p = ends[k];
    assert(at(p).skip() == at(p + 1));
    if k + 1 == xs.len() {
        assert(done =~= xs);
        assert(more_exprs(g, at(p), Delim::RParen, done) == read(q, xs));
    } else {
        tuple_in_parentheses_from(g, xs, starts, ends, q, k + 1);
        let x = xs[k + 1];
        assert(an_expr(g)(starts[k + 1], x, ends[k + 1]));
        assert(g.kind(ends[k]) == TokenKind::Delim(Delim::Comma) && starts[k + 1] == p + 1);
        assert(expr(g, at(p + 1), 0) == read(ends[k + 1], x));
        assert(at(p + 1).after(expr(g, at(p + 1), 0)) == at(ends[k + 1]));
        assert(done.push(x) =~= xs.take((k + 1) + 1));
        assert(
            more_exprs(g, at(p), Delim::RParen, done) == more_exprs(
                g,
                at(ends[k + 1]),
                Delim::RParen,
                xs.take((k + 1) + 1),
            )
        );
    }
}

/// Expressions in parentheses with a comma behind the first are a tuple of exactly these.
#[verifier::rlimit(30)]
pub proof fn tuple_in_parentheses(
    g: Src,
    p: nat,
    xs: Seq<Expr>,
    starts: Seq<nat>,
    ends: Seq<nat>,
    q: nat,
)
    requires
        xs.len() > 0,
        listed(g, an_expr(g), TokenKind::Delim(Delim::Comma), xs, starts, ends),
        p + 1 == starts[0],
        forall|i: int| 0 <= i < xs.len()
            ==> g.kind(#[trigger] starts[i]) != TokenKind::Delim(Delim::RParen),
        list_end(g, ends[xs.len() - 1], TokenKind::Delim(Delim::RParen), q),
        g.kind(p) == TokenKind::Delim(Delim::LParen),
        g.kind(q) == TokenKind::Delim(Delim::RParen),
        g.kind(ends[0]) == TokenKind::Delim(Delim::Comma),
    ensures
        primary(g, at(p)) == read(q + 1, Expr::Tuple(xs)),
{
    assert(at(p).skip() == at(p + 1));
    let x = xs[0];
    assert(an_expr(g)(starts[0], x, ends[0]));
    assert(expr(g, at(p + 1), 0) == read(ends[0], x));
    assert(at(p + 1).after(expr(g, at(p + 1), 0)) == at(ends[0]));
    tuple_in_parentheses_from(g, xs, starts, ends, q, 0);
    assert(seq![x] =~= xs.take(1));
    assert(g.kind(starts[0]) == g.kind(p + 1));
    assert(at(ends[0]).after(more_exprs(g, at(ends[0]), Delim::RParen, seq![x])) == at(q));
    assert(primary(g, at(p)) == paren_primary(g, at(p + 1)));
}

#[verifier::rlimit(30)]
proof fn arguments_from(
    g: Src,
    xs: Seq<Arg>,
    starts: Seq<nat>,
    ends: Seq<nat>,
    q: nat,
    k: int,
)
    requires
        0 <= k < xs.len(),
        listed(g, an_arg(g), TokenKind::Delim(Delim::Comma), xs, starts, ends),
        forall|i: int| 0 <= i < xs.len()
            ==> g.kind(#[trigger] starts[i]) != TokenKind::Delim(Delim::RParen),
        list_end(g, ends[xs.len() - 1], TokenKind::Delim(Delim::RParen), q),
    ensures
        more_args(g, at(ends[k]), xs.take(k + 1)) == read(q, xs),
        ends[k] <= q,
    decreases xs.len() - k,
{
    let done = xs.take(k + 1);
    let p = ends[k];
    assert(at(p).skip() == at(p + 1));
    if k + 1 == xs.len() {
        assert(done =~= xs);
        assert(more_args(g, at(p), done) == read(q, xs));
    } else {
        arguments_from(g, xs, starts, ends, q, k + 1);
        let x = xs[k + 1];
        assert(an_arg(g)(starts[k + 1], x, ends[k + 1]));
        assert(g.kind(ends[k]) == TokenKind::Delim(Delim::Comma) && starts[k + 1] == p + 1);
        assert(arg(g, at(p + 1)) == read(ends[k + 1], x));
        assert(at(p + 1).after(arg(g, at(p + 1))) == at(ends[k + 1]));
        assert(done.push(x) =~= xs.take((k + 1) + 1));
        assert(more_args(g, at(p), done) == more_args(g, at(ends[k + 1]), xs.take((k + 1) + 1)));
    }
}

/// The arguments of a call, with commas between them, are read in their order up to behind `)`.
#[verifier::rlimit(30)]
pub proof fn arguments(
    g: Src,
    p: nat,
    xs: Seq<Arg>,
    starts: Seq<nat>,
    ends: Seq<nat>,
    q: nat,
)
    requires
        xs.len() > 0,
        listed(g, an_arg(g), TokenKind::Delim(Delim::Comma), xs, starts, ends),
        p == starts[0],
        forall|i: int| 0 <= i < xs.len()
            ==> g.kind(#[trigger] starts[i]) != TokenKind::Delim(Delim::RParen),
        list_end(g, ends[xs.len() - 1], TokenKind::Delim(Delim::RParen), q),
        g.kind(q) == TokenKind::Delim(Delim::RParen),
    ensures
        args_tail(g, at(p)) == read(q + 1, xs),
{
    assert(at(p).skip() == at(p + 1));
    let x = xs[0];
    assert(an_arg(g)(starts[0], x, ends[0]));
    assert(arg(g, at(p)) == read(ends[0], x));
    assert(at(p).after(arg(g, at(p))) == at(ends[0]));
    arguments_from(g, xs, starts, ends, q, 0);
    assert(seq![x] =~= xs.take(1));
    assert(g.kind(starts[0]) == g.kind(p));
    assert(at(ends[0]).after(more_args(g, at(ends[0]), seq![x])) == at(q));
}

/// There may be no expression in a list, and no argument in a call.
pub proof fn empty_lists(g: Src, p: nat, close: Delim)
    ensures
        g.kind(p) == TokenKind::Delim(close) ==> expr_list(g, at(p), close) == read(
            p,
            Seq::<Expr>::empty(),
        ),
        g.kind(p) == TokenKind::Delim(Delim::RParen) ==> args_tail(g, at(p)) == read(
            p + 1,
            Seq::<Arg>::empty(),
        ),
        g.kind(p) == TokenKind::Delim(Delim::LParen) && g.kind(p + 1) == TokenKind::Delim(
            Delim::RParen,
        ) ==> primary(g, at(p)) == read(p + 2, Expr::Tuple(seq![])),
{
    assert(at(p).skip() == at(p + 1));
    assert(at(p + 1).skip() == at(p + 2));
    if g.kind(p) == TokenKind::Delim(Delim::LParen) && g.kind(p + 1) == TokenKind::Delim(
        Delim::RParen,
    ) {
        assert(primary(g, at(p)) == paren_primary(g, at(p + 1)));
    }
}

/// A literal token is that literal.
pub proof fn literal_expression(g: Src, p: nat)
    requires
        literal_of(g.kind(p)) is Some,
    ensures
        primary(g, at(p)) == read(p + 1, Expr::Literal(literal_of(g.kind(p))->0)),
{
    assert(at(p).skip() == at(p + 1));
}

/// A name that no path, no type arguments and no braces follow is the name alone.
pub proof fn name_expression(g: Src, p: nat, name: String)
    requires
        g.kind(p) == TokenKind::Ident(name),
        g.kind(p + 1) != TokenKind::Op(Op::ColonColon),
        !g.lit || g.kind(p + 1) != TokenKind::Delim(Delim::LBrace),
    ensures
        primary(g, at(p)) == read(p + 1, Expr::Ident(name@)),
{
    let s1 = at(p + 1);
    assert(at(p).skip() == s1);
    assert(word(g, at(p)) == read(p + 1, name@));
    assert(segments(g, s1, seq![name@]) == read(p + 1, seq![name@]));
    assert(turbofish(g, s1) == read(p + 1, ()));
    assert(path_primary(g, at(p)) == read(p + 1, Expr::Ident(name@)));
    assert(primary(g, at(p)) == path_primary(g, at(p)));
}

/// The keywords that begin an expression of their own.
pub open spec fn begins_expression(k: Keyword) -> bool {
    k is If || k is Match || k is Loop || k is While || k is For || k is Do || k is Spawn || k
        is Select || k is Query || k is Try || k is Throw || k is Return || k is Move || k is Unsafe
}

/// Any other keyword is a name, by its spelling.
pub proof fn keyword_as_a_name(g: Src, p: nat, k: Keyword)
    requires
        g.kind(p) == TokenKind::Keyword(k),
        !begins_expression(k),
        g.kind(p + 1) != TokenKind::Op(Op::ColonColon),
        !g.lit || g.kind(p + 1) != TokenKind::Delim(Delim::LBrace),
    ensures
        primary(g, at(p)) == read(p + 1, Expr::Ident(k.source())),
{
    let s1 = at(p + 1);
    let name = k.source();
    assert(at(p).skip() == s1);
    assert(word(g, at(p)) == read(p + 1, name));
    assert(segments(g, s1, seq![name]) == read(p + 1, seq![name]));
    assert(turbofish(g, s1) == read(p + 1, ()));
    assert(path_primary(g, at(p)) == read(p + 1, Expr::Ident(name)));
    assert(primary(g, at(p)) == keyword_primary(g, at(p), k));
}

/// Nothing else begins an expression.
pub proof fn no_other_expression(g: Src, p: nat)
    requires
        !(g.kind(p) is Keyword || g.kind(p) is Ident || literal_of(g.kind(p)) is Some),
        g.kind(p) != TokenKind::Op(Op::Pipe),
        g.kind(p) != TokenKind::Op(Op::OrOr),
        g.kind(p) != TokenKind::Delim(Delim::LBrace),
        g.kind(p) != TokenKind::Delim(Delim::LBracket),
        g.kind(p) != TokenKind::Delim(Delim::LParen),
    ensures
        primary(g, at(p)).res is Err,
        primary(g, at(p)).res->Err_0.message == "expected expression, found "@ + g.kind(p).shown(),
        primary(g, at(p)).end == p,
{
}

proof fn words_with_colons_from(
    g: Src,
    xs: Seq<Seq<char>>,
    starts: Seq<nat>,
    ends: Seq<nat>,
    k: int,
)
    requires
        0 <= k < xs.len(),
        listed(g, a_word(g), TokenKind::Op(Op::ColonColon), xs, starts, ends),
        g.kind(ends[xs.len() - 1]) != TokenKind::Op(Op::ColonColon),
    ensures
        segments(g, at(ends[k]), xs.take(k + 1)) == read(ends[xs.len() - 1], xs),
        ends[k] <= ends[xs.len() - 1],
    decreases xs.len() - k,
{
    let done = xs.take(k + 1);
    let p = ends[k];
    assert(at(p).skip() == at(p + 1));
    if k + 1 == xs.len() {
        assert(done =~= xs);
        assert(segments(g, at(p), done) == read(ends[xs.len() - 1], xs));
    } else {
        words_with_colons_from(g, xs, starts, ends, k + 1);
        let x = xs[k + 1];
        assert(a_word(g)(starts[k + 1], x, ends[k + 1]));
        assert(g.kind(ends[k]) == TokenKind::Op(Op::ColonColon) && starts[k + 1] == p + 1);
        assert(word(g, at(p + 1)) == read(ends[k + 1], x));
        assert(at(p + 1).after(word(g, at(p + 1))) == at(ends[k + 1]));
        assert(done.push(x) =~= xs.take((k + 1) + 1));
        assert(segments(g, at(p), done) == segments(g, at(ends[k + 1]), xs.take((k + 1) + 1)));
    }
}

/// Names with `::` between them are read in their order.
pub proof fn words_with_colons(
    g: Src,
    p: nat,
    xs: Seq<Seq<char>>,
    starts: Seq<nat>,
    ends: Seq<nat>,
)
    requires
        xs.len() > 0,
        listed(g, a_word(g), TokenKind::Op(Op::ColonColon), xs, starts, ends),
        p == starts[0],
        g.kind(ends[xs.len() - 1]) != TokenKind::Op(Op::ColonColon),
    ensures
        segments_of(g, at(p)) == read(ends[xs.len() - 1], xs),
{
    assert(at(p).skip() == at(p + 1));
    let x = xs[0];
    assert(a_word(g)(starts[0], x, ends[0]));
    assert(word(g, at(p)) == read(ends[0], x));
    assert(at(p).after(word(g, at(p))) == at(ends[0]));
    words_with_colons_from(g, xs, starts, ends, 0);
    assert(seq![x] =~= xs.take(1));
    assert(at(ends[0]).after(segments(g, at(ends[0]), seq![x])) == at(ends[xs.len() - 1]));
}

/// A name and the further names of a path.
pub open spec fn segments_of(g: Src, s: Cur) -> Step<Seq<Seq<char>>> {
    let first = word(g, s);
    segments(g, s.after(first), seq![first.out()])
}

/// Two or more names with `::` between them, with no type arguments and no braces behind, are
/// the path of exactly these names.
pub proof fn path_expression(
    g: Src,
    p: nat,
    xs: Seq<Seq<char>>,
    starts: Seq<nat>,
    ends: Seq<nat>,
)
    requires
        xs.len() > 1,
        g.kind(p) is Ident || (g.kind(p) matches TokenKind::Keyword(k) && !begins_expression(k)),
        listed(g, a_word(g), TokenKind::Op(Op::ColonColon), xs, starts, ends),
        p == starts[0],
        g.kind(ends[xs.len() - 1]) != TokenKind::Op(Op::ColonColon),
        !g.lit || g.kind(ends[xs.len() - 1]) != TokenKind::Delim(Delim::LBrace),
    ensures
        primary(g, at(p)) == read(ends[xs.len() - 1], Expr::Path(xs)),
{
    let q = ends[xs.len() - 1];
    words_with_colons(g, p, xs, starts, ends);
    words_with_colons_from(g, xs, starts, ends, 0);
    assert(a_word(g)(starts[0], xs[0], ends[0]));
    assert(at(p).after(word(g, at(p))) == at(ends[0]));
    assert(turbofish(g, at(q)) == read(q, ()));
    assert(at(ends[0]).after(segments(g, at(ends[0]), seq![xs[0]])) == at(q));
    assert(path_primary(g, at(p)) == read(q, Expr::Path(xs)));
    assert(primary(g, at(p)) == path_primary(g, at(p)));
}

/// `[items]` is an array of exactly these items.
pub proof fn array_expression(g: Src, p: nat)
    requires
        g.kind(p) == TokenKind::Delim(Delim::LBracket),
    ensures
        ({
            let items = expr_list(g, at(p + 1), Delim::RBracket);
            let q_items = behind(p + 1, items);
            let fits = items.res is Ok
                && g.kind(q_items) == TokenKind::Delim(Delim::RBracket);
            &&& primary(g, at(p)).res is Ok <==> fits
            &&& fits ==> primary(g, at(p)) == read(q_items + 1, Expr::Array(items.out()))
        }),
{
    let items = expr_list(g, at(p + 1), Delim::RBracket);
    let q_items = behind(p + 1, items);
    assert(at(p).skip() == at(p + 1));
    assert(items.res is Ok ==> at(p + 1).after(items) == at(q_items));
    assert(g.kind(q_items) == TokenKind::Delim(Delim::RBracket)
        ==> at(q_items).delim(g, Delim::RBracket) == at(q_items + 1));
}

/// A block is an expression.
pub proof fn block_expression(g: Src, p: nat)
    requires
        g.kind(p) == TokenKind::Delim(Delim::LBrace),
    ensures
        ({
            let body = block(g, at(p));
            let q_body = behind(p, body);
            let fits = body.res is Ok;
            &&& primary(g, at(p)).res is Ok <==> fits
            &&& fits ==> primary(g, at(p)) == read(q_body, Expr::Block(Box::new(body.out())))
        }),
{
    let body = block(g, at(p));
    let q_body = behind(p, body);
    assert(body.res is Ok ==> at(p).after(body) == at(q_body));
}

/// `name: value` is an argument with a label.
#[verifier::rlimit(20)]
pub proof fn named_argument(g: Src, p: nat)
    requires
        is_word(g.kind(p)),
        g.kind(p + 1) == TokenKind::Delim(Delim::Colon),
        word(g, at(p)).out() != "on"@,
    ensures
        ({
            let name = word(g, at(p));
            let q_name = behind(p, name);
            let value = expr(g, at(q_name + 1), 0);
            let q_value = behind(q_name + 1, value);
            let fits = name.res is Ok
                && g.kind(q_name) == TokenKind::Delim(Delim::Colon)
                && value.res is Ok;
            &&& arg(g, at(p)).res is Ok <==> fits
            &&& fits
                ==> arg(g, at(p)) == read(
                    q_value,
                    Arg { name: Some(name.out()), value: value.out() },
                )
        }),
{
    let name = word(g, at(p));
    let q_name = behind(p, name);
    let value = expr(g, at(q_name + 1), 0);
    let q_value = behind(q_name + 1, value);
    assert(q_name == p + 1);
    assert(at(p + 1).skip() == at(p + 2));
    assert(name.res is Ok ==> at(p).after(name) == at(q_name));
    assert(g.kind(q_name) == TokenKind::Delim(Delim::Colon)
        ==> at(q_name).delim(g, Delim::Colon) == at(q_name + 1));
    assert(value.res is Ok ==> at(q_name + 1).after(value) == at(q_value));
}

/// The value of `on:` is an event handler where `event =>` follows, else an expression.
#[verifier::rlimit(20)]
pub proof fn handler_argument(g: Src, p: nat)
    requires
        is_word(g.kind(p)),
        g.kind(p + 1) == TokenKind::Delim(Delim::Colon),
        word(g, at(p)).out() == "on"@,
    ensures
        ({
            let name = word(g, at(p));
            let q_name = behind(p, name);
            let value = event_handler(g, at(q_name + 1));
            let q_value = behind(q_name + 1, value);
            let fits = name.res is Ok
                && g.kind(q_name) == TokenKind::Delim(Delim::Colon)
                && value.res is Ok;
            &&& arg(g, at(p)).res is Ok <==> fits
            &&& fits
                ==> arg(g, at(p)) == read(
                    q_value,
                    Arg { name: Some(name.out()), value: value.out() },
                )
        }),
{
    let name = word(g, at(p));
    let q_name = behind(p, name);
    let value = event_handler(g, at(q_name + 1));
    let q_value = behind(q_name + 1, value);
    assert(q_name == p + 1);
    assert(at(p + 1).skip() == at(p + 2));
    assert(name.res is Ok ==> at(p).after(name) == at(q_name));
    assert(g.kind(q_name) == TokenKind::Delim(Delim::Colon)
        ==> at(q_name).delim(g, Delim::Colon) == at(q_name + 1));
    assert(value.res is Ok ==> at(q_name + 1).after(value) == at(q_value));
}

/// What no `name:` begins is an argument without a label.
#[verifier::rlimit(20)]
pub proof fn plain_argument(g: Src, p: nat)
    requires
        !(is_word(g.kind(p)) && g.kind(p + 1) == TokenKind::Delim(Delim::Colon)),
    ensures
        ({
            let value = expr(g, at(p), 0);
            let q_value = behind(p, value);
            let fits = value.res is Ok;
            &&& arg(g, at(p)).res is Ok <==> fits
            &&& fits ==> arg(g, at(p)) == read(q_value, Arg { name: None, value: value.out() })
        }),
{
    let value = expr(g, at(p), 0);
    let q_value = behind(p, value);
    assert(at(p).skip() == at(p + 1));
    assert(value.res is Ok ==> at(p).after(value) == at(q_value));
}

/// `event => body` handles the event.
pub proof fn event_handler_form(g: Src, p: nat)
    requires
        is_word(g.kind(p)),
        g.ahead(p, 1) == TokenKind::Op(Op::FatArrow),
    ensures
        ({
            let event = word(g, at(p));
            let q_event = behind(p, event);
            let body = expr(g, at(q_event + 1), 0);
            let q_body = behind(q_event + 1, body);
            let fits = event.res is Ok
                && g.kind(q_event) == TokenKind::Op(Op::FatArrow)
                && body.res is Ok;
            &&& event_handler(g, at(p)).res is Ok <==> fits
            &&& fits
                ==> event_handler(g, at(p)) == read(
                    q_body,
                    Expr::EventHandler { event: event.out(), body: Box::new(body.out()) },
                )
        }),
{
    let event = word(g, at(p));
    let q_event = behind(p, event);
    let body = expr(g, at(q_event + 1), 0);
    let q_body = behind(q_event + 1, body);
    assert(q_event == p + 1);
    assert(event.res is Ok ==> at(p).after(event) == at(q_event));
    assert(g.kind(q_event) == TokenKind::Op(Op::FatArrow)
        ==> at(q_event).op(g, Op::FatArrow) == at(q_event + 1));
    assert(body.res is Ok ==> at(q_event + 1).after(body) == at(q_body));
}

/// Without `event =>` an event handler is an expression.
pub proof fn event_handler_expression(g: Src, p: nat)
    requires
        !(is_word(g.kind(p)) && g.ahead(p, 1) == TokenKind::Op(Op::FatArrow)),
    ensures
        event_handler(g, at(p)) == expr(g, at(p), 0),
{
}

/// A name with a value, `name: value`, from `a` up to `b`.
pub open spec fn a_prop(g: Src) -> spec_fn(nat, (Seq<char>, Expr), nat) -> bool {
    |a: nat, x: (Seq<char>, Expr), b: nat|
        {
            &&& word(g, at(a)) == read(a + 1, x.0)
            &&& g.kind(a + 1) == TokenKind::Delim(Delim::Colon)
            &&& expr(g, at(a + 2), 0) == read(b, x.1)
            &&& a + 2 <= b
        }
}

#[verifier::rlimit(30)]
proof fn props_in_a_list_from(
    g: Src,
    xs: Seq<(Seq<char>, Expr)>,
    starts: Seq<nat>,
    ends: Seq<nat>,
    q: nat,
    k: int,
)
    requires
        0 <= k < xs.len(),
        listed(g, a_prop(g), TokenKind::Delim(Delim::Comma), xs, starts, ends),
        forall|i: int| 0 <= i < xs.len()
            ==> g.kind(#[trigger] starts[i]) != TokenKind::Delim(Delim::RBrace),
        list_end(g, ends[xs.len() - 1], TokenKind::Delim(Delim::RBrace), q),
    ensures
        prop_list(g, at(starts[k]), xs.take(k)) == read(q, xs),
        starts[k] <= q,
    decreases xs.len() - k,
{
    let done = xs.take(k);
    let x = xs[k];
    let p = starts[k];
    let e = ends[k];
    assert(a_prop(g)(p, x, e));
    assert(g.kind(starts[k]) == g.kind(p));
    assert(at(e).skip() == at(e + 1));
    assert(done.push(x) =~= xs.take(k + 1));
    assert(at(p).after(word(g, at(p))) == at(p + 1));
    assert(at(p + 1).delim(g, Delim::Colon) == at(p + 2));
    assert(at(p + 2).after(expr(g, at(p + 2), 0)) == at(e));
    assert(x == (x.0, x.1));
    if k + 1 == xs.len() {
        assert(xs.take(k + 1) =~= xs);
        if g.kind(e) == TokenKind::Delim(Delim::Comma) {
            assert(prop_list(g, at(e + 1), xs) == read(e + 1, xs));
        }
    } else {
        props_in_a_list_from(g, xs, starts, ends, q, k + 1);
        assert(g.kind(ends[k]) == TokenKind::Delim(Delim::Comma) && starts[k + 1] == e + 1);
    }
}

/// Names with values, with commas between them, are read in their order up to `}`.
pub proof fn props_in_a_list(
    g: Src,
    xs: Seq<(Seq<char>, Expr)>,
    starts: Seq<nat>,
    ends: Seq<nat>,
    q: nat,
)
    requires
        xs.len() > 0,
        listed(g, a_prop(g), TokenKind::Delim(Delim::Comma), xs, starts, ends),
        forall|i: int| 0 <= i < xs.len()
            ==> g.kind(#[trigger] starts[i]) != TokenKind::Delim(Delim::RBrace),
        list_end(g, ends[xs.len() - 1], TokenKind::Delim(Delim::RBrace), q),
    ensures
        prop_list(g, at(starts[0]), seq![]) == read(q, xs),
{
    props_in_a_list_from(g, xs, starts, ends, q, 0);
    assert(xs.take(0) =~= Seq::<(Seq<char>, Expr)>::empty());
}

#[verifier::rlimit(30)]
proof fn fields_in_a_list_from(
    g: Src,
    xs: Seq<(Seq<char>, Expr)>,
    starts: Seq<nat>,
    ends: Seq<nat>,
    q: nat,
    k: int,
)
    requires
        0 <= k < xs.len(),
        listed(g, a_prop(g), TokenKind::Delim(Delim::Comma), xs, starts, ends),
        forall|i: int| 0 <= i < xs.len()
            ==> g.kind(#[trigger] starts[i]) != TokenKind::Delim(Delim::RBrace),
        forall|i: int| 0 <= i < xs.len()
            ==> g.kind(#[trigger] starts[i]) != TokenKind::Op(Op::DotDot),
        list_end(g, ends[xs.len() - 1], TokenKind::Delim(Delim::RBrace), q),
    ensures
        struct_fields(g, at(starts[k]), xs.take(k)) == read(q, (xs, None::<Box<Expr>>)),
        starts[k] <= q,
    decreases xs.len() - k,
{
    let done = xs.take(k);
    let x = xs[k];
    let p = starts[k];
    let e = ends[k];
    assert(a_prop(g)(p, x, e));
    assert(g.kind(starts[k]) == g.kind(p));
    assert(at(e).skip() == at(e + 1));
    assert(done.push(x) =~= xs.take(k + 1));
    assert(at(p).after(word(g, at(p))) == at(p + 1));
    assert(at(p + 1).delim(g, Delim::Colon) == at(p + 2));
    assert(at(p + 2).after(expr(g, at(p + 2), 0)) == at(e));
    assert(x == (x.0, x.1));
    if k + 1 == xs.len() {
        assert(xs.take(k + 1) =~= xs);
        if g.kind(e) == TokenKind::Delim(Delim::Comma) {
            assert(struct_fields(g, at(e + 1), xs) == read(e + 1, (xs, None::<Box<Expr>>)));
        }
    } else {
        fields_in_a_list_from(g, xs, starts, ends, q, k + 1);
        assert(g.kind(ends[k]) == TokenKind::Delim(Delim::Comma) && starts[k + 1] == e + 1);
    }
}

/// The fields of a struct literal, with commas between them, are read in their order up to `}`.
pub proof fn fields_in_a_list(
    g: Src,
    xs: Seq<(Seq<char>, Expr)>,
    starts: Seq<nat>,
    ends: Seq<nat>,
    q: nat,
)
    requires
        xs.len() > 0,
        listed(g, a_prop(g), TokenKind::Delim(Delim::Comma), xs, starts, ends),
        forall|i: int| 0 <= i < xs.len()
            ==> g.kind(#[trigger] starts[i]) != TokenKind::Delim(Delim::RBrace),
        forall|i: int| 0 <= i < xs.len()
            ==> g.kind(#[trigger] starts[i]) != TokenKind::Op(Op::DotDot),
        list_end(g, ends[xs.len() - 1], TokenKind::Delim(Delim::RBrace), q),
    ensures
        struct_fields(g, at(starts[0]), seq![]) == read(q, (xs, None::<Box<Expr>>)),
{
    fields_in_a_list_from(g, xs, starts, ends, q, 0);
    assert(xs.take(0) =~= Seq::<(Seq<char>, Expr)>::empty());
}

#[verifier::rlimit(30)]
proof fn children_in_a_list_from(
    g: Src,
    xs: Seq<Expr>,
    starts: Seq<nat>,
    ends: Seq<nat>,
    q: nat,
    k: int,
)
    requires
        0 <= k < xs.len(),
        listed(g, an_expr(g), TokenKind::Delim(Delim::Comma), xs, starts, ends),
        forall|i: int| 0 <= i < xs.len()
            ==> g.kind(#[trigger] starts[i]) != TokenKind::Delim(Delim::RBrace),
        list_end(g, ends[xs.len() - 1], TokenKind::Delim(Delim::RBrace), q),
    ensures
        children(g, at(starts[k]), xs.take(k)) == read(q, xs),
        starts[k] <= q,
    decreases xs.len() - k,
{
    let done = xs.take(k);
    let x = xs[k];
    let p = starts[k];
    let e = ends[k];
    assert(an_expr(g)(p, x, e));
    assert(g.kind(starts[k]) == g.kind(p));
    assert(at(e).skip() == at(e + 1));
    assert(done.push(x) =~= xs.take(k + 1));
    assert(at(p).after(expr(g, at(p), 0)) == at(e));
    if k + 1 == xs.len() {
        assert(xs.take(k + 1) =~= xs);
        if g.kind(e) == TokenKind::Delim(Delim::Comma) {
            assert(children(g, at(e + 1), xs) == read(e + 1, xs));
        }
    } else {
        children_in_a_list_from(g, xs, starts, ends, q, k + 1);
        assert(g.kind(ends[k]) == TokenKind::Delim(Delim::Comma) && starts[k + 1] == e + 1);
    }
}

/// Children with commas between them are read in their order up to `}`.
pub proof fn children_in_a_list(
    g: Src,
    xs: Seq<Expr>,
    starts: Seq<nat>,
    ends: Seq<nat>,
    q: nat,
)
    requires
        xs.len() > 0,
        listed(g, an_expr(g), TokenKind::Delim(Delim::Comma), xs, starts, ends),
        forall|i: int| 0 <= i < xs.len()
            ==> g.kind(#[trigger] starts[i]) != TokenKind::Delim(Delim::RBrace),
        list_end(g, ends[xs.len() - 1], TokenKind::Delim(Delim::RBrace), q),
    ensures
        children(g, at(starts[0]), seq![]) == read(q, xs),
{
    children_in_a_list_from(g, xs, starts, ends, q, 0);
    assert(xs.take(0) =~= Seq::<Expr>::empty());
}

/// `{ props }` holds names with values.
pub proof fn props_form(g: Src, p: nat)
    ensures
        ({
            let all = prop_list(g, at(p + 1), seq![]);
            let q_all = behind(p + 1, all);
            let fits = g.kind(p) == TokenKind::Delim(Delim::LBrace)
                && all.res is Ok
                && g.kind(q_all) == TokenKind::Delim(Delim::RBrace);
            &&& props(g, at(p)).res is Ok <==> fits
            &&& fits ==> props(g, at(p)) == read(q_all + 1, all.out())
        }),
{
    let all = prop_list(g, at(p + 1), seq![]);
    let q_all = behind(p + 1, all);
    assert(g.kind(p) == TokenKind::Delim(Delim::LBrace)
        ==> at(p).delim(g, Delim::LBrace) == at(p + 1));
    assert(all.res is Ok ==> at(p + 1).after(all) == at(q_all));
    assert(g.kind(q_all) == TokenKind::Delim(Delim::RBrace)
        ==> at(q_all).delim(g, Delim::RBrace) == at(q_all + 1));
}

/// `}` ends a list of names with values, of fields, or of children, even where there are none.
pub proof fn ends_of_lists(g: Src, p: nat, done: Seq<(Seq<char>, Expr)>, kids: Seq<Expr>)
    requires
        g.kind(p) == TokenKind::Delim(Delim::RBrace),
    ensures
        prop_list(g, at(p), done) == read(p, done),
        struct_fields(g, at(p), done) == read(p, (done, None::<Box<Expr>>)),
        children(g, at(p), kids) == read(p, kids),
{
}

/// `..rest` ends the fields of a struct literal: the others are taken from `rest`.
pub proof fn spread_of_a_literal(g: Src, p: nat, done: Seq<(Seq<char>, Expr)>)
    requires
        g.kind(p) == TokenKind::Op(Op::DotDot),
    ensures
        ({
            let rest = expr(g, at(p + 1), 0);
            let q_rest = behind(p + 1, rest);
            let fits = rest.res is Ok;
            &&& struct_fields(g, at(p), done).res is Ok <==> fits
            &&& fits
                ==> struct_fields(g, at(p), done) == read(
                    q_rest,
                    (done, Some(Box::new(rest.out()))),
                )
        }),
{
    let rest = expr(g, at(p + 1), 0);
    let q_rest = behind(p + 1, rest);
    assert(at(p).skip() == at(p + 1));
    assert(rest.res is Ok ==> at(p + 1).after(rest) == at(q_rest));
}

/// A field in front of further ones is read, and reading goes on behind its comma.
pub proof fn one_field_more(
    g: Src,
    p: nat,
    done: Seq<(Seq<char>, Expr)>,
    x: (Seq<char>, Expr),
    q: nat,
)
    requires
        a_prop(g)(p, x, q),
        g.kind(q) == TokenKind::Delim(Delim::Comma),
    ensures
        struct_fields(g, at(p), done) == struct_fields(g, at(q + 1), done.push(x)),
        prop_list(g, at(p), done) == prop_list(g, at(q + 1), done.push(x)),
{
    assert(at(p).after(word(g, at(p))) == at(p + 1));
    assert(at(p + 1).delim(g, Delim::Colon) == at(p + 2));
    assert(at(p + 2).after(expr(g, at(p + 2), 0)) == at(q));
    assert(at(q).skip() == at(q + 1));
    assert(x == (x.0, x.1));
}

/// A name with `{ field: value, ... }` behind it is a literal of that struct, with exactly
/// these fields and what is spread.
#[verifier::rlimit(30)]
pub proof fn struct_literal(g: Src, p: nat, name: String)
    requires
        g.lit,
        g.kind(p) == TokenKind::Ident(name),
        g.kind(p + 1) == TokenKind::Delim(Delim::LBrace),
        is_word(g.ahead(p + 1, 1)) && g.ahead(p + 1, 2) == TokenKind::Delim(Delim::Colon),
    ensures
        ({
            let parts = struct_fields(g, at(p + 2), seq![]);
            let q_parts = behind(p + 2, parts);
            let fits = parts.res is Ok
                && g.kind(q_parts) == TokenKind::Delim(Delim::RBrace);
            &&& primary(g, at(p)).res is Ok <==> fits
            &&& fits
                ==> primary(g, at(p)) == read(
                    q_parts + 1,
                    Expr::StructLit { name: name@, fields: parts.out().0, spread: parts.out().1 },
                )
        }),
{
    let parts = struct_fields(g, at(p + 2), seq![]);
    let q_parts = behind(p + 2, parts);
    assert(at(p).skip() == at(p + 1));
    assert(at(p + 1).skip() == at(p + 2));
    assert(parts.res is Ok ==> at(p + 2).after(parts) == at(q_parts));
    assert(g.kind(q_parts) == TokenKind::Delim(Delim::RBrace)
        ==> at(q_parts).delim(g, Delim::RBrace) == at(q_parts + 1));
    reveal_with_fuel(joined, 3);
    assert(word(g, at(p)) == read(p + 1, name@));
    assert(segments(g, at(p + 1), seq![name@]) == read(p + 1, seq![name@]));
    assert(turbofish(g, at(p + 1)) == read(p + 1, ()));
    assert(joined(seq![name@]) == name@);
    assert(path_primary(g, at(p)) == struct_lit_tail(g, at(p + 2), name@));
    assert(primary(g, at(p)) == path_primary(g, at(p)));
}

/// A name with anything else in braces behind it is that component with these children.
#[verifier::rlimit(30)]
pub proof fn component_children(g: Src, p: nat, name: String)
    requires
        g.lit,
        g.kind(p) == TokenKind::Ident(name),
        g.kind(p + 1) == TokenKind::Delim(Delim::LBrace),
        !(is_word(g.ahead(p + 1, 1)) && g.ahead(p + 1, 2) == TokenKind::Delim(Delim::Colon)),
    ensures
        ({
            let all = children(g, at(p + 2), seq![]);
            let q_all = behind(p + 2, all);
            let fits = all.res is Ok
                && g.kind(q_all) == TokenKind::Delim(Delim::RBrace);
            &&& primary(g, at(p)).res is Ok <==> fits
            &&& fits
                ==> primary(g, at(p)) == read(
                    q_all + 1,
                    Expr::ComponentChildren { name: name@, children: all.out() },
                )
        }),
{
    let all = children(g, at(p + 2), seq![]);
    let q_all = behind(p + 2, all);
    assert(at(p).skip() == at(p + 1));
    assert(at(p + 1).skip() == at(p + 2));
    assert(all.res is Ok ==> at(p + 2).after(all) == at(q_all));
    assert(g.kind(q_all) == TokenKind::Delim(Delim::RBrace)
        ==> at(q_all).delim(g, Delim::RBrace) == at(q_all + 1));
    reveal_with_fuel(joined, 3);
    assert(word(g, at(p)) == read(p + 1, name@));
    assert(segments(g, at(p + 1), seq![name@]) == read(p + 1, seq![name@]));
    assert(turbofish(g, at(p + 1)) == read(p + 1, ()));
    assert(joined(seq![name@]) == name@);
    assert(path_primary(g, at(p)) == component_tail(g, at(p + 2), name@));
    assert(primary(g, at(p)) == path_primary(g, at(p)));
}

/// The name of a struct literal, or of a component, is its whole path.
#[verifier::rlimit(30)]
pub proof fn literal_of_a_path(
    g: Src,
    p: nat,
    xs: Seq<Seq<char>>,
    starts: Seq<nat>,
    ends: Seq<nat>,
)
    requires
        xs.len() > 0,
        g.lit,
        g.kind(p) is Ident || (g.kind(p) matches TokenKind::Keyword(k) && !begins_expression(k)),
        listed(g, a_word(g), TokenKind::Op(Op::ColonColon), xs, starts, ends),
        p == starts[0],
        g.kind(ends[xs.len() - 1]) == TokenKind::Delim(Delim::LBrace),
    ensures
        ({
            let q = ends[xs.len() - 1];
            primary(g, at(p)) == (if is_word(g.ahead(q, 1)) && g.ahead(q, 2) == TokenKind::Delim(
                Delim::Colon,
            ) {
                struct_lit_tail(g, at(q + 1), joined(xs))
            } else {
                component_tail(g, at(q + 1), joined(xs))
            })
        }),
{
    let q = ends[xs.len() - 1];
    words_with_colons(g, p, xs, starts, ends);
    words_with_colons_from(g, xs, starts, ends, 0);
    assert(a_word(g)(starts[0], xs[0], ends[0]));
    assert(at(p).after(word(g, at(p))) == at(ends[0]));
    assert(turbofish(g, at(q)) == read(q, ()));
    assert(at(q).skip() == at(q + 1));
    assert(at(ends[0]).after(segments(g, at(ends[0]), seq![xs[0]])) == at(q));
    assert(primary(g, at(p)) == path_primary(g, at(p)));
}

/// After the `{` of a struct literal: its fields and `}`.
pub proof fn fields_of_a_literal(g: Src, p: nat, name: Seq<char>)
    ensures
        ({
            let parts = struct_fields(g, at(p), seq![]);
            let q_parts = behind(p, parts);
            let fits = parts.res is Ok
                && g.kind(q_parts) == TokenKind::Delim(Delim::RBrace);
            &&& struct_lit_tail(g, at(p), name).res is Ok <==> fits
            &&& fits
                ==> struct_lit_tail(g, at(p), name) == read(
                    q_parts + 1,
                    Expr::StructLit { name, fields: parts.out().0, spread: parts.out().1 },
                )
        }),
{
    let parts = struct_fields(g, at(p), seq![]);
    let q_parts = behind(p, parts);
    assert(parts.res is Ok ==> at(p).after(parts) == at(q_parts));
    assert(g.kind(q_parts) == TokenKind::Delim(Delim::RBrace)
        ==> at(q_parts).delim(g, Delim::RBrace) == at(q_parts + 1));
}

/// After the `{` of a component: its children and `}`.
pub proof fn children_of_a_component(g: Src, p: nat, name: Seq<char>)
    ensures
        ({
            let all = children(g, at(p), seq![]);
            let q_all = behind(p, all);
            let fits = all.res is Ok
                && g.kind(q_all) == TokenKind::Delim(Delim::RBrace);
            &&& component_tail(g, at(p), name).res is Ok <==> fits
            &&& fits
                ==> component_tail(g, at(p), name) == read(
                    q_all + 1,
                    Expr::ComponentChildren { name, children: all.out() },
                )
        }),
{
    let all = children(g, at(p), seq![]);
    let q_all = behind(p, all);
    assert(all.res is Ok ==> at(p).after(all) == at(q_all));
    assert(g.kind(q_all) == TokenKind::Delim(Delim::RBrace)
        ==> at(q_all).delim(g, Delim::RBrace) == at(q_all + 1));
}

} // verus!
