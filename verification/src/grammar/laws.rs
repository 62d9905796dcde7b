//! What holds of the grammar as a whole.
use crate::ast::BinaryOp;
use crate::grammar::cursor::{segments, word, Cur, Failure, Src, Step};
use crate::grammar::exprs::{
    expr, infix_at, infix_tail, is_word, join_infix, more_exprs, no_chain, paren_primary,
    path_primary, postfix, power, prefix, primary, turbofish, Infix,
};
use crate::grammar::items::{attrs, is_item_start, item, item_kind, program, resume, visibility};
use crate::grammar::recovery::{failing_item_moves, resume_moves};
use crate::grammar::types::{generic_args, ref_type, type_of};
use crate::parser::stream::without_docs;
use crate::token::{Delim, Keyword, Op, Token, TokenKind};
use crate::tree::{Expr, Item, Type};
use vstd::prelude::*;

verus! {

/// The place of a token, with nothing wrong so far.
pub open spec fn at(p: nat) -> Cur {
    Cur { pos: p, err: None }
}

/// A rule that applied.
pub open spec fn read<T>(end: nat, v: T) -> Step<T> {
    Step { end, res: Ok(v) }
}

/// Whether an operand stands from `p` up to `q`: a primary expression with its prefix
/// operators and with all that is hung on it.
pub open spec fn operand(g: Src, p: nat, e: Expr, q: nat) -> bool {
    p <= q && prefix(g, at(p)) == read(q, e)
}

/// Whether the operator `op` stands at `p`.
pub open spec fn infix(g: Src, p: nat, op: Infix) -> bool {
    infix_at(g.kind(p)) == Some(op)
}

/// Whether no operator goes on with the expression in front of `p`.
pub open spec fn stops(g: Src, p: nat) -> bool {
    infix_at(g.kind(p)) is None && g.kind(p) != TokenKind::Keyword(Keyword::As)
}

/// An operand on its own is the whole expression.
pub proof fn single_operand(g: Src, p: nat, a: Expr, q: nat, min: u8)
    requires
        operand(g, p, a, q),
        stops(g, q),
    ensures
        expr(g, at(p), min) == read(q, a),
{
    assert(at(p).after(prefix(g, at(p))) == at(q));
    assert(infix_tail(g, at(q), min, None, a) == read(q, a));
}

/// An operator with two operands is the whole expression.
pub proof fn single_operator(
    g: Src,
    p: nat,
    a: Expr,
    q1: nat,
    op: Infix,
    b: Expr,
    q2: nat,
    min: u8,
)
    requires
        operand(g, p, a, q1),
        infix(g, q1, op),
        operand(g, q1 + 1, b, q2),
        stops(g, q2),
        min <= power(op).0,
    ensures
        expr(g, at(p), min) == read(q2, join_infix(op, a, b)),
{
    single_operand(g, q1 + 1, b, q2, power(op).1);
    assert(at(p).after(prefix(g, at(p))) == at(q1));
    let rhs = expr(g, at(q1).skip(), power(op).1);
    assert(at(q1).skip() == at(q1 + 1));
    assert(at(q1).skip().after(rhs) == at(q2));
    let last = if no_chain(op) {
        Some(power(op).0)
    } else {
        None
    };
    assert(infix_tail(g, at(q2), min, last, join_infix(op, a, b)) == read(
        q2,
        join_infix(op, a, b),
    ));
    assert(infix_tail(g, at(q1), min, None, a) == read(q2, join_infix(op, a, b)));
}

/// Of two operators the one that holds the operand between them more tightly takes it.
/// Where both are on one level and that level does not chain, the expression is rejected
/// at the second.
pub proof fn tighter_operator_takes_the_operand(
    g: Src,
    p: nat,
    a: Expr,
    q1: nat,
    first: Infix,
    b: Expr,
    q2: nat,
    second: Infix,
    c: Expr,
    q3: nat,
)
    requires
        operand(g, p, a, q1),
        infix(g, q1, first),
        operand(g, q1 + 1, b, q2),
        infix(g, q2, second),
        operand(g, q2 + 1, c, q3),
        stops(g, q3),
    ensures
        expr(g, at(p), 0) == (if power(second).0 >= power(first).1 {
            read(q3, join_infix(first, a, join_infix(second, b, c)))
        } else if no_chain(first) && no_chain(second) && power(first).0 == power(second).0 {
            at(q2).fail(
                g,
                "chained comparison is not allowed; use `&&` to combine comparisons explicitly"@,
            ).stuck()
        } else {
            read(q3, join_infix(second, join_infix(first, a, b), c))
        }),
{
    let last = if no_chain(first) {
        Some(power(first).0)
    } else {
        None
    };
    assert(at(p).after(prefix(g, at(p))) == at(q1));
    assert(at(q1).skip() == at(q1 + 1));
    assert(at(q2).skip() == at(q2 + 1));
    let rhs = expr(g, at(q1).skip(), power(first).1);
    if power(second).0 >= power(first).1 {
        single_operator(g, q1 + 1, b, q2, second, c, q3, power(first).1);
        let joined = join_infix(first, a, join_infix(second, b, c));
        assert(at(q1).skip().after(rhs) == at(q3));
        assert(infix_tail(g, at(q3), 0, last, joined) == read(q3, joined));
        assert(infix_tail(g, at(q1), 0, None, a) == read(q3, joined));
    } else {
        assert(at(q1 + 1).after(prefix(g, at(q1 + 1))) == at(q2));
        assert(infix_tail(g, at(q2), power(first).1, None, b) == read(q2, b));
        assert(rhs == read(q2, b));
        assert(at(q1).skip().after(rhs) == at(q2));
        let left = join_infix(first, a, b);
        assert(infix_tail(g, at(q1), 0, None, a) == infix_tail(g, at(q2), 0, last, left));
        if no_chain(first) && no_chain(second) && power(first).0 == power(second).0 {
        } else {
            single_operand(g, q2 + 1, c, q3, power(second).1);
            let rest = expr(g, at(q2).skip(), power(second).1);
            assert(at(q2).skip().after(rest) == at(q3));
            let joined = join_infix(second, left, c);
            let after = if no_chain(second) {
                Some(power(second).0)
            } else {
                last
            };
            assert(infix_tail(g, at(q3), 0, after, joined) == read(q3, joined));
        }
    }
}

/// Assignment and powers group to the right, every other operator to the left.
pub proof fn grouping(op: Infix)
    ensures
        (op is Assign || op == Infix::Binary(BinaryOp::Pow)) ==> power(op).1 < power(op).0,
        !(op is Assign || op == Infix::Binary(BinaryOp::Pow)) ==> power(op).0 < power(op).1,
{
}

/// From loose to tight: assignment, `??`, `||`, `&&`, equality, comparison, ranges, `|`,
/// `^`, `&`, shifts, sums, products, powers. What is on a tighter level takes an operand
/// from either side.
pub proof fn levels(looser: Infix, tighter: Infix)
    requires
        level(looser) < level(tighter),
    ensures
        power(tighter).0 >= power(looser).1,
        power(looser).0 < power(tighter).1,
{
}

/// The level of an operator.
pub open spec fn level(op: Infix) -> int {
    match op {
        Infix::Assign(_) => 0,
        Infix::Range(_) => 6,
        Infix::Binary(b) => match b {
            BinaryOp::Coalesce => 1,
            BinaryOp::OrOr => 2,
            BinaryOp::AndAnd => 3,
            BinaryOp::EqEq | BinaryOp::NotEq => 4,
            BinaryOp::Lt | BinaryOp::Gt | BinaryOp::LtEq | BinaryOp::GtEq => 5,
            BinaryOp::BitOr => 7,
            BinaryOp::BitXor => 8,
            BinaryOp::BitAnd => 9,
            BinaryOp::Shl | BinaryOp::Shr => 10,
            BinaryOp::Add | BinaryOp::Sub => 11,
            BinaryOp::Mul | BinaryOp::Div | BinaryOp::Mod => 12,
            BinaryOp::Pow => 13,
        },
    }
}

/// A cast takes the operand in front of it, whatever operator that operand stands behind.
pub proof fn cast_takes_the_operand(
    g: Src,
    p: nat,
    a: Expr,
    q1: nat,
    t: Type,
    q2: nat,
    min: u8,
)
    requires
        operand(g, p, a, q1),
        g.kind(q1) == TokenKind::Keyword(Keyword::As),
        type_of(g, at(q1 + 1)) == read(q2, t),
        q1 + 1 <= q2,
        stops(g, q2),
    ensures
        expr(g, at(p), min) == read(q2, Expr::Cast { expr: Box::new(a), ty: Box::new(t) }),
{
    let cast = Expr::Cast { expr: Box::new(a), ty: Box::new(t) };
    assert(at(p).after(prefix(g, at(p))) == at(q1));
    assert(at(q1).skip() == at(q1 + 1));
    assert(at(q1).skip().after(type_of(g, at(q1).skip())) == at(q2));
    assert(infix_tail(g, at(q2), min, None, cast) == read(q2, cast));
    assert(infix_tail(g, at(q1), min, None, a) == read(q2, cast));
}

/// In a condition a name in front of `{` is the name alone, and the `{` is left for the
/// block.
pub proof fn names_in_conditions(g: Src, p: nat, name: String)
    requires
        !g.lit,
        g.kind(p) == TokenKind::Ident(name),
        g.kind(p + 1) == TokenKind::Delim(Delim::LBrace),
    ensures
        expr(g, at(p), 0) == read(p + 1, Expr::Ident(name@)),
{
    let s1 = at(p + 1);
    assert(at(p).skip() == s1);
    assert(word(g, at(p)) == read(p + 1, name@));
    assert(segments(g, s1, seq![name@]) == read(p + 1, seq![name@]));
    assert(turbofish(g, s1) == read(p + 1, ()));
    assert(path_primary(g, at(p)) == read(p + 1, Expr::Ident(name@)));
    assert(primary(g, at(p)) == path_primary(g, at(p)));
    assert(postfix(g, at(p)) == read(p + 1, Expr::Ident(name@)));
    single_operand(g, p, Expr::Ident(name@), p + 1, 0);
}

/// Where a struct literal may stand, a name with `word :` in its braces is one; with
/// anything else in them, or nothing, it is a list of children.
pub proof fn braces_after_a_name(g: Src, p: nat, name: String)
    requires
        g.lit,
        g.kind(p) == TokenKind::Ident(name),
        g.kind(p + 1) == TokenKind::Delim(Delim::LBrace),
        primary(g, at(p)).res is Ok,
    ensures
        if is_word(g.ahead(p + 1, 1)) && g.ahead(p + 1, 2) == TokenKind::Delim(Delim::Colon) {
            primary(g, at(p)).out() is StructLit
        } else {
            primary(g, at(p)).out() is ComponentChildren
        },
{
    let s1 = at(p + 1);
    assert(at(p).skip() == s1);
    assert(word(g, at(p)) == read(p + 1, name@));
    assert(segments(g, s1, seq![name@]) == read(p + 1, seq![name@]));
    assert(turbofish(g, s1) == read(p + 1, ()));
    assert(primary(g, at(p)) == path_primary(g, at(p)));
}

/// The type arguments of `name::<...>` are read and not kept.
pub proof fn type_arguments_are_not_kept(g: Src, p: nat, name: String, args: Seq<Type>, q: nat)
    requires
        g.kind(p) == TokenKind::Ident(name),
        g.kind(p + 1) == TokenKind::Op(Op::ColonColon),
        g.kind(p + 2) == TokenKind::Op(Op::Lt),
        generic_args(g, at(p + 2)) == read(q, args),
        p + 2 <= q,
        g.kind(q) != TokenKind::Delim(Delim::LBrace),
    ensures
        primary(g, at(p)) == read(q, Expr::Ident(name@)),
{
    let s1 = at(p + 1);
    assert(at(p).skip() == s1);
    assert(s1.skip() == at(p + 2));
    assert(word(g, at(p)) == read(p + 1, name@));
    assert(segments(g, s1, seq![name@]) == read(p + 1, seq![name@]));
    assert(s1.skip().after(generic_args(g, s1.skip())) == at(q));
    assert(turbofish(g, s1) == read(q, ()));
    assert(path_primary(g, at(p)) == read(q, Expr::Ident(name@)));
    assert(primary(g, at(p)) == path_primary(g, at(p)));
}

/// `borrow T` and `&T` are one type in two spellings, and so are `borrow mut T` and `&mut T`:
/// a reference to what `T` is read as.
pub proof fn borrow_is_a_reference(g: Src, p: nat, t: Type, q: nat)
    requires
        g.kind(p) == TokenKind::Op(Op::Amp) || g.kind(p) == TokenKind::Keyword(Keyword::Borrow),
    ensures
        g.kind(p + 1) != TokenKind::Keyword(Keyword::Mut) && p + 1 <= q && type_of(g, at(p + 1))
            == read(q, t) ==> type_of(g, at(p)) == read(
            q,
            Type::Ref { lifetime: None, mutable: false, inner: Box::new(t) },
        ),
        g.kind(p + 1) == TokenKind::Keyword(Keyword::Mut) && p + 2 <= q && type_of(g, at(p + 2))
            == read(q, t) ==> type_of(g, at(p)) == read(
            q,
            Type::Ref { lifetime: None, mutable: true, inner: Box::new(t) },
        ),
        type_of(g, at(p)) == ref_type(g, at(p + 1)),
        type_of(g, at(p)).res is Ok ==> type_of(g, at(p)).out() is Ref,
{
    assert(at(p).skip() == at(p + 1));
    assert(at(p + 1).skip() == at(p + 2));
}

/// An expression in parentheses is a tuple only where a comma follows it.
pub proof fn comma_makes_a_tuple(g: Src, p: nat, e: Expr, q: nat)
    requires
        g.kind(p) == TokenKind::Delim(Delim::LParen),
        g.kind(p + 1) != TokenKind::Delim(Delim::RParen),
        expr(g, at(p + 1), 0) == read(q, e),
        p + 1 <= q,
    ensures
        g.kind(q) == TokenKind::Delim(Delim::RParen) ==> primary(g, at(p)) == read(
            q + 1,
            Expr::Paren(Box::new(e)),
        ),
        g.kind(q) == TokenKind::Delim(Delim::Comma) && g.kind(q + 1) == TokenKind::Delim(
            Delim::RParen,
        ) ==> primary(g, at(p)) == read(q + 2, Expr::Tuple(seq![e])),
{
    assert(at(p).skip() == at(p + 1));
    assert(at(p + 1).after(expr(g, at(p + 1), 0)) == at(q));
    assert(primary(g, at(p)) == paren_primary(g, at(p + 1)));
    if g.kind(q) == TokenKind::Delim(Delim::Comma) && g.kind(q + 1) == TokenKind::Delim(
        Delim::RParen,
    ) {
        assert(at(q).skip() == at(q + 1));
        assert(more_exprs(g, at(q), Delim::RParen, seq![e]) == read(q + 1, seq![e]));
    }
}

/// Doc comments carry no meaning: a stream reads as it does with one more.
pub proof fn doc_comments_carry_no_meaning(toks: Seq<Token>, i: int, doc: Token)
    requires
        0 <= i <= toks.len(),
        doc.kind is DocComment,
    ensures
        without_docs(toks.insert(i, doc)) == without_docs(toks),
{
    let keep = |t: Token| !(t.kind is DocComment);
    let a = toks.take(i);
    let b = toks.skip(i);
    assert(toks =~= a + b);
    assert(toks.insert(i, doc) =~= a + (seq![doc] + b));
    Seq::filter_distributes_over_add(a, b, keep);
    Seq::filter_distributes_over_add(a, seq![doc] + b, keep);
    Seq::filter_distributes_over_add(seq![doc], b, keep);
    assert(seq![doc].filter(keep) =~= Seq::<Token>::empty()) by {
        reveal_with_fuel(Seq::filter, 2);
        assert(seq![doc].last() == doc);
        assert(seq![doc].drop_last() =~= Seq::<Token>::empty());
    }
}

/// An item always begins with a token that begins one.
proof fn items_begin_items(g: Src, p: nat)
    requires
        !is_item_start(g.kind(p)),
    ensures
        item(g, at(p)).res is Err,
{
    let s = at(p);
    assert(s.after(attrs(g, s, seq![])) == s);
    assert(s.after(visibility(g, s)) == s);
    assert(item_kind(g, s).res is Err);
}

/// A step of reading a program: an item that can be read is kept, and reading goes on
/// behind it; one that cannot is noted, and reading goes on further on all the same.
pub proof fn reading_goes_on(g: Src, p: nat, items: Seq<Item>, errors: Seq<Failure>)
    requires
        !(g.kind(p) is Eof),
    ensures
        match item(g, at(p)).res {
            Ok(x) => item(g, at(p)).end > p && program(g, p, items, errors) == program(
                g,
                item(g, at(p)).end,
                items.push(x),
                errors,
            ),
            Err(e) => resume(g, item(g, at(p)).end) > p && program(g, p, items, errors)
                == program(g, resume(g, item(g, at(p)).end), items, errors.push(e)),
        },
{
    let i = item(g, at(p));
    if is_item_start(g.kind(p)) {
        failing_item_moves(g, p);
        resume_moves(g, i.end);
    } else {
        items_begin_items(g, p);
        let s = at(p);
        assert(s.after(attrs(g, s, seq![])) == s);
        assert(s.after(visibility(g, s)) == s);
        assert(i.end >= p);
        resume_moves(g, i.end);
        resume_moves(g, p);
    }
}

/// What was read, and what was noted, stays.
pub proof fn reading_keeps_what_came_before(
    g: Src,
    p: nat,
    items: Seq<Item>,
    errors: Seq<Failure>,
)
    ensures
        items.is_prefix_of(program(g, p, items, errors).0.items),
        errors.is_prefix_of(program(g, p, items, errors).1),
    decreases at(p).left(g),
{
    if !(g.kind(p) is Eof) {
        let i = item(g, at(p));
        match i.res {
            Ok(x) => {
                if i.end > p {
                    reading_keeps_what_came_before(g, i.end, items.push(x), errors);
                    assert(items.is_prefix_of(items.push(x)));
                }
            },
            Err(e) => {
                let q = resume(g, i.end);
                if q > p {
                    reading_keeps_what_came_before(g, q, items, errors.push(e));
                    assert(errors.is_prefix_of(errors.push(e)));
                }
            },
        }
    }
}

/// A stream that begins with an item reads as that item and then the rest.
pub proof fn first_item_is_kept(g: Src, x: Item, q: nat)
    requires
        !(g.kind(0) is Eof),
        item(g, at(0)) == read(q, x),
    ensures
        program(g, 0, seq![], seq![]).0.items.len() > 0,
        program(g, 0, seq![], seq![]).0.items[0] == x,
{
    reading_goes_on(g, 0, seq![], seq![]);
    let items = Seq::<Item>::empty().push(x);
    reading_keeps_what_came_before(g, q, items, seq![]);
    assert(items[0] == x);
}

/// One bad item does not keep the next from being read: the failure is noted, and the item
/// where reading goes on is kept.
pub proof fn item_after_a_bad_one_is_kept(
    g: Src,
    p: nat,
    items: Seq<Item>,
    errors: Seq<Failure>,
    x: Item,
    r: nat,
)
    requires
        !(g.kind(p) is Eof),
        item(g, at(p)).res is Err,
        !(g.kind(resume(g, item(g, at(p)).end)) is Eof),
        item(g, at(resume(g, item(g, at(p)).end))) == read(r, x),
    ensures
        program(g, p, items, errors).0.items.len() > items.len(),
        program(g, p, items, errors).0.items[items.len() as int] == x,
        program(g, p, items, errors).1.len() > errors.len(),
        program(g, p, items, errors).1[errors.len() as int] == item(g, at(p)).res->Err_0,
{
    let e = item(g, at(p)).res->Err_0;
    let q = resume(g, item(g, at(p)).end);
    reading_goes_on(g, p, items, errors);
    reading_goes_on(g, q, items, errors.push(e));
    reading_keeps_what_came_before(g, r, items.push(x), errors.push(e));
    assert(items.push(x)[items.len() as int] == x);
    assert(errors.push(e)[errors.len() as int] == e);
}

} // verus!
