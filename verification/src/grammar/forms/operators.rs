//! Operators.
use crate::ast::{AssignOp, BinaryOp, UnaryOp};
use crate::grammar::cursor::{word, Src};
use crate::grammar::exprs::{
    args_tail, children, expr, infix_at, infix_tail, join_infix, member, no_chain, postfix,
    postfix_tail, power, prefix, primary, props, starts_suffix, suffix, turbofish, unary, Infix,
};
use crate::grammar::forms::behind;
use crate::grammar::laws::{
    at, infix, operand, read, single_operator, tighter_operator_takes_the_operand,
};
use crate::grammar::types::{generic_args, type_of};
use crate::token::{Delim, Keyword, Op, TokenKind};
use crate::tree::{Expr, Type};
use vstd::prelude::*;

verus! {

/// The tokens that end an expression for sure: separators, closing brackets, and `{` and the
/// arrow of a match arm.
pub open spec fn ends_expr(k: TokenKind) -> bool {
    ||| k is Delim
    ||| k is Eof
    ||| k == TokenKind::Op(Op::FatArrow)
    ||| k == TokenKind::Keyword(Keyword::Else)
}

/// Each operator between two operands builds the operation that it spells, with the operands on
/// their own sides.
pub proof fn binary_operators_spell_their_operation(
    g: Src,
    p: nat,
    a: Expr,
    q1: nat,
    b: Expr,
    q2: nat,
)
    requires
        operand(g, p, a, q1),
        operand(g, q1 + 1, b, q2),
        ends_expr(g.kind(q2)),
    ensures
        g.kind(q1) == TokenKind::Op(Op::Plus) ==> expr(g, at(p), 0) == read(
            q2,
            Expr::Binary { op: BinaryOp::Add, lhs: Box::new(a), rhs: Box::new(b) },
        ),
        g.kind(q1) == TokenKind::Op(Op::Minus) ==> expr(g, at(p), 0) == read(
            q2,
            Expr::Binary { op: BinaryOp::Sub, lhs: Box::new(a), rhs: Box::new(b) },
        ),
        g.kind(q1) == TokenKind::Op(Op::Star) ==> expr(g, at(p), 0) == read(
            q2,
            Expr::Binary { op: BinaryOp::Mul, lhs: Box::new(a), rhs: Box::new(b) },
        ),
        g.kind(q1) == TokenKind::Op(Op::Slash) ==> expr(g, at(p), 0) == read(
            q2,
            Expr::Binary { op: BinaryOp::Div, lhs: Box::new(a), rhs: Box::new(b) },
        ),
        g.kind(q1) == TokenKind::Op(Op::Percent) ==> expr(g, at(p), 0) == read(
            q2,
            Expr::Binary { op: BinaryOp::Mod, lhs: Box::new(a), rhs: Box::new(b) },
        ),
        g.kind(q1) == TokenKind::Op(Op::StarStar) ==> expr(g, at(p), 0) == read(
            q2,
            Expr::Binary { op: BinaryOp::Pow, lhs: Box::new(a), rhs: Box::new(b) },
        ),
        g.kind(q1) == TokenKind::Op(Op::EqEq) ==> expr(g, at(p), 0) == read(
            q2,
            Expr::Binary { op: BinaryOp::EqEq, lhs: Box::new(a), rhs: Box::new(b) },
        ),
        g.kind(q1) == TokenKind::Op(Op::NotEq) ==> expr(g, at(p), 0) == read(
            q2,
            Expr::Binary { op: BinaryOp::NotEq, lhs: Box::new(a), rhs: Box::new(b) },
        ),
        g.kind(q1) == TokenKind::Op(Op::Lt) ==> expr(g, at(p), 0) == read(
            q2,
            Expr::Binary { op: BinaryOp::Lt, lhs: Box::new(a), rhs: Box::new(b) },
        ),
        g.kind(q1) == TokenKind::Op(Op::Gt) ==> expr(g, at(p), 0) == read(
            q2,
            Expr::Binary { op: BinaryOp::Gt, lhs: Box::new(a), rhs: Box::new(b) },
        ),
        g.kind(q1) == TokenKind::Op(Op::LtEq) ==> expr(g, at(p), 0) == read(
            q2,
            Expr::Binary { op: BinaryOp::LtEq, lhs: Box::new(a), rhs: Box::new(b) },
        ),
        g.kind(q1) == TokenKind::Op(Op::GtEq) ==> expr(g, at(p), 0) == read(
            q2,
            Expr::Binary { op: BinaryOp::GtEq, lhs: Box::new(a), rhs: Box::new(b) },
        ),
        g.kind(q1) == TokenKind::Op(Op::AndAnd) ==> expr(g, at(p), 0) == read(
            q2,
            Expr::Binary { op: BinaryOp::AndAnd, lhs: Box::new(a), rhs: Box::new(b) },
        ),
        g.kind(q1) == TokenKind::Op(Op::OrOr) ==> expr(g, at(p), 0) == read(
            q2,
            Expr::Binary { op: BinaryOp::OrOr, lhs: Box::new(a), rhs: Box::new(b) },
        ),
        g.kind(q1) == TokenKind::Op(Op::QuestionQuestion) ==> expr(g, at(p), 0) == read(
            q2,
            Expr::Binary { op: BinaryOp::Coalesce, lhs: Box::new(a), rhs: Box::new(b) },
        ),
        g.kind(q1) == TokenKind::Op(Op::Amp) ==> expr(g, at(p), 0) == read(
            q2,
            Expr::Binary { op: BinaryOp::BitAnd, lhs: Box::new(a), rhs: Box::new(b) },
        ),
        g.kind(q1) == TokenKind::Op(Op::Pipe) ==> expr(g, at(p), 0) == read(
            q2,
            Expr::Binary { op: BinaryOp::BitOr, lhs: Box::new(a), rhs: Box::new(b) },
        ),
        g.kind(q1) == TokenKind::Op(Op::Caret) ==> expr(g, at(p), 0) == read(
            q2,
            Expr::Binary { op: BinaryOp::BitXor, lhs: Box::new(a), rhs: Box::new(b) },
        ),
        g.kind(q1) == TokenKind::Op(Op::Shl) ==> expr(g, at(p), 0) == read(
            q2,
            Expr::Binary { op: BinaryOp::Shl, lhs: Box::new(a), rhs: Box::new(b) },
        ),
        g.kind(q1) == TokenKind::Op(Op::Shr) ==> expr(g, at(p), 0) == read(
            q2,
            Expr::Binary { op: BinaryOp::Shr, lhs: Box::new(a), rhs: Box::new(b) },
        ),
{
    if let Some(op) = infix_at(g.kind(q1)) {
        single_operator(g, p, a, q1, op, b, q2, 0);
    }
}

/// Each assignment operator builds the assignment that it spells: what is assigned to on the
/// left, the value on the right.
pub proof fn assignments_spell_their_operation(g: Src, p: nat, a: Expr, q1: nat, b: Expr, q2: nat)
    requires
        operand(g, p, a, q1),
        operand(g, q1 + 1, b, q2),
        ends_expr(g.kind(q2)),
    ensures
        g.kind(q1) == TokenKind::Op(Op::Eq) ==> expr(g, at(p), 0) == read(
            q2,
            Expr::Assign { op: AssignOp::Eq, lhs: Box::new(a), rhs: Box::new(b) },
        ),
        g.kind(q1) == TokenKind::Op(Op::PlusEq) ==> expr(g, at(p), 0) == read(
            q2,
            Expr::Assign { op: AssignOp::PlusEq, lhs: Box::new(a), rhs: Box::new(b) },
        ),
        g.kind(q1) == TokenKind::Op(Op::MinusEq) ==> expr(g, at(p), 0) == read(
            q2,
            Expr::Assign { op: AssignOp::MinusEq, lhs: Box::new(a), rhs: Box::new(b) },
        ),
        g.kind(q1) == TokenKind::Op(Op::StarEq) ==> expr(g, at(p), 0) == read(
            q2,
            Expr::Assign { op: AssignOp::StarEq, lhs: Box::new(a), rhs: Box::new(b) },
        ),
        g.kind(q1) == TokenKind::Op(Op::SlashEq) ==> expr(g, at(p), 0) == read(
            q2,
            Expr::Assign { op: AssignOp::SlashEq, lhs: Box::new(a), rhs: Box::new(b) },
        ),
        g.kind(q1) == TokenKind::Op(Op::PercentEq) ==> expr(g, at(p), 0) == read(
            q2,
            Expr::Assign { op: AssignOp::PercentEq, lhs: Box::new(a), rhs: Box::new(b) },
        ),
        g.kind(q1) == TokenKind::Op(Op::AmpEq) ==> expr(g, at(p), 0) == read(
            q2,
            Expr::Assign { op: AssignOp::AmpEq, lhs: Box::new(a), rhs: Box::new(b) },
        ),
        g.kind(q1) == TokenKind::Op(Op::PipeEq) ==> expr(g, at(p), 0) == read(
            q2,
            Expr::Assign { op: AssignOp::PipeEq, lhs: Box::new(a), rhs: Box::new(b) },
        ),
        g.kind(q1) == TokenKind::Op(Op::CaretEq) ==> expr(g, at(p), 0) == read(
            q2,
            Expr::Assign { op: AssignOp::CaretEq, lhs: Box::new(a), rhs: Box::new(b) },
        ),
        g.kind(q1) == TokenKind::Op(Op::ShlEq) ==> expr(g, at(p), 0) == read(
            q2,
            Expr::Assign { op: AssignOp::ShlEq, lhs: Box::new(a), rhs: Box::new(b) },
        ),
        g.kind(q1) == TokenKind::Op(Op::ShrEq) ==> expr(g, at(p), 0) == read(
            q2,
            Expr::Assign { op: AssignOp::ShrEq, lhs: Box::new(a), rhs: Box::new(b) },
        ),
{
    if let Some(op) = infix_at(g.kind(q1)) {
        single_operator(g, p, a, q1, op, b, q2, 0);
    }
}

/// `..` leaves the upper end out of a range, `..=` takes it in.
pub proof fn ranges_spell_their_end(g: Src, p: nat, a: Expr, q1: nat, b: Expr, q2: nat)
    requires
        operand(g, p, a, q1),
        operand(g, q1 + 1, b, q2),
        ends_expr(g.kind(q2)),
    ensures
        g.kind(q1) == TokenKind::Op(Op::DotDot) ==> expr(g, at(p), 0) == read(
            q2,
            Expr::Range { lo: Box::new(a), hi: Box::new(b), inclusive: false },
        ),
        g.kind(q1) == TokenKind::Op(Op::DotDotEq) ==> expr(g, at(p), 0) == read(
            q2,
            Expr::Range { lo: Box::new(a), hi: Box::new(b), inclusive: true },
        ),
{
    if let Some(op) = infix_at(g.kind(q1)) {
        single_operator(g, p, a, q1, op, b, q2, 0);
    }
}

/// Two different tokens never build the same operation.
pub proof fn operators_are_told_apart(a: TokenKind, b: TokenKind)
    requires
        infix_at(a) is Some,
        infix_at(a) == infix_at(b),
    ensures
        a == b,
{
}

/// No other token stands between two operands.
pub proof fn no_other_infix_tokens(k: TokenKind)
    ensures
        !(k is Op) ==> infix_at(k) is None,
        infix_at(TokenKind::Op(Op::Not)) is None,
        infix_at(TokenKind::Op(Op::Tilde)) is None,
        infix_at(TokenKind::Op(Op::Question)) is None,
        infix_at(TokenKind::Op(Op::Dot)) is None,
        infix_at(TokenKind::Op(Op::Arrow)) is None,
        infix_at(TokenKind::Op(Op::FatArrow)) is None,
        infix_at(TokenKind::Op(Op::ColonColon)) is None,
        infix_at(TokenKind::Op(Op::At)) is None,
        infix_at(TokenKind::Op(Op::Hash)) is None,
{
}

/// The operator that builds a binary operation.
pub open spec fn binary(op: BinaryOp) -> Infix {
    Infix::Binary(op)
}

/// An operand between a looser and a tighter operator belongs to the tighter one, here the
/// second. From loose to tight: assignment, `??`, `||`, `&&`, equality, comparison, ranges, `|`,
/// `^`, `&`, shifts, sums, products, powers.
#[verifier::rlimit(60)]
pub proof fn second_operator_is_tighter(
    g: Src,
    p: nat,
    a: Expr,
    q1: nat,
    first: Infix,
    b: Expr,
    q2: nat,
    second: Infix,
    c: Expr,
    q3: nat,
)
    requires
        operand(g, p, a, q1),
        infix(g, q1, first),
        operand(g, q1 + 1, b, q2),
        infix(g, q2, second),
        operand(g, q2 + 1, c, q3),
        ends_expr(g.kind(q3)),
    ensures
        ({
            let whole = expr(g, at(p), 0);
            let right = read(q3, join_infix(first, a, join_infix(second, b, c)));
            let up_to_assigns = second is Assign;
            let up_to_coalesces = up_to_assigns || second == binary(BinaryOp::Coalesce);
            let up_to_ors = up_to_coalesces || second == binary(BinaryOp::OrOr);
            let up_to_ands = up_to_ors || second == binary(BinaryOp::AndAnd);
            let up_to_equates = up_to_ands || second == binary(BinaryOp::EqEq)
                || second == binary(BinaryOp::NotEq);
            let up_to_compares = up_to_equates || second == binary(BinaryOp::Lt)
                || second == binary(BinaryOp::Gt)
                || second == binary(BinaryOp::LtEq)
                || second == binary(BinaryOp::GtEq);
            let up_to_ranges = up_to_compares || second is Range;
            let up_to_bit_ors = up_to_ranges || second == binary(BinaryOp::BitOr);
            let up_to_bit_xors = up_to_bit_ors || second == binary(BinaryOp::BitXor);
            let up_to_bit_ands = up_to_bit_xors || second == binary(BinaryOp::BitAnd);
            let up_to_shifts = up_to_bit_ands || second == binary(BinaryOp::Shl)
                || second == binary(BinaryOp::Shr);
            let up_to_adds = up_to_shifts || second == binary(BinaryOp::Add)
                || second == binary(BinaryOp::Sub);
            let up_to_multiplies = up_to_adds || second == binary(BinaryOp::Mul)
                || second == binary(BinaryOp::Div)
                || second == binary(BinaryOp::Mod);
            &&& first is Assign && !up_to_assigns ==> whole == right
            &&& first == binary(BinaryOp::Coalesce) && !up_to_coalesces ==> whole == right
            &&& first == binary(BinaryOp::OrOr) && !up_to_ors ==> whole == right
            &&& first == binary(BinaryOp::AndAnd) && !up_to_ands ==> whole == right
            &&& (first == binary(BinaryOp::EqEq)
                || first == binary(BinaryOp::NotEq)) && !up_to_equates ==> whole == right
            &&& (first == binary(BinaryOp::Lt)
                || first == binary(BinaryOp::Gt)
                || first == binary(BinaryOp::LtEq)
                || first == binary(BinaryOp::GtEq)) && !up_to_compares ==> whole == right
            &&& first is Range && !up_to_ranges ==> whole == right
            &&& first == binary(BinaryOp::BitOr) && !up_to_bit_ors ==> whole == right
            &&& first == binary(BinaryOp::BitXor) && !up_to_bit_xors ==> whole == right
            &&& first == binary(BinaryOp::BitAnd) && !up_to_bit_ands ==> whole == right
            &&& (first == binary(BinaryOp::Shl)
                || first == binary(BinaryOp::Shr)) && !up_to_shifts ==> whole == right
            &&& (first == binary(BinaryOp::Add)
                || first == binary(BinaryOp::Sub)) && !up_to_adds ==> whole == right
            &&& (first == binary(BinaryOp::Mul)
                || first == binary(BinaryOp::Div)
                || first == binary(BinaryOp::Mod)) && !up_to_multiplies ==> whole == right
        }),
{
    tighter_operator_takes_the_operand(g, p, a, q1, first, b, q2, second, c, q3);
}

/// An operand between a tighter and a looser operator belongs to the tighter one, here the
/// first.
#[verifier::rlimit(60)]
pub proof fn first_operator_is_tighter(
    g: Src,
    p: nat,
    a: Expr,
    q1: nat,
    first: Infix,
    b: Expr,
    q2: nat,
    second: Infix,
    c: Expr,
    q3: nat,
)
    requires
        operand(g, p, a, q1),
        infix(g, q1, first),
        operand(g, q1 + 1, b, q2),
        infix(g, q2, second),
        operand(g, q2 + 1, c, q3),
        ends_expr(g.kind(q3)),
    ensures
        ({
            let whole = expr(g, at(p), 0);
            let left = read(q3, join_infix(second, join_infix(first, a, b), c));
            let up_to_assigns = first is Assign;
            let up_to_coalesces = up_to_assigns || first == binary(BinaryOp::Coalesce);
            let up_to_ors = up_to_coalesces || first == binary(BinaryOp::OrOr);
            let up_to_ands = up_to_ors || first == binary(BinaryOp::AndAnd);
            let up_to_equates = up_to_ands || first == binary(BinaryOp::EqEq)
                || first == binary(BinaryOp::NotEq);
            let up_to_compares = up_to_equates || first == binary(BinaryOp::Lt)
                || first == binary(BinaryOp::Gt)
                || first == binary(BinaryOp::LtEq)
                || first == binary(BinaryOp::GtEq);
            let up_to_ranges = up_to_compares || first is Range;
            let up_to_bit_ors = up_to_ranges || first == binary(BinaryOp::BitOr);
            let up_to_bit_xors = up_to_bit_ors || first == binary(BinaryOp::BitXor);
            let up_to_bit_ands = up_to_bit_xors || first == binary(BinaryOp::BitAnd);
            let up_to_shifts = up_to_bit_ands || first == binary(BinaryOp::Shl)
                || first == binary(BinaryOp::Shr);
            let up_to_adds = up_to_shifts || first == binary(BinaryOp::Add)
                || first == binary(BinaryOp::Sub);
            let up_to_multiplies = up_to_adds || first == binary(BinaryOp::Mul)
                || first == binary(BinaryOp::Div)
                || first == binary(BinaryOp::Mod);
            &&& second is Assign && !up_to_assigns ==> whole == left
            &&& second == binary(BinaryOp::Coalesce) && !up_to_coalesces ==> whole == left
            &&& second == binary(BinaryOp::OrOr) && !up_to_ors ==> whole == left
            &&& second == binary(BinaryOp::AndAnd) && !up_to_ands ==> whole == left
            &&& (second == binary(BinaryOp::EqEq)
                || second == binary(BinaryOp::NotEq)) && !up_to_equates ==> whole == left
            &&& (second == binary(BinaryOp::Lt)
                || second == binary(BinaryOp::Gt)
                || second == binary(BinaryOp::LtEq)
                || second == binary(BinaryOp::GtEq)) && !up_to_compares ==> whole == left
            &&& second is Range && !up_to_ranges ==> whole == left
            &&& second == binary(BinaryOp::BitOr) && !up_to_bit_ors ==> whole == left
            &&& second == binary(BinaryOp::BitXor) && !up_to_bit_xors ==> whole == left
            &&& second == binary(BinaryOp::BitAnd) && !up_to_bit_ands ==> whole == left
            &&& (second == binary(BinaryOp::Shl)
                || second == binary(BinaryOp::Shr)) && !up_to_shifts ==> whole == left
            &&& (second == binary(BinaryOp::Add)
                || second == binary(BinaryOp::Sub)) && !up_to_adds ==> whole == left
            &&& (second == binary(BinaryOp::Mul)
                || second == binary(BinaryOp::Div)
                || second == binary(BinaryOp::Mod)) && !up_to_multiplies ==> whole == left
        }),
{
    tighter_operator_takes_the_operand(g, p, a, q1, first, b, q2, second, c, q3);
}

/// Two operators of one level: assignments and powers group to the right; equality,
/// comparison and ranges do not chain; all others group to the left.
#[verifier::rlimit(60)]
pub proof fn operators_of_one_level(
    g: Src,
    p: nat,
    a: Expr,
    q1: nat,
    first: Infix,
    b: Expr,
    q2: nat,
    second: Infix,
    c: Expr,
    q3: nat,
)
    requires
        operand(g, p, a, q1),
        infix(g, q1, first),
        operand(g, q1 + 1, b, q2),
        infix(g, q2, second),
        operand(g, q2 + 1, c, q3),
        ends_expr(g.kind(q3)),
    ensures
        ({
            let whole = expr(g, at(p), 0);
            let right = read(q3, join_infix(first, a, join_infix(second, b, c)));
            let left = read(q3, join_infix(second, join_infix(first, a, b), c));
            &&& first is Assign && second is Assign ==> whole == right
            &&& first == binary(BinaryOp::Coalesce) && second == binary(BinaryOp::Coalesce)
                ==> whole == left
            &&& first == binary(BinaryOp::OrOr) && second == binary(BinaryOp::OrOr)
                ==> whole == left
            &&& first == binary(BinaryOp::AndAnd) && second == binary(BinaryOp::AndAnd)
                ==> whole == left
            &&& (first == binary(BinaryOp::EqEq)
                || first == binary(BinaryOp::NotEq)) && (second == binary(BinaryOp::EqEq)
                || second == binary(BinaryOp::NotEq)) ==> whole.res is Err
            &&& (first == binary(BinaryOp::Lt)
                || first == binary(BinaryOp::Gt)
                || first == binary(BinaryOp::LtEq)
                || first == binary(BinaryOp::GtEq)) && (second == binary(BinaryOp::Lt)
                || second == binary(BinaryOp::Gt)
                || second == binary(BinaryOp::LtEq)
                || second == binary(BinaryOp::GtEq)) ==> whole.res is Err
            &&& first is Range && second is Range ==> whole.res is Err
            &&& first == binary(BinaryOp::BitOr) && second == binary(BinaryOp::BitOr)
                ==> whole == left
            &&& first == binary(BinaryOp::BitXor) && second == binary(BinaryOp::BitXor)
                ==> whole == left
            &&& first == binary(BinaryOp::BitAnd) && second == binary(BinaryOp::BitAnd)
                ==> whole == left
            &&& (first == binary(BinaryOp::Shl)
                || first == binary(BinaryOp::Shr)) && (second == binary(BinaryOp::Shl)
                || second == binary(BinaryOp::Shr)) ==> whole == left
            &&& (first == binary(BinaryOp::Add)
                || first == binary(BinaryOp::Sub)) && (second == binary(BinaryOp::Add)
                || second == binary(BinaryOp::Sub)) ==> whole == left
            &&& (first == binary(BinaryOp::Mul)
                || first == binary(BinaryOp::Div)
                || first == binary(BinaryOp::Mod)) && (second == binary(BinaryOp::Mul)
                || second == binary(BinaryOp::Div)
                || second == binary(BinaryOp::Mod)) ==> whole == left
            &&& first == binary(BinaryOp::Pow) && second == binary(BinaryOp::Pow) ==> whole == right
        }),
{
    tighter_operator_takes_the_operand(g, p, a, q1, first, b, q2, second, c, q3);
}

/// An operator behind an expression takes it as its left operand, unless it holds it too loosely;
/// what stands behind it, up to where its own hold ends, is the right one. A cast takes it at
/// once. In this way reading goes on behind each.
#[verifier::rlimit(30)]
pub proof fn one_operator_more(
    g: Src,
    p: nat,
    min: u8,
    last: Option<u8>,
    lhs: Expr,
    op: Infix,
    rhs: Expr,
    t: Type,
    q: nat,
)
    requires
        p + 1 <= q,
    ensures
        infix(g, p, op) && power(op).0 < min ==> infix_tail(g, at(p), min, last, lhs) == read(
            p,
            lhs,
        ),
        infix(g, p, op) && power(op).0 >= min && !(no_chain(op) && last == Some(power(op).0))
            && expr(g, at(p + 1), power(op).1) == read(q, rhs) ==> infix_tail(
            g,
            at(p),
            min,
            last,
            lhs,
        ) == infix_tail(
            g,
            at(q),
            min,
            if no_chain(op) {
                Some(power(op).0)
            } else {
                last
            },
            join_infix(op, lhs, rhs),
        ),
        infix(g, p, op) && power(op).0 >= min && no_chain(op) && last == Some(power(op).0)
            ==> infix_tail(g, at(p), min, last, lhs).res is Err,
        g.kind(p) == TokenKind::Keyword(Keyword::As) && type_of(g, at(p + 1)) == read(q, t)
            ==> infix_tail(g, at(p), min, last, lhs) == infix_tail(
            g,
            at(q),
            min,
            last,
            Expr::Cast { expr: Box::new(lhs), ty: Box::new(t) },
        ),
        ends_expr(g.kind(p)) ==> infix_tail(g, at(p), min, last, lhs) == read(p, lhs),
{
    assert(at(p).skip() == at(p + 1));
    if expr(g, at(p + 1), power(op).1) == read(q, rhs) {
        assert(at(p + 1).after(expr(g, at(p + 1), power(op).1)) == at(q));
    }
    if type_of(g, at(p + 1)) == read(q, t) {
        assert(at(p + 1).after(type_of(g, at(p + 1))) == at(q));
    }
}

/// `!e` negates a condition.
pub proof fn unary_not(g: Src, p: nat)
    requires
        g.kind(p) == TokenKind::Op(Op::Not),
    ensures
        ({
            let e = prefix(g, at(p + 1));
            let q_e = behind(p + 1, e);
            let fits = e.res is Ok;
            &&& prefix(g, at(p)).res is Ok <==> fits
            &&& fits
                ==> prefix(g, at(p)) == read(
                    q_e,
                    Expr::Unary { op: UnaryOp::Not, expr: Box::new(e.out()) },
                )
        }),
{
    let e = prefix(g, at(p + 1));
    let q_e = behind(p + 1, e);
    assert(at(p).skip() == at(p + 1));
    assert(e.res is Ok ==> at(p + 1).after(e) == at(q_e));
    assert(prefix(g, at(p)) == unary(g, at(p + 1), UnaryOp::Not));
}

/// `~e` turns the bits round.
pub proof fn unary_bitnot(g: Src, p: nat)
    requires
        g.kind(p) == TokenKind::Op(Op::Tilde),
    ensures
        ({
            let e = prefix(g, at(p + 1));
            let q_e = behind(p + 1, e);
            let fits = e.res is Ok;
            &&& prefix(g, at(p)).res is Ok <==> fits
            &&& fits
                ==> prefix(g, at(p)) == read(
                    q_e,
                    Expr::Unary { op: UnaryOp::BitNot, expr: Box::new(e.out()) },
                )
        }),
{
    let e = prefix(g, at(p + 1));
    let q_e = behind(p + 1, e);
    assert(at(p).skip() == at(p + 1));
    assert(e.res is Ok ==> at(p + 1).after(e) == at(q_e));
    assert(prefix(g, at(p)) == unary(g, at(p + 1), UnaryOp::BitNot));
}

/// `-e` changes the sign.
pub proof fn unary_neg(g: Src, p: nat)
    requires
        g.kind(p) == TokenKind::Op(Op::Minus),
    ensures
        ({
            let e = prefix(g, at(p + 1));
            let q_e = behind(p + 1, e);
            let fits = e.res is Ok;
            &&& prefix(g, at(p)).res is Ok <==> fits
            &&& fits
                ==> prefix(g, at(p)) == read(
                    q_e,
                    Expr::Unary { op: UnaryOp::Neg, expr: Box::new(e.out()) },
                )
        }),
{
    let e = prefix(g, at(p + 1));
    let q_e = behind(p + 1, e);
    assert(at(p).skip() == at(p + 1));
    assert(e.res is Ok ==> at(p + 1).after(e) == at(q_e));
    assert(prefix(g, at(p)) == unary(g, at(p + 1), UnaryOp::Neg));
}

/// `await e` waits for `e`.
pub proof fn await_form(g: Src, p: nat)
    requires
        g.kind(p) == TokenKind::Keyword(Keyword::Await),
    ensures
        ({
            let e = prefix(g, at(p + 1));
            let q_e = behind(p + 1, e);
            let fits = e.res is Ok;
            &&& prefix(g, at(p)).res is Ok <==> fits
            &&& fits ==> prefix(g, at(p)) == read(q_e, Expr::Await(Box::new(e.out())))
        }),
{
    let e = prefix(g, at(p + 1));
    let q_e = behind(p + 1, e);
    assert(at(p).skip() == at(p + 1));
    assert(e.res is Ok ==> at(p + 1).after(e) == at(q_e));
}

/// `borrow e` is a shared borrow of `e`.
pub proof fn shared_borrow(g: Src, p: nat)
    requires
        g.kind(p) == TokenKind::Keyword(Keyword::Borrow),
        g.kind(p + 1) != TokenKind::Keyword(Keyword::Mut),
    ensures
        ({
            let e = prefix(g, at(p + 1));
            let q_e = behind(p + 1, e);
            let fits = e.res is Ok;
            &&& prefix(g, at(p)).res is Ok <==> fits
            &&& fits
                ==> prefix(g, at(p)) == read(
                    q_e,
                    Expr::Borrow { mutable: false, expr: Box::new(e.out()) },
                )
        }),
{
    let e = prefix(g, at(p + 1));
    let q_e = behind(p + 1, e);
    assert(at(p).skip() == at(p + 1));
    assert(e.res is Ok ==> at(p + 1).after(e) == at(q_e));
}

/// `borrow mut e` is a mutable borrow of `e`.
pub proof fn mutable_borrow(g: Src, p: nat)
    requires
        g.kind(p) == TokenKind::Keyword(Keyword::Borrow),
        g.kind(p + 1) == TokenKind::Keyword(Keyword::Mut),
    ensures
        ({
            let e = prefix(g, at(p + 2));
            let q_e = behind(p + 2, e);
            let fits = e.res is Ok;
            &&& prefix(g, at(p)).res is Ok <==> fits
            &&& fits
                ==> prefix(g, at(p)) == read(
                    q_e,
                    Expr::Borrow { mutable: true, expr: Box::new(e.out()) },
                )
        }),
{
    let e = prefix(g, at(p + 2));
    let q_e = behind(p + 2, e);
    assert(at(p).skip() == at(p + 1));
    assert(at(p + 1).skip() == at(p + 2));
    assert(e.res is Ok ==> at(p + 2).after(e) == at(q_e));
}

/// Without a prefix operator an operand is a primary expression with what is hung on it, and
/// that is the primary expression alone where nothing is.
pub proof fn bare_operand(g: Src, p: nat, e: Expr, q: nat)
    requires
        primary(g, at(p)) == read(q, e),
        p <= q,
        !(g.kind(p) == TokenKind::Op(Op::Not) || g.kind(p) == TokenKind::Op(Op::Tilde) || g.kind(p)
            == TokenKind::Op(Op::Minus) || g.kind(p) == TokenKind::Keyword(Keyword::Await)
            || g.kind(p) == TokenKind::Keyword(Keyword::Borrow)),
    ensures
        prefix(g, at(p)) == postfix_tail(g, at(q), e),
        !(g.kind(q)
            == TokenKind::Op(Op::Dot) || g.kind(q) == TokenKind::Op(Op::Question) || g.kind(q)
            == TokenKind::Delim(Delim::LBracket) || g.kind(q) == TokenKind::Delim(Delim::LParen)
            || g.kind(q) == TokenKind::Keyword(Keyword::Style) || g.kind(q) == TokenKind::Keyword(
            Keyword::Layout,
        )) ==> prefix(g, at(p)) == read(q, e),
{
    assert(at(p).after(primary(g, at(p))) == at(q));
    assert(postfix(g, at(p)) == postfix_tail(g, at(q), e));
    assert(prefix(g, at(p)) == postfix(g, at(p)));
}

/// What is hung on an expression takes it in, and reading goes on behind that.
proof fn hung_on(g: Src, p: nat, e: Expr)
    requires
        starts_suffix(g.kind(p)),
    ensures
        ({
            let all = suffix(g, at(p + 1), g.kind(p), e);
            &&& all.res is Err ==> postfix_tail(g, at(p), e).res is Err
            &&& all.res is Ok ==> postfix_tail(g, at(p), e) == postfix_tail(
                g,
                at(behind(p + 1, all)),
                all.out(),
            )
        }),
{
    let all = suffix(g, at(p + 1), g.kind(p), e);
    assert(at(p).skip() == at(p + 1));
    assert(postfix_tail(g, at(p), e) == postfix_tail(g, at(p + 1).after(all), all.out()));
    if all.res is Ok {
        assert(at(p + 1).after(all) == at(behind(p + 1, all)));
    }
}

proof fn propagation_suffix(g: Src, p: nat, e: Expr)
    ensures
        ({
            suffix(g, at(p), TokenKind::Op(Op::Question), e) == read(
                p,
                Expr::Propagate(Box::new(e)),
            )
        }),
{
}

/// `e?` hands an error on.
pub proof fn propagation(g: Src, p: nat, e: Expr)
    requires
        g.kind(p) == TokenKind::Op(Op::Question),
    ensures
        ({
            postfix_tail(g, at(p), e) == postfix_tail(g, at(p + 1), Expr::Propagate(Box::new(e)))
        }),
{
    propagation_suffix(g, p + 1, e);
    hung_on(g, p, e);
}

proof fn indexing_suffix(g: Src, p: nat, e: Expr)
    ensures
        ({
            let i = expr(g, at(p), 0);
            let q_i = behind(p, i);
            let fits = i.res is Ok
                && g.kind(q_i) == TokenKind::Delim(Delim::RBracket);
            &&& suffix(g, at(p), TokenKind::Delim(Delim::LBracket), e).res is Ok <==> fits
            &&& fits
                ==> suffix(g, at(p), TokenKind::Delim(Delim::LBracket), e) == read(
                    q_i + 1,
                    Expr::Index { expr: Box::new(e), index: Box::new(i.out()) },
                )
        }),
{
    let i = expr(g, at(p), 0);
    let q_i = behind(p, i);
    assert(i.res is Ok ==> at(p).after(i) == at(q_i));
    assert(g.kind(q_i) == TokenKind::Delim(Delim::RBracket)
        ==> at(q_i).delim(g, Delim::RBracket) == at(q_i + 1));
}

/// `e[i]` is the element of `e` at `i`.
pub proof fn indexing(g: Src, p: nat, e: Expr)
    requires
        g.kind(p) == TokenKind::Delim(Delim::LBracket),
    ensures
        ({
            let i = expr(g, at(p + 1), 0);
            let q_i = behind(p + 1, i);
            let fits = i.res is Ok
                && g.kind(q_i) == TokenKind::Delim(Delim::RBracket);
            &&& !fits ==> postfix_tail(g, at(p), e).res is Err
            &&& fits
                ==> postfix_tail(g, at(p), e) == postfix_tail(
                    g,
                    at(q_i + 1),
                    Expr::Index { expr: Box::new(e), index: Box::new(i.out()) },
                )
        }),
{
    indexing_suffix(g, p + 1, e);
    hung_on(g, p, e);
}

proof fn calling_suffix(g: Src, p: nat, e: Expr)
    ensures
        ({
            let args = args_tail(g, at(p));
            let q_args = behind(p, args);
            let fits = args.res is Ok;
            &&& suffix(g, at(p), TokenKind::Delim(Delim::LParen), e).res is Ok <==> fits
            &&& fits
                ==> suffix(g, at(p), TokenKind::Delim(Delim::LParen), e) == read(
                    q_args,
                    Expr::Call { callee: Box::new(e), args: args.out() },
                )
        }),
{
    let args = args_tail(g, at(p));
    let q_args = behind(p, args);
    assert(args.res is Ok ==> at(p).after(args) == at(q_args));
}

/// `e(args)` calls `e` with the arguments.
pub proof fn calling(g: Src, p: nat, e: Expr)
    requires
        g.kind(p) == TokenKind::Delim(Delim::LParen),
    ensures
        ({
            let args = args_tail(g, at(p + 1));
            let q_args = behind(p + 1, args);
            let fits = args.res is Ok;
            &&& !fits ==> postfix_tail(g, at(p), e).res is Err
            &&& fits
                ==> postfix_tail(g, at(p), e) == postfix_tail(
                    g,
                    at(q_args),
                    Expr::Call { callee: Box::new(e), args: args.out() },
                )
        }),
{
    calling_suffix(g, p + 1, e);
    hung_on(g, p, e);
}

proof fn styling_suffix(g: Src, p: nat, e: Expr)
    ensures
        ({
            let ps = props(g, at(p));
            let q_ps = behind(p, ps);
            let fits = ps.res is Ok;
            &&& suffix(g, at(p), TokenKind::Keyword(Keyword::Style), e).res is Ok <==> fits
            &&& fits
                ==> suffix(g, at(p), TokenKind::Keyword(Keyword::Style), e) == read(
                    q_ps,
                    Expr::Styled { expr: Box::new(e), props: ps.out() },
                )
        }),
{
    let ps = props(g, at(p));
    let q_ps = behind(p, ps);
    assert(ps.res is Ok ==> at(p).after(ps) == at(q_ps));
}

/// `e style { props }` gives `e` the properties.
pub proof fn styling(g: Src, p: nat, e: Expr)
    requires
        g.kind(p) == TokenKind::Keyword(Keyword::Style),
    ensures
        ({
            let ps = props(g, at(p + 1));
            let q_ps = behind(p + 1, ps);
            let fits = ps.res is Ok;
            &&& !fits ==> postfix_tail(g, at(p), e).res is Err
            &&& fits
                ==> postfix_tail(g, at(p), e) == postfix_tail(
                    g,
                    at(q_ps),
                    Expr::Styled { expr: Box::new(e), props: ps.out() },
                )
        }),
{
    styling_suffix(g, p + 1, e);
    hung_on(g, p, e);
}

#[verifier::rlimit(30)]
proof fn laying_out_suffix(g: Src, p: nat, e: Expr)
    ensures
        ({
            let ps = props(g, at(p));
            let q_ps = behind(p, ps);
            let inner = children(g, at(q_ps + 1), seq![]);
            let q_inner = behind(q_ps + 1, inner);
            let fits = ps.res is Ok
                && g.kind(q_ps) == TokenKind::Delim(Delim::LBrace)
                && inner.res is Ok
                && g.kind(q_inner) == TokenKind::Delim(Delim::RBrace);
            &&& suffix(g, at(p), TokenKind::Keyword(Keyword::Layout), e).res is Ok <==> fits
            &&& fits
                ==> suffix(g, at(p), TokenKind::Keyword(Keyword::Layout), e) == read(
                    q_inner + 1,
                    Expr::Layout { expr: Box::new(e), props: ps.out(), children: inner.out() },
                )
        }),
{
    let ps = props(g, at(p));
    let q_ps = behind(p, ps);
    let inner = children(g, at(q_ps + 1), seq![]);
    let q_inner = behind(q_ps + 1, inner);
    assert(ps.res is Ok ==> at(p).after(ps) == at(q_ps));
    assert(g.kind(q_ps) == TokenKind::Delim(Delim::LBrace)
        ==> at(q_ps).delim(g, Delim::LBrace) == at(q_ps + 1));
    assert(inner.res is Ok ==> at(q_ps + 1).after(inner) == at(q_inner));
    assert(g.kind(q_inner) == TokenKind::Delim(Delim::RBrace)
        ==> at(q_inner).delim(g, Delim::RBrace) == at(q_inner + 1));
}

/// `e layout { props } { children }` lays the children out in `e`.
pub proof fn laying_out(g: Src, p: nat, e: Expr)
    requires
        g.kind(p) == TokenKind::Keyword(Keyword::Layout),
    ensures
        ({
            let ps = props(g, at(p + 1));
            let q_ps = behind(p + 1, ps);
            let inner = children(g, at(q_ps + 1), seq![]);
            let q_inner = behind(q_ps + 1, inner);
            let fits = ps.res is Ok
                && g.kind(q_ps) == TokenKind::Delim(Delim::LBrace)
                && inner.res is Ok
                && g.kind(q_inner) == TokenKind::Delim(Delim::RBrace);
            &&& !fits ==> postfix_tail(g, at(p), e).res is Err
            &&& fits
                ==> postfix_tail(g, at(p), e) == postfix_tail(
                    g,
                    at(q_inner + 1),
                    Expr::Layout { expr: Box::new(e), props: ps.out(), children: inner.out() },
                )
        }),
{
    laying_out_suffix(g, p + 1, e);
    hung_on(g, p, e);
}

proof fn field_access_suffix(g: Src, p: nat, e: Expr)
    requires
        g.kind(p + 1) != TokenKind::Op(Op::ColonColon),
        g.kind(p + 1) != TokenKind::Delim(Delim::LParen),
    ensures
        ({
            let name = word(g, at(p));
            let q_name = behind(p, name);
            let fits = name.res is Ok;
            &&& suffix(g, at(p), TokenKind::Op(Op::Dot), e).res is Ok <==> fits
            &&& fits
                ==> suffix(g, at(p), TokenKind::Op(Op::Dot), e) == read(
                    q_name,
                    Expr::Field { expr: Box::new(e), name: name.out() },
                )
        }),
{
    let name = word(g, at(p));
    let q_name = behind(p, name);
    assert(name.res is Ok ==> at(p).after(name) == at(q_name));
    assert(name.res is Ok ==> q_name == p + 1);
    assert(name.res is Ok ==> turbofish(g, at(p + 1)) == read(p + 1, ()));
    assert(suffix(g, at(p), TokenKind::Op(Op::Dot), e) == member(g, at(p), e));
}

/// `e.name` is the field `name` of `e`.
pub proof fn field_access(g: Src, p: nat, e: Expr)
    requires
        g.kind(p) == TokenKind::Op(Op::Dot),
        g.kind(p + 2) != TokenKind::Op(Op::ColonColon),
        g.kind(p + 2) != TokenKind::Delim(Delim::LParen),
    ensures
        ({
            let name = word(g, at(p + 1));
            let q_name = behind(p + 1, name);
            let fits = name.res is Ok;
            &&& !fits ==> postfix_tail(g, at(p), e).res is Err
            &&& fits
                ==> postfix_tail(g, at(p), e) == postfix_tail(
                    g,
                    at(q_name),
                    Expr::Field { expr: Box::new(e), name: name.out() },
                )
        }),
{
    field_access_suffix(g, p + 1, e);
    hung_on(g, p, e);
}

proof fn method_call_suffix(g: Src, p: nat, e: Expr)
    requires
        g.kind(p + 1) == TokenKind::Delim(Delim::LParen),
    ensures
        ({
            let name = word(g, at(p));
            let q_name = behind(p, name);
            let args = args_tail(g, at(q_name + 1));
            let q_args = behind(q_name + 1, args);
            let fits = name.res is Ok
                && g.kind(q_name) == TokenKind::Delim(Delim::LParen)
                && args.res is Ok;
            &&& suffix(g, at(p), TokenKind::Op(Op::Dot), e).res is Ok <==> fits
            &&& fits
                ==> suffix(g, at(p), TokenKind::Op(Op::Dot), e) == read(
                    q_args,
                    Expr::MethodCall { receiver: Box::new(e), name: name.out(), args: args.out() },
                )
        }),
{
    let name = word(g, at(p));
    let q_name = behind(p, name);
    let args = args_tail(g, at(q_name + 1));
    let q_args = behind(q_name + 1, args);
    assert(name.res is Ok ==> at(p).after(name) == at(q_name));
    assert(g.kind(q_name) == TokenKind::Delim(Delim::LParen)
        ==> at(q_name).delim(g, Delim::LParen) == at(q_name + 1));
    assert(args.res is Ok ==> at(q_name + 1).after(args) == at(q_args));
    assert(name.res is Ok ==> q_name == p + 1);
    assert(name.res is Ok ==> turbofish(g, at(p + 1)) == read(p + 1, ()));
    assert(at(p + 1).skip() == at(p + 2));
    assert(suffix(g, at(p), TokenKind::Op(Op::Dot), e) == member(g, at(p), e));
}

/// `e.name(args)` calls the method `name` of `e` with the arguments.
pub proof fn method_call(g: Src, p: nat, e: Expr)
    requires
        g.kind(p) == TokenKind::Op(Op::Dot),
        g.kind(p + 2) == TokenKind::Delim(Delim::LParen),
    ensures
        ({
            let name = word(g, at(p + 1));
            let q_name = behind(p + 1, name);
            let args = args_tail(g, at(q_name + 1));
            let q_args = behind(q_name + 1, args);
            let fits = name.res is Ok
                && g.kind(q_name) == TokenKind::Delim(Delim::LParen)
                && args.res is Ok;
            &&& !fits ==> postfix_tail(g, at(p), e).res is Err
            &&& fits
                ==> postfix_tail(g, at(p), e) == postfix_tail(
                    g,
                    at(q_args),
                    Expr::MethodCall { receiver: Box::new(e), name: name.out(), args: args.out() },
                )
        }),
{
    method_call_suffix(g, p + 1, e);
    hung_on(g, p, e);
}

/// Type arguments between the name of a method and its arguments are read and not kept.
#[verifier::rlimit(40)]
pub proof fn method_call_with_type_arguments(g: Src, p: nat, e: Expr, name: String)
    requires
        g.kind(p) == TokenKind::Op(Op::Dot),
        g.kind(p + 1) == TokenKind::Ident(name),
        g.kind(p + 2) == TokenKind::Op(Op::ColonColon),
        g.kind(p + 3) == TokenKind::Op(Op::Lt),
        g.kind(behind(p + 3, generic_args(g, at(p + 3)))) == TokenKind::Delim(Delim::LParen),
    ensures
        ({
            let types = generic_args(g, at(p + 3));
            let q = behind(p + 3, types);
            let args = args_tail(g, at(q + 1));
            let fits = types.res is Ok && args.res is Ok;
            &&& !fits ==> postfix_tail(g, at(p), e).res is Err
            &&& fits ==> postfix_tail(g, at(p), e) == postfix_tail(
                g,
                at(behind(q + 1, args)),
                Expr::MethodCall { receiver: Box::new(e), name: name@, args: args.out() },
            )
        }),
{
    let types = generic_args(g, at(p + 3));
    let q = behind(p + 3, types);
    let args = args_tail(g, at(q + 1));
    assert(at(p).skip() == at(p + 1));
    assert(at(p + 1).skip() == at(p + 2));
    assert(at(p + 2).skip() == at(p + 3));
    assert(word(g, at(p + 1)) == read(p + 2, name@));
    assert(at(p + 1).after(word(g, at(p + 1))) == at(p + 2));
    assert(types.res is Ok ==> at(p + 3).after(types) == at(q));
    assert(types.res is Ok ==> turbofish(g, at(p + 2)) == read(q, ()));
    assert(types.res is Ok ==> at(p + 2).after(turbofish(g, at(p + 2))) == at(q));
    assert(at(q).skip() == at(q + 1));
    assert(args.res is Ok ==> at(q + 1).after(args) == at(behind(q + 1, args)));
    assert(member(g, at(p + 1), e).res is Ok <==> types.res is Ok && args.res is Ok);
    assert(types.res is Ok && args.res is Ok ==> member(g, at(p + 1), e) == read(
        behind(q + 1, args),
        Expr::MethodCall { receiver: Box::new(e), name: name@, args: args.out() },
    ));
    assert(suffix(g, at(p + 1), TokenKind::Op(Op::Dot), e) == member(g, at(p + 1), e));
    hung_on(g, p, e);
}

} // verus!
