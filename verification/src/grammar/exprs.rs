//! Expressions.
use crate::ast::{AssignOp, BinaryOp, UnaryOp};
use crate::grammar::cursor::{segments, word, Cur, Src, Step};
use crate::grammar::stmts::block;
use crate::grammar::types::{generic_args, literal, literal_of, pattern, pattern_single, type_of};
use crate::text::joined;
use crate::token::{Delim, Keyword, Op, TokenKind};
use crate::tree::{
    Arg, ClosureBody, ClosureExpr, ElseBranch, Expr, IfExpr, LoopExpr, MatchArm, MatchArmBody,
    MatchExpr, Pattern, QueryClause, QueryExpr, SelectArm, SpawnBody, Type,
};
use vstd::prelude::*;

verus! {

/// What an operator between two expressions builds.
pub enum Infix {
    Binary(BinaryOp),
    Assign(AssignOp),
    Range(bool),
}

/// The operators that stand between two expressions.
pub open spec fn infix_of(op: Op) -> Option<Infix> {
    match op {
        Op::Plus => Some(Infix::Binary(BinaryOp::Add)),
        Op::Minus => Some(Infix::Binary(BinaryOp::Sub)),
        Op::Star => Some(Infix::Binary(BinaryOp::Mul)),
        Op::Slash => Some(Infix::Binary(BinaryOp::Div)),
        Op::Percent => Some(Infix::Binary(BinaryOp::Mod)),
        Op::StarStar => Some(Infix::Binary(BinaryOp::Pow)),
        Op::EqEq => Some(Infix::Binary(BinaryOp::EqEq)),
        Op::NotEq => Some(Infix::Binary(BinaryOp::NotEq)),
        Op::Lt => Some(Infix::Binary(BinaryOp::Lt)),
        Op::Gt => Some(Infix::Binary(BinaryOp::Gt)),
        Op::LtEq => Some(Infix::Binary(BinaryOp::LtEq)),
        Op::GtEq => Some(Infix::Binary(BinaryOp::GtEq)),
        Op::AndAnd => Some(Infix::Binary(BinaryOp::AndAnd)),
        Op::OrOr => Some(Infix::Binary(BinaryOp::OrOr)),
        Op::QuestionQuestion => Some(Infix::Binary(BinaryOp::Coalesce)),
        Op::Amp => Some(Infix::Binary(BinaryOp::BitAnd)),
        Op::Pipe => Some(Infix::Binary(BinaryOp::BitOr)),
        Op::Caret => Some(Infix::Binary(BinaryOp::BitXor)),
        Op::Shl => Some(Infix::Binary(BinaryOp::Shl)),
        Op::Shr => Some(Infix::Binary(BinaryOp::Shr)),
        Op::DotDot => Some(Infix::Range(false)),
        Op::DotDotEq => Some(Infix::Range(true)),
        Op::Eq => Some(Infix::Assign(AssignOp::Eq)),
        Op::PlusEq => Some(Infix::Assign(AssignOp::PlusEq)),
        Op::MinusEq => Some(Infix::Assign(AssignOp::MinusEq)),
        Op::StarEq => Some(Infix::Assign(AssignOp::StarEq)),
        Op::SlashEq => Some(Infix::Assign(AssignOp::SlashEq)),
        Op::PercentEq => Some(Infix::Assign(AssignOp::PercentEq)),
        Op::AmpEq => Some(Infix::Assign(AssignOp::AmpEq)),
        Op::PipeEq => Some(Infix::Assign(AssignOp::PipeEq)),
        Op::CaretEq => Some(Infix::Assign(AssignOp::CaretEq)),
        Op::ShlEq => Some(Infix::Assign(AssignOp::ShlEq)),
        Op::ShrEq => Some(Infix::Assign(AssignOp::ShrEq)),
        _ => None,
    }
}

/// The operator at a token, where it is an infix one.
pub open spec fn infix_at(kind: TokenKind) -> Option<Infix> {
    match kind {
        TokenKind::Op(op) => infix_of(op),
        _ => None,
    }
}

/// How tightly an operator holds its left and its right operand, from loose to tight:
/// assignment, `??`, `||`, `&&`, equality, comparison, ranges, `|`, `^`, `&`, shifts,
/// sums, products, powers.
pub open spec fn power(op: Infix) -> (u8, u8) {
    match op {
        Infix::Assign(_) => (2, 1),
        Infix::Range(_) => (11, 12),
        Infix::Binary(b) => match b {
            BinaryOp::Coalesce => (3, 4),
            BinaryOp::OrOr => (5, 6),
            BinaryOp::AndAnd => (7, 8),
            BinaryOp::EqEq | BinaryOp::NotEq => (9, 10),
            BinaryOp::Lt | BinaryOp::Gt | BinaryOp::LtEq | BinaryOp::GtEq => (10, 11),
            BinaryOp::BitOr => (12, 13),
            BinaryOp::BitXor => (14, 15),
            BinaryOp::BitAnd => (16, 17),
            BinaryOp::Shl | BinaryOp::Shr => (18, 19),
            BinaryOp::Add | BinaryOp::Sub => (20, 21),
            BinaryOp::Mul | BinaryOp::Div | BinaryOp::Mod => (22, 23),
            BinaryOp::Pow => (25, 24),
        },
    }
}

/// The operators that do not chain with one of their own level.
pub open spec fn no_chain(op: Infix) -> bool {
    match op {
        Infix::Assign(_) => false,
        Infix::Range(_) => true,
        Infix::Binary(b) => match b {
            BinaryOp::EqEq | BinaryOp::NotEq | BinaryOp::Lt | BinaryOp::Gt | BinaryOp::LtEq
            | BinaryOp::GtEq => true,
            _ => false,
        },
    }
}

pub open spec fn join_infix(op: Infix, lhs: Expr, rhs: Expr) -> Expr {
    match op {
        Infix::Binary(op) => Expr::Binary { op, lhs: Box::new(lhs), rhs: Box::new(rhs) },
        Infix::Assign(op) => Expr::Assign { op, lhs: Box::new(lhs), rhs: Box::new(rhs) },
        Infix::Range(inclusive) => Expr::Range { lo: Box::new(lhs), hi: Box::new(rhs), inclusive },
    }
}

/// An expression whose operators all hold their left operand at least as tightly as `min`.
pub open spec fn expr(g: Src, s: Cur, min: u8) -> Step<Expr>
    decreases s.left(g), 8nat,
{
    let first = prefix(g, s);
    infix_tail(g, s.after(first), min, None, first.out())
}

/// Operators and right operands after `lhs`. `last` is the level of the last operator that
/// does not chain.
pub open spec fn infix_tail(g: Src, s: Cur, min: u8, last: Option<u8>, lhs: Expr) -> Step<Expr>
    decreases s.left(g), 0nat,
{
    if s.err is Some {
        s.stuck()
    } else if s.at_kw(g, Keyword::As) {
        let ty = type_of(g, s.skip());
        infix_tail(
            g,
            s.skip().after(ty),
            min,
            last,
            Expr::Cast { expr: Box::new(lhs), ty: Box::new(ty.out()) },
        )
    } else {
        match infix_at(g.kind(s.pos)) {
            None => s.ok(lhs),
            Some(op) => if power(op).0 < min {
                s.ok(lhs)
            } else if no_chain(op) && last == Some(power(op).0) {
                s.fail(
                    g,
                    "chained comparison is not allowed; use `&&` to combine comparisons explicitly"@,
                ).stuck()
            } else {
                let rhs = expr(g, s.skip(), power(op).1);
                infix_tail(
                    g,
                    s.skip().after(rhs),
                    min,
                    if no_chain(op) { Some(power(op).0) } else { last },
                    join_infix(op, lhs, rhs.out()),
                )
            },
        }
    }
}

/// Prefix operators, then an operand.
pub open spec fn prefix(g: Src, s: Cur) -> Step<Expr>
    decreases s.left(g), 6nat,
{
    if s.err is Some {
        s.stuck()
    } else if s.at_op(g, Op::Not) {
        unary(g, s.skip(), UnaryOp::Not)
    } else if s.at_op(g, Op::Tilde) {
        unary(g, s.skip(), UnaryOp::BitNot)
    } else if s.at_op(g, Op::Minus) {
        unary(g, s.skip(), UnaryOp::Neg)
    } else if s.at_kw(g, Keyword::Await) {
        let e = prefix(g, s.skip());
        s.skip().after(e).ok(Expr::Await(Box::new(e.out())))
    } else if s.at_kw(g, Keyword::Borrow) {
        let mutable = s.skip().at_kw(g, Keyword::Mut);
        let s1 = if mutable { s.skip().skip() } else { s.skip() };
        let e = prefix(g, s1);
        s1.after(e).ok(Expr::Borrow { mutable, expr: Box::new(e.out()) })
    } else {
        postfix(g, s)
    }
}

/// After a unary operator.
pub open spec fn unary(g: Src, s: Cur, op: UnaryOp) -> Step<Expr>
    decreases s.left(g), 8nat,
{
    let e = prefix(g, s);
    s.after(e).ok(Expr::Unary { op, expr: Box::new(e.out()) })
}

/// A primary expression and what is hung on it.
pub open spec fn postfix(g: Src, s: Cur) -> Step<Expr>
    decreases s.left(g), 4nat,
{
    let e = primary(g, s);
    postfix_tail(g, s.after(e), e.out())
}

pub open spec fn postfix_tail(g: Src, s: Cur, e: Expr) -> Step<Expr>
    decreases s.left(g), 0nat,
{
    if s.err is Some {
        s.stuck()
    } else if starts_suffix(g.kind(s.pos)) {
        let all = suffix(g, s.skip(), g.kind(s.pos), e);
        postfix_tail(g, s.skip().after(all), all.out())
    } else {
        s.ok(e)
    }
}

/// Whether a token goes on with the expression in front of it.
pub open spec fn starts_suffix(k: TokenKind) -> bool {
    ||| k == TokenKind::Op(Op::Dot)
    ||| k == TokenKind::Op(Op::Question)
    ||| k == TokenKind::Delim(Delim::LBracket)
    ||| k == TokenKind::Delim(Delim::LParen)
    ||| k == TokenKind::Keyword(Keyword::Style)
    ||| k == TokenKind::Keyword(Keyword::Layout)
}

/// After the token `start`, which goes on with `e`.
pub open spec fn suffix(g: Src, s: Cur, start: TokenKind, e: Expr) -> Step<Expr>
    decreases s.left(g), 20nat,
{
    match start {
        TokenKind::Op(Op::Dot) => member(g, s, e),
        TokenKind::Op(_) => s.ok(Expr::Propagate(Box::new(e))),
        TokenKind::Delim(Delim::LBracket) => {
            let index = expr(g, s, 0);
            s.after(index).delim(g, Delim::RBracket).ok(
                Expr::Index { expr: Box::new(e), index: Box::new(index.out()) },
            )
        },
        TokenKind::Delim(_) => {
            let args = args_tail(g, s);
            s.after(args).ok(Expr::Call { callee: Box::new(e), args: args.out() })
        },
        TokenKind::Keyword(Keyword::Style) => {
            let props = props(g, s);
            s.after(props).ok(Expr::Styled { expr: Box::new(e), props: props.out() })
        },
        _ => {
            let props = props(g, s);
            let s1 = s.after(props).delim(g, Delim::LBrace);
            let children = children(g, s1, seq![]);
            s1.after(children).delim(g, Delim::RBrace).ok(
                Expr::Layout { expr: Box::new(e), props: props.out(), children: children.out() },
            )
        },
    }
}

/// `::<...>` or nothing; the arguments are not kept.
pub open spec fn turbofish(g: Src, s: Cur) -> Step<()>
    decreases s.left(g), 0nat,
{
    if s.at_op(g, Op::ColonColon) && s.skip().at_op(g, Op::Lt) {
        let args = generic_args(g, s.skip());
        s.skip().after(args).ok(())
    } else {
        s.ok(())
    }
}

/// After `.`: a field, or a method where arguments follow.
pub open spec fn member(g: Src, s: Cur, e: Expr) -> Step<Expr>
    decreases s.left(g), 2nat,
{
    let name = word(g, s);
    let s1 = s.after(name);
    let s2 = s1.after(turbofish(g, s1));
    if s2.at_delim(g, Delim::LParen) {
        let args = args_tail(g, s2.skip());
        s2.skip().after(args).ok(
            Expr::MethodCall { receiver: Box::new(e), name: name.out(), args: args.out() },
        )
    } else {
        s2.ok(Expr::Field { expr: Box::new(e), name: name.out() })
    }
}

/// `{ name: value, ... }`
pub open spec fn props(g: Src, s: Cur) -> Step<Seq<(Seq<char>, Expr)>>
    decreases s.left(g), 0nat,
{
    if s.err is Some {
        s.stuck()
    } else {
        let s1 = s.delim(g, Delim::LBrace);
        let all = prop_list(g, s1, seq![]);
        s1.after(all).delim(g, Delim::RBrace).ok(all.out())
    }
}

/// `name: value` up to `}`, with commas between them.
pub open spec fn prop_list(g: Src, s: Cur, done: Seq<(Seq<char>, Expr)>) -> Step<
    Seq<(Seq<char>, Expr)>,
>
    decreases s.left(g), 0nat,
{
    if s.err is Some {
        s.stuck()
    } else if s.at_delim(g, Delim::RBrace) {
        s.ok(done)
    } else {
        let name = word(g, s);
        let s1 = s.after(name).delim(g, Delim::Colon);
        let value = expr(g, s1, 0);
        let s2 = s1.after(value);
        let all = done.push((name.out(), value.out()));
        if s2.at_delim(g, Delim::Comma) {
            prop_list(g, s2.skip(), all)
        } else {
            s2.ok(all)
        }
    }
}

/// Expressions up to `}`, with commas between them.
pub open spec fn children(g: Src, s: Cur, done: Seq<Expr>) -> Step<Seq<Expr>>
    decreases s.left(g), 10nat,
{
    if s.at_delim(g, Delim::RBrace) {
        s.ok(done)
    } else {
        let next = expr(g, s, 0);
        let s1 = s.after(next);
        let all = done.push(next.out());
        if s1.at_delim(g, Delim::Comma) {
            children(g, s1.skip(), all)
        } else {
            s1.ok(all)
        }
    }
}

/// Expressions up to `close`, with commas between them and perhaps one behind the last.
pub open spec fn expr_list(g: Src, s: Cur, close: Delim) -> Step<Seq<Expr>>
    decreases s.left(g), 10nat,
{
    if s.at_delim(g, close) {
        s.ok(seq![])
    } else {
        let first = expr(g, s, 0);
        more_exprs(g, s.after(first), close, seq![first.out()])
    }
}

pub open spec fn more_exprs(g: Src, s: Cur, close: Delim, done: Seq<Expr>) -> Step<Seq<Expr>>
    decreases s.left(g), 0nat,
{
    if !s.at_delim(g, Delim::Comma) {
        s.ok(done)
    } else if s.skip().at_delim(g, close) {
        s.skip().ok(done)
    } else {
        let next = expr(g, s.skip(), 0);
        more_exprs(g, s.skip().after(next), close, done.push(next.out()))
    }
}

/// `(args)`
pub open spec fn arg_list(g: Src, s: Cur) -> Step<Seq<Arg>>
    decreases s.left(g), 0nat,
{
    if s.err is Some {
        s.stuck()
    } else {
        let s1 = s.delim(g, Delim::LParen);
        args_tail(g, s1)
    }
}

/// After `(`.
pub open spec fn args_tail(g: Src, s: Cur) -> Step<Seq<Arg>>
    decreases s.left(g), 14nat,
{
    if s.at_delim(g, Delim::RParen) {
        s.skip().ok(seq![])
    } else {
        let first = arg(g, s);
        let s1 = s.after(first);
        let all = more_args(g, s1, seq![first.out()]);
        s1.after(all).delim(g, Delim::RParen).ok(all.out())
    }
}

pub open spec fn more_args(g: Src, s: Cur, done: Seq<Arg>) -> Step<Seq<Arg>>
    decreases s.left(g), 0nat,
{
    if !s.at_delim(g, Delim::Comma) {
        s.ok(done)
    } else if s.skip().at_delim(g, Delim::RParen) {
        s.skip().ok(done)
    } else {
        let next = arg(g, s.skip());
        more_args(g, s.skip().after(next), done.push(next.out()))
    }
}

/// Whether a token can be read as a name.
pub open spec fn is_word(kind: TokenKind) -> bool {
    kind is Ident || kind is Keyword
}

/// `name: value`, or a value.
pub open spec fn arg(g: Src, s: Cur) -> Step<Arg>
    decreases s.left(g), 12nat,
{
    let name = word(g, s);
    let s1 = s.after(name);
    if s1.at_delim(g, Delim::Colon) {
        let value = if name.out() == "on"@ {
            event_handler(g, s1.skip())
        } else {
            expr(g, s1.skip(), 0)
        };
        s1.skip().after(value).ok(Arg { name: Some(name.out()), value: value.out() })
    } else {
        let value = expr(g, s, 0);
        s.after(value).ok(Arg { name: None, value: value.out() })
    }
}

/// `event => expression`, or an expression.
pub open spec fn event_handler(g: Src, s: Cur) -> Step<Expr>
    decreases s.left(g), 10nat,
{
    if s.err is None && is_word(g.kind(s.pos)) && g.ahead(s.pos, 1) == TokenKind::Op(Op::FatArrow) {
        let event = word(g, s);
        let s1 = s.after(event).op(g, Op::FatArrow);
        let body = expr(g, s1, 0);
        s1.after(body).ok(Expr::EventHandler { event: event.out(), body: Box::new(body.out()) })
    } else {
        expr(g, s, 0)
    }
}

/// An expression without operators around it.
pub open spec fn primary(g: Src, s: Cur) -> Step<Expr>
    decreases s.left(g), 3nat,
{
    if s.err is Some {
        s.stuck()
    } else {
        match g.kind(s.pos) {
            TokenKind::Keyword(k) => keyword_primary(g, s, k),
            TokenKind::Ident(_) => path_primary(g, s),
            TokenKind::Op(Op::Pipe) | TokenKind::Op(Op::OrOr) => closure_primary(g, s, false),
            TokenKind::Delim(Delim::LBrace) => {
                let body = block(g, s);
                s.after(body).ok(Expr::Block(Box::new(body.out())))
            },
            TokenKind::Delim(Delim::LBracket) => {
                let items = expr_list(g, s.skip(), Delim::RBracket);
                s.skip().after(items).delim(g, Delim::RBracket).ok(Expr::Array(items.out()))
            },
            TokenKind::Delim(Delim::LParen) => paren_primary(g, s.skip()),
            other => if literal_of(other) is Some {
                let value = literal(g, s);
                s.after(value).ok(Expr::Literal(value.out()))
            } else {
                s.fail(g, "expected expression, found "@ + other.shown()).stuck()
            },
        }
    }
}

/// At the keyword `k`: what it begins, or a name.
pub open spec fn keyword_primary(g: Src, s: Cur, k: Keyword) -> Step<Expr>
    decreases s.left(g), 2nat,
{
    let s1 = s.skip();
    if s.err is Some || g.kind(s.pos) != TokenKind::Keyword(k) {
        s.stuck()
    } else {
        match k {
            Keyword::If => {
                let e = if_tail(g, s1);
                s1.after(e).ok(Expr::If(Box::new(e.out())))
            },
            Keyword::Match => {
                let e = match_tail(g, s1);
                s1.after(e).ok(Expr::Match(Box::new(e.out())))
            },
            Keyword::Loop | Keyword::While | Keyword::For | Keyword::Do => {
                let e = loop_expr(g, s);
                s.after(e).ok(Expr::Loop(Box::new(e.out())))
            },
            Keyword::Spawn => spawn_tail(g, s1),
            Keyword::Select => select_tail(g, s1),
            Keyword::Query => {
                let e = query_tail(g, s1);
                s1.after(e).ok(Expr::Query(e.out()))
            },
            Keyword::Try => try_tail(g, s1),
            Keyword::Throw => {
                let e = expr(g, s1, 0);
                s1.after(e).ok(Expr::Throw(Box::new(e.out())))
            },
            Keyword::Return => return_tail(g, s1),
            Keyword::Move => closure_primary(g, s1, true),
            Keyword::Unsafe => {
                let body = block(g, s1);
                s1.after(body).ok(Expr::Unsafe(Box::new(body.out())))
            },
            _ => path_primary(g, s),
        }
    }
}

/// A closure, which is the whole expression.
pub open spec fn closure_primary(g: Src, s: Cur, is_move: bool) -> Step<Expr>
    decreases s.left(g), 1nat,
{
    let c = closure(g, s, is_move);
    s.after(c).ok(Expr::Closure(Box::new(c.out())))
}

/// After `(`: the empty tuple, an expression in parentheses, or a tuple, told by a comma.
pub open spec fn paren_primary(g: Src, s: Cur) -> Step<Expr>
    decreases s.left(g), 10nat,
{
    if s.at_delim(g, Delim::RParen) {
        s.skip().ok(Expr::Tuple(seq![]))
    } else {
        let first = expr(g, s, 0);
        let s1 = s.after(first);
        let all = more_exprs(g, s1, Delim::RParen, seq![first.out()]);
        let s2 = s1.after(all).delim(g, Delim::RParen);
        s2.ok(
            if s1.at_delim(g, Delim::Comma) {
                Expr::Tuple(all.out())
            } else {
                Expr::Paren(Box::new(first.out()))
            },
        )
    }
}

/// A name or a path; where `{` follows and may be read so, a struct literal or a list of
/// children.
pub open spec fn path_primary(g: Src, s: Cur) -> Step<Expr>
    decreases s.left(g), 1nat,
{
    if s.err is Some {
        s.stuck()
    } else {
        let first = word(g, s);
        let s1 = s.after(first);
        let path = segments(g, s1, seq![first.out()]);
        let s2 = s1.after(path);
        let s3 = s2.after(turbofish(g, s2));
        if g.lit && s3.at_delim(g, Delim::LBrace) {
            if is_word(g.ahead(s3.pos, 1)) && g.ahead(s3.pos, 2) == TokenKind::Delim(
                Delim::Colon,
            ) {
                struct_lit_tail(g, s3.skip(), joined(path.out()))
            } else {
                component_tail(g, s3.skip(), joined(path.out()))
            }
        } else {
            s3.ok(
                if path.out().len() > 1 {
                    Expr::Path(path.out())
                } else {
                    Expr::Ident(first.out())
                },
            )
        }
    }
}

/// After the `{` of a list of children.
pub open spec fn component_tail(g: Src, s: Cur, name: Seq<char>) -> Step<Expr>
    decreases s.left(g), 12nat,
{
    let all = children(g, s, seq![]);
    s.after(all).delim(g, Delim::RBrace).ok(Expr::ComponentChildren { name, children: all.out() })
}

/// After the `{` of a struct literal.
pub open spec fn struct_lit_tail(g: Src, s: Cur, name: Seq<char>) -> Step<Expr>
    decreases s.left(g), 12nat,
{
    let parts = struct_fields(g, s, seq![]);
    s.after(parts).delim(g, Delim::RBrace).ok(
        Expr::StructLit { name, fields: parts.out().0, spread: parts.out().1 },
    )
}

/// `field: value` up to `}`, or up to `..rest`.
pub open spec fn struct_fields(g: Src, s: Cur, done: Seq<(Seq<char>, Expr)>) -> Step<
    (Seq<(Seq<char>, Expr)>, Option<Box<Expr>>),
>
    decreases s.left(g), 10nat,
{
    if s.err is Some {
        s.stuck()
    } else if s.at_delim(g, Delim::RBrace) {
        s.ok((done, None))
    } else if s.at_op(g, Op::DotDot) {
        let rest = expr(g, s.skip(), 0);
        s.skip().after(rest).ok((done, Some(Box::new(rest.out()))))
    } else {
        let name = word(g, s);
        let s1 = s.after(name).delim(g, Delim::Colon);
        let value = expr(g, s1, 0);
        let s2 = s1.after(value);
        let all = done.push((name.out(), value.out()));
        if s2.at_delim(g, Delim::Comma) {
            struct_fields(g, s2.skip(), all)
        } else {
            s2.ok((all, None))
        }
    }
}

/// After `if`.
pub open spec fn if_tail(g: Src, s: Cur) -> Step<IfExpr>
    decreases s.left(g), 10nat,
{
    let cond = expr(g.no_lit(), s, 0);
    let s1 = s.after(cond);
    let then_block = block(g, s1);
    let s2 = s1.after(then_block);
    if !s2.at_kw(g, Keyword::Else) {
        s2.ok(IfExpr { cond: cond.out(), then_block: then_block.out(), else_branch: None })
    } else if s2.skip().at_kw(g, Keyword::If) {
        let other = if_tail(g, s2.skip().skip());
        s2.skip().skip().after(other).ok(
            IfExpr {
                cond: cond.out(),
                then_block: then_block.out(),
                else_branch: Some(ElseBranch::If(Box::new(other.out()))),
            },
        )
    } else {
        let other = block(g, s2.skip());
        s2.skip().after(other).ok(
            IfExpr {
                cond: cond.out(),
                then_block: then_block.out(),
                else_branch: Some(ElseBranch::Block(other.out())),
            },
        )
    }
}

/// After `match`.
pub open spec fn match_tail(g: Src, s: Cur) -> Step<MatchExpr>
    decreases s.left(g), 10nat,
{
    let scrutinee = expr(g.no_lit(), s, 0);
    let s1 = s.after(scrutinee).delim(g, Delim::LBrace);
    let arms = match_arms(g, s1, seq![]);
    s1.after(arms).delim(g, Delim::RBrace).ok(
        MatchExpr { scrutinee: scrutinee.out(), arms: arms.out() },
    )
}

/// Arms up to `}`; a comma between two arms may be left out.
pub open spec fn match_arms(g: Src, s: Cur, done: Seq<MatchArm>) -> Step<Seq<MatchArm>>
    decreases s.left(g), 8nat,
{
    if s.err is Some {
        s.stuck()
    } else if s.at_delim(g, Delim::RBrace) {
        s.ok(done)
    } else {
        let arm = match_arm(g, s);
        let s1 = s.after(arm);
        let all = done.push(arm.out());
        if s1.at_delim(g, Delim::Comma) {
            match_arms(g, s1.skip(), all)
        } else if s1.at_delim(g, Delim::RBrace) || !s.moved(g, s1) {
            s1.ok(all)
        } else {
            match_arms(g, s1, all)
        }
    }
}

pub open spec fn match_arm(g: Src, s: Cur) -> Step<MatchArm>
    decreases s.left(g), 6nat,
{
    if s.err is Some {
        s.stuck()
    } else {
        let first = pattern(g, s);
        let s1 = s.after(first);
        let patterns = more_arm_patterns(g, s1, seq![first.out()]);
        let s2 = s1.after(patterns);
        let guard = arm_guard(g, s2);
        let s3 = s2.after(guard).op(g, Op::FatArrow);
        let body = arm_body(g, s3);
        s3.after(body).ok(
            MatchArm { patterns: patterns.out(), guard: guard.out(), body: body.out() },
        )
    }
}

/// Further patterns with `|` in front of each.
pub open spec fn more_arm_patterns(g: Src, s: Cur, done: Seq<Pattern>) -> Step<Seq<Pattern>>
    decreases s.left(g), 0nat,
{
    if !s.at_op(g, Op::Pipe) {
        s.ok(done)
    } else {
        let next = pattern(g, s.skip());
        more_arm_patterns(g, s.skip().after(next), done.push(next.out()))
    }
}

/// `if condition` or nothing.
pub open spec fn arm_guard(g: Src, s: Cur) -> Step<Option<Expr>>
    decreases s.left(g), 0nat,
{
    if s.at_kw(g, Keyword::If) {
        let cond = expr(g, s.skip(), 0);
        s.skip().after(cond).ok(Some(cond.out()))
    } else {
        s.ok(None)
    }
}

pub open spec fn arm_body(g: Src, s: Cur) -> Step<MatchArmBody>
    decreases s.left(g), 10nat,
{
    if s.at_delim(g, Delim::LBrace) {
        let body = block(g, s);
        s.after(body).ok(MatchArmBody::Block(body.out()))
    } else {
        let body = expr(g, s, 0);
        s.after(body).ok(MatchArmBody::Expr(Box::new(body.out())))
    }
}

/// One of the four loops.
pub open spec fn loop_expr(g: Src, s: Cur) -> Step<LoopExpr>
    decreases s.left(g), 1nat,
{
    if s.err is Some {
        s.stuck()
    } else if s.at_kw(g, Keyword::Loop) {
        loop_tail(g, s.skip(), Keyword::Loop)
    } else if s.at_kw(g, Keyword::While) {
        loop_tail(g, s.skip(), Keyword::While)
    } else if s.at_kw(g, Keyword::For) {
        loop_tail(g, s.skip(), Keyword::For)
    } else if s.at_kw(g, Keyword::Do) {
        loop_tail(g, s.skip(), Keyword::Do)
    } else {
        s.fail(g, "expected loop/while/for/do"@).stuck()
    }
}

/// After the keyword `k` of a loop.
pub open spec fn loop_tail(g: Src, s: Cur, k: Keyword) -> Step<LoopExpr>
    decreases s.left(g), 10nat,
{
    match k {
        Keyword::Loop => {
            let body = block(g, s);
            s.after(body).ok(LoopExpr::Loop { label: None, body: body.out() })
        },
        Keyword::While => {
            let cond = expr(g.no_lit(), s, 0);
            let s1 = s.after(cond);
            let body = block(g, s1);
            s1.after(body).ok(
                LoopExpr::While { label: None, cond: Box::new(cond.out()), body: body.out() },
            )
        },
        Keyword::For => {
            let pat = pattern(g, s);
            let s1 = s.after(pat).kw(g, Keyword::In);
            let iter = expr(g.no_lit(), s1, 0);
            let s2 = s1.after(iter);
            let body = block(g, s2);
            s2.after(body).ok(
                LoopExpr::For {
                    label: None,
                    pattern: pat.out(),
                    iter: Box::new(iter.out()),
                    body: body.out(),
                },
            )
        },
        _ => {
            let body = block(g, s);
            let s1 = s.after(body).kw(g, Keyword::While).delim(g, Delim::LParen);
            let cond = expr(g, s1, 0);
            let s2 = s1.after(cond).delim(g, Delim::RParen).delim(g, Delim::Semi);
            s2.ok(LoopExpr::DoWhile { body: body.out(), cond: Box::new(cond.out()) })
        },
    }
}

/// After `spawn`: a block or a closure.
pub open spec fn spawn_tail(g: Src, s: Cur) -> Step<Expr>
    decreases s.left(g), 2nat,
{
    let is_move = s.at_kw(g, Keyword::Move);
    let s1 = if is_move { s.skip() } else { s };
    if s1.at_delim(g, Delim::LBrace) {
        let body = block(g, s1);
        s1.after(body).ok(Expr::Spawn { is_move, body: SpawnBody::Block(body.out()) })
    } else {
        let body = closure(g, s1, false);
        s1.after(body).ok(Expr::Spawn { is_move, body: SpawnBody::Closure(Box::new(body.out())) })
    }
}

/// `|params| -> type body`, or `||` for no parameters.
pub open spec fn closure(g: Src, s: Cur, is_move: bool) -> Step<ClosureExpr>
    decreases s.left(g), 0nat,
{
    if s.err is Some {
        s.stuck()
    } else if s.at_op(g, Op::OrOr) {
        closure_tail(g, s.skip(), is_move, seq![])
    } else {
        let s1 = s.op(g, Op::Pipe);
        if s1.at_op(g, Op::Pipe) {
            closure_tail(g, s1.skip(), is_move, seq![])
        } else {
            let params = closure_params(g, s1, seq![]);
            closure_tail(g, s1.after(params).op(g, Op::Pipe), is_move, params.out())
        }
    }
}

pub open spec fn closure_params(g: Src, s: Cur, done: Seq<(Pattern, Option<Type>)>) -> Step<
    Seq<(Pattern, Option<Type>)>,
>
    decreases s.left(g), 4nat,
{
    let pat = pattern_single(g, s);
    let s1 = s.after(pat);
    let ty = opt_type(g, s1);
    let s2 = s1.after(ty);
    let all = done.push((pat.out(), ty.out()));
    if s2.at_delim(g, Delim::Comma) {
        closure_params(g, s2.skip(), all)
    } else {
        s2.ok(all)
    }
}

/// `: type` or nothing.
pub open spec fn opt_type(g: Src, s: Cur) -> Step<Option<Type>>
    decreases s.left(g), 0nat,
{
    if s.at_delim(g, Delim::Colon) {
        let ty = type_of(g, s.skip());
        s.skip().after(ty).ok(Some(ty.out()))
    } else {
        s.ok(None)
    }
}

/// `-> type` or nothing.
pub open spec fn opt_return_type(g: Src, s: Cur) -> Step<Option<Type>>
    decreases s.left(g), 0nat,
{
    if s.at_op(g, Op::Arrow) {
        let ty = type_of(g, s.skip());
        s.skip().after(ty).ok(Some(ty.out()))
    } else {
        s.ok(None)
    }
}

/// `= value` or nothing.
pub open spec fn opt_value(g: Src, s: Cur) -> Step<Option<Expr>>
    decreases s.left(g), 0nat,
{
    if s.at_op(g, Op::Eq) {
        let value = expr(g, s.skip(), 0);
        s.skip().after(value).ok(Some(value.out()))
    } else {
        s.ok(None)
    }
}

/// After the parameters of a closure.
pub open spec fn closure_tail(
    g: Src,
    s: Cur,
    is_move: bool,
    params: Seq<(Pattern, Option<Type>)>,
) -> Step<ClosureExpr>
    decreases s.left(g), 10nat,
{
    let ret = opt_return_type(g, s);
    let s1 = s.after(ret);
    if s1.at_delim(g, Delim::LBrace) {
        let body = block(g, s1);
        s1.after(body).ok(
            ClosureExpr {
                is_move,
                params,
                return_type: ret.out(),
                body: ClosureBody::Block(body.out()),
            },
        )
    } else {
        let body = expr(g, s1, 0);
        s1.after(body).ok(
            ClosureExpr {
                is_move,
                params,
                return_type: ret.out(),
                body: ClosureBody::Expr(Box::new(body.out())),
            },
        )
    }
}

/// After `select`.
pub open spec fn select_tail(g: Src, s: Cur) -> Step<Expr>
    decreases s.left(g), 0nat,
{
    if s.err is Some {
        s.stuck()
    } else {
        let s1 = s.delim(g, Delim::LBrace);
        let arms = select_arms(g, s1, seq![]);
        s1.after(arms).delim(g, Delim::RBrace).ok(Expr::Select(arms.out()))
    }
}

/// `case pattern = <- channel: body` up to `}`, with commas between them.
pub open spec fn select_arms(g: Src, s: Cur, done: Seq<SelectArm>) -> Step<Seq<SelectArm>>
    decreases s.left(g), 0nat,
{
    if s.err is Some {
        s.stuck()
    } else if s.at_delim(g, Delim::RBrace) {
        s.ok(done)
    } else {
        let s1 = s.kw(g, Keyword::Case);
        let pat = pattern(g, s1);
        let s2 = s1.after(pat).op(g, Op::Eq).op(g, Op::Lt).op(g, Op::Minus);
        let channel = expr(g, s2, 0);
        let s3 = s2.after(channel).delim(g, Delim::Colon);
        let body = expr(g, s3, 0);
        let s4 = s3.after(body);
        let all = done.push(
            SelectArm { pattern: pat.out(), channel_expr: channel.out(), body: body.out() },
        );
        if s4.at_delim(g, Delim::Comma) {
            select_arms(g, s4.skip(), all)
        } else {
            s4.ok(all)
        }
    }
}

/// After `query`: a table, then clauses.
pub open spec fn query_tail(g: Src, s: Cur) -> Step<QueryExpr>
    decreases s.left(g), 4nat,
{
    let table = word(g, s);
    let s1 = s.after(table);
    let clauses = query_clauses(g, s1, seq![]);
    s1.after(clauses).ok(QueryExpr { table: table.out(), clauses: clauses.out() })
}

pub open spec fn query_clauses(g: Src, s: Cur, done: Seq<QueryClause>) -> Step<Seq<QueryClause>>
    decreases s.left(g), 2nat,
{
    if s.err is Some {
        s.stuck()
    } else if starts_clause(g, s) {
        let clause = query_clause(g, s.skip(), g.kind(s.pos));
        query_clauses(g, s.skip().after(clause), done.push(clause.out()))
    } else {
        s.ok(done)
    }
}

/// Whether a query clause begins here.
pub open spec fn starts_clause(g: Src, s: Cur) -> bool {
    ||| s.at_kw(g, Keyword::Where)
    ||| s.at_name(g, "orderBy"@)
    ||| s.at_kw(g, Keyword::Insert)
    ||| s.at_kw(g, Keyword::Update)
    ||| s.at_kw(g, Keyword::Delete)
    ||| s.at_name(g, "first"@)
    ||| s.at_name(g, "count"@)
    ||| s.at_name(g, "join"@)
}

/// After the token `start` of a query clause.
pub open spec fn query_clause(g: Src, s: Cur, start: TokenKind) -> Step<QueryClause>
    decreases s.left(g), 10nat,
{
    match start {
        TokenKind::Keyword(Keyword::Where) => {
            let e = expr(g, s, 0);
            s.after(e).ok(QueryClause::Where(Box::new(e.out())))
        },
        TokenKind::Keyword(Keyword::Insert) => {
            let e = expr(g, s, 0);
            s.after(e).ok(QueryClause::Insert(Box::new(e.out())))
        },
        TokenKind::Keyword(Keyword::Update) => {
            let fields = props(g, s);
            s.after(fields).ok(QueryClause::Update(fields.out()))
        },
        TokenKind::Keyword(Keyword::Delete) => s.ok(QueryClause::Delete),
        TokenKind::Ident(name) => if name@ == "orderBy"@ {
            let column = word(g, s);
            s.after(column).ok(QueryClause::OrderBy(column.out()))
        } else if name@ == "first"@ {
            s.ok(QueryClause::First)
        } else if name@ == "count"@ {
            s.delim(g, Delim::LParen).delim(g, Delim::RParen).ok(QueryClause::Count)
        } else {
            let table = word(g, s);
            let s1 = s.after(table).kw(g, Keyword::On);
            let on = expr(g, s1, 0);
            s1.after(on).ok(QueryClause::Join { table: table.out(), on: Box::new(on.out()) })
        },
        _ => s.fail(g, "expected a query clause"@).stuck(),
    }
}

/// After `try`.
pub open spec fn try_tail(g: Src, s: Cur) -> Step<Expr>
    decreases s.left(g), 2nat,
{
    let body = block(g, s);
    let s1 = s.after(body).kw(g, Keyword::Catch).delim(g, Delim::LParen);
    let name = word(g, s1);
    let s2 = s1.after(name).delim(g, Delim::RParen);
    let handler = block(g, s2);
    s2.after(handler).ok(
        Expr::TryCatch {
            try_block: body.out(),
            catch_var: name.out(),
            catch_block: handler.out(),
        },
    )
}

/// After `return`: nothing in front of `;`, `}` or `,`, else a value.
pub open spec fn return_tail(g: Src, s: Cur) -> Step<Expr>
    decreases s.left(g), 10nat,
{
    if s.at_delim(g, Delim::Semi) || s.at_delim(g, Delim::RBrace) || s.at_delim(g, Delim::Comma) {
        s.ok(Expr::Return(None))
    } else {
        let e = expr(g, s, 0);
        s.after(e).ok(Expr::Return(Some(Box::new(e.out()))))
    }
}

} // verus!
