//! Reading expressions.
use crate::ast::{
    Arg, AssignOp, BinaryOp, ClosureBody, ClosureExpr, ElseBranch, Expr, IfExpr, LoopExpr, MatchArm,
    MatchArmBody, MatchExpr, Pattern, QueryClause, QueryExpr, SelectArm, SpawnBody, Type, UnaryOp,
};
use crate::ast_tree::{trees, Syntax};
use crate::grammar::exprs::{
    arg, arg_list, args_tail, children, closure, closure_params, closure_tail, component_tail,
    event_handler, expr, expr_list, if_tail, infix_at, infix_tail, is_word, join_infix,
    keyword_primary, loop_expr, match_arm, match_arms, match_tail, member, more_args,
    more_arm_patterns, more_exprs, no_chain, paren_primary, path_primary, postfix, postfix_tail,
    power, prefix, primary, prop_list, props, query_clause, query_clauses, query_tail, return_tail,
    select_arms, select_tail, spawn_tail, struct_fields, struct_lit_tail, suffix, try_tail,
    turbofish, unary, Infix,
};
use crate::parser::stream::{meets, meets_all, none, one, push, ParseResult, Parser};
use crate::parser::types::join_path;
use crate::text::same_text;
use crate::token::{Delim, Keyword, Op, TokenKind};
use vstd::prelude::*;

verus! {

/// The operators that stand between two expressions.
#[derive(Debug, Clone, Copy, PartialEq, Eq, Structural)]
enum InfixOp {
    Plus,
    Minus,
    Star,
    Slash,
    Percent,
    StarStar,
    EqEq,
    NotEq,
    Lt,
    Gt,
    LtEq,
    GtEq,
    AndAnd,
    OrOr,
    QuestionQuestion,
    Amp,
    Pipe,
    Caret,
    Shl,
    Shr,
    DotDot,
    DotDotEq,
    Assign(AssignOp),
}

impl InfixOp {
    /// What the operator builds.
    spec fn infix(self) -> Infix {
        match self {
            InfixOp::Plus => Infix::Binary(BinaryOp::Add),
            InfixOp::Minus => Infix::Binary(BinaryOp::Sub),
            InfixOp::Star => Infix::Binary(BinaryOp::Mul),
            InfixOp::Slash => Infix::Binary(BinaryOp::Div),
            InfixOp::Percent => Infix::Binary(BinaryOp::Mod),
            InfixOp::StarStar => Infix::Binary(BinaryOp::Pow),
            InfixOp::EqEq => Infix::Binary(BinaryOp::EqEq),
            InfixOp::NotEq => Infix::Binary(BinaryOp::NotEq),
            InfixOp::Lt => Infix::Binary(BinaryOp::Lt),
            InfixOp::Gt => Infix::Binary(BinaryOp::Gt),
            InfixOp::LtEq => Infix::Binary(BinaryOp::LtEq),
            InfixOp::GtEq => Infix::Binary(BinaryOp::GtEq),
            InfixOp::AndAnd => Infix::Binary(BinaryOp::AndAnd),
            InfixOp::OrOr => Infix::Binary(BinaryOp::OrOr),
            InfixOp::QuestionQuestion => Infix::Binary(BinaryOp::Coalesce),
            InfixOp::Amp => Infix::Binary(BinaryOp::BitAnd),
            InfixOp::Pipe => Infix::Binary(BinaryOp::BitOr),
            InfixOp::Caret => Infix::Binary(BinaryOp::BitXor),
            InfixOp::Shl => Infix::Binary(BinaryOp::Shl),
            InfixOp::Shr => Infix::Binary(BinaryOp::Shr),
            InfixOp::DotDot => Infix::Range(false),
            InfixOp::DotDotEq => Infix::Range(true),
            InfixOp::Assign(op) => Infix::Assign(op),
        }
    }
}

fn current_infix_op(kind: &TokenKind) -> (r: Option<InfixOp>)
    ensures
        match r {
            Some(op) => infix_at(*kind) == Some(op.infix()),
            None => infix_at(*kind) is None,
        },
{
    match kind {
        TokenKind::Op(op) => match op {
            Op::Plus => Some(InfixOp::Plus),
            Op::Minus => Some(InfixOp::Minus),
            Op::Star => Some(InfixOp::Star),
            Op::Slash => Some(InfixOp::Slash),
            Op::Percent => Some(InfixOp::Percent),
            Op::StarStar => Some(InfixOp::StarStar),
            Op::EqEq => Some(InfixOp::EqEq),
            Op::NotEq => Some(InfixOp::NotEq),
            Op::Lt => Some(InfixOp::Lt),
            Op::Gt => Some(InfixOp::Gt),
            Op::LtEq => Some(InfixOp::LtEq),
            Op::GtEq => Some(InfixOp::GtEq),
            Op::AndAnd => Some(InfixOp::AndAnd),
            Op::OrOr => Some(InfixOp::OrOr),
            Op::QuestionQuestion => Some(InfixOp::QuestionQuestion),
            Op::Amp => Some(InfixOp::Amp),
            Op::Pipe => Some(InfixOp::Pipe),
            Op::Caret => Some(InfixOp::Caret),
            Op::Shl => Some(InfixOp::Shl),
            Op::Shr => Some(InfixOp::Shr),
            Op::DotDot => Some(InfixOp::DotDot),
            Op::DotDotEq => Some(InfixOp::DotDotEq),
            Op::Eq => Some(InfixOp::Assign(AssignOp::Eq)),
            Op::PlusEq => Some(InfixOp::Assign(AssignOp::PlusEq)),
            Op::MinusEq => Some(InfixOp::Assign(AssignOp::MinusEq)),
            Op::StarEq => Some(InfixOp::Assign(AssignOp::StarEq)),
            Op::SlashEq => Some(InfixOp::Assign(AssignOp::SlashEq)),
            Op::PercentEq => Some(InfixOp::Assign(AssignOp::PercentEq)),
            Op::AmpEq => Some(InfixOp::Assign(AssignOp::AmpEq)),
            Op::PipeEq => Some(InfixOp::Assign(AssignOp::PipeEq)),
            Op::CaretEq => Some(InfixOp::Assign(AssignOp::CaretEq)),
            Op::ShlEq => Some(InfixOp::Assign(AssignOp::ShlEq)),
            Op::ShrEq => Some(InfixOp::Assign(AssignOp::ShrEq)),
            _ => None,
        },
        _ => None,
    }
}

/// How tightly an operator holds its left and its right operand, and whether it does not
/// chain.
fn infix_binding_power(op: InfixOp) -> (r: (u8, u8, bool))
    ensures
        r == (power(op.infix()).0, power(op.infix()).1, no_chain(op.infix())),
{
    match op {
        InfixOp::Assign(_) => (2, 1, false),
        InfixOp::QuestionQuestion => (3, 4, false),
        InfixOp::OrOr => (5, 6, false),
        InfixOp::AndAnd => (7, 8, false),
        InfixOp::EqEq | InfixOp::NotEq => (9, 10, true),
        InfixOp::Lt | InfixOp::Gt | InfixOp::LtEq | InfixOp::GtEq => (10, 11, true),
        InfixOp::DotDot | InfixOp::DotDotEq => (11, 12, true),
        InfixOp::Pipe => (12, 13, false),
        InfixOp::Caret => (14, 15, false),
        InfixOp::Amp => (16, 17, false),
        InfixOp::Shl | InfixOp::Shr => (18, 19, false),
        InfixOp::Plus | InfixOp::Minus => (20, 21, false),
        InfixOp::Star | InfixOp::Slash | InfixOp::Percent => (22, 23, false),
        InfixOp::StarStar => (25, 24, false),
    }
}

fn build_infix(op: InfixOp, lhs: Expr, rhs: Expr) -> (r: Expr)
    ensures
        r.tree() == join_infix(op.infix(), lhs.tree(), rhs.tree()),
{
    let lhs = Box::new(lhs);
    let rhs = Box::new(rhs);
    let made = match op {
        InfixOp::Assign(op) => Expr::Assign { op, lhs, rhs },
        InfixOp::DotDot => Expr::Range { lo: lhs, hi: rhs, inclusive: false },
        InfixOp::DotDotEq => Expr::Range { lo: lhs, hi: rhs, inclusive: true },
        InfixOp::Plus => Expr::Binary { op: BinaryOp::Add, lhs, rhs },
        InfixOp::Minus => Expr::Binary { op: BinaryOp::Sub, lhs, rhs },
        InfixOp::Star => Expr::Binary { op: BinaryOp::Mul, lhs, rhs },
        InfixOp::Slash => Expr::Binary { op: BinaryOp::Div, lhs, rhs },
        InfixOp::Percent => Expr::Binary { op: BinaryOp::Mod, lhs, rhs },
        InfixOp::StarStar => Expr::Binary { op: BinaryOp::Pow, lhs, rhs },
        InfixOp::EqEq => Expr::Binary { op: BinaryOp::EqEq, lhs, rhs },
        InfixOp::NotEq => Expr::Binary { op: BinaryOp::NotEq, lhs, rhs },
        InfixOp::Lt => Expr::Binary { op: BinaryOp::Lt, lhs, rhs },
        InfixOp::Gt => Expr::Binary { op: BinaryOp::Gt, lhs, rhs },
        InfixOp::LtEq => Expr::Binary { op: BinaryOp::LtEq, lhs, rhs },
        InfixOp::GtEq => Expr::Binary { op: BinaryOp::GtEq, lhs, rhs },
        InfixOp::AndAnd => Expr::Binary { op: BinaryOp::AndAnd, lhs, rhs },
        InfixOp::OrOr => Expr::Binary { op: BinaryOp::OrOr, lhs, rhs },
        InfixOp::QuestionQuestion => Expr::Binary { op: BinaryOp::Coalesce, lhs, rhs },
        InfixOp::Amp => Expr::Binary { op: BinaryOp::BitAnd, lhs, rhs },
        InfixOp::Pipe => Expr::Binary { op: BinaryOp::BitOr, lhs, rhs },
        InfixOp::Caret => Expr::Binary { op: BinaryOp::BitXor, lhs, rhs },
        InfixOp::Shl => Expr::Binary { op: BinaryOp::Shl, lhs, rhs },
        InfixOp::Shr => Expr::Binary { op: BinaryOp::Shr, lhs, rhs },
    };
    proof {
        made.unfold();
    }
    made
}

impl Parser {
    /// An expression whose operators all hold their left operand at least as tightly as
    /// `min_bp`; all of them, from `0` on.
    #[verifier::loop_isolation(false)]
    pub fn parse_expr(&mut self, min_bp: u8) -> (r: ParseResult<Expr>)
        requires
            old(self).wf(),
        ensures
            old(self).keeps(*final(self)),
            meets(
                expr(old(self).src(), old(self).cur(), min_bp),
                final(self).cur(),
                r,
            ),
            r is Ok ==> final(self).left() < old(self).left(),
        decreases old(self).left(), 5nat,
    {
        let mut lhs = self.parse_prefix()?;
        let mut last: Option<u8> = None;
        let ghost whole = infix_tail(self.src(), self.cur(), min_bp, last, lhs.tree());
        let ghost start = self.left();
        loop
            invariant
                old(self).keeps(*self),
                self.left() <= start,
                whole == infix_tail(self.src(), self.cur(), min_bp, last, lhs.tree()),
            decreases self.left(),
        {
            proof {
                reveal_with_fuel(infix_tail, 2);
            }
            if self.eat_kw(Keyword::As) {
                let ty = self.parse_type()?;
                let cast = Expr::Cast { expr: Box::new(lhs), ty: Box::new(ty) };
                proof {
                    cast.unfold();
                }
                lhs = cast;
            } else {
                let op = match current_infix_op(self.peek_kind()) {
                    Some(op) => op,
                    None => return Ok(lhs),
                };
                let (l_bp, r_bp, nonchain) = infix_binding_power(op);
                if l_bp < min_bp {
                    return Ok(lhs);
                }
                if nonchain {
                    if let Some(level) = last {
                        if level == l_bp {
                            return self.error(
                                "chained comparison is not allowed; use `&&` to combine comparisons explicitly",
                            );
                        }
                    }
                    last = Some(l_bp);
                }
                self.advance();
                let rhs = self.parse_expr(r_bp)?;
                lhs = build_infix(op, lhs, rhs);
            }
        }
    }

    fn parse_prefix(&mut self) -> (r: ParseResult<Expr>)
        requires
            old(self).wf(),
        ensures
            old(self).keeps(*final(self)),
            meets(
                prefix(old(self).src(), old(self).cur()),
                final(self).cur(),
                r,
            ),
            r is Ok ==> final(self).left() < old(self).left(),
        decreases old(self).left(), 4nat,
    {
        if self.eat_op(Op::Not) {
            return self.parse_unary(UnaryOp::Not);
        }
        if self.eat_op(Op::Tilde) {
            return self.parse_unary(UnaryOp::BitNot);
        }
        if self.eat_op(Op::Minus) {
            return self.parse_unary(UnaryOp::Neg);
        }
        if self.eat_kw(Keyword::Await) {
            let e = self.parse_prefix()?;
            let made = Expr::Await(Box::new(e));
            proof {
                made.unfold();
            }
            return Ok(made);
        }
        if self.eat_kw(Keyword::Borrow) {
            let mutable = self.eat_kw(Keyword::Mut);
            let e = self.parse_prefix()?;
            let made = Expr::Borrow { mutable, expr: Box::new(e) };
            proof {
                made.unfold();
            }
            return Ok(made);
        }
        self.parse_postfix()
    }

    /// After a unary operator.
    fn parse_unary(&mut self, op: UnaryOp) -> (r: ParseResult<Expr>)
        requires
            old(self).wf(),
        ensures
            old(self).keeps(*final(self)),
            meets(
                unary(old(self).src(), old(self).cur(), op),
                final(self).cur(),
                r,
            ),
            r is Ok ==> final(self).left() < old(self).left(),
        decreases old(self).left(), 5nat,
    {
        let e = self.parse_prefix()?;
        let made = Expr::Unary { op, expr: Box::new(e) };
        proof {
            made.unfold();
        }
        Ok(made)
    }

    #[verifier::loop_isolation(false)]
    fn parse_postfix(&mut self) -> (r: ParseResult<Expr>)
        requires
            old(self).wf(),
        ensures
            old(self).keeps(*final(self)),
            meets(
                postfix(old(self).src(), old(self).cur()),
                final(self).cur(),
                r,
            ),
            r is Ok ==> final(self).left() < old(self).left(),
        decreases old(self).left(), 3nat,
    {
        let mut e = self.parse_primary()?;
        let ghost whole = postfix_tail(self.src(), self.cur(), e.tree());
        let ghost start = self.left();
        loop
            invariant
                old(self).keeps(*self),
                self.left() <= start,
                whole == postfix_tail(self.src(), self.cur(), e.tree()),
            decreases self.left(),
        {
            proof {
                reveal_with_fuel(postfix_tail, 2);
            }
            let starts = matches!(self.peek_kind(), TokenKind::Op(Op::Dot)
                | TokenKind::Op(Op::Question) | TokenKind::Delim(Delim::LBracket)
                | TokenKind::Delim(Delim::LParen) | TokenKind::Keyword(Keyword::Style)
                | TokenKind::Keyword(Keyword::Layout));
            if !starts {
                return Ok(e);
            }
            let start = self.advance();
            e = self.parse_suffix(start, e)?;
        }
    }

    /// After the token `start`, which goes on with `e`.
    fn parse_suffix(&mut self, start: TokenKind, e: Expr) -> (r: ParseResult<Expr>)
        requires
            old(self).wf(),
        ensures
            old(self).keeps(*final(self)),
            meets(
                suffix(old(self).src(), old(self).cur(), start, e.tree()),
                final(self).cur(),
                r,
            ),
        decreases old(self).left(), 9nat,
    {
        match start {
            TokenKind::Op(Op::Dot) => self.parse_member(e),
            TokenKind::Op(_) => {
                let made = Expr::Propagate(Box::new(e));
                proof {
                    made.unfold();
                }
                return Ok(made);
            },
            TokenKind::Delim(Delim::LBracket) => {
                let index = self.parse_expr(0)?;
                self.expect_delim(Delim::RBracket)?;
                let made = Expr::Index { expr: Box::new(e), index: Box::new(index) };
                proof {
                    made.unfold();
                }
                return Ok(made);
            },
            TokenKind::Delim(_) => {
                let args = self.parse_args_tail()?;
                let made = Expr::Call { callee: Box::new(e), args };
                proof {
                    made.unfold();
                }
                return Ok(made);
            },
            TokenKind::Keyword(Keyword::Style) => {
                let props = self.parse_brace_prop_list()?;
                let made = Expr::Styled { expr: Box::new(e), props };
                proof {
                    made.unfold();
                }
                return Ok(made);
            },
            _ => {
                let props = self.parse_brace_prop_list()?;
                self.expect_delim(Delim::LBrace)?;
                let children = self.parse_children()?;
                self.expect_delim(Delim::RBrace)?;
                let made = Expr::Layout { expr: Box::new(e), props, children };
                proof {
                    made.unfold();
                }
                return Ok(made);
            },
        }
    }

    /// `::<...>` or nothing; the arguments are not kept.
    pub(super) fn parse_turbofish(&mut self) -> (r: ParseResult<()>)
        requires
            old(self).wf(),
        ensures
            old(self).keeps(*final(self)),
            final(self).left() <= old(self).left(),
            final(self).cur().pos == old(self).cur().after(
                turbofish(old(self).src(), old(self).cur()),
            ).pos,
            old(self).cur().after(turbofish(old(self).src(), old(self).cur())).err == (match r {
                Ok(_) => None,
                Err(e) => Some(e.failure()),
            }),
        decreases old(self).left(), 0nat,
    {
        if self.check_op(Op::ColonColon) {
            let save = self.mark();
            self.advance();
            if self.check_op(Op::Lt) {
                let _args = self.parse_generic_args_opt()?;
            } else {
                self.back_to(save);
            }
        }
        Ok(())
    }

    /// After `.`: a field, or a method where arguments follow.
    fn parse_member(&mut self, receiver: Expr) -> (r: ParseResult<Expr>)
        requires
            old(self).wf(),
        ensures
            old(self).keeps(*final(self)),
            meets(
                member(old(self).src(), old(self).cur(), receiver.tree()),
                final(self).cur(),
                r,
            ),
            r is Ok ==> final(self).left() < old(self).left(),
        decreases old(self).left(), 2nat,
    {
        let name = self.expect_word()?;
        self.parse_turbofish()?;
        if self.check_delim(Delim::LParen) {
            let args = self.parse_arg_list()?;
            let made = Expr::MethodCall { receiver: Box::new(receiver), name, args };
            proof {
                made.unfold();
            }
            return Ok(made);
        }
        let made = Expr::Field { expr: Box::new(receiver), name };
        proof {
            made.unfold();
        }
        Ok(made)
    }

    /// `{ name: value, ... }`
    pub(super) fn parse_brace_prop_list(&mut self) -> (r: ParseResult<Vec<(String, Expr)>>)
        requires
            old(self).wf(),
        ensures
            old(self).keeps(*final(self)),
            meets_all(
                props(old(self).src(), old(self).cur()),
                final(self).cur(),
                r,
            ),
            r is Ok ==> final(self).left() < old(self).left(),
        decreases old(self).left(), 0nat,
    {
        self.expect_delim(Delim::LBrace)?;
        let props = self.parse_prop_list()?;
        self.expect_delim(Delim::RBrace)?;
        Ok(props)
    }

    #[verifier::loop_isolation(false)]
    fn parse_prop_list(&mut self) -> (r: ParseResult<Vec<(String, Expr)>>)
        requires
            old(self).wf(),
        ensures
            old(self).keeps(*final(self)),
            meets_all(
                prop_list(old(self).src(), old(self).cur(), seq![]),
                final(self).cur(),
                r,
            ),
        decreases old(self).left(), 6nat,
    {
        let mut props = none();
        let ghost whole = prop_list(self.src(), self.cur(), trees(props@));
        let ghost start = self.left();
        loop
            invariant
                old(self).keeps(*self),
                self.left() <= start,
                whole == prop_list(self.src(), self.cur(), trees(props@)),
            decreases self.left(),
        {
            proof {
                reveal_with_fuel(prop_list, 2);
            }
            if self.check_delim(Delim::RBrace) {
                return Ok(props);
            }
            let name = self.expect_word()?;
            self.expect_delim(Delim::Colon)?;
            let value = self.parse_expr(0)?;
            push(&mut props, (name, value));
            if !self.eat_delim(Delim::Comma) {
                return Ok(props);
            }
        }
    }

    /// Expressions up to `}`.
    #[verifier::loop_isolation(false)]
    fn parse_children(&mut self) -> (r: ParseResult<Vec<Expr>>)
        requires
            old(self).wf(),
        ensures
            old(self).keeps(*final(self)),
            meets_all(
                children(old(self).src(), old(self).cur(), seq![]),
                final(self).cur(),
                r,
            ),
        decreases old(self).left(), 6nat,
    {
        let mut all = none();
        let ghost whole = children(self.src(), self.cur(), trees(all@));
        let ghost start = self.left();
        loop
            invariant
                old(self).keeps(*self),
                self.left() <= start,
                whole == children(self.src(), self.cur(), trees(all@)),
            decreases self.left(),
        {
            proof {
                reveal_with_fuel(children, 2);
            }
            if self.check_delim(Delim::RBrace) {
                return Ok(all);
            }
            let next = self.parse_expr(0)?;
            push(&mut all, next);
            if !self.eat_delim(Delim::Comma) {
                return Ok(all);
            }
        }
    }

    /// Expressions up to `close`.
    pub(super) fn parse_expr_list(&mut self, close: Delim) -> (r: ParseResult<Vec<Expr>>)
        requires
            old(self).wf(),
        ensures
            old(self).keeps(*final(self)),
            meets_all(
                expr_list(old(self).src(), old(self).cur(), close),
                final(self).cur(),
                r,
            ),
        decreases old(self).left(), 6nat,
    {
        if self.check_delim(close) {
            return Ok(none());
        }
        let first = self.parse_expr(0)?;
        self.parse_more_exprs(close, one(first))
    }

    #[verifier::loop_isolation(false)]
    fn parse_more_exprs(&mut self, close: Delim, first: Vec<Expr>) -> (r: ParseResult<Vec<Expr>>)
        requires
            old(self).wf(),
        ensures
            old(self).keeps(*final(self)),
            meets_all(
                more_exprs(old(self).src(), old(self).cur(), close, trees(first@)),
                final(self).cur(),
                r,
            ),
        decreases old(self).left(), 0nat,
    {
        let mut all = first;
        let ghost whole = more_exprs(self.src(), self.cur(), close, trees(all@));
        let ghost start = self.left();
        loop
            invariant
                old(self).keeps(*self),
                self.left() <= start,
                whole == more_exprs(self.src(), self.cur(), close, trees(all@)),
            decreases self.left(),
        {
            proof {
                reveal_with_fuel(more_exprs, 2);
            }
            if !self.eat_delim(Delim::Comma) {
                return Ok(all);
            }
            if self.check_delim(close) {
                return Ok(all);
            }
            let next = self.parse_expr(0)?;
            push(&mut all, next);
        }
    }

    pub(super) fn parse_arg_list(&mut self) -> (r: ParseResult<Vec<Arg>>)
        requires
            old(self).wf(),
        ensures
            old(self).keeps(*final(self)),
            meets_all(
                arg_list(old(self).src(), old(self).cur()),
                final(self).cur(),
                r,
            ),
            r is Ok ==> final(self).left() < old(self).left(),
        decreases old(self).left(), 0nat,
    {
        self.expect_delim(Delim::LParen)?;
        self.parse_args_tail()
    }

    /// After the `(` of arguments.
    fn parse_args_tail(&mut self) -> (r: ParseResult<Vec<Arg>>)
        requires
            old(self).wf(),
        ensures
            old(self).keeps(*final(self)),
            meets_all(
                args_tail(old(self).src(), old(self).cur()),
                final(self).cur(),
                r,
            ),
            r is Ok ==> final(self).left() < old(self).left(),
        decreases old(self).left(), 8nat,
    {
        if self.eat_delim(Delim::RParen) {
            return Ok(none());
        }
        let first = self.parse_arg()?;
        let args = self.parse_more_args(one(first))?;
        self.expect_delim(Delim::RParen)?;
        Ok(args)
    }

    #[verifier::loop_isolation(false)]
    fn parse_more_args(&mut self, first: Vec<Arg>) -> (r: ParseResult<Vec<Arg>>)
        requires
            old(self).wf(),
        ensures
            old(self).keeps(*final(self)),
            meets_all(
                more_args(old(self).src(), old(self).cur(), trees(first@)),
                final(self).cur(),
                r,
            ),
        decreases old(self).left(), 0nat,
    {
        let mut args = first;
        let ghost whole = more_args(self.src(), self.cur(), trees(args@));
        let ghost start = self.left();
        loop
            invariant
                old(self).keeps(*self),
                self.left() <= start,
                whole == more_args(self.src(), self.cur(), trees(args@)),
            decreases self.left(),
        {
            proof {
                reveal_with_fuel(more_args, 2);
            }
            if !self.eat_delim(Delim::Comma) {
                return Ok(args);
            }
            if self.check_delim(Delim::RParen) {
                return Ok(args);
            }
            let next = self.parse_arg()?;
            push(&mut args, next);
        }
    }

    /// `name: value`, or a value.
    fn parse_arg(&mut self) -> (r: ParseResult<Arg>)
        requires
            old(self).wf(),
        ensures
            old(self).keeps(*final(self)),
            meets(
                arg(old(self).src(), old(self).cur()),
                final(self).cur(),
                r,
            ),
            r is Ok ==> final(self).left() < old(self).left(),
        decreases old(self).left(), 7nat,
    {
        let save = self.mark();
        if let Ok(name) = self.expect_word() {
            if self.eat_delim(Delim::Colon) {
                let value = if same_text(name.as_str(), "on") {
                    self.parse_event_handler_or_expr()?
                } else {
                    self.parse_expr(0)?
                };
                let made = Arg { name: Some(name), value };
                proof {
                    made.unfold();
                }
                return Ok(made);
            }
        }
        self.back_to(save);
        let value = self.parse_expr(0)?;
        let made = Arg { name: None, value };
        proof {
            made.unfold();
        }
        Ok(made)
    }

    /// `event => expression`, which only an `on:` argument may hold, or an expression.
    fn parse_event_handler_or_expr(&mut self) -> (r: ParseResult<Expr>)
        requires
            old(self).wf(),
        ensures
            old(self).keeps(*final(self)),
            meets(
                event_handler(old(self).src(), old(self).cur()),
                final(self).cur(),
                r,
            ),
            r is Ok ==> final(self).left() < old(self).left(),
        decreases old(self).left(), 6nat,
    {
        let at_word = matches!(self.peek_kind(), TokenKind::Ident(_) | TokenKind::Keyword(_));
        if at_word && matches!(self.peek_at(1), TokenKind::Op(Op::FatArrow)) {
            let event = self.expect_word()?;
            self.expect_op(Op::FatArrow)?;
            let body = self.parse_expr(0)?;
            let made = Expr::EventHandler { event, body: Box::new(body) };
            proof {
                made.unfold();
            }
            return Ok(made);
        }
        self.parse_expr(0)
    }

    fn parse_primary(&mut self) -> (r: ParseResult<Expr>)
        requires
            old(self).wf(),
        ensures
            old(self).keeps(*final(self)),
            meets(
                primary(old(self).src(), old(self).cur()),
                final(self).cur(),
                r,
            ),
            r is Ok ==> final(self).left() < old(self).left(),
        decreases old(self).left(), 2nat,
    {
        if let TokenKind::Keyword(k) = self.peek_kind() {
            let k = *k;
            return self.parse_keyword_primary(k);
        }
        if self.check_ident() {
            return self.parse_path_primary();
        }
        if self.check_op(Op::Pipe) || self.check_op(Op::OrOr) {
            let c = self.parse_closure_expr(false)?;
            let made = Expr::Closure(Box::new(c));
            proof {
                made.unfold();
            }
            return Ok(made);
        }
        if self.check_delim(Delim::LBrace) {
            let body = self.parse_block()?;
            let made = Expr::Block(Box::new(body));
            proof {
                made.unfold();
            }
            return Ok(made);
        }
        if self.eat_delim(Delim::LBracket) {
            let items = self.parse_expr_list(Delim::RBracket)?;
            self.expect_delim(Delim::RBracket)?;
            let made = Expr::Array(items);
            proof {
                made.unfold();
            }
            return Ok(made);
        }
        if self.eat_delim(Delim::LParen) {
            return self.parse_paren_primary();
        }
        if matches!(self.peek_kind(), TokenKind::Int(_) | TokenKind::Float(_) | TokenKind::Str(_)
            | TokenKind::RawStr(_) | TokenKind::Char(_) | TokenKind::Bool(_) | TokenKind::Null
            | TokenKind::IntHex(_) | TokenKind::IntOct(_) | TokenKind::IntBin(_)) {
            let lit = self.parse_literal()?;
            let made = Expr::Literal(lit);
            proof {
                made.unfold();
            }
            return Ok(made);
        }
        self.unexpected("expected expression, found ")
    }

    /// After `(`: the empty tuple, an expression in parentheses, or a tuple, told by a comma.
    fn parse_paren_primary(&mut self) -> (r: ParseResult<Expr>)
        requires
            old(self).wf(),
        ensures
            old(self).keeps(*final(self)),
            meets(
                paren_primary(old(self).src(), old(self).cur()),
                final(self).cur(),
                r,
            ),
            r is Ok ==> final(self).left() < old(self).left(),
        decreases old(self).left(), 6nat,
    {
        if self.eat_delim(Delim::RParen) {
            let made = Expr::Tuple(none());
            proof {
                made.unfold();
            }
            return Ok(made);
        }
        let first = self.parse_expr(0)?;
        if self.check_delim(Delim::Comma) {
            let items = self.parse_more_exprs(Delim::RParen, one(first))?;
            self.expect_delim(Delim::RParen)?;
            let made = Expr::Tuple(items);
            proof {
                made.unfold();
            }
            return Ok(made);
        }
        self.expect_delim(Delim::RParen)?;
        let made = Expr::Paren(Box::new(first));
        proof {
            made.unfold();
        }
        Ok(made)
    }

    /// At the keyword `k`: what it begins, or a name.
    #[verifier::rlimit(60)]
    fn parse_keyword_primary(&mut self, k: Keyword) -> (r: ParseResult<Expr>)
        requires
            old(self).wf(),
            old(self).cur().at_kw(old(self).src(), k),
        ensures
            old(self).keeps(*final(self)),
            meets(keyword_primary(old(self).src(), old(self).cur(), k), final(self).cur(), r),
            r is Ok ==> final(self).left() < old(self).left(),
        decreases old(self).left(), 1nat,
    {
        match k {
            Keyword::If => {
                let e = self.parse_if_expr()?;
                let made = Expr::If(Box::new(e));
                proof {
                    made.unfold();
                }
                return Ok(made);
            },
            Keyword::Match => {
                let e = self.parse_match_expr()?;
                let made = Expr::Match(Box::new(e));
                proof {
                    made.unfold();
                }
                return Ok(made);
            },
            Keyword::Loop | Keyword::While | Keyword::For | Keyword::Do => {
                let e = self.parse_loop_expr()?;
                let made = Expr::Loop(Box::new(e));
                proof {
                    made.unfold();
                }
                return Ok(made);
            },
            Keyword::Spawn => {
                self.advance();
                self.parse_spawn_tail()
            },
            Keyword::Select => self.parse_select_expr(),
            Keyword::Query => {
                let e = self.parse_query_expr()?;
                let made = Expr::Query(e);
                proof {
                    made.unfold();
                }
                return Ok(made);
            },
            Keyword::Try => self.parse_try_catch_expr(),
            Keyword::Throw => {
                self.advance();
                let e = self.parse_expr(0)?;
                let made = Expr::Throw(Box::new(e));
                proof {
                    made.unfold();
                }
                return Ok(made);
            },
            Keyword::Return => {
                self.advance();
                self.parse_return_tail()
            },
            Keyword::Move => {
                self.advance();
                let c = self.parse_closure_expr(true)?;
                let made = Expr::Closure(Box::new(c));
                proof {
                    made.unfold();
                }
                return Ok(made);
            },
            Keyword::Unsafe => {
                self.advance();
                let body = self.parse_block()?;
                let made = Expr::Unsafe(Box::new(body));
                proof {
                    made.unfold();
                }
                return Ok(made);
            },
            _ => self.parse_path_primary(),
        }
    }

    /// After `spawn`: a block or a closure.
    fn parse_spawn_tail(&mut self) -> (r: ParseResult<Expr>)
        requires
            old(self).wf(),
        ensures
            old(self).keeps(*final(self)),
            meets(
                spawn_tail(old(self).src(), old(self).cur()),
                final(self).cur(),
                r,
            ),
            r is Ok ==> final(self).left() < old(self).left(),
        decreases old(self).left(), 2nat,
    {
        let is_move = self.eat_kw(Keyword::Move);
        let body = if self.check_delim(Delim::LBrace) {
            SpawnBody::Block(self.parse_block()?)
        } else {
            SpawnBody::Closure(Box::new(self.parse_closure_expr(false)?))
        };
        proof {
            body.unfold();
        }
        let made = Expr::Spawn { is_move, body };
        proof {
            made.unfold();
        }
        Ok(made)
    }

    /// After `return`: nothing in front of `;`, `}` or `,`, else a value.
    fn parse_return_tail(&mut self) -> (r: ParseResult<Expr>)
        requires
            old(self).wf(),
        ensures
            old(self).keeps(*final(self)),
            meets(
                return_tail(old(self).src(), old(self).cur()),
                final(self).cur(),
                r,
            ),
        decreases old(self).left(), 6nat,
    {
        let value = if self.check_delim(Delim::Semi) || self.check_delim(Delim::RBrace)
            || self.check_delim(Delim::Comma) {
            None
        } else {
            Some(Box::new(self.parse_expr(0)?))
        };
        let made = Expr::Return(value);
        proof {
            made.unfold();
        }
        Ok(made)
    }

    /// A name or a path; where `{` follows and may be read so, a struct literal or a list of
    /// children.
    fn parse_path_primary(&mut self) -> (r: ParseResult<Expr>)
        requires
            old(self).wf(),
        ensures
            old(self).keeps(*final(self)),
            meets(
                path_primary(old(self).src(), old(self).cur()),
                final(self).cur(),
                r,
            ),
            r is Ok ==> final(self).left() < old(self).left(),
        decreases old(self).left(), 0nat,
    {
        let name = self.expect_word()?;
        let first = name.clone();
        let path = self.parse_further_path_segments(one(first))?;
        self.parse_turbofish()?;
        if self.check_delim(Delim::LBrace) && self.struct_lit_allowed() {
            let full = join_path(&path);
            if self.looks_like_struct_lit_fields() {
                return self.parse_struct_lit_tail(full);
            }
            return self.parse_component_children_tail(full);
        }
        if path.len() > 1 {
            let made = Expr::Path(path);
            proof {
                made.unfold();
            }
            return Ok(made);
        }
        let made = Expr::Ident(name);
        proof {
            made.unfold();
        }
        Ok(made)
    }

    /// At `{`: whether `word :` follows, as in a struct literal; anything else is a list of
    /// children.
    fn looks_like_struct_lit_fields(&self) -> (r: bool)
        requires
            self.wf(),
        ensures
            r == (is_word(self.src().ahead(self.cur().pos, 1)) && self.src().ahead(
                self.cur().pos,
                2,
            ) == TokenKind::Delim(Delim::Colon)),
    {
        matches!(self.peek_at(1), TokenKind::Ident(_) | TokenKind::Keyword(_)) && matches!(
            self.peek_at(2), TokenKind::Delim(Delim::Colon))
    }

    /// At the `{` of a list of children.
    fn parse_component_children_tail(&mut self, name: String) -> (r: ParseResult<Expr>)
        requires
            old(self).wf(),
            old(self).cur().at_delim(old(self).src(), Delim::LBrace),
        ensures
            old(self).keeps(*final(self)),
            meets(
                component_tail(old(self).src(), old(self).cur().skip(), name@),
                final(self).cur(),
                r,
            ),
            r is Ok ==> final(self).left() < old(self).left(),
        decreases old(self).left(), 0nat,
    {
        self.expect_delim(Delim::LBrace)?;
        let children = self.parse_children()?;
        self.expect_delim(Delim::RBrace)?;
        let made = Expr::ComponentChildren { name, children };
        proof {
            made.unfold();
        }
        Ok(made)
    }

    /// At the `{` of a struct literal.
    #[verifier::loop_isolation(false)]
    fn parse_struct_lit_tail(&mut self, name: String) -> (r: ParseResult<Expr>)
        requires
            old(self).wf(),
            old(self).cur().at_delim(old(self).src(), Delim::LBrace),
        ensures
            old(self).keeps(*final(self)),
            meets(
                struct_lit_tail(old(self).src(), old(self).cur().skip(), name@),
                final(self).cur(),
                r,
            ),
            r is Ok ==> final(self).left() < old(self).left(),
        decreases old(self).left(), 0nat,
    {
        self.advance();
        let mut fields = none();
        let mut spread: Option<Box<Expr>> = None;
        let ghost whole = struct_fields(self.src(), self.cur(), trees(fields@));
        let ghost start = self.left();
        loop
            invariant
                old(self).keeps(*self),
                self.left() <= start,
                whole == struct_fields(self.src(), self.cur(), trees(fields@)),
                spread is None,
            decreases self.left(),
        {
            proof {
                reveal_with_fuel(struct_fields, 2);
            }
            if self.check_delim(Delim::RBrace) {
                break;
            }
            if self.eat_op(Op::DotDot) {
                let rest = self.parse_expr(0)?;
                spread = Some(Box::new(rest));
                break;
            }
            let fname = self.expect_word()?;
            self.expect_delim(Delim::Colon)?;
            let fval = self.parse_expr(0)?;
            push(&mut fields, (fname, fval));
            if !self.eat_delim(Delim::Comma) {
                break;
            }
        }
        self.expect_delim(Delim::RBrace)?;
        let made = Expr::StructLit { name, fields, spread };
        proof {
            made.unfold();
        }
        Ok(made)
    }

    fn parse_if_expr(&mut self) -> (r: ParseResult<IfExpr>)
        requires
            old(self).wf(),
        ensures
            old(self).keeps(*final(self)),
            meets(
                old(self).cur().kw(old(self).src(), Keyword::If).next(
                    if_tail(old(self).src(), old(self).cur().kw(old(self).src(), Keyword::If)),
                ),
                final(self).cur(),
                r,
            ),
            r is Ok ==> final(self).left() < old(self).left(),
        decreases old(self).left(), 0nat,
    {
        self.expect_kw(Keyword::If)?;
        let cond = self.parse_expr_no_struct_lit(0)?;
        let then_block = self.parse_block()?;
        let else_branch = if self.eat_kw(Keyword::Else) {
            let branch = if self.check_kw(Keyword::If) {
                ElseBranch::If(Box::new(self.parse_if_expr()?))
            } else {
                ElseBranch::Block(self.parse_block()?)
            };
            proof {
                branch.unfold();
            }
            Some(branch)
        } else {
            None
        };
        let made = IfExpr { cond, then_block, else_branch };
        proof {
            made.unfold();
        }
        Ok(made)
    }

    /// An expression in which `name { ... }` is a name and then a block.
    fn parse_expr_no_struct_lit(&mut self, min_bp: u8) -> (r: ParseResult<Expr>)
        requires
            old(self).wf(),
        ensures
            old(self).keeps(*final(self)),
            meets(
                expr(old(self).src().no_lit(), old(self).cur(), min_bp),
                final(self).cur(),
                r,
            ),
            r is Ok ==> final(self).left() < old(self).left(),
        decreases old(self).left(), 6nat,
    {
        let prev = self.allow_struct_lit(false);
        let r = self.parse_expr(min_bp);
        self.allow_struct_lit(prev);
        r
    }

    fn parse_match_expr(&mut self) -> (r: ParseResult<MatchExpr>)
        requires
            old(self).wf(),
        ensures
            old(self).keeps(*final(self)),
            meets(
                old(self).cur().kw(old(self).src(), Keyword::Match).next(
                    match_tail(
                        old(self).src(),
                        old(self).cur().kw(old(self).src(), Keyword::Match),
                    ),
                ),
                final(self).cur(),
                r,
            ),
            r is Ok ==> final(self).left() < old(self).left(),
        decreases old(self).left(), 0nat,
    {
        self.expect_kw(Keyword::Match)?;
        let scrutinee = self.parse_expr_no_struct_lit(0)?;
        self.expect_delim(Delim::LBrace)?;
        let arms = self.parse_match_arms()?;
        self.expect_delim(Delim::RBrace)?;
        let made = MatchExpr { scrutinee, arms };
        proof {
            made.unfold();
        }
        Ok(made)
    }

    /// Arms up to `}`; a comma between two arms may be left out.
    #[verifier::loop_isolation(false)]
    fn parse_match_arms(&mut self) -> (r: ParseResult<Vec<MatchArm>>)
        requires
            old(self).wf(),
        ensures
            old(self).keeps(*final(self)),
            meets_all(
                match_arms(old(self).src(), old(self).cur(), seq![]),
                final(self).cur(),
                r,
            ),
        decreases old(self).left(), 8nat,
    {
        let mut arms = none();
        let ghost whole = match_arms(self.src(), self.cur(), trees(arms@));
        let ghost start = self.left();
        loop
            invariant
                old(self).keeps(*self),
                self.left() <= start,
                whole == match_arms(self.src(), self.cur(), trees(arms@)),
            decreases self.left(),
        {
            proof {
                reveal_with_fuel(match_arms, 2);
            }
            if self.check_delim(Delim::RBrace) {
                return Ok(arms);
            }
            let arm = self.parse_match_arm()?;
            push(&mut arms, arm);
            if !self.eat_delim(Delim::Comma) {
                if self.check_delim(Delim::RBrace) {
                    return Ok(arms);
                }
            }
        }
    }

    fn parse_match_arm(&mut self) -> (r: ParseResult<MatchArm>)
        requires
            old(self).wf(),
        ensures
            old(self).keeps(*final(self)),
            meets(
                match_arm(old(self).src(), old(self).cur()),
                final(self).cur(),
                r,
            ),
            r is Ok ==> final(self).left() < old(self).left(),
        decreases old(self).left(), 7nat,
    {
        let first = self.parse_pattern()?;
        let patterns = self.parse_more_arm_patterns(one(first))?;
        let guard = if self.eat_kw(Keyword::If) {
            Some(self.parse_expr(0)?)
        } else {
            None
        };
        self.expect_op(Op::FatArrow)?;
        let body = if self.check_delim(Delim::LBrace) {
            MatchArmBody::Block(self.parse_block()?)
        } else {
            MatchArmBody::Expr(Box::new(self.parse_expr(0)?))
        };
        proof {
            body.unfold();
        }
        let made = MatchArm { patterns, guard, body };
        proof {
            made.unfold();
        }
        Ok(made)
    }

    #[verifier::loop_isolation(false)]
    fn parse_more_arm_patterns(&mut self, first: Vec<Pattern>) -> (r: ParseResult<Vec<Pattern>>)
        requires
            old(self).wf(),
        ensures
            old(self).keeps(*final(self)),
            meets_all(
                more_arm_patterns(old(self).src(), old(self).cur(), trees(first@)),
                final(self).cur(),
                r,
            ),
        decreases old(self).left(), 0nat,
    {
        let mut patterns = first;
        let ghost whole = more_arm_patterns(self.src(), self.cur(), trees(patterns@));
        let ghost start = self.left();
        loop
            invariant
                old(self).keeps(*self),
                self.left() <= start,
                whole == more_arm_patterns(self.src(), self.cur(), trees(patterns@)),
            decreases self.left(),
        {
            proof {
                reveal_with_fuel(more_arm_patterns, 2);
            }
            if !self.eat_op(Op::Pipe) {
                return Ok(patterns);
            }
            let next = self.parse_pattern()?;
            push(&mut patterns, next);
        }
    }

    fn parse_loop_expr(&mut self) -> (r: ParseResult<LoopExpr>)
        requires
            old(self).wf(),
        ensures
            old(self).keeps(*final(self)),
            meets(
                loop_expr(old(self).src(), old(self).cur()),
                final(self).cur(),
                r,
            ),
            r is Ok ==> final(self).left() < old(self).left(),
        decreases old(self).left(), 0nat,
    {
        if self.eat_kw(Keyword::Loop) {
            let body = self.parse_block()?;
            let made = LoopExpr::Loop { label: None, body };
            proof {
                made.unfold();
            }
            return Ok(made);
        }
        if self.eat_kw(Keyword::While) {
            let cond = self.parse_expr_no_struct_lit(0)?;
            let body = self.parse_block()?;
            let made = LoopExpr::While { label: None, cond: Box::new(cond), body };
            proof {
                made.unfold();
            }
            return Ok(made);
        }
        if self.eat_kw(Keyword::For) {
            let pattern = self.parse_pattern()?;
            self.expect_kw(Keyword::In)?;
            let iter = self.parse_expr_no_struct_lit(0)?;
            let body = self.parse_block()?;
            let made = LoopExpr::For { label: None, pattern, iter: Box::new(iter), body };
            proof {
                made.unfold();
            }
            return Ok(made);
        }
        if self.eat_kw(Keyword::Do) {
            let body = self.parse_block()?;
            self.expect_kw(Keyword::While)?;
            self.expect_delim(Delim::LParen)?;
            let cond = self.parse_expr(0)?;
            self.expect_delim(Delim::RParen)?;
            self.expect_delim(Delim::Semi)?;
            let made = LoopExpr::DoWhile { body, cond: Box::new(cond) };
            proof {
                made.unfold();
            }
            return Ok(made);
        }
        self.error("expected loop/while/for/do")
    }

    fn parse_closure_expr(&mut self, is_move: bool) -> (r: ParseResult<ClosureExpr>)
        requires
            old(self).wf(),
        ensures
            old(self).keeps(*final(self)),
            meets(
                closure(old(self).src(), old(self).cur(), is_move),
                final(self).cur(),
                r,
            ),
            r is Ok ==> final(self).left() < old(self).left(),
        decreases old(self).left(), 0nat,
    {
        if self.eat_op(Op::OrOr) {
            return self.parse_closure_tail(is_move, none());
        }
        self.expect_op(Op::Pipe)?;
        if self.eat_op(Op::Pipe) {
            return self.parse_closure_tail(is_move, none());
        }
        let params = self.parse_closure_params()?;
        self.expect_op(Op::Pipe)?;
        self.parse_closure_tail(is_move, params)
    }

    /// After the parameters of a closure.
    fn parse_closure_tail(
        &mut self,
        is_move: bool,
        params: Vec<(Pattern, Option<Type>)>,
    ) -> (r: ParseResult<ClosureExpr>)
        requires
            old(self).wf(),
        ensures
            old(self).keeps(*final(self)),
            meets(
                closure_tail(old(self).src(), old(self).cur(), is_move, trees(params@)),
                final(self).cur(),
                r,
            ),
            r is Ok ==> final(self).left() < old(self).left(),
        decreases old(self).left(), 6nat,
    {
        let return_type = if self.eat_op(Op::Arrow) {
            Some(self.parse_type()?)
        } else {
            None
        };
        let body = if self.check_delim(Delim::LBrace) {
            ClosureBody::Block(self.parse_block()?)
        } else {
            ClosureBody::Expr(Box::new(self.parse_expr(0)?))
        };
        proof {
            body.unfold();
        }
        let made = ClosureExpr { is_move, params, return_type, body };
        proof {
            made.unfold();
        }
        Ok(made)
    }

    /// The parameters of a closure. Each is a single pattern: a `|` behind it ends the list.
    #[verifier::loop_isolation(false)]
    fn parse_closure_params(&mut self) -> (r: ParseResult<Vec<(Pattern, Option<Type>)>>)
        requires
            old(self).wf(),
        ensures
            old(self).keeps(*final(self)),
            meets_all(
                closure_params(old(self).src(), old(self).cur(), seq![]),
                final(self).cur(),
                r,
            ),
            r is Ok ==> final(self).left() < old(self).left(),
        decreases old(self).left(), 3nat,
    {
        let mut params = none();
        let ghost whole = closure_params(self.src(), self.cur(), trees(params@));
        let ghost start = self.left();
        loop
            invariant
                old(self).keeps(*self),
                self.left() <= start,
                whole == closure_params(self.src(), self.cur(), trees(params@)),
            decreases self.left(),
        {
            proof {
                reveal_with_fuel(closure_params, 2);
            }
            let pattern = self.parse_pattern_single()?;
            let ty = if self.eat_delim(Delim::Colon) {
                Some(self.parse_type()?)
            } else {
                None
            };
            push(&mut params, (pattern, ty));
            if !self.eat_delim(Delim::Comma) {
                return Ok(params);
            }
        }
    }

    fn parse_select_expr(&mut self) -> (r: ParseResult<Expr>)
        requires
            old(self).wf(),
        ensures
            old(self).keeps(*final(self)),
            meets(
                old(self).cur().kw(old(self).src(), Keyword::Select).next(
                    select_tail(
                        old(self).src(),
                        old(self).cur().kw(old(self).src(), Keyword::Select),
                    ),
                ),
                final(self).cur(),
                r,
            ),
            r is Ok ==> final(self).left() < old(self).left(),
        decreases old(self).left(), 0nat,
    {
        self.expect_kw(Keyword::Select)?;
        self.expect_delim(Delim::LBrace)?;
        let arms = self.parse_select_arms()?;
        self.expect_delim(Delim::RBrace)?;
        let made = Expr::Select(arms);
        proof {
            made.unfold();
        }
        Ok(made)
    }

    #[verifier::loop_isolation(false)]
    fn parse_select_arms(&mut self) -> (r: ParseResult<Vec<SelectArm>>)
        requires
            old(self).wf(),
        ensures
            old(self).keeps(*final(self)),
            meets_all(
                select_arms(old(self).src(), old(self).cur(), seq![]),
                final(self).cur(),
                r,
            ),
        decreases old(self).left(), 0nat,
    {
        let mut arms = none();
        let ghost whole = select_arms(self.src(), self.cur(), trees(arms@));
        let ghost start = self.left();
        loop
            invariant
                old(self).keeps(*self),
                self.left() <= start,
                whole == select_arms(self.src(), self.cur(), trees(arms@)),
            decreases self.left(),
        {
            proof {
                reveal_with_fuel(select_arms, 2);
            }
            if self.check_delim(Delim::RBrace) {
                return Ok(arms);
            }
            self.expect_kw(Keyword::Case)?;
            let pattern = self.parse_pattern()?;
            self.expect_op(Op::Eq)?;
            self.expect_op(Op::Lt)?;
            self.expect_op(Op::Minus)?;
            let channel_expr = self.parse_expr(0)?;
            self.expect_delim(Delim::Colon)?;
            let body = self.parse_expr(0)?;
            let arm = SelectArm { pattern, channel_expr, body };
            proof {
                arm.unfold();
            }
            push(&mut arms, arm);
            if !self.eat_delim(Delim::Comma) {
                return Ok(arms);
            }
        }
    }

    #[verifier::loop_isolation(false)]
    fn parse_query_expr(&mut self) -> (r: ParseResult<QueryExpr>)
        requires
            old(self).wf(),
        ensures
            old(self).keeps(*final(self)),
            meets(
                old(self).cur().kw(old(self).src(), Keyword::Query).next(
                    query_tail(
                        old(self).src(),
                        old(self).cur().kw(old(self).src(), Keyword::Query),
                    ),
                ),
                final(self).cur(),
                r,
            ),
            r is Ok ==> final(self).left() < old(self).left(),
        decreases old(self).left(), 0nat,
    {
        self.expect_kw(Keyword::Query)?;
        let table = self.expect_word()?;
        let mut clauses = none();
        let ghost whole = query_clauses(self.src(), self.cur(), trees(clauses@));
        let ghost start = self.left();
        loop
            invariant
                old(self).keeps(*self),
                self.left() <= start,
                whole == query_clauses(self.src(), self.cur(), trees(clauses@)),
            decreases self.left(),
        {
            proof {
                reveal_with_fuel(query_clauses, 2);
            }
            let starts = self.check_kw(Keyword::Where) || self.check_name("orderBy")
                || self.check_kw(Keyword::Insert) || self.check_kw(Keyword::Update)
                || self.check_kw(Keyword::Delete) || self.check_name("first") || self.check_name(
                "count",
            ) || self.check_name("join");
            if !starts {
                break;
            }
            let start = self.advance();
            let clause = self.parse_query_clause(start)?;
            push(&mut clauses, clause);
        }
        let made = QueryExpr { table, clauses };
        proof {
            made.unfold();
        }
        Ok(made)
    }

    /// After the token `start` of a query clause.
    fn parse_query_clause(&mut self, start: TokenKind) -> (r: ParseResult<QueryClause>)
        requires
            old(self).wf(),
            start is Ident || start == TokenKind::Keyword(Keyword::Where) || start
                == TokenKind::Keyword(Keyword::Insert) || start == TokenKind::Keyword(
                Keyword::Update,
            ) || start == TokenKind::Keyword(Keyword::Delete),
        ensures
            old(self).keeps(*final(self)),
            meets(query_clause(old(self).src(), old(self).cur(), start), final(self).cur(), r),
            final(self).left() <= old(self).left(),
        decreases old(self).left(), 6nat,
    {
        match start {
            TokenKind::Keyword(Keyword::Where) => {
                let e = self.parse_expr(0)?;
                let made = QueryClause::Where(Box::new(e));
                proof {
                    made.unfold();
                }
                return Ok(made);
            },
            TokenKind::Keyword(Keyword::Insert) => {
                let e = self.parse_expr(0)?;
                let made = QueryClause::Insert(Box::new(e));
                proof {
                    made.unfold();
                }
                return Ok(made);
            },
            TokenKind::Keyword(Keyword::Update) => {
                let fields = self.parse_brace_prop_list()?;
                let made = QueryClause::Update(fields);
                proof {
                    made.unfold();
                }
                return Ok(made);
            },
            TokenKind::Keyword(_) => {
                let made = QueryClause::Delete;
                proof {
                    made.unfold();
                }
                return Ok(made);
            },
            TokenKind::Ident(name) => {
                if same_text(name.as_str(), "orderBy") {
                    let column = self.expect_word()?;
                    let made = QueryClause::OrderBy(column);
                    proof {
                        made.unfold();
                    }
                    return Ok(made);
                }
                if same_text(name.as_str(), "first") {
                    let made = QueryClause::First;
                    proof {
                        made.unfold();
                    }
                    return Ok(made);
                }
                if same_text(name.as_str(), "count") {
                    self.expect_delim(Delim::LParen)?;
                    self.expect_delim(Delim::RParen)?;
                    let made = QueryClause::Count;
                    proof {
                        made.unfold();
                    }
                    return Ok(made);
                }
                let table = self.expect_word()?;
                self.expect_kw(Keyword::On)?;
                let on = self.parse_expr(0)?;
                let made = QueryClause::Join { table, on: Box::new(on) };
                proof {
                    made.unfold();
                }
                return Ok(made);
            },
            _ => self.error("expected a query clause"),
        }
    }

    fn parse_try_catch_expr(&mut self) -> (r: ParseResult<Expr>)
        requires
            old(self).wf(),
        ensures
            old(self).keeps(*final(self)),
            meets(
                old(self).cur().kw(old(self).src(), Keyword::Try).next(
                    try_tail(old(self).src(), old(self).cur().kw(old(self).src(), Keyword::Try)),
                ),
                final(self).cur(),
                r,
            ),
            r is Ok ==> final(self).left() < old(self).left(),
        decreases old(self).left(), 0nat,
    {
        self.expect_kw(Keyword::Try)?;
        let try_block = self.parse_block()?;
        self.expect_kw(Keyword::Catch)?;
        self.expect_delim(Delim::LParen)?;
        let catch_var = self.expect_word()?;
        self.expect_delim(Delim::RParen)?;
        let catch_block = self.parse_block()?;
        let made = Expr::TryCatch { try_block, catch_var, catch_block };
        proof {
            made.unfold();
        }
        Ok(made)
    }
}

} // verus!
