//! Expressions that begin with a keyword, and closures.
use crate::grammar::cursor::{word, Failure, Src};
use crate::grammar::exprs::{
    arm_body, arm_guard, closure, closure_params, closure_primary, closure_tail, expr, if_tail,
    keyword_primary, loop_expr, loop_tail, match_arm, match_arms, more_arm_patterns,
    opt_return_type, opt_type, opt_value, primary, props, query_clause, query_clauses, return_tail,
    select_arms, select_tail, spawn_tail, starts_clause, try_tail,
};
use crate::grammar::forms::{behind, list_end, listed};
use crate::grammar::laws::{at, read};
use crate::grammar::stmts::block;
use crate::grammar::types::{pattern, pattern_single, type_of};
use crate::token::{Delim, Keyword, Op, TokenKind};
use crate::tree::{
    ClosureBody, ClosureExpr, ElseBranch, Expr, IfExpr, LoopExpr, MatchArm, MatchArmBody, MatchExpr,
    Pattern, QueryClause, QueryExpr, SelectArm, SpawnBody, Type,
};
use vstd::prelude::*;

verus! {

/// Where the condition behind an `if` ends, and where the block behind it does.
pub open spec fn behind_then(g: Src, p: nat) -> nat {
    let q = behind(p, expr(g.no_lit(), at(p), 0));
    behind(q, block(g, at(q)))
}

/// After `if`: a condition, in which a name in front of `{` is no literal, and a block.
pub proof fn if_without_else(g: Src, p: nat)
    requires
        g.kind(behind_then(g, p)) != TokenKind::Keyword(Keyword::Else),
    ensures
        ({
            let cond = expr(g.no_lit(), at(p), 0);
            let q_cond = behind(p, cond);
            let body = block(g, at(q_cond));
            let q_body = behind(q_cond, body);
            let fits = cond.res is Ok
                && body.res is Ok;
            &&& if_tail(g, at(p)).res is Ok <==> fits
            &&& fits
                ==> if_tail(g, at(p)) == read(
                    q_body,
                    IfExpr { cond: cond.out(), then_block: body.out(), else_branch: None },
                )
        }),
{
    let cond = expr(g.no_lit(), at(p), 0);
    let q_cond = behind(p, cond);
    let body = block(g, at(q_cond));
    let q_body = behind(q_cond, body);
    assert(cond.res is Ok ==> at(p).after(cond) == at(q_cond));
    assert(body.res is Ok ==> at(q_cond).after(body) == at(q_body));
}

/// After `if`: a condition, a block, and the block behind `else`.
pub proof fn if_with_else(g: Src, p: nat)
    requires
        g.kind(behind_then(g, p)) == TokenKind::Keyword(Keyword::Else),
        g.kind(behind_then(g, p) + 1) != TokenKind::Keyword(Keyword::If),
    ensures
        ({
            let cond = expr(g.no_lit(), at(p), 0);
            let q_cond = behind(p, cond);
            let body = block(g, at(q_cond));
            let q_body = behind(q_cond, body);
            let other = block(g, at(q_body + 1));
            let q_other = behind(q_body + 1, other);
            let fits = cond.res is Ok
                && body.res is Ok
                && g.kind(q_body) == TokenKind::Keyword(Keyword::Else)
                && other.res is Ok;
            &&& if_tail(g, at(p)).res is Ok <==> fits
            &&& fits
                ==> if_tail(g, at(p)) == read(
                    q_other,
                    IfExpr {
                        cond: cond.out(),
                        then_block: body.out(),
                        else_branch: Some(ElseBranch::Block(other.out())),
                    },
                )
        }),
{
    let cond = expr(g.no_lit(), at(p), 0);
    let q_cond = behind(p, cond);
    let body = block(g, at(q_cond));
    let q_body = behind(q_cond, body);
    let other = block(g, at(q_body + 1));
    let q_other = behind(q_body + 1, other);
    assert(at(q_body).skip() == at(q_body + 1));
    assert(cond.res is Ok ==> at(p).after(cond) == at(q_cond));
    assert(body.res is Ok ==> at(q_cond).after(body) == at(q_body));
    assert(g.kind(q_body) == TokenKind::Keyword(Keyword::Else)
        ==> at(q_body).kw(g, Keyword::Else) == at(q_body + 1));
    assert(other.res is Ok ==> at(q_body + 1).after(other) == at(q_other));
}

/// After `if`: a condition, a block, and the `if` behind `else`.
#[verifier::rlimit(20)]
pub proof fn if_with_else_if(g: Src, p: nat)
    requires
        g.kind(behind_then(g, p)) == TokenKind::Keyword(Keyword::Else),
        g.kind(behind_then(g, p) + 1) == TokenKind::Keyword(Keyword::If),
    ensures
        ({
            let cond = expr(g.no_lit(), at(p), 0);
            let q_cond = behind(p, cond);
            let body = block(g, at(q_cond));
            let q_body = behind(q_cond, body);
            let other = if_tail(g, at(q_body + 2));
            let q_other = behind(q_body + 2, other);
            let fits = cond.res is Ok
                && body.res is Ok
                && g.kind(q_body) == TokenKind::Keyword(Keyword::Else)
                && g.kind(q_body + 1) == TokenKind::Keyword(Keyword::If)
                && other.res is Ok;
            &&& if_tail(g, at(p)).res is Ok <==> fits
            &&& fits
                ==> if_tail(g, at(p)) == read(
                    q_other,
                    IfExpr {
                        cond: cond.out(),
                        then_block: body.out(),
                        else_branch: Some(ElseBranch::If(Box::new(other.out()))),
                    },
                )
        }),
{
    let cond = expr(g.no_lit(), at(p), 0);
    let q_cond = behind(p, cond);
    let body = block(g, at(q_cond));
    let q_body = behind(q_cond, body);
    let other = if_tail(g, at(q_body + 2));
    let q_other = behind(q_body + 2, other);
    assert(at(q_body).skip() == at(q_body + 1));
    assert(at(q_body + 1).skip() == at(q_body + 2));
    assert(cond.res is Ok ==> at(p).after(cond) == at(q_cond));
    assert(body.res is Ok ==> at(q_cond).after(body) == at(q_body));
    assert(g.kind(q_body) == TokenKind::Keyword(Keyword::Else)
        ==> at(q_body).kw(g, Keyword::Else) == at(q_body + 1));
    assert(g.kind(q_body + 1) == TokenKind::Keyword(Keyword::If)
        ==> at(q_body + 1).kw(g, Keyword::If) == at(q_body + 2));
    assert(other.res is Ok ==> at(q_body + 2).after(other) == at(q_other));
}

/// `if` begins an `if` expression.
pub proof fn if_expression(g: Src, p: nat)
    requires
        g.kind(p) == TokenKind::Keyword(Keyword::If),
    ensures
        ({
            let e = if_tail(g, at(p + 1));
            let q_e = behind(p + 1, e);
            let fits = e.res is Ok;
            &&& primary(g, at(p)).res is Ok <==> fits
            &&& fits ==> primary(g, at(p)) == read(q_e, Expr::If(Box::new(e.out())))
        }),
{
    let e = if_tail(g, at(p + 1));
    let q_e = behind(p + 1, e);
    assert(at(p).skip() == at(p + 1));
    assert(e.res is Ok ==> at(p + 1).after(e) == at(q_e));
    assert(primary(g, at(p)) == keyword_primary(g, at(p), Keyword::If));
}

/// `match value { arms }` matches on the value, in which a name in front of `{` is no literal.
#[verifier::rlimit(30)]
pub proof fn match_expression(g: Src, p: nat)
    requires
        g.kind(p) == TokenKind::Keyword(Keyword::Match),
    ensures
        ({
            let value = expr(g.no_lit(), at(p + 1), 0);
            let q_value = behind(p + 1, value);
            let arms = match_arms(g, at(q_value + 1), seq![]);
            let q_arms = behind(q_value + 1, arms);
            let fits = value.res is Ok
                && g.kind(q_value) == TokenKind::Delim(Delim::LBrace)
                && arms.res is Ok
                && g.kind(q_arms) == TokenKind::Delim(Delim::RBrace);
            &&& primary(g, at(p)).res is Ok <==> fits
            &&& fits
                ==> primary(g, at(p)) == read(
                    q_arms + 1,
                    Expr::Match(Box::new(MatchExpr { scrutinee: value.out(), arms: arms.out() })),
                )
        }),
{
    let value = expr(g.no_lit(), at(p + 1), 0);
    let q_value = behind(p + 1, value);
    let arms = match_arms(g, at(q_value + 1), seq![]);
    let q_arms = behind(q_value + 1, arms);
    assert(at(p).skip() == at(p + 1));
    assert(value.res is Ok ==> at(p + 1).after(value) == at(q_value));
    assert(g.kind(q_value) == TokenKind::Delim(Delim::LBrace)
        ==> at(q_value).delim(g, Delim::LBrace) == at(q_value + 1));
    assert(arms.res is Ok ==> at(q_value + 1).after(arms) == at(q_arms));
    assert(g.kind(q_arms) == TokenKind::Delim(Delim::RBrace)
        ==> at(q_arms).delim(g, Delim::RBrace) == at(q_arms + 1));
    assert(primary(g, at(p)) == keyword_primary(g, at(p), Keyword::Match));
}

/// An arm of a `match` from `a` up to `b`, which is further on.
pub open spec fn an_arm(g: Src) -> spec_fn(nat, MatchArm, nat) -> bool {
    |a: nat, x: MatchArm, b: nat| match_arm(g, at(a)) == read(b, x) && a < b && a < g.toks.len()
}

/// `}` ends the arms of a `match`.
pub proof fn end_of_arms(g: Src, p: nat, done: Seq<MatchArm>)
    requires
        g.kind(p) == TokenKind::Delim(Delim::RBrace),
    ensures
        match_arms(g, at(p), done) == read(p, done),
{
}

/// An arm is kept behind those before it; reading goes on behind its comma, where there is one,
/// and at once where there is none.
pub proof fn one_arm_more(g: Src, p: nat, done: Seq<MatchArm>, x: MatchArm, q: nat)
    requires
        g.kind(p) != TokenKind::Delim(Delim::RBrace),
        an_arm(g)(p, x, q),
    ensures
        g.kind(q) == TokenKind::Delim(Delim::Comma) ==> match_arms(g, at(p), done) == match_arms(
            g,
            at(q + 1),
            done.push(x),
        ),
        g.kind(q) != TokenKind::Delim(Delim::Comma) ==> match_arms(g, at(p), done) == match_arms(
            g,
            at(q),
            done.push(x),
        ),
{
    assert(at(p).after(match_arm(g, at(p))) == at(q));
    assert(at(q).skip() == at(q + 1));
    if g.kind(q) == TokenKind::Delim(Delim::RBrace) {
        end_of_arms(g, q, done.push(x));
    }
}

/// An arm: patterns with `|` between them, perhaps a guard, `=>`, and a body.
#[verifier::rlimit(30)]
pub proof fn match_arm_form(g: Src, p: nat)
    ensures
        ({
            let first = pattern(g, at(p));
            let q_first = behind(p, first);
            let patterns = more_arm_patterns(g, at(q_first), seq![first.out()]);
            let q_patterns = behind(q_first, patterns);
            let guard = arm_guard(g, at(q_patterns));
            let q_guard = behind(q_patterns, guard);
            let body = arm_body(g, at(q_guard + 1));
            let q_body = behind(q_guard + 1, body);
            let fits = first.res is Ok
                && patterns.res is Ok
                && guard.res is Ok
                && g.kind(q_guard) == TokenKind::Op(Op::FatArrow)
                && body.res is Ok;
            &&& match_arm(g, at(p)).res is Ok <==> fits
            &&& fits
                ==> match_arm(g, at(p)) == read(
                    q_body,
                    MatchArm { patterns: patterns.out(), guard: guard.out(), body: body.out() },
                )
        }),
{
    let first = pattern(g, at(p));
    let q_first = behind(p, first);
    let patterns = more_arm_patterns(g, at(q_first), seq![first.out()]);
    let q_patterns = behind(q_first, patterns);
    let guard = arm_guard(g, at(q_patterns));
    let q_guard = behind(q_patterns, guard);
    let body = arm_body(g, at(q_guard + 1));
    let q_body = behind(q_guard + 1, body);
    assert(first.res is Ok ==> at(p).after(first) == at(q_first));
    assert(patterns.res is Ok ==> at(q_first).after(patterns) == at(q_patterns));
    assert(guard.res is Ok ==> at(q_patterns).after(guard) == at(q_guard));
    assert(g.kind(q_guard) == TokenKind::Op(Op::FatArrow)
        ==> at(q_guard).op(g, Op::FatArrow) == at(q_guard + 1));
    assert(body.res is Ok ==> at(q_guard + 1).after(body) == at(q_body));
}

/// A single pattern in front of `=>` or of a guard is the only one of its arm.
pub proof fn arm_of_one_pattern(g: Src, p: nat, done: Seq<Pattern>)
    requires
        g.kind(p) != TokenKind::Op(Op::Pipe),
    ensures
        more_arm_patterns(g, at(p), done) == read(p, done),
{
}

/// A pattern behind `|` is kept behind those before it.
pub proof fn further_arm_pattern(g: Src, p: nat, done: Seq<Pattern>)
    requires
        g.kind(p) == TokenKind::Op(Op::Pipe),
    ensures
        ({
            let x = pattern(g, at(p + 1));
            let q_x = behind(p + 1, x);
            let fits = x.res is Ok;
            &&& !fits ==> more_arm_patterns(g, at(p), done).res is Err
            &&& fits
                ==> more_arm_patterns(g, at(p), done) == more_arm_patterns(
                    g,
                    at(q_x),
                    done.push(x.out()),
                )
        }),
{
    let x = pattern(g, at(p + 1));
    let q_x = behind(p + 1, x);
    assert(at(p).skip() == at(p + 1));
    assert(x.res is Ok ==> at(p + 1).after(x) == at(q_x));
    assert(
        more_arm_patterns(g, at(p), done) == more_arm_patterns(
            g,
            at(p + 1).after(x),
            done.push(x.out()),
        )
    );
}

/// `if condition` guards an arm.
pub proof fn guarded_arm(g: Src, p: nat)
    requires
        g.kind(p) == TokenKind::Keyword(Keyword::If),
    ensures
        ({
            let cond = expr(g, at(p + 1), 0);
            let q_cond = behind(p + 1, cond);
            let fits = cond.res is Ok;
            &&& arm_guard(g, at(p)).res is Ok <==> fits
            &&& fits ==> arm_guard(g, at(p)) == read(q_cond, Some(cond.out()))
        }),
{
    let cond = expr(g, at(p + 1), 0);
    let q_cond = behind(p + 1, cond);
    assert(at(p).skip() == at(p + 1));
    assert(cond.res is Ok ==> at(p + 1).after(cond) == at(q_cond));
}

/// Without `if` an arm has no guard.
pub proof fn unguarded_arm(g: Src, p: nat)
    requires
        g.kind(p) != TokenKind::Keyword(Keyword::If),
    ensures
        ({
            arm_guard(g, at(p)) == read(p, None::<Expr>)
        }),
{
}

/// The body of an arm may be a block.
pub proof fn arm_with_a_block(g: Src, p: nat)
    requires
        g.kind(p) == TokenKind::Delim(Delim::LBrace),
    ensures
        ({
            let b = block(g, at(p));
            let q_b = behind(p, b);
            let fits = b.res is Ok;
            &&& arm_body(g, at(p)).res is Ok <==> fits
            &&& fits ==> arm_body(g, at(p)) == read(q_b, MatchArmBody::Block(b.out()))
        }),
{
    let b = block(g, at(p));
    let q_b = behind(p, b);
    assert(b.res is Ok ==> at(p).after(b) == at(q_b));
}

/// The body of an arm that does not begin with `{` is an expression.
pub proof fn arm_with_an_expression(g: Src, p: nat)
    requires
        g.kind(p) != TokenKind::Delim(Delim::LBrace),
    ensures
        ({
            let e = expr(g, at(p), 0);
            let q_e = behind(p, e);
            let fits = e.res is Ok;
            &&& arm_body(g, at(p)).res is Ok <==> fits
            &&& fits ==> arm_body(g, at(p)) == read(q_e, MatchArmBody::Expr(Box::new(e.out())))
        }),
{
    let e = expr(g, at(p), 0);
    let q_e = behind(p, e);
    assert(e.res is Ok ==> at(p).after(e) == at(q_e));
}

/// `loop { ... }` goes on until it is left.
#[verifier::rlimit(20)]
pub proof fn endless_loop(g: Src, p: nat)
    requires
        g.kind(p) == TokenKind::Keyword(Keyword::Loop),
    ensures
        ({
            let body = block(g, at(p + 1));
            let q_body = behind(p + 1, body);
            let fits = body.res is Ok;
            &&& primary(g, at(p)).res is Ok <==> fits
            &&& fits
                ==> primary(g, at(p)) == read(
                    q_body,
                    Expr::Loop(Box::new(LoopExpr::Loop { label: None, body: body.out() })),
                )
        }),
{
    let body = block(g, at(p + 1));
    let q_body = behind(p + 1, body);
    assert(at(p).skip() == at(p + 1));
    assert(body.res is Ok ==> at(p + 1).after(body) == at(q_body));
    assert(loop_expr(g, at(p)) == loop_tail(g, at(p + 1), Keyword::Loop));
    assert(primary(g, at(p)) == keyword_primary(g, at(p), Keyword::Loop));
}

/// `while condition { ... }` goes on while the condition holds.
#[verifier::rlimit(20)]
pub proof fn while_loop(g: Src, p: nat)
    requires
        g.kind(p) == TokenKind::Keyword(Keyword::While),
    ensures
        ({
            let cond = expr(g.no_lit(), at(p + 1), 0);
            let q_cond = behind(p + 1, cond);
            let body = block(g, at(q_cond));
            let q_body = behind(q_cond, body);
            let fits = cond.res is Ok
                && body.res is Ok;
            &&& primary(g, at(p)).res is Ok <==> fits
            &&& fits
                ==> primary(g, at(p)) == read(
                    q_body,
                    Expr::Loop(
                        Box::new(
                            LoopExpr::While {
                                label: None,
                                cond: Box::new(cond.out()),
                                body: body.out(),
                            },
                        ),
                    ),
                )
        }),
{
    let cond = expr(g.no_lit(), at(p + 1), 0);
    let q_cond = behind(p + 1, cond);
    let body = block(g, at(q_cond));
    let q_body = behind(q_cond, body);
    assert(at(p).skip() == at(p + 1));
    assert(cond.res is Ok ==> at(p + 1).after(cond) == at(q_cond));
    assert(body.res is Ok ==> at(q_cond).after(body) == at(q_body));
    assert(loop_expr(g, at(p)) == loop_tail(g, at(p + 1), Keyword::While));
    assert(primary(g, at(p)) == keyword_primary(g, at(p), Keyword::While));
}

/// `for pattern in values { ... }` goes through the values.
#[verifier::rlimit(30)]
pub proof fn for_loop(g: Src, p: nat)
    requires
        g.kind(p) == TokenKind::Keyword(Keyword::For),
    ensures
        ({
            let pat = pattern(g, at(p + 1));
            let q_pat = behind(p + 1, pat);
            let iter = expr(g.no_lit(), at(q_pat + 1), 0);
            let q_iter = behind(q_pat + 1, iter);
            let body = block(g, at(q_iter));
            let q_body = behind(q_iter, body);
            let fits = pat.res is Ok
                && g.kind(q_pat) == TokenKind::Keyword(Keyword::In)
                && iter.res is Ok
                && body.res is Ok;
            &&& primary(g, at(p)).res is Ok <==> fits
            &&& fits
                ==> primary(g, at(p)) == read(
                    q_body,
                    Expr::Loop(
                        Box::new(
                            LoopExpr::For {
                                label: None,
                                pattern: pat.out(),
                                iter: Box::new(iter.out()),
                                body: body.out(),
                            },
                        ),
                    ),
                )
        }),
{
    let pat = pattern(g, at(p + 1));
    let q_pat = behind(p + 1, pat);
    let iter = expr(g.no_lit(), at(q_pat + 1), 0);
    let q_iter = behind(q_pat + 1, iter);
    let body = block(g, at(q_iter));
    let q_body = behind(q_iter, body);
    assert(at(p).skip() == at(p + 1));
    assert(pat.res is Ok ==> at(p + 1).after(pat) == at(q_pat));
    assert(g.kind(q_pat) == TokenKind::Keyword(Keyword::In)
        ==> at(q_pat).kw(g, Keyword::In) == at(q_pat + 1));
    assert(iter.res is Ok ==> at(q_pat + 1).after(iter) == at(q_iter));
    assert(body.res is Ok ==> at(q_iter).after(body) == at(q_body));
    assert(loop_expr(g, at(p)) == loop_tail(g, at(p + 1), Keyword::For));
    assert(primary(g, at(p)) == keyword_primary(g, at(p), Keyword::For));
}

/// `do { ... } while (condition);` runs once before it asks.
#[verifier::rlimit(30)]
pub proof fn do_while_loop(g: Src, p: nat)
    requires
        g.kind(p) == TokenKind::Keyword(Keyword::Do),
    ensures
        ({
            let body = block(g, at(p + 1));
            let q_body = behind(p + 1, body);
            let cond = expr(g, at(q_body + 2), 0);
            let q_cond = behind(q_body + 2, cond);
            let fits = body.res is Ok
                && g.kind(q_body) == TokenKind::Keyword(Keyword::While)
                && g.kind(q_body + 1) == TokenKind::Delim(Delim::LParen)
                && cond.res is Ok
                && g.kind(q_cond) == TokenKind::Delim(Delim::RParen)
                && g.kind(q_cond + 1) == TokenKind::Delim(Delim::Semi);
            &&& primary(g, at(p)).res is Ok <==> fits
            &&& fits
                ==> primary(g, at(p)) == read(
                    q_cond + 2,
                    Expr::Loop(
                        Box::new(
                            LoopExpr::DoWhile { body: body.out(), cond: Box::new(cond.out()) },
                        ),
                    ),
                )
        }),
{
    let body = block(g, at(p + 1));
    let q_body = behind(p + 1, body);
    let cond = expr(g, at(q_body + 2), 0);
    let q_cond = behind(q_body + 2, cond);
    assert(at(p).skip() == at(p + 1));
    assert(body.res is Ok ==> at(p + 1).after(body) == at(q_body));
    assert(g.kind(q_body) == TokenKind::Keyword(Keyword::While)
        ==> at(q_body).kw(g, Keyword::While) == at(q_body + 1));
    assert(g.kind(q_body + 1) == TokenKind::Delim(Delim::LParen)
        ==> at(q_body + 1).delim(g, Delim::LParen) == at(q_body + 2));
    assert(cond.res is Ok ==> at(q_body + 2).after(cond) == at(q_cond));
    assert(g.kind(q_cond) == TokenKind::Delim(Delim::RParen)
        ==> at(q_cond).delim(g, Delim::RParen) == at(q_cond + 1));
    assert(g.kind(q_cond + 1) == TokenKind::Delim(Delim::Semi)
        ==> at(q_cond + 1).delim(g, Delim::Semi) == at(q_cond + 2));
    assert(loop_expr(g, at(p)) == loop_tail(g, at(p + 1), Keyword::Do));
    assert(primary(g, at(p)) == keyword_primary(g, at(p), Keyword::Do));
}

/// `spawn` starts a closure.
#[verifier::rlimit(20)]
pub proof fn spawn_closure(g: Src, p: nat)
    requires
        g.kind(p) == TokenKind::Keyword(Keyword::Spawn),
        g.kind(p + 1) != TokenKind::Keyword(Keyword::Move),
        g.kind(p + 1) != TokenKind::Delim(Delim::LBrace),
    ensures
        ({
            let body = closure(g, at(p + 1), false);
            let q_body = behind(p + 1, body);
            let fits = body.res is Ok;
            &&& primary(g, at(p)).res is Ok <==> fits
            &&& fits
                ==> primary(g, at(p)) == read(
                    q_body,
                    Expr::Spawn { is_move: false, body: SpawnBody::Closure(Box::new(body.out())) },
                )
        }),
{
    let body = closure(g, at(p + 1), false);
    let q_body = behind(p + 1, body);
    assert(at(p).skip() == at(p + 1));
    assert(body.res is Ok ==> at(p + 1).after(body) == at(q_body));
    assert(primary(g, at(p)) == spawn_tail(g, at(p + 1)));
    assert(primary(g, at(p)) == keyword_primary(g, at(p), Keyword::Spawn));
}

/// `spawn` starts a block.
#[verifier::rlimit(20)]
pub proof fn spawn_block(g: Src, p: nat)
    requires
        g.kind(p) == TokenKind::Keyword(Keyword::Spawn),
        g.kind(p + 1) != TokenKind::Keyword(Keyword::Move),
        g.kind(p + 1) == TokenKind::Delim(Delim::LBrace),
    ensures
        ({
            let body = block(g, at(p + 1));
            let q_body = behind(p + 1, body);
            let fits = body.res is Ok;
            &&& primary(g, at(p)).res is Ok <==> fits
            &&& fits
                ==> primary(g, at(p)) == read(
                    q_body,
                    Expr::Spawn { is_move: false, body: SpawnBody::Block(body.out()) },
                )
        }),
{
    let body = block(g, at(p + 1));
    let q_body = behind(p + 1, body);
    assert(at(p).skip() == at(p + 1));
    assert(body.res is Ok ==> at(p + 1).after(body) == at(q_body));
    assert(primary(g, at(p)) == spawn_tail(g, at(p + 1)));
    assert(primary(g, at(p)) == keyword_primary(g, at(p), Keyword::Spawn));
}

/// `spawn` with `move` starts a closure.
#[verifier::rlimit(20)]
pub proof fn spawn_moving_closure(g: Src, p: nat)
    requires
        g.kind(p) == TokenKind::Keyword(Keyword::Spawn),
        g.kind(p + 1) == TokenKind::Keyword(Keyword::Move),
        g.kind(p + 2) != TokenKind::Delim(Delim::LBrace),
    ensures
        ({
            let body = closure(g, at(p + 2), false);
            let q_body = behind(p + 2, body);
            let fits = g.kind(p + 1) == TokenKind::Keyword(Keyword::Move)
                && body.res is Ok;
            &&& primary(g, at(p)).res is Ok <==> fits
            &&& fits
                ==> primary(g, at(p)) == read(
                    q_body,
                    Expr::Spawn { is_move: true, body: SpawnBody::Closure(Box::new(body.out())) },
                )
        }),
{
    let body = closure(g, at(p + 2), false);
    let q_body = behind(p + 2, body);
    assert(at(p).skip() == at(p + 1));
    assert(g.kind(p + 1) == TokenKind::Keyword(Keyword::Move)
        ==> at(p + 1).kw(g, Keyword::Move) == at(p + 2));
    assert(body.res is Ok ==> at(p + 2).after(body) == at(q_body));
    assert(primary(g, at(p)) == spawn_tail(g, at(p + 1)));
    assert(at(p + 1).skip() == at(p + 2));
    assert(primary(g, at(p)) == keyword_primary(g, at(p), Keyword::Spawn));
}

/// `spawn` with `move` starts a block.
#[verifier::rlimit(20)]
pub proof fn spawn_moving_block(g: Src, p: nat)
    requires
        g.kind(p) == TokenKind::Keyword(Keyword::Spawn),
        g.kind(p + 1) == TokenKind::Keyword(Keyword::Move),
        g.kind(p + 2) == TokenKind::Delim(Delim::LBrace),
    ensures
        ({
            let body = block(g, at(p + 2));
            let q_body = behind(p + 2, body);
            let fits = g.kind(p + 1) == TokenKind::Keyword(Keyword::Move)
                && body.res is Ok;
            &&& primary(g, at(p)).res is Ok <==> fits
            &&& fits
                ==> primary(g, at(p)) == read(
                    q_body,
                    Expr::Spawn { is_move: true, body: SpawnBody::Block(body.out()) },
                )
        }),
{
    let body = block(g, at(p + 2));
    let q_body = behind(p + 2, body);
    assert(at(p).skip() == at(p + 1));
    assert(g.kind(p + 1) == TokenKind::Keyword(Keyword::Move)
        ==> at(p + 1).kw(g, Keyword::Move) == at(p + 2));
    assert(body.res is Ok ==> at(p + 2).after(body) == at(q_body));
    assert(primary(g, at(p)) == spawn_tail(g, at(p + 1)));
    assert(at(p + 1).skip() == at(p + 2));
    assert(primary(g, at(p)) == keyword_primary(g, at(p), Keyword::Spawn));
}

/// `select { arms }` waits for the first of some channels.
#[verifier::rlimit(20)]
pub proof fn select_expression(g: Src, p: nat)
    requires
        g.kind(p) == TokenKind::Keyword(Keyword::Select),
    ensures
        ({
            let arms = select_arms(g, at(p + 2), seq![]);
            let q_arms = behind(p + 2, arms);
            let fits = g.kind(p + 1) == TokenKind::Delim(Delim::LBrace)
                && arms.res is Ok
                && g.kind(q_arms) == TokenKind::Delim(Delim::RBrace);
            &&& primary(g, at(p)).res is Ok <==> fits
            &&& fits ==> primary(g, at(p)) == read(q_arms + 1, Expr::Select(arms.out()))
        }),
{
    let arms = select_arms(g, at(p + 2), seq![]);
    let q_arms = behind(p + 2, arms);
    assert(at(p).skip() == at(p + 1));
    assert(g.kind(p + 1) == TokenKind::Delim(Delim::LBrace)
        ==> at(p + 1).delim(g, Delim::LBrace) == at(p + 2));
    assert(arms.res is Ok ==> at(p + 2).after(arms) == at(q_arms));
    assert(g.kind(q_arms) == TokenKind::Delim(Delim::RBrace)
        ==> at(q_arms).delim(g, Delim::RBrace) == at(q_arms + 1));
    assert(primary(g, at(p)) == select_tail(g, at(p + 1)));
    assert(primary(g, at(p)) == keyword_primary(g, at(p), Keyword::Select));
}

/// `}` ends the arms of a `select`.
pub proof fn end_of_select_arms(g: Src, p: nat, done: Seq<SelectArm>)
    requires
        g.kind(p) == TokenKind::Delim(Delim::RBrace),
    ensures
        select_arms(g, at(p), done) == read(p, done),
{
}

/// An arm of a `select`, `case pattern = <- channel: body`, from `a` up to `b`.
pub open spec fn a_select_arm(g: Src) -> spec_fn(nat, SelectArm, nat) -> bool {
    |a: nat, x: SelectArm, b: nat|
        {
            let pat = pattern(g, at(a + 1));
            let q = behind(a + 1, pat);
            let channel = expr(g, at(q + 3), 0);
            let r = behind(q + 3, channel);
            &&& g.kind(a) == TokenKind::Keyword(Keyword::Case)
            &&& pat.res == Ok::<Pattern, Failure>(x.pattern)
            &&& g.kind(q) == TokenKind::Op(Op::Eq)
            &&& g.kind(q + 1) == TokenKind::Op(Op::Lt)
            &&& g.kind(q + 2) == TokenKind::Op(Op::Minus)
            &&& channel.res == Ok::<Expr, Failure>(x.channel_expr)
            &&& g.kind(r) == TokenKind::Delim(Delim::Colon)
            &&& expr(g, at(r + 1), 0) == read(b, x.body)
            &&& r + 1 <= b
        }
}

#[verifier::rlimit(60)]
proof fn select_arms_in_a_list_from(
    g: Src,
    xs: Seq<SelectArm>,
    starts: Seq<nat>,
    ends: Seq<nat>,
    q: nat,
    k: int,
)
    requires
        0 <= k < xs.len(),
        listed(g, a_select_arm(g), TokenKind::Delim(Delim::Comma), xs, starts, ends),
        forall|i: int| 0 <= i < xs.len()
            ==> g.kind(#[trigger] starts[i]) != TokenKind::Delim(Delim::RBrace),
        list_end(g, ends[xs.len() - 1], TokenKind::Delim(Delim::RBrace), q),
    ensures
        select_arms(g, at(starts[k]), xs.take(k)) == read(q, xs),
        starts[k] <= q,
    decreases xs.len() - k,
{
    let done = xs.take(k);
    let x = xs[k];
    let p = starts[k];
    let e = ends[k];
    assert(a_select_arm(g)(p, x, e));
    assert(g.kind(starts[k]) == g.kind(p));
    assert(at(e).skip() == at(e + 1));
    assert(done.push(x) =~= xs.take(k + 1));
    let pat = pattern(g, at(p + 1));
    let q1 = behind(p + 1, pat);
    let channel = expr(g, at(q1 + 3), 0);
    let r = behind(q1 + 3, channel);
    assert(at(p).kw(g, Keyword::Case) == at(p + 1));
    assert(at(p + 1).after(pat) == at(q1));
    assert(at(q1).op(g, Op::Eq) == at(q1 + 1));
    assert(at(q1 + 1).op(g, Op::Lt) == at(q1 + 2));
    assert(at(q1 + 2).op(g, Op::Minus) == at(q1 + 3));
    assert(at(q1 + 3).after(channel) == at(r));
    assert(at(r).delim(g, Delim::Colon) == at(r + 1));
    assert(at(r + 1).after(expr(g, at(r + 1), 0)) == at(e));
    assert(
        x
            == SelectArm {
                pattern: pat.out(),
                channel_expr: channel.out(),
                body: expr(g, at(r + 1), 0).out(),
            }
    );
    if k + 1 == xs.len() {
        assert(xs.take(k + 1) =~= xs);
        if g.kind(e) == TokenKind::Delim(Delim::Comma) {
            assert(select_arms(g, at(e + 1), xs) == read(e + 1, xs));
        }
    } else {
        select_arms_in_a_list_from(g, xs, starts, ends, q, k + 1);
        assert(g.kind(ends[k]) == TokenKind::Delim(Delim::Comma) && starts[k + 1] == e + 1);
    }
}

/// The arms of a `select`, with commas between them, are read in their order up to `}`.
pub proof fn select_arms_in_a_list(
    g: Src,
    xs: Seq<SelectArm>,
    starts: Seq<nat>,
    ends: Seq<nat>,
    q: nat,
)
    requires
        xs.len() > 0,
        listed(g, a_select_arm(g), TokenKind::Delim(Delim::Comma), xs, starts, ends),
        forall|i: int| 0 <= i < xs.len()
            ==> g.kind(#[trigger] starts[i]) != TokenKind::Delim(Delim::RBrace),
        list_end(g, ends[xs.len() - 1], TokenKind::Delim(Delim::RBrace), q),
    ensures
        select_arms(g, at(starts[0]), seq![]) == read(q, xs),
{
    select_arms_in_a_list_from(g, xs, starts, ends, q, 0);
    assert(xs.take(0) =~= Seq::<SelectArm>::empty());
}

/// `query table clauses` asks a table.
#[verifier::rlimit(20)]
pub proof fn query_expression(g: Src, p: nat)
    requires
        g.kind(p) == TokenKind::Keyword(Keyword::Query),
    ensures
        ({
            let table = word(g, at(p + 1));
            let q_table = behind(p + 1, table);
            let clauses = query_clauses(g, at(q_table), seq![]);
            let q_clauses = behind(q_table, clauses);
            let fits = table.res is Ok
                && clauses.res is Ok;
            &&& primary(g, at(p)).res is Ok <==> fits
            &&& fits
                ==> primary(g, at(p)) == read(
                    q_clauses,
                    Expr::Query(QueryExpr { table: table.out(), clauses: clauses.out() }),
                )
        }),
{
    let table = word(g, at(p + 1));
    let q_table = behind(p + 1, table);
    let clauses = query_clauses(g, at(q_table), seq![]);
    let q_clauses = behind(q_table, clauses);
    assert(at(p).skip() == at(p + 1));
    assert(table.res is Ok ==> at(p + 1).after(table) == at(q_table));
    assert(clauses.res is Ok ==> at(q_table).after(clauses) == at(q_clauses));
    assert(primary(g, at(p)) == keyword_primary(g, at(p), Keyword::Query));
}

/// The names of clauses are told apart.
proof fn names_of_clauses()
    ensures
        "orderBy"@ != "first"@,
        "orderBy"@ != "count"@,
        "orderBy"@ != "join"@,
        "first"@ != "count"@,
        "first"@ != "join"@,
        "count"@ != "join"@,
{
    reveal_strlit("orderBy");
    reveal_strlit("first");
    reveal_strlit("count");
    reveal_strlit("join");
    assert("orderBy"@.len() == 7);
    assert("join"@.len() == 4);
    assert("first"@[0] == 'f');
    assert("count"@[0] == 'c');
}

proof fn clause_is_kept(g: Src, p: nat, done: Seq<QueryClause>)
    requires
        starts_clause(g, at(p)),
    ensures
        ({
            let clause = query_clause(g, at(p + 1), g.kind(p));
            &&& clause.res is Err ==> query_clauses(g, at(p), done).res is Err
            &&& clause.res is Ok ==> query_clauses(g, at(p), done) == query_clauses(
                g,
                at(behind(p + 1, clause)),
                done.push(clause.out()),
            )
        }),
{
    let clause = query_clause(g, at(p + 1), g.kind(p));
    assert(at(p).skip() == at(p + 1));
    assert(query_clauses(g, at(p), done) == query_clauses(
        g,
        at(p + 1).after(clause),
        done.push(clause.out()),
    ));
    if clause.res is Ok {
        assert(at(p + 1).after(clause) == at(behind(p + 1, clause)));
    }
}

proof fn where_clause_of_a_query_alone(g: Src, p: nat)
    ensures
        ({
            let e = expr(g, at(p), 0);
            let q_e = behind(p, e);
            let fits = e.res is Ok;
            &&& query_clause(g, at(p), TokenKind::Keyword(Keyword::Where)).res is Ok <==> fits
            &&& fits
                ==> query_clause(g, at(p), TokenKind::Keyword(Keyword::Where)) == read(
                    q_e,
                    QueryClause::Where(Box::new(e.out())),
                )
        }),
{
    let e = expr(g, at(p), 0);
    let q_e = behind(p, e);
    assert(e.res is Ok ==> at(p).after(e) == at(q_e));
}

/// `where condition` keeps the rows that meet it.
pub proof fn where_clause_of_a_query(g: Src, p: nat, done: Seq<QueryClause>)
    requires
        g.kind(p) == TokenKind::Keyword(Keyword::Where),
    ensures
        ({
            let e = expr(g, at(p + 1), 0);
            let q_e = behind(p + 1, e);
            let fits = e.res is Ok;
            &&& !fits ==> query_clauses(g, at(p), done).res is Err
            &&& fits
                ==> query_clauses(g, at(p), done) == query_clauses(
                    g,
                    at(q_e),
                    done.push(QueryClause::Where(Box::new(e.out()))),
                )
        }),
{
    where_clause_of_a_query_alone(g, p + 1);
    clause_is_kept(g, p, done);
}

proof fn insert_clause_alone(g: Src, p: nat)
    ensures
        ({
            let e = expr(g, at(p), 0);
            let q_e = behind(p, e);
            let fits = e.res is Ok;
            &&& query_clause(g, at(p), TokenKind::Keyword(Keyword::Insert)).res is Ok <==> fits
            &&& fits
                ==> query_clause(g, at(p), TokenKind::Keyword(Keyword::Insert)) == read(
                    q_e,
                    QueryClause::Insert(Box::new(e.out())),
                )
        }),
{
    let e = expr(g, at(p), 0);
    let q_e = behind(p, e);
    assert(e.res is Ok ==> at(p).after(e) == at(q_e));
}

/// `insert value` adds a row.
pub proof fn insert_clause(g: Src, p: nat, done: Seq<QueryClause>)
    requires
        g.kind(p) == TokenKind::Keyword(Keyword::Insert),
    ensures
        ({
            let e = expr(g, at(p + 1), 0);
            let q_e = behind(p + 1, e);
            let fits = e.res is Ok;
            &&& !fits ==> query_clauses(g, at(p), done).res is Err
            &&& fits
                ==> query_clauses(g, at(p), done) == query_clauses(
                    g,
                    at(q_e),
                    done.push(QueryClause::Insert(Box::new(e.out()))),
                )
        }),
{
    insert_clause_alone(g, p + 1);
    clause_is_kept(g, p, done);
}

proof fn update_clause_alone(g: Src, p: nat)
    ensures
        ({
            let e = props(g, at(p));
            let q_e = behind(p, e);
            let fits = e.res is Ok;
            &&& query_clause(g, at(p), TokenKind::Keyword(Keyword::Update)).res is Ok <==> fits
            &&& fits
                ==> query_clause(g, at(p), TokenKind::Keyword(Keyword::Update)) == read(
                    q_e,
                    QueryClause::Update(e.out()),
                )
        }),
{
    let e = props(g, at(p));
    let q_e = behind(p, e);
    assert(e.res is Ok ==> at(p).after(e) == at(q_e));
}

/// `update { columns }` changes rows.
pub proof fn update_clause(g: Src, p: nat, done: Seq<QueryClause>)
    requires
        g.kind(p) == TokenKind::Keyword(Keyword::Update),
    ensures
        ({
            let e = props(g, at(p + 1));
            let q_e = behind(p + 1, e);
            let fits = e.res is Ok;
            &&& !fits ==> query_clauses(g, at(p), done).res is Err
            &&& fits
                ==> query_clauses(g, at(p), done) == query_clauses(
                    g,
                    at(q_e),
                    done.push(QueryClause::Update(e.out())),
                )
        }),
{
    update_clause_alone(g, p + 1);
    clause_is_kept(g, p, done);
}

proof fn delete_clause_alone(g: Src, p: nat)
    ensures
        ({
            query_clause(g, at(p), TokenKind::Keyword(Keyword::Delete)) == read(
                p,
                QueryClause::Delete,
            )
        }),
{
}

/// `delete` removes rows.
pub proof fn delete_clause(g: Src, p: nat, done: Seq<QueryClause>)
    requires
        g.kind(p) == TokenKind::Keyword(Keyword::Delete),
    ensures
        ({
            query_clauses(g, at(p), done) == query_clauses(
                g,
                at(p + 1),
                done.push(QueryClause::Delete),
            )
        }),
{
    delete_clause_alone(g, p + 1);
    clause_is_kept(g, p, done);
}

proof fn order_clause_alone(g: Src, p: nat, text: String)
    requires
        text@ == "orderBy"@,
    ensures
        ({
            let e = word(g, at(p));
            let q_e = behind(p, e);
            let fits = e.res is Ok;
            &&& query_clause(g, at(p), TokenKind::Ident(text)).res is Ok <==> fits
            &&& fits
                ==> query_clause(g, at(p), TokenKind::Ident(text)) == read(
                    q_e,
                    QueryClause::OrderBy(e.out()),
                )
        }),
{
    let e = word(g, at(p));
    let q_e = behind(p, e);
    assert(e.res is Ok ==> at(p).after(e) == at(q_e));
    names_of_clauses();
}

/// `orderBy column` orders rows.
pub proof fn order_clause(g: Src, p: nat, done: Seq<QueryClause>, text: String)
    requires
        g.kind(p) == TokenKind::Ident(text),
        text@ == "orderBy"@,
    ensures
        ({
            let e = word(g, at(p + 1));
            let q_e = behind(p + 1, e);
            let fits = e.res is Ok;
            &&& !fits ==> query_clauses(g, at(p), done).res is Err
            &&& fits
                ==> query_clauses(g, at(p), done) == query_clauses(
                    g,
                    at(q_e),
                    done.push(QueryClause::OrderBy(e.out())),
                )
        }),
{
    order_clause_alone(g, p + 1, text);
    clause_is_kept(g, p, done);
}

proof fn first_clause_alone(g: Src, p: nat, text: String)
    requires
        text@ == "first"@,
    ensures
        ({
            query_clause(g, at(p), TokenKind::Ident(text)) == read(p, QueryClause::First)
        }),
{
    names_of_clauses();
}

/// `first` takes the first row.
pub proof fn first_clause(g: Src, p: nat, done: Seq<QueryClause>, text: String)
    requires
        g.kind(p) == TokenKind::Ident(text),
        text@ == "first"@,
    ensures
        ({
            query_clauses(g, at(p), done) == query_clauses(
                g,
                at(p + 1),
                done.push(QueryClause::First),
            )
        }),
{
    first_clause_alone(g, p + 1, text);
    clause_is_kept(g, p, done);
}

proof fn count_clause_alone(g: Src, p: nat, text: String)
    requires
        text@ == "count"@,
    ensures
        ({
            let fits = g.kind(p) == TokenKind::Delim(Delim::LParen)
                && g.kind(p + 1) == TokenKind::Delim(Delim::RParen);
            &&& query_clause(g, at(p), TokenKind::Ident(text)).res is Ok <==> fits
            &&& fits
                ==> query_clause(g, at(p), TokenKind::Ident(text)) == read(
                    p + 2,
                    QueryClause::Count,
                )
        }),
{
    assert(g.kind(p) == TokenKind::Delim(Delim::LParen)
        ==> at(p).delim(g, Delim::LParen) == at(p + 1));
    assert(g.kind(p + 1) == TokenKind::Delim(Delim::RParen)
        ==> at(p + 1).delim(g, Delim::RParen) == at(p + 2));
    names_of_clauses();
}

/// `count()` counts rows.
pub proof fn count_clause(g: Src, p: nat, done: Seq<QueryClause>, text: String)
    requires
        g.kind(p) == TokenKind::Ident(text),
        text@ == "count"@,
    ensures
        ({
            let fits = g.kind(p + 1) == TokenKind::Delim(Delim::LParen)
                && g.kind(p + 2) == TokenKind::Delim(Delim::RParen);
            &&& !fits ==> query_clauses(g, at(p), done).res is Err
            &&& fits
                ==> query_clauses(g, at(p), done) == query_clauses(
                    g,
                    at(p + 3),
                    done.push(QueryClause::Count),
                )
        }),
{
    count_clause_alone(g, p + 1, text);
    clause_is_kept(g, p, done);
}

proof fn join_clause_alone(g: Src, p: nat, text: String)
    requires
        text@ == "join"@,
    ensures
        ({
            let e = word(g, at(p));
            let q_e = behind(p, e);
            let on = expr(g, at(q_e + 1), 0);
            let q_on = behind(q_e + 1, on);
            let fits = e.res is Ok
                && g.kind(q_e) == TokenKind::Keyword(Keyword::On)
                && on.res is Ok;
            &&& query_clause(g, at(p), TokenKind::Ident(text)).res is Ok <==> fits
            &&& fits
                ==> query_clause(g, at(p), TokenKind::Ident(text)) == read(
                    q_on,
                    QueryClause::Join { table: e.out(), on: Box::new(on.out()) },
                )
        }),
{
    let e = word(g, at(p));
    let q_e = behind(p, e);
    let on = expr(g, at(q_e + 1), 0);
    let q_on = behind(q_e + 1, on);
    assert(e.res is Ok ==> at(p).after(e) == at(q_e));
    assert(g.kind(q_e) == TokenKind::Keyword(Keyword::On)
        ==> at(q_e).kw(g, Keyword::On) == at(q_e + 1));
    assert(on.res is Ok ==> at(q_e + 1).after(on) == at(q_on));
    names_of_clauses();
}

/// `join table on condition` takes in another table.
pub proof fn join_clause(g: Src, p: nat, done: Seq<QueryClause>, text: String)
    requires
        g.kind(p) == TokenKind::Ident(text),
        text@ == "join"@,
    ensures
        ({
            let e = word(g, at(p + 1));
            let q_e = behind(p + 1, e);
            let on = expr(g, at(q_e + 1), 0);
            let q_on = behind(q_e + 1, on);
            let fits = e.res is Ok
                && g.kind(q_e) == TokenKind::Keyword(Keyword::On)
                && on.res is Ok;
            &&& !fits ==> query_clauses(g, at(p), done).res is Err
            &&& fits
                ==> query_clauses(g, at(p), done) == query_clauses(
                    g,
                    at(q_on),
                    done.push(QueryClause::Join { table: e.out(), on: Box::new(on.out()) }),
                )
        }),
{
    join_clause_alone(g, p + 1, text);
    clause_is_kept(g, p, done);
}

/// Anything else ends a query.
pub proof fn end_of_a_query(g: Src, p: nat, done: Seq<QueryClause>)
    requires
        !(g.kind(p) == TokenKind::Keyword(Keyword::Where)),
        !(g.kind(p) == TokenKind::Keyword(Keyword::Insert)),
        !(g.kind(p) == TokenKind::Keyword(Keyword::Update)),
        !(g.kind(p) == TokenKind::Keyword(Keyword::Delete)),
        g.kind(p) matches TokenKind::Ident(s) ==> s@ != "orderBy"@ && s@ != "first"@ && s@
            != "count"@ && s@ != "join"@,
    ensures
        query_clauses(g, at(p), done) == read(p, done),
{
}

/// `try { ... } catch (name) { ... }` runs the second block where the first fails.
#[verifier::rlimit(30)]
pub proof fn try_expression(g: Src, p: nat)
    requires
        g.kind(p) == TokenKind::Keyword(Keyword::Try),
    ensures
        ({
            let body = block(g, at(p + 1));
            let q_body = behind(p + 1, body);
            let name = word(g, at(q_body + 2));
            let q_name = behind(q_body + 2, name);
            let handler = block(g, at(q_name + 1));
            let q_handler = behind(q_name + 1, handler);
            let fits = body.res is Ok
                && g.kind(q_body) == TokenKind::Keyword(Keyword::Catch)
                && g.kind(q_body + 1) == TokenKind::Delim(Delim::LParen)
                && name.res is Ok
                && g.kind(q_name) == TokenKind::Delim(Delim::RParen)
                && handler.res is Ok;
            &&& primary(g, at(p)).res is Ok <==> fits
            &&& fits
                ==> primary(g, at(p)) == read(
                    q_handler,
                    Expr::TryCatch {
                        try_block: body.out(),
                        catch_var: name.out(),
                        catch_block: handler.out(),
                    },
                )
        }),
{
    let body = block(g, at(p + 1));
    let q_body = behind(p + 1, body);
    let name = word(g, at(q_body + 2));
    let q_name = behind(q_body + 2, name);
    let handler = block(g, at(q_name + 1));
    let q_handler = behind(q_name + 1, handler);
    assert(at(p).skip() == at(p + 1));
    assert(body.res is Ok ==> at(p + 1).after(body) == at(q_body));
    assert(g.kind(q_body) == TokenKind::Keyword(Keyword::Catch)
        ==> at(q_body).kw(g, Keyword::Catch) == at(q_body + 1));
    assert(g.kind(q_body + 1) == TokenKind::Delim(Delim::LParen)
        ==> at(q_body + 1).delim(g, Delim::LParen) == at(q_body + 2));
    assert(name.res is Ok ==> at(q_body + 2).after(name) == at(q_name));
    assert(g.kind(q_name) == TokenKind::Delim(Delim::RParen)
        ==> at(q_name).delim(g, Delim::RParen) == at(q_name + 1));
    assert(handler.res is Ok ==> at(q_name + 1).after(handler) == at(q_handler));
    assert(primary(g, at(p)) == try_tail(g, at(p + 1)));
    assert(primary(g, at(p)) == keyword_primary(g, at(p), Keyword::Try));
}

/// `throw e` fails with `e`.
pub proof fn throw_expression(g: Src, p: nat)
    requires
        g.kind(p) == TokenKind::Keyword(Keyword::Throw),
    ensures
        ({
            let e = expr(g, at(p + 1), 0);
            let q_e = behind(p + 1, e);
            let fits = e.res is Ok;
            &&& primary(g, at(p)).res is Ok <==> fits
            &&& fits ==> primary(g, at(p)) == read(q_e, Expr::Throw(Box::new(e.out())))
        }),
{
    let e = expr(g, at(p + 1), 0);
    let q_e = behind(p + 1, e);
    assert(at(p).skip() == at(p + 1));
    assert(e.res is Ok ==> at(p + 1).after(e) == at(q_e));
    assert(primary(g, at(p)) == keyword_primary(g, at(p), Keyword::Throw));
}

/// `unsafe { ... }` is a block.
pub proof fn unsafe_expression(g: Src, p: nat)
    requires
        g.kind(p) == TokenKind::Keyword(Keyword::Unsafe),
    ensures
        ({
            let body = block(g, at(p + 1));
            let q_body = behind(p + 1, body);
            let fits = body.res is Ok;
            &&& primary(g, at(p)).res is Ok <==> fits
            &&& fits ==> primary(g, at(p)) == read(q_body, Expr::Unsafe(Box::new(body.out())))
        }),
{
    let body = block(g, at(p + 1));
    let q_body = behind(p + 1, body);
    assert(at(p).skip() == at(p + 1));
    assert(body.res is Ok ==> at(p + 1).after(body) == at(q_body));
    assert(primary(g, at(p)) == keyword_primary(g, at(p), Keyword::Unsafe));
}

/// `return e` gives `e` back.
pub proof fn return_with_a_value(g: Src, p: nat)
    requires
        g.kind(p) == TokenKind::Keyword(Keyword::Return),
        g.kind(p + 1) != TokenKind::Delim(Delim::Semi),
        g.kind(p + 1) != TokenKind::Delim(Delim::RBrace),
        g.kind(p + 1) != TokenKind::Delim(Delim::Comma),
    ensures
        ({
            let e = expr(g, at(p + 1), 0);
            let q_e = behind(p + 1, e);
            let fits = e.res is Ok;
            &&& primary(g, at(p)).res is Ok <==> fits
            &&& fits ==> primary(g, at(p)) == read(q_e, Expr::Return(Some(Box::new(e.out()))))
        }),
{
    let e = expr(g, at(p + 1), 0);
    let q_e = behind(p + 1, e);
    assert(at(p).skip() == at(p + 1));
    assert(e.res is Ok ==> at(p + 1).after(e) == at(q_e));
    assert(primary(g, at(p)) == return_tail(g, at(p + 1)));
    assert(primary(g, at(p)) == keyword_primary(g, at(p), Keyword::Return));
}

/// In front of `;`, `}` or `,` `return` gives nothing back.
pub proof fn return_without_a_value(g: Src, p: nat)
    requires
        g.kind(p) == TokenKind::Keyword(Keyword::Return),
        g.kind(p + 1) == TokenKind::Delim(Delim::Semi) || g.kind(p + 1) == TokenKind::Delim(
            Delim::RBrace,
        ) || g.kind(p + 1) == TokenKind::Delim(Delim::Comma),
    ensures
        ({
            primary(g, at(p)) == read(p + 1, Expr::Return(None))
        }),
{
    assert(at(p).skip() == at(p + 1));
    assert(primary(g, at(p)) == return_tail(g, at(p + 1)));
    assert(primary(g, at(p)) == keyword_primary(g, at(p), Keyword::Return));
}

/// `move` in front of a closure takes what it uses along.
pub proof fn moving_closure(g: Src, p: nat)
    requires
        g.kind(p) == TokenKind::Keyword(Keyword::Move),
    ensures
        ({
            let c = closure(g, at(p + 1), true);
            let q_c = behind(p + 1, c);
            let fits = c.res is Ok;
            &&& primary(g, at(p)).res is Ok <==> fits
            &&& fits ==> primary(g, at(p)) == read(q_c, Expr::Closure(Box::new(c.out())))
        }),
{
    let c = closure(g, at(p + 1), true);
    let q_c = behind(p + 1, c);
    assert(at(p).skip() == at(p + 1));
    assert(c.res is Ok ==> at(p + 1).after(c) == at(q_c));
    assert(primary(g, at(p)) == closure_primary(g, at(p + 1), true));
    assert(primary(g, at(p)) == keyword_primary(g, at(p), Keyword::Move));
}

/// `|` or `||` begins a closure.
pub proof fn closure_expression(g: Src, p: nat)
    requires
        g.kind(p) == TokenKind::Op(Op::Pipe) || g.kind(p) == TokenKind::Op(Op::OrOr),
    ensures
        ({
            let c = closure(g, at(p), false);
            let q_c = behind(p, c);
            let fits = c.res is Ok;
            &&& primary(g, at(p)).res is Ok <==> fits
            &&& fits ==> primary(g, at(p)) == read(q_c, Expr::Closure(Box::new(c.out())))
        }),
{
    let c = closure(g, at(p), false);
    let q_c = behind(p, c);
    assert(c.res is Ok ==> at(p).after(c) == at(q_c));
    assert(primary(g, at(p)) == closure_primary(g, at(p), false));
}

/// After its parameters a closure has perhaps a type that it gives back, and an expression
/// where no `{` follows.
pub proof fn closure_with_an_expression(
    g: Src,
    p: nat,
    is_move: bool,
    params: Seq<(Pattern, Option<Type>)>,
)
    requires
        g.kind(behind(p, opt_return_type(g, at(p)))) != TokenKind::Delim(Delim::LBrace),
    ensures
        ({
            let ret = opt_return_type(g, at(p));
            let q_ret = behind(p, ret);
            let body = expr(g, at(q_ret), 0);
            let q_body = behind(q_ret, body);
            let fits = ret.res is Ok
                && body.res is Ok;
            &&& closure_tail(g, at(p), is_move, params).res is Ok <==> fits
            &&& fits
                ==> closure_tail(g, at(p), is_move, params) == read(
                    q_body,
                    ClosureExpr {
                        is_move,
                        params,
                        return_type: ret.out(),
                        body: ClosureBody::Expr(Box::new(body.out())),
                    },
                )
        }),
{
    let ret = opt_return_type(g, at(p));
    let q_ret = behind(p, ret);
    let body = expr(g, at(q_ret), 0);
    let q_body = behind(q_ret, body);
    assert(ret.res is Ok ==> at(p).after(ret) == at(q_ret));
    assert(body.res is Ok ==> at(q_ret).after(body) == at(q_body));
}

/// After its parameters a closure has perhaps a type that it gives back, and a block where `{`
/// follows.
pub proof fn closure_with_a_block(
    g: Src,
    p: nat,
    is_move: bool,
    params: Seq<(Pattern, Option<Type>)>,
)
    requires
        g.kind(behind(p, opt_return_type(g, at(p)))) == TokenKind::Delim(Delim::LBrace),
    ensures
        ({
            let ret = opt_return_type(g, at(p));
            let q_ret = behind(p, ret);
            let body = block(g, at(q_ret));
            let q_body = behind(q_ret, body);
            let fits = ret.res is Ok
                && body.res is Ok;
            &&& closure_tail(g, at(p), is_move, params).res is Ok <==> fits
            &&& fits
                ==> closure_tail(g, at(p), is_move, params) == read(
                    q_body,
                    ClosureExpr {
                        is_move,
                        params,
                        return_type: ret.out(),
                        body: ClosureBody::Block(body.out()),
                    },
                )
        }),
{
    let ret = opt_return_type(g, at(p));
    let q_ret = behind(p, ret);
    let body = block(g, at(q_ret));
    let q_body = behind(q_ret, body);
    assert(ret.res is Ok ==> at(p).after(ret) == at(q_ret));
    assert(body.res is Ok ==> at(q_ret).after(body) == at(q_body));
}

/// `||`, or `|` and `|` with nothing between them, is a closure without parameters.
pub proof fn closure_without_parameters(g: Src, p: nat, is_move: bool)
    ensures
        g.kind(p) == TokenKind::Op(Op::OrOr) ==> closure(g, at(p), is_move) == closure_tail(
            g,
            at(p + 1),
            is_move,
            seq![],
        ),
        g.kind(p) == TokenKind::Op(Op::Pipe) && g.kind(p + 1) == TokenKind::Op(Op::Pipe)
            ==> closure(g, at(p), is_move) == closure_tail(g, at(p + 2), is_move, seq![]),
{
    assert(at(p).skip() == at(p + 1));
    assert(at(p + 1).skip() == at(p + 2));
}

/// `|params|` gives a closure its parameters.
#[verifier::rlimit(20)]
pub proof fn closure_with_parameters(g: Src, p: nat, is_move: bool)
    requires
        g.kind(p) == TokenKind::Op(Op::Pipe),
        g.kind(p + 1) != TokenKind::Op(Op::Pipe),
    ensures
        ({
            let params = closure_params(g, at(p + 1), seq![]);
            let q_params = behind(p + 1, params);
            let fits = params.res is Ok
                && g.kind(q_params) == TokenKind::Op(Op::Pipe);
            &&& !fits ==> closure(g, at(p), is_move).res is Err
            &&& fits
                ==> closure(g, at(p), is_move) == closure_tail(
                    g,
                    at(q_params + 1),
                    is_move,
                    params.out(),
                )
        }),
{
    let params = closure_params(g, at(p + 1), seq![]);
    let q_params = behind(p + 1, params);
    assert(at(p).skip() == at(p + 1));
    assert(params.res is Ok ==> at(p + 1).after(params) == at(q_params));
    assert(g.kind(q_params) == TokenKind::Op(Op::Pipe)
        ==> at(q_params).op(g, Op::Pipe) == at(q_params + 1));
    assert(at(p).op(g, Op::Pipe) == at(p + 1));
    assert(
        closure(g, at(p), is_move) == closure_tail(
            g,
            at(p + 1).after(params).op(g, Op::Pipe),
            is_move,
            params.out(),
        )
    );
}

/// A parameter of a closure, a pattern and perhaps its type, from `a` up to `b`.
pub open spec fn a_closure_param(g: Src) -> spec_fn(nat, (Pattern, Option<Type>), nat) -> bool {
    |a: nat, x: (Pattern, Option<Type>), b: nat| {
        let pat = pattern_single(g, at(a));
        let q = behind(a, pat);
        &&& pat.res == Ok::<Pattern, Failure>(x.0)
        &&& opt_type(g, at(q)) == read(b, x.1)
        &&& q <= b
    }
}

#[verifier::rlimit(30)]
proof fn closure_parameters_from(
    g: Src,
    xs: Seq<(Pattern, Option<Type>)>,
    starts: Seq<nat>,
    ends: Seq<nat>,
    k: int,
)
    requires
        0 <= k < xs.len(),
        listed(g, a_closure_param(g), TokenKind::Delim(Delim::Comma), xs, starts, ends),
        g.kind(ends[xs.len() - 1]) != TokenKind::Delim(Delim::Comma),
    ensures
        closure_params(g, at(starts[k]), xs.take(k)) == read(ends[xs.len() - 1], xs),
        starts[k] <= ends[xs.len() - 1],
    decreases xs.len() - k,
{
    let done = xs.take(k);
    let x = xs[k];
    let p = starts[k];
    let e = ends[k];
    assert(a_closure_param(g)(p, x, e));
    assert(g.kind(starts[k]) == g.kind(p));
    assert(at(e).skip() == at(e + 1));
    assert(done.push(x) =~= xs.take(k + 1));
    let pat = pattern_single(g, at(p));
    let q1 = behind(p, pat);
    assert(at(p).after(pat) == at(q1));
    assert(at(q1).after(opt_type(g, at(q1))) == at(e));
    assert(x == (x.0, x.1));
    if k + 1 == xs.len() {
        assert(xs.take(k + 1) =~= xs);
    } else {
        closure_parameters_from(g, xs, starts, ends, k + 1);
        assert(g.kind(ends[k]) == TokenKind::Delim(Delim::Comma) && starts[k + 1] == e + 1);
    }
}

/// The parameters of a closure, with commas between them, are read in their order.
pub proof fn closure_parameters(
    g: Src,
    xs: Seq<(Pattern, Option<Type>)>,
    starts: Seq<nat>,
    ends: Seq<nat>,
)
    requires
        xs.len() > 0,
        listed(g, a_closure_param(g), TokenKind::Delim(Delim::Comma), xs, starts, ends),
        g.kind(ends[xs.len() - 1]) != TokenKind::Delim(Delim::Comma),
    ensures
        closure_params(g, at(starts[0]), seq![]) == read(ends[xs.len() - 1], xs),
{
    closure_parameters_from(g, xs, starts, ends, 0);
    assert(xs.take(0) =~= Seq::<(Pattern, Option<Type>)>::empty());
}

/// `: T` gives the type.
pub proof fn given_type(g: Src, p: nat)
    requires
        g.kind(p) == TokenKind::Delim(Delim::Colon),
    ensures
        ({
            let x = type_of(g, at(p + 1));
            let q_x = behind(p + 1, x);
            let fits = x.res is Ok;
            &&& opt_type(g, at(p)).res is Ok <==> fits
            &&& fits ==> opt_type(g, at(p)) == read(q_x, Some(x.out()))
        }),
{
    let x = type_of(g, at(p + 1));
    let q_x = behind(p + 1, x);
    assert(at(p).skip() == at(p + 1));
    assert(x.res is Ok ==> at(p + 1).after(x) == at(q_x));
}

/// Without it there is none.
pub proof fn no_type(g: Src, p: nat)
    requires
        g.kind(p) != TokenKind::Delim(Delim::Colon),
    ensures
        ({
            opt_type(g, at(p)) == read(p, None::<Type>)
        }),
{
}

/// `-> T` gives the return type.
pub proof fn given_return_type(g: Src, p: nat)
    requires
        g.kind(p) == TokenKind::Op(Op::Arrow),
    ensures
        ({
            let x = type_of(g, at(p + 1));
            let q_x = behind(p + 1, x);
            let fits = x.res is Ok;
            &&& opt_return_type(g, at(p)).res is Ok <==> fits
            &&& fits ==> opt_return_type(g, at(p)) == read(q_x, Some(x.out()))
        }),
{
    let x = type_of(g, at(p + 1));
    let q_x = behind(p + 1, x);
    assert(at(p).skip() == at(p + 1));
    assert(x.res is Ok ==> at(p + 1).after(x) == at(q_x));
}

/// Without it there is none.
pub proof fn no_return_type(g: Src, p: nat)
    requires
        g.kind(p) != TokenKind::Op(Op::Arrow),
    ensures
        ({
            opt_return_type(g, at(p)) == read(p, None::<Type>)
        }),
{
}

/// `= e` gives the value.
pub proof fn given_value(g: Src, p: nat)
    requires
        g.kind(p) == TokenKind::Op(Op::Eq),
    ensures
        ({
            let x = expr(g, at(p + 1), 0);
            let q_x = behind(p + 1, x);
            let fits = x.res is Ok;
            &&& opt_value(g, at(p)).res is Ok <==> fits
            &&& fits ==> opt_value(g, at(p)) == read(q_x, Some(x.out()))
        }),
{
    let x = expr(g, at(p + 1), 0);
    let q_x = behind(p + 1, x);
    assert(at(p).skip() == at(p + 1));
    assert(x.res is Ok ==> at(p + 1).after(x) == at(q_x));
}

/// Without it there is none.
pub proof fn no_value(g: Src, p: nat)
    requires
        g.kind(p) != TokenKind::Op(Op::Eq),
    ensures
        ({
            opt_value(g, at(p)) == read(p, None::<Expr>)
        }),
{
}

} // verus!
