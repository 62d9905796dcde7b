//! Statements and blocks.
use crate::grammar::cursor::{Cur, Src, Step};
use crate::grammar::exprs::{expr, opt_type, opt_value};
use crate::grammar::items::{is_item_start, item, target_items};
use crate::grammar::types::pattern;
use crate::token::{Delim, Keyword, Op};
use crate::tree::{Block, Expr, Item, Stmt};
use vstd::prelude::*;

verus! {

/// A statement, or the expression at the end of a block.
pub enum StmtOrTail {
    Stmt(Stmt),
    Tail(Expr),
}

/// The expressions that stand as a statement without a `;`.
pub open spec fn is_block_like(e: Expr) -> bool {
    e is If || e is Match || e is Loop || e is Block || e is Spawn || e is Select || e is TryCatch
        || e is Unsafe
}

/// `{ ... }`
pub open spec fn block(g: Src, s: Cur) -> Step<Block>
    decreases s.left(g), 0nat,
{
    if s.err is Some {
        s.stuck()
    } else {
        let s1 = s.delim(g, Delim::LBrace);
        let body = block_body(g, s1, seq![]);
        s1.after(body).delim(g, Delim::RBrace).ok(body.out())
    }
}

/// The items as statements.
pub open spec fn item_stmts(items: Seq<Item>) -> Seq<Stmt> {
    items.map_values(|i: Item| Stmt::Item(Box::new(i)))
}

/// Statements after those in `done`, up to `}`, the end of the stream, or the expression
/// that ends the block.
pub open spec fn block_body(g: Src, s: Cur, done: Seq<Stmt>) -> Step<Block>
    decreases s.left(g), 20nat,
{
    if s.err is Some {
        s.stuck()
    } else if s.at_delim(g, Delim::RBrace) || s.at_end(g) {
        s.ok(Block { stmts: done, tail: None })
    } else if s.at_op(g, Op::Hash) {
        let t = target_items(g, s.skip());
        let body = Block { stmts: item_stmts(t.out().1), tail: None };
        block_body(g, s.skip().after(t), done.push(Stmt::TargetBlock(t.out().0, body)))
    } else if is_item_start(g.kind(s.pos)) {
        let i = item(g, s);
        let s1 = s.after(i);
        if s.moved(g, s1) {
            block_body(g, s1, done.push(Stmt::Item(Box::new(i.out()))))
        } else {
            s1.stuck()
        }
    } else {
        let st = stmt(g, s);
        let s1 = s.after(st);
        if s1.err is Some {
            s1.stuck()
        } else {
            match st.out() {
                StmtOrTail::Stmt(x) => if s.moved(g, s1) {
                    block_body(g, s1, done.push(x))
                } else {
                    s1.stuck()
                },
                StmtOrTail::Tail(e) => s1.ok(Block { stmts: done, tail: Some(Box::new(e)) }),
            }
        }
    }
}

/// An expression, or nothing in front of `;`.
pub open spec fn value_or_semi(g: Src, s: Cur) -> Step<Option<Expr>>
    decreases s.left(g), 10nat,
{
    if s.at_delim(g, Delim::Semi) {
        s.ok(None)
    } else {
        let e = expr(g, s, 0);
        s.after(e).ok(Some(e.out()))
    }
}

pub open spec fn stmt(g: Src, s: Cur) -> Step<StmtOrTail>
    decreases s.left(g), 10nat,
{
    if s.err is Some {
        s.stuck()
    } else if s.at_kw(g, Keyword::Let) {
        let_stmt(g, s.skip())
    } else if s.at_kw(g, Keyword::Return) {
        let value = value_or_semi(g, s.skip());
        s.skip().after(value).delim(g, Delim::Semi).ok(
            StmtOrTail::Stmt(Stmt::Return(value.out())),
        )
    } else if s.at_kw(g, Keyword::Break) {
        let value = value_or_semi(g, s.skip());
        s.skip().after(value).delim(g, Delim::Semi).ok(
            StmtOrTail::Stmt(Stmt::Break { label: None, value: value.out() }),
        )
    } else if s.at_kw(g, Keyword::Continue) {
        s.skip().delim(g, Delim::Semi).ok(StmtOrTail::Stmt(Stmt::Continue { label: None }))
    } else if s.at_kw(g, Keyword::Yield) {
        let e = expr(g, s.skip(), 0);
        s.skip().after(e).delim(g, Delim::Semi).ok(StmtOrTail::Stmt(Stmt::Yield(e.out())))
    } else {
        let e = expr(g, s, 0);
        let s1 = s.after(e);
        if s1.err is Some {
            s1.stuck()
        } else if s1.at_delim(g, Delim::Semi) {
            s1.skip().ok(StmtOrTail::Stmt(Stmt::Expr(e.out())))
        } else if s1.at_delim(g, Delim::RBrace) {
            s1.ok(StmtOrTail::Tail(e.out()))
        } else if is_block_like(e.out()) {
            s1.ok(StmtOrTail::Stmt(Stmt::Expr(e.out())))
        } else {
            s1.fail(g, "expected `;` after expression statement"@).stuck()
        }
    }
}

/// After `let`.
pub open spec fn let_stmt(g: Src, s: Cur) -> Step<StmtOrTail>
    decreases s.left(g), 6nat,
{
    let mutable = s.at_kw(g, Keyword::Mut);
    let s1 = if mutable { s.skip() } else { s };
    let pat = pattern(g, s1);
    let s2 = s1.after(pat);
    let ty = opt_type(g, s2);
    let s3 = s2.after(ty);
    let value = opt_value(g, s3);
    let s4 = s3.after(value).delim(g, Delim::Semi);
    s4.ok(
        StmtOrTail::Stmt(
            Stmt::Let { mutable, pattern: pat.out(), ty: ty.out(), value: value.out() },
        ),
    )
}

} // verus!
