//! Statements and blocks.
use crate::ast::TargetKind;
use crate::grammar::cursor::Src;
use crate::grammar::exprs::{expr, opt_type, opt_value};
use crate::grammar::forms::behind;
use crate::grammar::items::{is_item_start, item, target_items};
use crate::grammar::laws::{at, read};
use crate::grammar::stmts::{block, block_body, item_stmts, let_stmt, stmt, StmtOrTail};
use crate::grammar::types::pattern;
use crate::token::{Delim, Keyword, Op, TokenKind};
use crate::tree::{Block, Expr, Item, Stmt};
use vstd::prelude::*;

verus! {

/// `{ ... }` is a block.
#[verifier::rlimit(20)]
pub proof fn block_form(g: Src, p: nat)
    ensures
        ({
            let body = block_body(g, at(p + 1), seq![]);
            let q_body = behind(p + 1, body);
            let fits = g.kind(p) == TokenKind::Delim(Delim::LBrace)
                && body.res is Ok
                && g.kind(q_body) == TokenKind::Delim(Delim::RBrace);
            &&& block(g, at(p)).res is Ok <==> fits
            &&& fits ==> block(g, at(p)) == read(q_body + 1, body.out())
        }),
{
    let body = block_body(g, at(p + 1), seq![]);
    let q_body = behind(p + 1, body);
    assert(g.kind(p) == TokenKind::Delim(Delim::LBrace)
        ==> at(p).delim(g, Delim::LBrace) == at(p + 1));
    assert(body.res is Ok ==> at(p + 1).after(body) == at(q_body));
    assert(g.kind(q_body) == TokenKind::Delim(Delim::RBrace)
        ==> at(q_body).delim(g, Delim::RBrace) == at(q_body + 1));
}

/// `let pattern: T = value;` binds what the pattern names.
#[verifier::rlimit(30)]
pub proof fn let_statement(g: Src, p: nat)
    requires
        g.kind(p) == TokenKind::Keyword(Keyword::Let),
        g.kind(p + 1) != TokenKind::Keyword(Keyword::Mut),
    ensures
        ({
            let pat = pattern(g, at(p + 1));
            let q_pat = behind(p + 1, pat);
            let ty = opt_type(g, at(q_pat));
            let q_ty = behind(q_pat, ty);
            let value = opt_value(g, at(q_ty));
            let q_value = behind(q_ty, value);
            let fits = pat.res is Ok
                && ty.res is Ok
                && value.res is Ok
                && g.kind(q_value) == TokenKind::Delim(Delim::Semi);
            &&& stmt(g, at(p)).res is Ok <==> fits
            &&& fits
                ==> stmt(g, at(p)) == read(
                    q_value + 1,
                    StmtOrTail::Stmt(
                        Stmt::Let {
                            mutable: false,
                            pattern: pat.out(),
                            ty: ty.out(),
                            value: value.out(),
                        },
                    ),
                )
        }),
{
    let pat = pattern(g, at(p + 1));
    let q_pat = behind(p + 1, pat);
    let ty = opt_type(g, at(q_pat));
    let q_ty = behind(q_pat, ty);
    let value = opt_value(g, at(q_ty));
    let q_value = behind(q_ty, value);
    assert(at(p).skip() == at(p + 1));
    assert(pat.res is Ok ==> at(p + 1).after(pat) == at(q_pat));
    assert(ty.res is Ok ==> at(q_pat).after(ty) == at(q_ty));
    assert(value.res is Ok ==> at(q_ty).after(value) == at(q_value));
    assert(g.kind(q_value) == TokenKind::Delim(Delim::Semi)
        ==> at(q_value).delim(g, Delim::Semi) == at(q_value + 1));
    assert(stmt(g, at(p)) == let_stmt(g, at(p + 1)));
}

/// `let mut pattern: T = value;` binds it for change.
#[verifier::rlimit(30)]
pub proof fn mutable_let_statement(g: Src, p: nat)
    requires
        g.kind(p) == TokenKind::Keyword(Keyword::Let),
        g.kind(p + 1) == TokenKind::Keyword(Keyword::Mut),
    ensures
        ({
            let pat = pattern(g, at(p + 2));
            let q_pat = behind(p + 2, pat);
            let ty = opt_type(g, at(q_pat));
            let q_ty = behind(q_pat, ty);
            let value = opt_value(g, at(q_ty));
            let q_value = behind(q_ty, value);
            let fits = pat.res is Ok
                && ty.res is Ok
                && value.res is Ok
                && g.kind(q_value) == TokenKind::Delim(Delim::Semi);
            &&& stmt(g, at(p)).res is Ok <==> fits
            &&& fits
                ==> stmt(g, at(p)) == read(
                    q_value + 1,
                    StmtOrTail::Stmt(
                        Stmt::Let {
                            mutable: true,
                            pattern: pat.out(),
                            ty: ty.out(),
                            value: value.out(),
                        },
                    ),
                )
        }),
{
    let pat = pattern(g, at(p + 2));
    let q_pat = behind(p + 2, pat);
    let ty = opt_type(g, at(q_pat));
    let q_ty = behind(q_pat, ty);
    let value = opt_value(g, at(q_ty));
    let q_value = behind(q_ty, value);
    assert(at(p).skip() == at(p + 1));
    assert(at(p + 1).skip() == at(p + 2));
    assert(pat.res is Ok ==> at(p + 2).after(pat) == at(q_pat));
    assert(ty.res is Ok ==> at(q_pat).after(ty) == at(q_ty));
    assert(value.res is Ok ==> at(q_ty).after(value) == at(q_value));
    assert(g.kind(q_value) == TokenKind::Delim(Delim::Semi)
        ==> at(q_value).delim(g, Delim::Semi) == at(q_value + 1));
    assert(stmt(g, at(p)) == let_stmt(g, at(p + 1)));
}

/// `return e;` gives `e` back.
#[verifier::rlimit(20)]
pub proof fn return_statement(g: Src, p: nat)
    requires
        g.kind(p) == TokenKind::Keyword(Keyword::Return),
        g.kind(p + 1) != TokenKind::Delim(Delim::Semi),
    ensures
        ({
            let e = expr(g, at(p + 1), 0);
            let q_e = behind(p + 1, e);
            let fits = e.res is Ok
                && g.kind(q_e) == TokenKind::Delim(Delim::Semi);
            &&& stmt(g, at(p)).res is Ok <==> fits
            &&& fits
                ==> stmt(g, at(p)) == read(q_e + 1, StmtOrTail::Stmt(Stmt::Return(Some(e.out()))))
        }),
{
    let e = expr(g, at(p + 1), 0);
    let q_e = behind(p + 1, e);
    assert(at(p).skip() == at(p + 1));
    assert(e.res is Ok ==> at(p + 1).after(e) == at(q_e));
    assert(g.kind(q_e) == TokenKind::Delim(Delim::Semi)
        ==> at(q_e).delim(g, Delim::Semi) == at(q_e + 1));
}

/// `return;` gives nothing back.
pub proof fn bare_return_statement(g: Src, p: nat)
    requires
        g.kind(p) == TokenKind::Keyword(Keyword::Return),
        g.kind(p + 1) == TokenKind::Delim(Delim::Semi),
    ensures
        ({
            stmt(g, at(p)) == read(p + 2, StmtOrTail::Stmt(Stmt::Return(None)))
        }),
{
    assert(at(p).skip() == at(p + 1));
    assert(at(p + 1).skip() == at(p + 2));
}

/// `break e;` leaves a loop with `e`.
#[verifier::rlimit(20)]
pub proof fn break_statement(g: Src, p: nat)
    requires
        g.kind(p) == TokenKind::Keyword(Keyword::Break),
        g.kind(p + 1) != TokenKind::Delim(Delim::Semi),
    ensures
        ({
            let e = expr(g, at(p + 1), 0);
            let q_e = behind(p + 1, e);
            let fits = e.res is Ok
                && g.kind(q_e) == TokenKind::Delim(Delim::Semi);
            &&& stmt(g, at(p)).res is Ok <==> fits
            &&& fits
                ==> stmt(g, at(p)) == read(
                    q_e + 1,
                    StmtOrTail::Stmt(Stmt::Break { label: None, value: Some(e.out()) }),
                )
        }),
{
    let e = expr(g, at(p + 1), 0);
    let q_e = behind(p + 1, e);
    assert(at(p).skip() == at(p + 1));
    assert(e.res is Ok ==> at(p + 1).after(e) == at(q_e));
    assert(g.kind(q_e) == TokenKind::Delim(Delim::Semi)
        ==> at(q_e).delim(g, Delim::Semi) == at(q_e + 1));
}

/// `break;` leaves a loop.
pub proof fn bare_break_statement(g: Src, p: nat)
    requires
        g.kind(p) == TokenKind::Keyword(Keyword::Break),
        g.kind(p + 1) == TokenKind::Delim(Delim::Semi),
    ensures
        ({
            stmt(g, at(p)) == read(
                p + 2,
                StmtOrTail::Stmt(Stmt::Break { label: None, value: None }),
            )
        }),
{
    assert(at(p).skip() == at(p + 1));
    assert(at(p + 1).skip() == at(p + 2));
}

/// `continue;` goes on with the next round of a loop.
pub proof fn continue_statement(g: Src, p: nat)
    requires
        g.kind(p) == TokenKind::Keyword(Keyword::Continue),
    ensures
        ({
            let fits = g.kind(p + 1) == TokenKind::Delim(Delim::Semi);
            &&& stmt(g, at(p)).res is Ok <==> fits
            &&& fits
                ==> stmt(g, at(p)) == read(p + 2, StmtOrTail::Stmt(Stmt::Continue { label: None }))
        }),
{
    assert(at(p).skip() == at(p + 1));
    assert(g.kind(p + 1) == TokenKind::Delim(Delim::Semi)
        ==> at(p + 1).delim(g, Delim::Semi) == at(p + 2));
}

/// `yield e;` hands `e` out.
pub proof fn yield_statement(g: Src, p: nat)
    requires
        g.kind(p) == TokenKind::Keyword(Keyword::Yield),
    ensures
        ({
            let e = expr(g, at(p + 1), 0);
            let q_e = behind(p + 1, e);
            let fits = e.res is Ok
                && g.kind(q_e) == TokenKind::Delim(Delim::Semi);
            &&& stmt(g, at(p)).res is Ok <==> fits
            &&& fits ==> stmt(g, at(p)) == read(q_e + 1, StmtOrTail::Stmt(Stmt::Yield(e.out())))
        }),
{
    let e = expr(g, at(p + 1), 0);
    let q_e = behind(p + 1, e);
    assert(at(p).skip() == at(p + 1));
    assert(e.res is Ok ==> at(p + 1).after(e) == at(q_e));
    assert(g.kind(q_e) == TokenKind::Delim(Delim::Semi)
        ==> at(q_e).delim(g, Delim::Semi) == at(q_e + 1));
}

/// Whether the token at `p` begins a statement of its own kind.
pub open spec fn begins_statement(k: TokenKind) -> bool {
    ||| k == TokenKind::Keyword(Keyword::Let)
    ||| k == TokenKind::Keyword(Keyword::Return)
    ||| k == TokenKind::Keyword(Keyword::Break)
    ||| k == TokenKind::Keyword(Keyword::Continue)
    ||| k == TokenKind::Keyword(Keyword::Yield)
}

/// An expression with `;` behind it is a statement, in front of `}` it ends the block. One that
/// ends in a block of its own is a statement without `;`; of any other `;` is missed.
pub proof fn expression_statement(g: Src, p: nat, e: Expr, q: nat)
    requires
        !begins_statement(g.kind(p)),
        expr(g, at(p), 0) == read(q, e),
        p <= q,
    ensures
        g.kind(q) == TokenKind::Delim(Delim::Semi) ==> stmt(g, at(p)) == read(
            q + 1,
            StmtOrTail::Stmt(Stmt::Expr(e)),
        ),
        g.kind(q) == TokenKind::Delim(Delim::RBrace) ==> stmt(g, at(p)) == read(
            q,
            StmtOrTail::Tail(e),
        ),
        ({
            let block_like = e is If || e is Match || e is Loop || e is Block || e is Spawn || e
                is Select || e is TryCatch || e is Unsafe;
            let bare = g.kind(q) != TokenKind::Delim(Delim::Semi) && g.kind(q) != TokenKind::Delim(
                Delim::RBrace,
            );
            &&& bare && block_like ==> stmt(g, at(p)) == read(q, StmtOrTail::Stmt(Stmt::Expr(e)))
            &&& bare && !block_like ==> stmt(g, at(p)).res is Err && stmt(g, at(p)).end == q
                && stmt(g, at(p)).res->Err_0.message == "expected `;` after expression statement"@
        }),
{
    assert(at(p).after(expr(g, at(p), 0)) == at(q));
    assert(at(q).skip() == at(q + 1));
}

/// An expression that cannot be read is no statement.
pub proof fn failing_expression_statement(g: Src, p: nat)
    requires
        !begins_statement(g.kind(p)),
        expr(g, at(p), 0).res is Err,
    ensures
        stmt(g, at(p)).res is Err,
{
}

/// `}` and the end of the stream end a block without a value.
pub proof fn end_of_a_block(g: Src, p: nat, done: Seq<Stmt>)
    requires
        g.kind(p) == TokenKind::Delim(Delim::RBrace) || g.kind(p) is Eof,
    ensures
        block_body(g, at(p), done) == read(p, Block { stmts: done, tail: None }),
{
}

/// Whether a statement, or the expression that ends a block, begins here.
pub open spec fn plain_start(k: TokenKind) -> bool {
    !(k == TokenKind::Delim(Delim::RBrace) || k is Eof || k == TokenKind::Op(Op::Hash)
        || is_item_start(k))
}

/// A statement is kept behind those before it, and the block goes on behind it.
pub proof fn one_statement_more(g: Src, p: nat, done: Seq<Stmt>, x: Stmt, q: nat)
    requires
        plain_start(g.kind(p)),
        stmt(g, at(p)) == read(q, StmtOrTail::Stmt(x)),
        p < q,
    ensures
        block_body(g, at(p), done) == block_body(g, at(q), done.push(x)),
{
    assert(p < g.toks.len());
    assert(at(p).after(stmt(g, at(p))) == at(q));
    assert(at(p).moved(g, at(q)));
}

/// An expression in front of `}` ends the block and is its value.
pub proof fn value_of_a_block(g: Src, p: nat, done: Seq<Stmt>, e: Expr, q: nat)
    requires
        plain_start(g.kind(p)),
        stmt(g, at(p)) == read(q, StmtOrTail::Tail(e)),
        p <= q,
    ensures
        block_body(g, at(p), done) == read(q, Block { stmts: done, tail: Some(Box::new(e)) }),
{
    assert(at(p).after(stmt(g, at(p))) == at(q));
}

/// An item in a block is a statement.
pub proof fn one_item_statement_more(g: Src, p: nat, done: Seq<Stmt>, x: Item, q: nat)
    requires
        is_item_start(g.kind(p)),
        g.kind(p) != TokenKind::Op(Op::Hash),
        item(g, at(p)) == read(q, x),
        p < q,
    ensures
        block_body(g, at(p), done) == block_body(g, at(q), done.push(Stmt::Item(Box::new(x)))),
{
    assert(p < g.toks.len());
    assert(at(p).after(item(g, at(p))) == at(q));
    assert(at(p).moved(g, at(q)));
}

/// What cannot be read ends the block with its failure.
pub proof fn failing_statement(g: Src, p: nat, done: Seq<Stmt>)
    requires
        plain_start(g.kind(p)) ==> stmt(g, at(p)).res is Err,
        is_item_start(g.kind(p)) && g.kind(p) != TokenKind::Op(Op::Hash) ==> item(g, at(p)).res
            is Err,
        plain_start(g.kind(p)) || (is_item_start(g.kind(p)) && g.kind(p) != TokenKind::Op(
            Op::Hash,
        )),
    ensures
        block_body(g, at(p), done).res is Err,
{
    if plain_start(g.kind(p)) {
        let s1 = at(p).after(stmt(g, at(p)));
        assert(s1.err is Some);
    } else {
        let s1 = at(p).after(item(g, at(p)));
        assert(s1.err is Some);
        assert(at(p).moved(g, s1));
        assert(block_body(g, at(p), done) == block_body(
            g,
            s1,
            done.push(Stmt::Item(Box::new(item(g, at(p)).out()))),
        ));
    }
}

/// `#target(kind) { items }` in a block is a statement that holds exactly these items.
pub proof fn target_statement(
    g: Src,
    p: nat,
    done: Seq<Stmt>,
    kind: TargetKind,
    items: Seq<Item>,
    q: nat,
    b: Block,
)
    requires
        g.kind(p) == TokenKind::Op(Op::Hash),
        target_items(g, at(p + 1)) == read(q, (kind, items)),
        p + 1 <= q,
        b.tail is None,
        b.stmts.len() == items.len(),
        forall|i: int| 0 <= i < items.len() ==> #[trigger] b.stmts[i] == Stmt::Item(
            Box::new(items[i]),
        ),
    ensures
        block_body(g, at(p), done) == block_body(g, at(q), done.push(Stmt::TargetBlock(kind, b))),
{
    assert(at(p).skip() == at(p + 1));
    assert(at(p + 1).after(target_items(g, at(p + 1))) == at(q));
    assert(item_stmts(items) =~= b.stmts);
    assert(b == Block { stmts: b.stmts, tail: None });
}

} // verus!
