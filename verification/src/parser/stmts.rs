//! Reading statements and blocks.
use crate::ast::{Block, Expr, Item, Stmt};
use crate::ast_tree::{opt_tree, trees, Syntax};
use crate::grammar::stmts;
use crate::grammar::stmts::{block, block_body, item_stmts, let_stmt, stmt};
use crate::parser::items::item_start_keyword;
use crate::parser::stream::{meets, none, push, ParseResult, Parser};
use crate::token::{Delim, Keyword, Op};
use crate::tree;
use vstd::prelude::*;

verus! {

/// A statement, or the expression at the end of a block.
enum StmtOrTail {
    Stmt(Stmt),
    Tail(Expr),
}

impl Syntax for StmtOrTail {
    type Tree = stmts::StmtOrTail;

    closed spec fn tree(self) -> stmts::StmtOrTail {
        match self {
            StmtOrTail::Stmt(s) => stmts::StmtOrTail::Stmt(s.tree()),
            StmtOrTail::Tail(e) => stmts::StmtOrTail::Tail(e.tree()),
        }
    }
}

/// The expressions that stand as a statement without a `;`.
fn is_block_like(e: &Expr) -> (r: bool)
    ensures
        r == stmts::is_block_like(e.tree()),
{
    proof {
        e.unfold();
    }
    matches!(e, Expr::If(_) | Expr::Match(_) | Expr::Loop(_) | Expr::Block(_)
        | Expr::Spawn { .. } | Expr::Select(_) | Expr::TryCatch { .. } | Expr::Unsafe(_))
}

/// The items as statements.
fn as_stmts(items: Vec<Item>) -> (r: Vec<Stmt>)
    ensures
        trees(r@) == item_stmts(trees(items@)),
{
    let ghost all = items@;
    let mut rest = items;
    let mut done: Vec<Stmt> = Vec::new();
    while rest.len() > 0
        invariant
            done@.len() + rest@.len() == all.len(),
            rest@ == all.skip(done@.len() as int),
            trees(done@) == item_stmts(trees(all.take(done@.len() as int))),
        decreases rest@.len(),
    {
        let ghost n = done@.len() as int;
        let i = rest.remove(0);
        let made = Stmt::Item(Box::new(i));
        proof {
            made.unfold();
            assert(i == all[n]);
            assert(trees(all.take(n + 1)) =~= trees(all.take(n)).push(i.tree()));
            assert(item_stmts(trees(all.take(n + 1))) =~= item_stmts(trees(all.take(n))).push(
                made.tree(),
            ));
        }
        push(&mut done, made);
        assert(done@.len() == trees(done@).len());
        assert(rest@ =~= all.skip(n + 1));
    }
    assert(all.take(all.len() as int) =~= all);
    done
}

impl Parser {
    pub(super) fn parse_block(&mut self) -> (r: ParseResult<Block>)
        requires
            old(self).wf(),
        ensures
            old(self).keeps(*final(self)),
            meets(
                block(old(self).src(), old(self).cur()),
                final(self).cur(),
                r,
            ),
            r is Ok ==> final(self).left() < old(self).left(),
        decreases old(self).left(), 0nat,
    {
        self.expect_delim(Delim::LBrace)?;
        let body = self.parse_block_body()?;
        self.expect_delim(Delim::RBrace)?;
        Ok(body)
    }

    /// Statements up to `}`, the end of the stream, or the expression that ends the block.
    #[verifier::loop_isolation(false)]
    fn parse_block_body(&mut self) -> (r: ParseResult<Block>)
        requires
            old(self).wf(),
        ensures
            old(self).keeps(*final(self)),
            meets(
                block_body(old(self).src(), old(self).cur(), seq![]),
                final(self).cur(),
                r,
            ),
        decreases old(self).left(), 8nat,
    {
        let mut stmts = none();
        let ghost whole = block_body(self.src(), self.cur(), trees(stmts@));
        let ghost start = self.left();
        loop
            invariant
                old(self).keeps(*self),
                self.left() <= start,
                whole == block_body(self.src(), self.cur(), trees(stmts@)),
            decreases self.left(),
        {
            proof {
                reveal_with_fuel(block_body, 2);
            }
            if self.check_delim(Delim::RBrace) || self.at_end() {
                let made = Block { stmts, tail: None };
                proof {
                    made.unfold();
                }
                return Ok(made);
            }
            if self.eat_op(Op::Hash) {
                let (kind, items) = self.parse_target_items()?;
                let inner = Block { stmts: as_stmts(items), tail: None };
                proof {
                    inner.unfold();
                }
                let made = Stmt::TargetBlock(kind, inner);
                proof {
                    made.unfold();
                }
                push(&mut stmts, made);
            } else if item_start_keyword(self.peek_kind()) {
                let i = self.parse_item()?;
                let made = Stmt::Item(Box::new(i));
                proof {
                    made.unfold();
                }
                push(&mut stmts, made);
            } else {
                match self.parse_stmt()? {
                    StmtOrTail::Stmt(s) => push(&mut stmts, s),
                    StmtOrTail::Tail(e) => {
                        let made = Block { stmts, tail: Some(Box::new(e)) };
                        proof {
                            made.unfold();
                        }
                        return Ok(made);
                    },
                }
            }
        }
    }

    fn parse_stmt(&mut self) -> (r: ParseResult<StmtOrTail>)
        requires
            old(self).wf(),
        ensures
            old(self).keeps(*final(self)),
            meets(
                stmt(old(self).src(), old(self).cur()),
                final(self).cur(),
                r,
            ),
            r is Ok ==> final(self).left() < old(self).left(),
        decreases old(self).left(), 7nat,
    {
        if self.eat_kw(Keyword::Let) {
            return self.parse_let_tail();
        }
        if self.eat_kw(Keyword::Return) {
            let value = if self.check_delim(Delim::Semi) { None } else {
                Some(self.parse_expr(0)?)
            };
            self.expect_delim(Delim::Semi)?;
            return self.made_stmt(Stmt::Return(value));
        }
        if self.eat_kw(Keyword::Break) {
            let value = if self.check_delim(Delim::Semi) { None } else {
                Some(self.parse_expr(0)?)
            };
            self.expect_delim(Delim::Semi)?;
            return self.made_stmt(Stmt::Break { label: None, value });
        }
        if self.eat_kw(Keyword::Continue) {
            self.expect_delim(Delim::Semi)?;
            return self.made_stmt(Stmt::Continue { label: None });
        }
        if self.eat_kw(Keyword::Yield) {
            let e = self.parse_expr(0)?;
            self.expect_delim(Delim::Semi)?;
            return self.made_stmt(Stmt::Yield(e));
        }
        let e = self.parse_expr(0)?;
        if self.eat_delim(Delim::Semi) {
            return self.made_stmt(Stmt::Expr(e));
        }
        if self.check_delim(Delim::RBrace) {
            return Ok(StmtOrTail::Tail(e));
        }
        if is_block_like(&e) {
            return self.made_stmt(Stmt::Expr(e));
        }
        self.error("expected `;` after expression statement")
    }

    /// A finished statement.
    fn made_stmt(&self, s: Stmt) -> (r: ParseResult<StmtOrTail>)
        ensures
            r matches Ok(x) && x.tree() == stmts::StmtOrTail::Stmt(s.tree()),
            s.tree() == (match s {
                Stmt::Return(v) => tree::Stmt::Return(opt_tree(v)),
                Stmt::Break { label, value } => tree::Stmt::Break {
                    label: opt_tree(label),
                    value: opt_tree(value),
                },
                Stmt::Continue { label } => tree::Stmt::Continue { label: opt_tree(label) },
                Stmt::Yield(e) => tree::Stmt::Yield(e.tree()),
                Stmt::Expr(e) => tree::Stmt::Expr(e.tree()),
                _ => s.tree(),
            }),
    {
        proof {
            s.unfold();
        }
        Ok(StmtOrTail::Stmt(s))
    }

    /// After `let`.
    fn parse_let_tail(&mut self) -> (r: ParseResult<StmtOrTail>)
        requires
            old(self).wf(),
        ensures
            old(self).keeps(*final(self)),
            meets(
                let_stmt(old(self).src(), old(self).cur()),
                final(self).cur(),
                r,
            ),
            r is Ok ==> final(self).left() < old(self).left(),
        decreases old(self).left(), 2nat,
    {
        let mutable = self.eat_kw(Keyword::Mut);
        let pattern = self.parse_pattern()?;
        let ty = if self.eat_delim(Delim::Colon) {
            Some(self.parse_type()?)
        } else {
            None
        };
        let value = if self.eat_op(Op::Eq) {
            Some(self.parse_expr(0)?)
        } else {
            None
        };
        self.expect_delim(Delim::Semi)?;
        let made = Stmt::Let { mutable, pattern, ty, value };
        proof {
            made.unfold();
        }
        Ok(StmtOrTail::Stmt(made))
    }
}

} // verus!
