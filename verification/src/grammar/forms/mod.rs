//! What each piece of syntax is read as, token by token.
pub mod control;
pub mod domain;
pub mod exprs;
pub mod items;
pub mod operators;
pub mod patterns;
pub mod places;
pub mod stmts;
pub mod types;

use crate::grammar::cursor::{Src, Step};
use crate::token::{Delim, TokenKind};
use vstd::prelude::*;

verus! {

/// Where a rule that was tried at `p` leaves off.
pub open spec fn behind<T>(p: nat, a: Step<T>) -> nat {
    if a.end >= p {
        a.end
    } else {
        p
    }
}

/// Pieces with a token between each two: the piece `xs[i]` stands from `starts[i]` up to
/// `ends[i]`.
pub open spec fn listed<T>(
    g: Src,
    one: spec_fn(nat, T, nat) -> bool,
    between: TokenKind,
    xs: Seq<T>,
    starts: Seq<nat>,
    ends: Seq<nat>,
) -> bool {
    &&& starts.len() == xs.len()
    &&& ends.len() == xs.len()
    &&& forall|i: int|
        0 <= i < xs.len() ==> one(starts[i], #[trigger] xs[i], ends[i]) && starts[i] <= ends[i]
    &&& forall|i: int|
        0 <= i < xs.len() - 1 ==> g.kind(#[trigger] ends[i]) == between && starts[i + 1] == ends[i]
            + 1
}

/// Where a list ends whose last piece ends at `p`: there, or behind one more comma where
/// `close` follows.
pub open spec fn list_end(g: Src, p: nat, close: TokenKind, q: nat) -> bool {
    if g.kind(p) == TokenKind::Delim(Delim::Comma) {
        g.kind(p + 1) == close && q == p + 1
    } else {
        q == p
    }
}

/// Pieces one after the other: the piece `xs[i]` stands from `cuts[i]` up to `cuts[i + 1]`.
pub open spec fn in_a_row<T>(
    one: spec_fn(nat, T, nat) -> bool,
    xs: Seq<T>,
    cuts: Seq<nat>,
) -> bool {
    &&& cuts.len() == xs.len() + 1
    &&& forall|i: int|
        0 <= i < xs.len() ==> one(cuts[i], #[trigger] xs[i], cuts[i + 1]) && cuts[i] < cuts[i + 1]
}

} // verus!
