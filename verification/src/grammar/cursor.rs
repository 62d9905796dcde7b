//! Places in a token stream, and the steps between them.
use crate::text::joined;
use crate::token::{Delim, Keyword, Op, Span, Token, TokenKind};
use vstd::prelude::*;

verus! {

/// What a rule reads: the tokens, and whether `name { ... }` may be read as a struct
/// literal or a list of children.
pub struct Src {
    pub toks: Seq<Token>,
    pub lit: bool,
}

/// Why a rule does not apply, and where that shows.
pub struct Failure {
    pub message: Seq<char>,
    pub span: Span,
}

/// A place in the stream. After a failure the place is where the failure showed, and no
/// rule moves it further.
pub struct Cur {
    pub pos: nat,
    pub err: Option<Failure>,
}

/// What a rule makes of a place: where it ends, and its value or its failure.
pub struct Step<T> {
    pub end: nat,
    pub res: Result<T, Failure>,
}

impl<T> Step<T> {
    /// The value of a rule that applied.
    pub open spec fn out(self) -> T {
        self.res->Ok_0
    }
}

impl Src {
    /// The same tokens, where `name { ... }` is a name and then a block.
    pub open spec fn no_lit(self) -> Src {
        Src { toks: self.toks, lit: false }
    }

    pub open spec fn kind(self, p: nat) -> TokenKind {
        if p < self.toks.len() {
            self.toks[p as int].kind
        } else {
            TokenKind::Eof
        }
    }

    /// The kind of the token `k` places on, or of the last one where there are fewer.
    pub open spec fn ahead(self, p: nat, k: nat) -> TokenKind {
        if p + k < self.toks.len() {
            self.toks[(p + k) as int].kind
        } else {
            self.toks.last().kind
        }
    }

    /// Whether the stream ends at or after `p`: some token from there on is `Eof`.
    pub open spec fn ends_after(self, p: nat) -> bool {
        exists|i: int| p <= i < self.toks.len() && #[trigger] self.toks[i].kind is Eof
    }
}

impl Cur {
    /// How much a rule may still do here; zero after a failure.
    pub open spec fn left(self, g: Src) -> nat {
        if self.err is Some {
            0
        } else if self.pos < g.toks.len() {
            (g.toks.len() - self.pos + 1) as nat
        } else {
            1
        }
    }

    pub open spec fn at_kw(self, g: Src, k: Keyword) -> bool {
        self.err is None && g.kind(self.pos) == TokenKind::Keyword(k)
    }

    pub open spec fn at_op(self, g: Src, op: Op) -> bool {
        self.err is None && g.kind(self.pos) == TokenKind::Op(op)
    }

    pub open spec fn at_delim(self, g: Src, d: Delim) -> bool {
        self.err is None && g.kind(self.pos) == TokenKind::Delim(d)
    }

    pub open spec fn at_ident(self, g: Src) -> bool {
        self.err is None && g.kind(self.pos) is Ident
    }

    /// At the identifier `text`.
    pub open spec fn at_name(self, g: Src, text: Seq<char>) -> bool {
        self.err is None && (g.kind(self.pos) matches TokenKind::Ident(s) && s@ == text)
    }

    pub open spec fn at_end(self, g: Src) -> bool {
        self.err is None && g.kind(self.pos) is Eof
    }

    /// Past the token here.
    pub open spec fn skip(self) -> Cur {
        Cur { pos: self.pos + 1, err: self.err }
    }

    /// Past the token here, unless it is the end of the stream.
    pub open spec fn advance(self, g: Src) -> Cur {
        if self.err is Some || g.kind(self.pos) is Eof {
            self
        } else {
            self.skip()
        }
    }

    /// Failed here, with a message.
    pub open spec fn fail(self, g: Src, message: Seq<char>) -> Cur {
        if self.err is Some {
            self
        } else {
            Cur {
                pos: self.pos,
                err: Some(Failure { message, span: g.toks[self.pos as int].span }),
            }
        }
    }

    /// Past the keyword `k`, which has to stand here.
    pub open spec fn kw(self, g: Src, k: Keyword) -> Cur {
        if self.at_kw(g, k) {
            self.skip()
        } else {
            self.fail(g, "expected keyword `"@ + k.name() + "`, found "@ + g.kind(self.pos).shown())
        }
    }

    /// Past the operator `op`, which has to stand here.
    pub open spec fn op(self, g: Src, op: Op) -> Cur {
        if self.at_op(g, op) {
            self.skip()
        } else {
            self.fail(g, "expected `"@ + op.source() + "`, found "@ + g.kind(self.pos).shown())
        }
    }

    /// Past the delimiter `d`, which has to stand here.
    pub open spec fn delim(self, g: Src, d: Delim) -> Cur {
        if self.at_delim(g, d) {
            self.skip()
        } else {
            self.fail(g, "expected `"@ + d.source() + "`, found "@ + g.kind(self.pos).shown())
        }
    }

    /// Where a rule that was tried here leaves off. A rule never goes back.
    pub open spec fn after<T>(self, step: Step<T>) -> Cur {
        if self.err is Some {
            self
        } else {
            Cur {
                pos: if step.end >= self.pos {
                    step.end
                } else {
                    self.pos
                },
                err: match step.res {
                    Ok(_) => None,
                    Err(e) => Some(e),
                },
            }
        }
    }

    /// A rule that ends here with the value `v`, unless there was a failure.
    pub open spec fn ok<T>(self, v: T) -> Step<T> {
        Step {
            end: self.pos,
            res: match self.err {
                None => Ok(v),
                Some(e) => Err(e),
            },
        }
    }

    /// A rule that ends here with the failure that there was.
    pub open spec fn stuck<T>(self) -> Step<T> {
        Step { end: self.pos, res: Err(self.err->0) }
    }

    /// A rule tried here, as a rule of its own.
    pub open spec fn next<T>(self, step: Step<T>) -> Step<T> {
        self.after(step).ok(step.out())
    }

    /// Whether `next` is further on, or a failure.
    pub open spec fn moved(self, g: Src, next: Cur) -> bool {
        next.left(g) < self.left(g)
    }
}

/// An identifier, or a keyword that is used as a name.
pub open spec fn word(g: Src, s: Cur) -> Step<Seq<char>> {
    if s.err is Some {
        s.stuck()
    } else {
        match g.kind(s.pos) {
            TokenKind::Ident(name) => s.skip().ok(name@),
            TokenKind::Keyword(k) => s.skip().ok(k.source()),
            other => s.fail(g, "expected identifier, found "@ + other.shown()).stuck(),
        }
    }
}

/// An identifier.
pub open spec fn ident(g: Src, s: Cur) -> Step<Seq<char>> {
    if s.err is Some {
        s.stuck()
    } else {
        match g.kind(s.pos) {
            TokenKind::Ident(name) => s.skip().ok(name@),
            other => s.fail(g, "expected identifier, found "@ + other.shown()).stuck(),
        }
    }
}

/// Any number of `::word`, up to a `::<`; the words follow those in `done`.
pub open spec fn segments(g: Src, s: Cur, done: Seq<Seq<char>>) -> Step<Seq<Seq<char>>>
    decreases s.left(g),
{
    if s.at_op(g, Op::ColonColon) && !s.skip().at_op(g, Op::Lt) {
        let name = word(g, s.skip());
        segments(g, s.skip().after(name), done.push(name.out()))
    } else {
        s.ok(done)
    }
}

/// `word::word::...`, joined into one name.
pub open spec fn path_name(g: Src, s: Cur) -> Step<Seq<char>> {
    let first = word(g, s);
    let s1 = s.after(first);
    let rest = segments(g, s1, seq![first.out()]);
    let s2 = s1.after(rest);
    s2.ok(joined(rest.out()))
}

} // verus!
