//! A rule reads only what it goes past: where two streams agree, so does what it makes of
//! them.
pub mod exprs;
pub mod items;
pub mod stmts;
pub mod types;

use crate::grammar::cursor::{Cur, Src, Step};
use crate::token::{Delim, Keyword, Op, TokenKind};
use vstd::prelude::*;

verus! {

/// Two streams that agree on a stretch: for each `i` below `n` the token at `i` of the first
/// stands at `i + k` of the second. The first has an end-of-file token at `stop`. Where
/// `to_the_end` holds, both end with the stretch.
pub struct Window {
    pub k: nat,
    pub n: nat,
    pub stop: nat,
    pub to_the_end: bool,
}

impl Window {
    #[verifier::opaque]
    pub open spec fn links(self, g: Src, g2: Src) -> bool {
        &&& g.lit == g2.lit
        &&& self.n <= g.toks.len()
        &&& self.n + self.k <= g2.toks.len()
        &&& forall|i: int| 0 <= i < self.n ==> #[trigger] g.toks[i] == g2.toks[i + self.k]
        &&& self.stop < g.toks.len()
        &&& g.toks[self.stop as int].kind is Eof
        &&& self.to_the_end ==> self.n == g.toks.len() && g2.toks.len() == self.n + self.k
    }

    /// The same place in the other stream.
    pub open spec fn moved(self, s: Cur) -> Cur {
        Cur { pos: s.pos + self.k, err: s.err }
    }

    /// The same step in the other stream.
    pub open spec fn moved_step<T>(self, a: Step<T>) -> Step<T> {
        Step { end: a.end + self.k, res: a.res }
    }

    /// Whether a rule that stops in front of `end` has looked at nothing from `n` on: at the
    /// token there, and at one more behind a `::`.
    pub open spec fn covers(self, g: Src, end: nat) -> bool {
        &&& end < self.n
        &&& g.kind(end) == TokenKind::Op(Op::ColonColon) ==> end + 1 < self.n
    }

    /// Whether all that was looked at on the way to `s` lies in the stretch.
    pub open spec fn sees(self, g: Src, s: Cur) -> bool {
        self.to_the_end || (s.err is None && self.covers(g, s.pos))
    }

    /// As `sees`, where the token in front of `s` was the last one looked at.
    pub open spec fn ends(self, s: Cur) -> bool {
        self.to_the_end || (s.err is None && s.pos <= self.n)
    }

    /// Whether `t` is where the other stream is, when the first is at `s`.
    pub open spec fn pair(self, g: Src, g2: Src, s: Cur, t: Cur) -> bool {
        &&& s.pos <= self.stop
        &&& self.sees(g, s) ==> t == self.moved(s) && g2.kind(t.pos) == g.kind(s.pos)
    }

    /// A step goes on and stays within the stream. The other stream gives the same, where the
    /// stretch goes to the end, or where the rule applies and looks at nothing from `n` on.
    pub open spec fn part<T>(self, g: Src, s: Cur, a: Step<T>, b: Step<T>) -> bool {
        &&& s.pos <= a.end <= self.stop
        &&& s.err is Some ==> a.res is Err
        &&& self.to_the_end || (a.res is Ok && self.covers(g, a.end)) ==> b == self.moved_step(a)
    }

    /// As `part`, for a rule that ends with a token of its own.
    pub open spec fn whole<T>(self, g: Src, s: Cur, a: Step<T>, b: Step<T>) -> bool {
        &&& s.pos <= a.end <= self.stop
        &&& s.err is Some ==> a.res is Err
        &&& self.to_the_end || (a.res is Ok && a.end <= self.n) ==> b == self.moved_step(a)
        &&& a.res is Ok ==> a.end > s.pos && g.kind(s.pos) != TokenKind::Op(Op::ColonColon)
    }
}

/// Both streams are at the same place to begin with.
pub(crate) proof fn at_start(w: Window, g: Src, g2: Src, s: Cur)
    requires
        w.links(g, g2),
        s.pos <= w.stop,
    ensures
        w.pair(g, g2, s, w.moved(s)),
{
    reveal(Window::links);
}

/// The streams agree as well where no struct literal may stand.
pub(crate) proof fn without_literals(w: Window, g: Src, g2: Src)
    requires
        w.links(g, g2),
    ensures
        g2.lit == g.lit,
        w.links(g.no_lit(), g2.no_lit()),
        forall|p: nat| #[trigger] g.no_lit().kind(p) == g.kind(p),
        forall|p: nat| #[trigger] g2.no_lit().kind(p) == g2.kind(p),
{
    reveal(Window::links);
}

/// The token at a place.
pub(crate) proof fn token_agrees(w: Window, g: Src, g2: Src, p: nat)
    requires
        w.links(g, g2),
        p <= w.stop,
    ensures
        w.to_the_end || p < w.n ==> g2.toks[(p + w.k) as int] == g.toks[p as int],
{
    reveal(Window::links);
}

/// The kind of the token at a place.
pub(crate) proof fn kind_agrees(w: Window, g: Src, g2: Src, p: nat)
    requires
        w.links(g, g2),
        p <= w.stop,
    ensures
        w.to_the_end || p < w.n ==> g2.kind(p + w.k) == g.kind(p),
{
    reveal(Window::links);
}

/// Tokens further on.
pub(crate) proof fn ahead_agrees(w: Window, g: Src, g2: Src, p: nat, d: nat)
    requires
        w.links(g, g2),
        p <= w.stop,
        w.to_the_end || p + d < w.n,
    ensures
        g2.ahead(p + w.k, d) == g.ahead(p, d),
{
    reveal(Window::links);
}

/// Both streams go past a token that is not the end.
pub(crate) proof fn past_token(w: Window, g: Src, g2: Src, s: Cur, t: Cur)
    requires
        w.links(g, g2),
        w.pair(g, g2, s, t),
        s.err is None ==> !(g.kind(s.pos) is Eof),
    ensures
        s.err is None ==> w.pair(g, g2, s.skip(), t.skip()),
        s.err is None ==> s.pos < w.stop,
        w.sees(g, s.skip()) ==> w.sees(g, s),
{
    reveal(Window::links);
    if s.err is None {
        assert(s.pos < w.stop);
    }
}

/// Both streams go past a token, unless it is the end.
pub(crate) proof fn past_advance(w: Window, g: Src, g2: Src, s: Cur, t: Cur)
    requires
        w.links(g, g2),
        w.pair(g, g2, s, t),
    ensures
        w.pair(g, g2, s.advance(g), t.advance(g2)),
        w.sees(g, s.advance(g)) ==> w.sees(g, s),
{
    reveal(Window::links);
}

/// Both streams fail with one message.
pub(crate) proof fn past_fail(w: Window, g: Src, g2: Src, s: Cur, t: Cur, message: Seq<char>)
    requires
        w.links(g, g2),
        w.pair(g, g2, s, t),
    ensures
        w.pair(g, g2, s.fail(g, message), t.fail(g2, message)),
        w.sees(g, s.fail(g, message)) ==> w.sees(g, s),
{
    reveal(Window::links);
}

/// Both streams go past a delimiter, or fail. A delimiter is the last token looked at.
pub(crate) proof fn past_delim(w: Window, g: Src, g2: Src, s: Cur, t: Cur, d: Delim)
    requires
        w.links(g, g2),
        w.pair(g, g2, s, t),
    ensures
        w.pair(g, g2, s.delim(g, d), t.delim(g2, d)),
        w.sees(g, s.delim(g, d)) ==> w.sees(g, s),
        w.ends(s.delim(g, d)) ==> w.sees(g, s) && t.delim(g2, d) == w.moved(s.delim(g, d)),
        s.delim(g, d).pos >= s.pos,
{
    reveal(Window::links);
}

/// Both streams go past a keyword, or fail.
pub(crate) proof fn past_kw(w: Window, g: Src, g2: Src, s: Cur, t: Cur, k: Keyword)
    requires
        w.links(g, g2),
        w.pair(g, g2, s, t),
    ensures
        w.pair(g, g2, s.kw(g, k), t.kw(g2, k)),
        w.sees(g, s.kw(g, k)) ==> w.sees(g, s),
        s.kw(g, k).pos >= s.pos,
{
    reveal(Window::links);
}

/// Both streams go past an operator, or fail.
pub(crate) proof fn past_op(w: Window, g: Src, g2: Src, s: Cur, t: Cur, op: Op)
    requires
        w.links(g, g2),
        w.pair(g, g2, s, t),
    ensures
        w.pair(g, g2, s.op(g, op), t.op(g2, op)),
        w.sees(g, s.op(g, op)) ==> w.sees(g, s),
        s.op(g, op).pos >= s.pos,
{
    reveal(Window::links);
}

/// Both streams go past a rule; `c` is what the other stream gives at the same place.
pub(crate) proof fn past_part<T>(
    w: Window,
    g: Src,
    g2: Src,
    s: Cur,
    t: Cur,
    a: Step<T>,
    b: Step<T>,
    c: Step<T>,
)
    requires
        w.links(g, g2),
        w.pair(g, g2, s, t),
        w.part(g, s, a, c),
        w.sees(g, s) ==> b == c,
    ensures
        w.pair(g, g2, s.after(a), t.after(b)),
        w.sees(g, s.after(a)) ==> w.sees(g, s) && b == w.moved_step(a),
        w.to_the_end || (a.res is Ok && w.covers(g, a.end)) ==> w.sees(g, s) && b == w.moved_step(
            a,
        ),
        s.after(a).pos >= s.pos,
{
    reveal(Window::links);
}

/// As `past_part`, for a rule that ends with a token of its own.
pub(crate) proof fn past_whole<T>(
    w: Window,
    g: Src,
    g2: Src,
    s: Cur,
    t: Cur,
    a: Step<T>,
    b: Step<T>,
    c: Step<T>,
)
    requires
        w.links(g, g2),
        w.pair(g, g2, s, t),
        w.whole(g, s, a, c),
        w.sees(g, s) ==> b == c,
    ensures
        w.pair(g, g2, s.after(a), t.after(b)),
        w.ends(s.after(a)) ==> w.sees(g, s) && b == w.moved_step(a) && t.after(b) == w.moved(
            s.after(a),
        ),
        w.to_the_end || (a.res is Ok && a.end <= w.n) ==> w.sees(g, s) && b == w.moved_step(a),
        s.after(a).pos >= s.pos,
{
    reveal(Window::links);
}


} // verus!
