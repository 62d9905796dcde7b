//! The parser itself: the token stream and the steps that every rule is made of.
use crate::ast_tree::{trees, Syntax};
use crate::grammar::cursor::{ident, segments, word, Cur, Failure, Src, Step};
use crate::text::{concat2, concat4};
use crate::token::{Delim, Keyword, Op, Span, Token, TokenKind};
use vstd::prelude::*;

verus! {

/// Why the source could not be read, and where.
#[derive(Debug, Clone, PartialEq)]
pub struct ParseError {
    pub message: String,
    pub span: Span,
}

pub type ParseResult<T> = Result<T, ParseError>;

impl ParseError {
    pub open spec fn failure(self) -> Failure {
        Failure { message: self.message@, span: self.span }
    }
}

/// The failures of a list of errors.
pub open spec fn failures(errors: Seq<ParseError>) -> Seq<Failure> {
    errors.map_values(|e: ParseError| e.failure())
}

/// Reads a stream of tokens.
pub struct Parser {
    tokens: Vec<Token>,
    pos: usize,
    /// Off in the conditions of `if`, `match`, `while` and `for`, where `x { ... }` is a
    /// name and then a block.
    struct_lit_allowed: bool,
    pub errors: Vec<ParseError>,
}

/// Whether a rule of the grammar says what came out: the end, and the value or the failure.
pub open spec fn meets<T: Syntax>(step: Step<T::Tree>, end: Cur, r: ParseResult<T>) -> bool {
    &&& step.end == end.pos
    &&& step.res == (match r {
        Ok(v) => Ok(v.tree()),
        Err(e) => Err(e.failure()),
    })
}

/// As `meets`, for a list.
pub open spec fn meets_all<T: Syntax>(
    step: Step<Seq<T::Tree>>,
    end: Cur,
    r: ParseResult<Vec<T>>,
) -> bool {
    &&& step.end == end.pos
    &&& step.res == (match r {
        Ok(v) => Ok(trees(v@)),
        Err(e) => Err(e.failure()),
    })
}

/// Whether `next` is the place that a step led to.
pub open spec fn arrived(next: Cur, end: Cur, r: ParseResult<()>) -> bool {
    &&& next.pos == end.pos
    &&& next.err == (match r {
        Ok(_) => None,
        Err(e) => Some(e.failure()),
    })
}

/// The tokens that carry meaning: all but the doc comments.
pub open spec fn without_docs(toks: Seq<Token>) -> Seq<Token> {
    toks.filter(|t: Token| !(t.kind is DocComment))
}

impl TokenKind {
    fn copy(&self) -> (r: TokenKind)
        ensures
            r == *self,
    {
        match self {
            TokenKind::Ident(s) => TokenKind::Ident(s.clone()),
            TokenKind::Keyword(k) => TokenKind::Keyword(*k),
            TokenKind::Int(s) => TokenKind::Int(s.clone()),
            TokenKind::IntHex(s) => TokenKind::IntHex(s.clone()),
            TokenKind::IntOct(s) => TokenKind::IntOct(s.clone()),
            TokenKind::IntBin(s) => TokenKind::IntBin(s.clone()),
            TokenKind::Float(s) => TokenKind::Float(s.clone()),
            TokenKind::Str(s) => TokenKind::Str(s.clone()),
            TokenKind::RawStr(s) => TokenKind::RawStr(s.clone()),
            TokenKind::Char(s) => TokenKind::Char(s.clone()),
            TokenKind::Bool(b) => TokenKind::Bool(*b),
            TokenKind::Null => TokenKind::Null,
            TokenKind::Op(op) => TokenKind::Op(*op),
            TokenKind::Delim(d) => TokenKind::Delim(*d),
            TokenKind::DocComment(s) => TokenKind::DocComment(s.clone()),
            TokenKind::Error(s) => TokenKind::Error(s.clone()),
            TokenKind::Eof => TokenKind::Eof,
        }
    }
}

/// Tokens that end after a place end after any place in front of it.
proof fn ends_as_before(g: Src, h: Src, p: nat, q: nat)
    requires
        g.ends_after(p),
        g.toks == h.toks,
        q <= p,
    ensures
        h.ends_after(q),
{
    let i = choose|i: int| p <= i < g.toks.len() && #[trigger] g.toks[i].kind is Eof;
    assert(h.toks[i].kind is Eof);
}

impl Parser {
    /// What the rules read.
    pub closed spec fn src(self) -> Src {
        Src { toks: self.tokens@, lit: self.struct_lit_allowed }
    }

    /// Where reading stands.
    pub closed spec fn cur(self) -> Cur {
        Cur { pos: self.pos as nat, err: None }
    }

    /// The failures noted so far.
    pub closed spec fn noted(self) -> Seq<Failure> {
        failures(self.errors@)
    }

    /// The stream does not stop short: an end-of-file token is still to come.
    pub open spec fn wf(self) -> bool {
        self.src().ends_after(self.cur().pos) && self.cur().err is None
    }

    /// How much is still to be read.
    pub open spec fn left(self) -> nat {
        self.cur().left(self.src())
    }

    /// What every rule keeps: the tokens, the mode, and the failures noted so far; and it
    /// never goes back.
    pub open spec fn keeps(self, next: Parser) -> bool {
        &&& next.wf()
        &&& next.src() == self.src()
        &&& next.noted() == self.noted()
        &&& next.cur().pos >= self.cur().pos
    }

    /// At the start of a stream. Doc comments carry no meaning and are left out; an error
    /// token is like any other that cannot be read.
    pub fn new(tokens: Vec<Token>) -> (r: Self)
        ensures
            r.src() == (Src { toks: without_docs(tokens@), lit: true }),
            r.cur() == (Cur { pos: 0, err: None }),
            r.noted() == Seq::<Failure>::empty(),
    {
        let ghost all = tokens@;
        let ghost keep = |t: Token| !(t.kind is DocComment);
        let mut rest = tokens;
        let mut kept: Vec<Token> = Vec::new();
        let mut reversed: Vec<Token> = Vec::new();
        while rest.len() > 0
            invariant
                rest@.len() <= all.len(),
                rest@ == all.take(rest@.len() as int),
                reversed@ == all.skip(rest@.len() as int).reverse(),
            decreases rest@.len(),
        {
            let ghost n = rest@.len() as int;
            if let Some(t) = rest.pop() {
                reversed.push(t);
            }
            assert(rest@ =~= all.take(n - 1));
            assert(reversed@ =~= all.skip(n - 1).reverse());
        }
        assert(all.skip(0) =~= all);
        while reversed.len() > 0
            invariant
                reversed@.len() <= all.len(),
                reversed@ == all.skip(all.len() - reversed@.len()).reverse(),
                keep == (|t: Token| !(t.kind is DocComment)),
                kept@ == all.take(all.len() - reversed@.len()).filter(keep),
            decreases reversed@.len(),
        {
            let ghost n = all.len() - reversed@.len();
            if let Some(t) = reversed.pop() {
                proof {
                    assert(t == all[n]);
                    assert(all.take(n + 1).drop_last() =~= all.take(n));
                    assert(all.take(n + 1).last() == t);
                    reveal(Seq::filter);
                }
                match t.kind {
                    TokenKind::DocComment(_) => {},
                    _ => kept.push(t),
                }
            }
            assert(reversed@ =~= all.skip(n + 1).reverse());
        }
        assert(all.take(all.len() as int) =~= all);
        Parser { tokens: kept, pos: 0, struct_lit_allowed: true, errors: Vec::new() }
    }

    fn peek(&self) -> (r: &Token)
        requires
            self.wf(),
        ensures
            *r == self.src().toks[self.cur().pos as int],
    {
        &self.tokens[self.pos]
    }

    /// The kind of the token `offset` places on; of the last token, where there are fewer.
    pub(super) fn peek_at(&self, offset: usize) -> (r: &TokenKind)
        requires
            self.wf(),
        ensures
            *r == self.src().ahead(self.cur().pos, offset as nat),
    {
        if offset < self.tokens.len() - self.pos {
            &self.tokens[self.pos + offset].kind
        } else {
            &self.tokens[self.tokens.len() - 1].kind
        }
    }

    pub(super) fn peek_kind(&self) -> (r: &TokenKind)
        requires
            self.wf(),
        ensures
            *r == self.src().kind(self.cur().pos),
    {
        &self.peek().kind
    }

    /// Whether all of the stream has been read.
    pub fn at_end(&self) -> (r: bool)
        requires
            self.wf(),
        ensures
            r == self.cur().at_end(self.src()),
    {
        matches!(self.peek_kind(), TokenKind::Eof)
    }

    /// Takes the token here; the end of the stream stays.
    pub(super) fn advance(&mut self) -> (r: TokenKind)
        requires
            old(self).wf(),
        ensures
            old(self).keeps(*final(self)),
            final(self).cur() == old(self).cur().advance(old(self).src()),
            r == old(self).src().kind(old(self).cur().pos),
            !(r is Eof) ==> final(self).left() < old(self).left(),
    {
        let t = self.peek_kind().copy();
        if !self.at_end() {
            assert(self.pos < self.tokens.len());
            self.pos += 1;
        }
        t
    }

    /// Goes back to a place that was read before.
    pub(super) fn back_to(&mut self, pos: usize)
        requires
            old(self).wf(),
            pos <= old(self).cur().pos,
        ensures
            final(self).wf(),
            final(self).src() == old(self).src(),
            final(self).noted() == old(self).noted(),
            final(self).cur() == (Cur { pos: pos as nat, err: None }),
    {
        self.pos = pos;
        proof {
            ends_as_before(old(self).src(), self.src(), old(self).cur().pos, self.cur().pos);
        }
    }

    /// Where reading stands, to come back to.
    pub(super) fn mark(&self) -> (r: usize)
        ensures
            r == self.cur().pos,
    {
        self.pos
    }

    /// Sets whether `name { ... }` may be a struct literal, and tells how that was before.
    pub(super) fn allow_struct_lit(&mut self, allowed: bool) -> (r: bool)
        requires
            old(self).wf(),
        ensures
            final(self).wf(),
            final(self).src() == (Src { toks: old(self).src().toks, lit: allowed }),
            final(self).cur() == old(self).cur(),
            final(self).noted() == old(self).noted(),
            r == old(self).src().lit,
    {
        let before = self.struct_lit_allowed;
        self.struct_lit_allowed = allowed;
        proof {
            ends_as_before(old(self).src(), self.src(), old(self).cur().pos, self.cur().pos);
        }
        before
    }

    /// Notes a failure.
    pub(super) fn note(&mut self, e: ParseError)
        requires
            old(self).wf(),
        ensures
            final(self).wf(),
            final(self).src() == old(self).src(),
            final(self).cur() == old(self).cur(),
            final(self).noted() == old(self).noted().push(e.failure()),
    {
        self.errors.push(e);
        assert(self.noted() =~= old(self).noted().push(e.failure()));
        proof {
            ends_as_before(old(self).src(), self.src(), old(self).cur().pos, self.cur().pos);
        }
    }

    /// The failures noted so far.
    pub fn errors(&self) -> (r: &Vec<ParseError>)
        ensures
            failures(r@) == self.noted(),
    {
        &self.errors
    }

    /// The failures noted, when reading is done.
    pub(super) fn into_errors(self) -> (r: Vec<ParseError>)
        ensures
            failures(r@) == self.noted(),
    {
        self.errors
    }

    pub(super) fn struct_lit_allowed(&self) -> (r: bool)
        ensures
            r == self.src().lit,
    {
        self.struct_lit_allowed
    }

    pub(super) fn here(&self) -> (r: Span)
        requires
            self.wf(),
        ensures
            r == self.src().toks[self.cur().pos as int].span,
    {
        self.peek().span
    }

    /// A failure at the token here.
    pub(super) fn failed(&self, message: String) -> (r: ParseError)
        requires
            self.wf(),
        ensures
            self.cur().fail(self.src(), message@) == (Cur {
                pos: self.cur().pos,
                err: Some(r.failure()),
            }),
            self.cur().fail(self.src(), message@).err == Some(r.failure()),
            r.message@ == message@,
    {
        ParseError { message, span: self.here() }
    }

    pub(super) fn error<T>(&self, message: &str) -> (r: ParseResult<T>)
        requires
            self.wf(),
        ensures
            r matches Err(e) && self.cur().fail(self.src(), message@).err == Some(e.failure()),
    {
        Err(self.failed(message.to_owned()))
    }

    /// A failure that ends in the token here.
    pub(super) fn unexpected<T>(&self, message: &str) -> (r: ParseResult<T>)
        requires
            self.wf(),
        ensures
            r matches Err(e) && self.cur().fail(
                self.src(),
                message@ + self.src().kind(self.cur().pos).shown(),
            ).err == Some(e.failure()),
    {
        let shown = self.peek_kind().show();
        Err(self.failed(concat2(message, shown.as_str())))
    }

    pub(super) fn check_kw(&self, kw: Keyword) -> (r: bool)
        requires
            self.wf(),
        ensures
            r == self.cur().at_kw(self.src(), kw),
    {
        match self.peek_kind() {
            TokenKind::Keyword(k) => *k == kw,
            _ => false,
        }
    }

    pub(super) fn check_op(&self, op: Op) -> (r: bool)
        requires
            self.wf(),
        ensures
            r == self.cur().at_op(self.src(), op),
    {
        match self.peek_kind() {
            TokenKind::Op(o) => *o == op,
            _ => false,
        }
    }

    pub(super) fn check_delim(&self, d: Delim) -> (r: bool)
        requires
            self.wf(),
        ensures
            r == self.cur().at_delim(self.src(), d),
    {
        match self.peek_kind() {
            TokenKind::Delim(dd) => *dd == d,
            _ => false,
        }
    }

    pub(super) fn check_ident(&self) -> (r: bool)
        requires
            self.wf(),
        ensures
            r == self.cur().at_ident(self.src()),
    {
        matches!(self.peek_kind(), TokenKind::Ident(_))
    }

    /// Whether the identifier `text` stands here.
    pub(super) fn check_name(&self, text: &str) -> (r: bool)
        requires
            self.wf(),
        ensures
            r == self.cur().at_name(self.src(), text@),
    {
        match self.peek_kind() {
            TokenKind::Ident(s) => crate::text::same_text(s.as_str(), text),
            _ => false,
        }
    }

    pub(super) fn eat_kw(&mut self, kw: Keyword) -> (r: bool)
        requires
            old(self).wf(),
        ensures
            old(self).keeps(*final(self)),
            r == old(self).cur().at_kw(old(self).src(), kw),
            r ==> final(self).cur() == old(self).cur().skip() && final(self).left() < old(
                self,
            ).left(),
            !r ==> *final(self) == *old(self),
    {
        if self.check_kw(kw) {
            self.advance();
            true
        } else {
            false
        }
    }

    pub(super) fn eat_op(&mut self, op: Op) -> (r: bool)
        requires
            old(self).wf(),
        ensures
            old(self).keeps(*final(self)),
            r == old(self).cur().at_op(old(self).src(), op),
            r ==> final(self).cur() == old(self).cur().skip() && final(self).left() < old(
                self,
            ).left(),
            !r ==> *final(self) == *old(self),
    {
        if self.check_op(op) {
            self.advance();
            true
        } else {
            false
        }
    }

    pub(super) fn eat_delim(&mut self, d: Delim) -> (r: bool)
        requires
            old(self).wf(),
        ensures
            old(self).keeps(*final(self)),
            r == old(self).cur().at_delim(old(self).src(), d),
            r ==> final(self).cur() == old(self).cur().skip() && final(self).left() < old(
                self,
            ).left(),
            !r ==> *final(self) == *old(self),
    {
        if self.check_delim(d) {
            self.advance();
            true
        } else {
            false
        }
    }

    pub(super) fn expect_kw(&mut self, kw: Keyword) -> (r: ParseResult<()>)
        requires
            old(self).wf(),
        ensures
            old(self).keeps(*final(self)),
            arrived(old(self).cur().kw(old(self).src(), kw), final(self).cur(), r),
            r is Ok ==> final(self).cur() == old(self).cur().skip() && final(self).left() < old(
                self,
            ).left(),
    {
        if self.eat_kw(kw) {
            Ok(())
        } else {
            let shown = self.peek_kind().show();
            Err(
                self.failed(
                    concat4("expected keyword `", kw.variant_name(), "`, found ", shown.as_str()),
                ),
            )
        }
    }

    pub(super) fn expect_op(&mut self, op: Op) -> (r: ParseResult<()>)
        requires
            old(self).wf(),
        ensures
            old(self).keeps(*final(self)),
            arrived(old(self).cur().op(old(self).src(), op), final(self).cur(), r),
            r is Ok ==> final(self).cur() == old(self).cur().skip() && final(self).left() < old(
                self,
            ).left(),
    {
        if self.eat_op(op) {
            Ok(())
        } else {
            let shown = self.peek_kind().show();
            Err(
                self.failed(
                    concat4("expected `", op.as_source_text(), "`, found ", shown.as_str()),
                ),
            )
        }
    }

    pub(super) fn expect_delim(&mut self, d: Delim) -> (r: ParseResult<()>)
        requires
            old(self).wf(),
        ensures
            old(self).keeps(*final(self)),
            arrived(old(self).cur().delim(old(self).src(), d), final(self).cur(), r),
            r is Ok ==> final(self).cur() == old(self).cur().skip() && final(self).left() < old(
                self,
            ).left(),
    {
        if self.eat_delim(d) {
            Ok(())
        } else {
            let shown = self.peek_kind().show();
            Err(
                self.failed(
                    concat4("expected `", d.as_source_text(), "`, found ", shown.as_str()),
                ),
            )
        }
    }

    pub(super) fn expect_ident(&mut self) -> (r: ParseResult<String>)
        requires
            old(self).wf(),
        ensures
            old(self).keeps(*final(self)),
            meets(ident(old(self).src(), old(self).cur()), final(self).cur(), r),
            r is Ok ==> final(self).left() < old(self).left(),
    {
        proof {
            reveal(ident);
        }
        match self.peek_kind() {
            TokenKind::Ident(s) => {
                let name = s.clone();
                self.advance();
                Ok(name)
            },
            _ => self.unexpected("expected identifier, found "),
        }
    }

    /// An identifier, or a keyword that is used as a name: `query` and `table` are module
    /// names too, and `on` and `bind` label arguments.
    pub(super) fn expect_word(&mut self) -> (r: ParseResult<String>)
        requires
            old(self).wf(),
        ensures
            old(self).keeps(*final(self)),
            meets(word(old(self).src(), old(self).cur()), final(self).cur(), r),
            r is Ok ==> final(self).left() < old(self).left(),
    {
        proof {
            reveal(word);
        }
        match self.peek_kind() {
            TokenKind::Ident(s) => {
                let name = s.clone();
                self.advance();
                Ok(name)
            },
            TokenKind::Keyword(k) => {
                let name = k.as_source_text().to_owned();
                self.advance();
                Ok(name)
            },
            _ => self.unexpected("expected identifier, found "),
        }
    }

    /// `::word`, any number of times, up to a `::<`, after the words in `first`.
    #[verifier::loop_isolation(false)]
    pub(super) fn parse_further_path_segments(&mut self, first: Vec<String>) -> (r: ParseResult<
        Vec<String>,
    >)
        requires
            old(self).wf(),
        ensures
            old(self).keeps(*final(self)),
            meets_all(
                segments(old(self).src(), old(self).cur(), trees(first@)),
                final(self).cur(),
                r,
            ),
    {
        let ghost whole = segments(self.src(), self.cur(), trees(first@));
        let mut path = first;
        loop
            invariant
                old(self).keeps(*self),
                whole == segments(self.src(), self.cur(), trees(path@)),
            decreases self.left(),
        {
            proof {
                reveal_with_fuel(segments, 2);
            }
            if !self.check_op(Op::ColonColon) {
                return Ok(path);
            }
            let save = self.mark();
            self.advance();
            if self.check_op(Op::Lt) {
                self.back_to(save);
                return Ok(path);
            }
            let name = self.expect_word()?;
            push(&mut path, name);
        }
    }
}

/// Appends to a list.
pub(super) fn push<T: Syntax>(v: &mut Vec<T>, x: T)
    ensures
        trees(final(v)@) == trees(old(v)@).push(x.tree()),
{
    v.push(x);
    assert(trees(v@) =~= trees(old(v)@).push(x.tree()));
}

/// An empty list.
pub(super) fn none<T: Syntax>() -> (r: Vec<T>)
    ensures
        trees(r@) == Seq::<T::Tree>::empty(),
{
    let r = Vec::new();
    assert(trees(r@) =~= Seq::<T::Tree>::empty());
    r
}

/// A list of one.
pub(super) fn one<T: Syntax>(x: T) -> (r: Vec<T>)
    ensures
        trees(r@) == seq![x.tree()],
{
    let mut r = none();
    push(&mut r, x);
    r
}

} // verus!
