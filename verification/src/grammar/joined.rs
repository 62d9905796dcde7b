//! What is read of two texts, one behind the other.
use crate::grammar::cursor::{Failure, Src};
use crate::grammar::items::{is_item_start, item, program, resume};
use crate::grammar::laws::{at, read, reading_goes_on, reading_keeps_what_came_before};
use crate::grammar::types::{ref_type, type_of};
use crate::grammar::windows::{at_start, Window};
use crate::grammar::windows::items::same_item;
use crate::grammar::windows::types::same_type_of;
use crate::token::{Delim, Keyword, Op, Token, TokenKind};
use crate::tree::{Item, Type};
use vstd::prelude::*;

verus! {

/// What was read before comes first.
proof fn read_before(
    g: Src,
    p: nat,
    front: Seq<Item>,
    items: Seq<Item>,
    errors: Seq<Failure>,
)
    ensures
        program(g, p, front + items, errors).0.items == front + program(
            g,
            p,
            items,
            errors,
        ).0.items,
        program(g, p, front + items, errors).1 == program(g, p, items, errors).1,
    decreases at(p).left(g),
{
    if !(g.kind(p) is Eof) {
        let i = item(g, at(p));
        match i.res {
            Ok(x) => if i.end > p {
                assert((front + items).push(x) =~= front + items.push(x));
                read_before(g, i.end, front, items.push(x), errors);
            },
            Err(e) => if resume(g, i.end) > p {
                read_before(g, resume(g, i.end), front, items, errors.push(e));
            },
        }
    }
}

/// Going on after a failure, in the other stream.
proof fn same_resume(w: Window, g: Src, g2: Src, p: nat)
    requires
        w.links(g, g2),
        w.to_the_end,
        p <= w.stop,
    ensures
        resume(g, p) <= w.stop,
        resume(g2, p + w.k) == resume(g, p) + w.k,
    decreases w.stop - p,
{
    at_start(w, g, g2, at(p));
    reveal(Window::links);
    if !(g.kind(p) is Eof) && g.kind(p) != TokenKind::Delim(Delim::Semi) && !is_item_start(
        g.kind(p),
    ) {
        same_resume(w, g, g2, p + 1);
    }
}

/// A program is the same, wherever it stands at the end of a stream.
proof fn same_program(w: Window, g: Src, g2: Src, p: nat, items: Seq<Item>, errors: Seq<Failure>)
    requires
        w.links(g, g2),
        w.to_the_end,
        p <= w.stop,
    ensures
        program(g2, p + w.k, items, errors) == program(g, p, items, errors),
    decreases w.stop - p,
{
    at_start(w, g, g2, at(p));
    same_item(w, g, g2, at(p));
    assert(w.moved(at(p)) == at(p + w.k));
    if !(g.kind(p) is Eof) {
        let i = item(g, at(p));
        match i.res {
            Ok(x) => if i.end > p {
                same_program(w, g, g2, i.end, items.push(x), errors);
            },
            Err(e) => {
                same_resume(w, g, g2, i.end);
                if resume(g, i.end) > p {
                    same_program(w, g, g2, resume(g, i.end), items, errors.push(e));
                }
            },
        }
    }
}

/// Items that can be read are read in the same way, whatever follows them.
proof fn same_items(w: Window, g: Src, g2: Src, p: nat, items: Seq<Item>)
    requires
        w.links(g, g2),
        w.n == w.stop,
        w.k == 0,
        !w.to_the_end,
        p <= w.stop,
        forall|i: nat| i < w.stop ==> !(#[trigger] g.kind(i) is Eof),
        program(g, p, items, seq![]).1.len() == 0,
    ensures
        program(g2, p, items, seq![]) == program(
            g2,
            w.stop,
            program(g, p, items, seq![]).0.items,
            seq![],
        ),
    decreases w.stop - p,
{
    if p == w.stop {
        assert(g.kind(p) is Eof) by {
            reveal(Window::links);
        }
    } else {
        assert(!(g.kind(p) is Eof));
        assert(g2.kind(p) == g.kind(p)) by {
            reveal(Window::links);
            assert(g.toks[p as int] == g2.toks[p as int + w.k]);
        }
        let i = item(g, at(p));
        same_item(w, g, g2, at(p));
        assert(w.moved(at(p)) == at(p));
        reading_goes_on(g, p, items, seq![]);
        match i.res {
            Ok(x) => {
                assert(item(g2, at(p)) == i);
                same_items(w, g, g2, i.end, items.push(x));
            },
            Err(e) => {
                reading_keeps_what_came_before(g, resume(g, i.end), items, seq![].push(e));
            },
        }
    }
}

/// Of two programs, one behind the other, the first of them without a failure, the items are
/// those of the first and then those of the second. The failures are those of the second.
pub proof fn joined_programs(a: Seq<Token>, b: Seq<Token>, end: Token, lit: bool)
    requires
        end.kind is Eof,
        forall|i: int| 0 <= i < a.len() ==> !(#[trigger] a[i].kind is Eof),
        (Src { toks: b, lit }).ends_after(0),
        program(Src { toks: a.push(end), lit }, 0, seq![], seq![]).1.len() == 0,
    ensures
        program(Src { toks: a + b, lit }, 0, seq![], seq![]).0.items == program(
            Src { toks: a.push(end), lit },
            0,
            seq![],
            seq![],
        ).0.items + program(Src { toks: b, lit }, 0, seq![], seq![]).0.items,
        program(Src { toks: a + b, lit }, 0, seq![], seq![]).1 == program(
            Src { toks: b, lit },
            0,
            seq![],
            seq![],
        ).1,
{
    let g = Src { toks: a.push(end), lit };
    let h = Src { toks: b, lit };
    let all = Src { toks: a + b, lit };
    let first = Window { k: 0, n: a.len(), stop: a.len(), to_the_end: false };
    assert(first.links(g, all)) by {
        reveal(Window::links);
    }
    assert forall|i: nat| i < first.stop implies !(#[trigger] g.kind(i) is Eof) by {
        assert(g.toks[i as int] == a[i as int]);
    }
    same_items(first, g, all, 0, seq![]);
    let stop = choose|i: int| 0 <= i < b.len() && #[trigger] b[i].kind is Eof;
    let second = Window { k: a.len(), n: b.len(), stop: stop as nat, to_the_end: true };
    assert(second.links(h, all)) by {
        reveal(Window::links);
        assert forall|i: int| 0 <= i < second.n implies #[trigger] h.toks[i] == all.toks[i
            + second.k] by {}
    }
    let items = program(g, 0, seq![], seq![]).0.items;
    same_program(second, h, all, 0, items, seq![]);
    read_before(h, 0, items, seq![], seq![]);
    assert(items + seq![] =~= items);
}

/// A type that was read alone, with `front` in front of it.
proof fn type_behind(front: Seq<Token>, toks: Seq<Token>, end: Token, lit: bool, t: Type)
    requires
        end.kind is Eof,
        type_of(Src { toks: toks.push(end), lit }, at(0)) == read(toks.len(), t),
    ensures
        type_of(Src { toks: front + toks.push(end), lit }, at(front.len())) == read(
            front.len() + toks.len(),
            t,
        ),
{
    let g = Src { toks: toks.push(end), lit };
    let g2 = Src { toks: front + toks.push(end), lit };
    let w = Window { k: front.len(), n: toks.len() + 1, stop: toks.len(), to_the_end: true };
    assert(w.links(g, g2)) by {
        reveal(Window::links);
        assert forall|i: int| 0 <= i < w.n implies #[trigger] g.toks[i] == g2.toks[i + w.k] by {}
    }
    same_type_of(w, g, g2, at(0));
    assert(w.moved(at(0)) == at(front.len()));
}

/// `borrow T` and `&T` are one type in two spellings, and so are `borrow mut T` and `&mut T`:
/// a reference to what `T` alone is read as. In the first two `T` does not begin with `mut`.
pub proof fn two_spellings_of_a_reference(
    mark: Token,
    mutable: Token,
    toks: Seq<Token>,
    end: Token,
    lit: bool,
    t: Type,
)
    requires
        mark.kind == TokenKind::Op(Op::Amp) || mark.kind == TokenKind::Keyword(Keyword::Borrow),
        mutable.kind == TokenKind::Keyword(Keyword::Mut),
        end.kind is Eof,
        type_of(Src { toks: toks.push(end), lit }, at(0)) == read(toks.len(), t),
    ensures
        toks.push(end)[0].kind != TokenKind::Keyword(Keyword::Mut) ==> type_of(
            Src { toks: seq![mark] + toks.push(end), lit },
            at(0),
        ) == read(
            toks.len() + 1,
            Type::Ref { lifetime: None, mutable: false, inner: Box::new(t) },
        ),
        type_of(Src { toks: seq![mark, mutable] + toks.push(end), lit }, at(0)) == read(
            toks.len() + 2,
            Type::Ref { lifetime: None, mutable: true, inner: Box::new(t) },
        ),
{
    let one = Src { toks: seq![mark] + toks.push(end), lit };
    let two = Src { toks: seq![mark, mutable] + toks.push(end), lit };
    type_behind(seq![mark], toks, end, lit, t);
    type_behind(seq![mark, mutable], toks, end, lit, t);
    assert(one.kind(0) == mark.kind);
    assert(one.kind(1) == toks.push(end)[0].kind);
    assert(two.kind(0) == mark.kind);
    assert(two.kind(1) == mutable.kind);
    assert(at(0).skip() == at(1));
    assert(at(1).skip() == at(2));
    assert(type_of(one, at(0)) == ref_type(one, at(1)));
    assert(type_of(two, at(0)) == ref_type(two, at(1)));
}

} // verus!
