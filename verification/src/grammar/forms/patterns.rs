//! Patterns.
use crate::grammar::cursor::{path_name, segments, word, Src};
use crate::grammar::forms::{behind, in_a_row, list_end, listed};
use crate::grammar::laws::{at, read};
use crate::grammar::types::{
    array_pattern, array_pattern_tail, is_pattern_literal, literal_of, more_alternatives,
    more_patterns, path_pattern, pattern, pattern_list, pattern_single,
};
use crate::text::joined;
use crate::token::{Delim, Keyword, Op, TokenKind};
use crate::tree::Pattern;
use vstd::prelude::*;

verus! {

/// A pattern from `a` up to `b`.
pub open spec fn a_pattern(g: Src) -> spec_fn(nat, Pattern, nat) -> bool {
    |a: nat, x: Pattern, b: nat| pattern(g, at(a)) == read(b, x)
}

/// A pattern without `|` at the top, from `a` up to `b`.
pub open spec fn an_alternative(g: Src) -> spec_fn(nat, Pattern, nat) -> bool {
    |a: nat, x: Pattern, b: nat| pattern_single(g, at(a)) == read(b, x)
}

proof fn patterns_in_a_list_from(
    g: Src,
    xs: Seq<Pattern>,
    starts: Seq<nat>,
    ends: Seq<nat>,
    q: nat,
    k: int,
)
    requires
        0 <= k < xs.len(),
        listed(g, a_pattern(g), TokenKind::Delim(Delim::Comma), xs, starts, ends),
        forall|i: int| 0 <= i < xs.len()
            ==> g.kind(#[trigger] starts[i]) != TokenKind::Delim(Delim::RParen),
        list_end(g, ends[xs.len() - 1], TokenKind::Delim(Delim::RParen), q),
    ensures
        more_patterns(g, at(ends[k]), xs.take(k + 1)) == read(q, xs),
        ends[k] <= q,
    decreases xs.len() - k,
{
    let done = xs.take(k + 1);
    let p = ends[k];
    assert(at(p).skip() == at(p + 1));
    if k + 1 == xs.len() {
        assert(done =~= xs);
        assert(more_patterns(g, at(p), done) == read(q, xs));
    } else {
        patterns_in_a_list_from(g, xs, starts, ends, q, k + 1);
        let x = xs[k + 1];
        assert(a_pattern(g)(starts[k + 1], x, ends[k + 1]));
        assert(g.kind(ends[k]) == TokenKind::Delim(Delim::Comma) && starts[k + 1] == p + 1);
        assert(pattern(g, at(p + 1)) == read(ends[k + 1], x));
        assert(at(p + 1).after(pattern(g, at(p + 1))) == at(ends[k + 1]));
        assert(done.push(x) =~= xs.take((k + 1) + 1));
        assert(
            more_patterns(g, at(p), done) == more_patterns(g, at(ends[k + 1]), xs.take((k + 1) + 1))
        );
    }
}

/// Patterns with commas between them, perhaps with one behind the last, are read in their order
/// up to `)`.
pub proof fn patterns_in_a_list(
    g: Src,
    p: nat,
    xs: Seq<Pattern>,
    starts: Seq<nat>,
    ends: Seq<nat>,
    q: nat,
)
    requires
        xs.len() > 0,
        listed(g, a_pattern(g), TokenKind::Delim(Delim::Comma), xs, starts, ends),
        p == starts[0],
        forall|i: int| 0 <= i < xs.len()
            ==> g.kind(#[trigger] starts[i]) != TokenKind::Delim(Delim::RParen),
        list_end(g, ends[xs.len() - 1], TokenKind::Delim(Delim::RParen), q),
    ensures
        pattern_list(g, at(p)) == read(q, xs),
{
    assert(at(p).skip() == at(p + 1));
    let x = xs[0];
    assert(a_pattern(g)(starts[0], x, ends[0]));
    assert(pattern(g, at(p)) == read(ends[0], x));
    assert(at(p).after(pattern(g, at(p))) == at(ends[0]));
    patterns_in_a_list_from(g, xs, starts, ends, q, 0);
    assert(seq![x] =~= xs.take(1));
    assert(g.kind(starts[0]) == g.kind(p));
}

/// Between `(` and `)` there may be no pattern.
pub proof fn no_patterns(g: Src, p: nat)
    requires
        g.kind(p) == TokenKind::Delim(Delim::RParen),
    ensures
        pattern_list(g, at(p)) == read(p, Seq::<Pattern>::empty()),
{
}

/// A name that is no keyword and not `_`, alone at `p`.
pub open spec fn plain_name(g: Src, p: nat, name: String) -> bool {
    g.kind(p) == TokenKind::Ident(name) && name@ != "_"@ && g.kind(p + 1) != TokenKind::Op(
        Op::ColonColon,
    )
}

/// A name on its own is read as a path of that one name.
pub proof fn plain_name_is_a_path(g: Src, p: nat, name: String)
    requires
        g.kind(p) == TokenKind::Ident(name),
        g.kind(p + 1) != TokenKind::Op(Op::ColonColon),
    ensures
        path_name(g, at(p)) == read(p + 1, name@),
{
    reveal_with_fuel(joined, 3);
    assert(at(p).skip() == at(p + 1));
    assert(word(g, at(p)) == read(p + 1, name@));
    assert(segments(g, at(p + 1), seq![name@]) == read(p + 1, seq![name@]));
}

/// Names with `::` between them are one name, spelled out in full.
pub proof fn path_of_two_names(g: Src, p: nat, a: String, b: String)
    requires
        g.kind(p) == TokenKind::Ident(a),
        g.kind(p + 1) == TokenKind::Op(Op::ColonColon),
        g.kind(p + 2) == TokenKind::Ident(b),
        g.kind(p + 3) != TokenKind::Op(Op::ColonColon),
    ensures
        path_name(g, at(p)) == read(p + 3, a@ + "::"@ + b@),
{
    reveal_with_fuel(joined, 3);
    assert(at(p).skip() == at(p + 1));
    assert(at(p + 1).skip() == at(p + 2));
    assert(at(p + 2).skip() == at(p + 3));
    assert(word(g, at(p)) == read(p + 1, a@));
    assert(word(g, at(p + 2)) == read(p + 3, b@));
    let two = seq![a@].push(b@);
    assert(segments(g, at(p + 3), two) == read(p + 3, two));
    assert(segments(g, at(p + 1), seq![a@]) == read(p + 3, two));
    assert(two.drop_last() =~= seq![a@]);
    assert(joined(two) == joined(seq![a@]) + "::"@ + b@);
    assert(joined(seq![a@]) == a@);
}

/// `_` matches anything.
pub proof fn wildcard_pattern(g: Src, p: nat, name: String)
    requires
        g.kind(p) == TokenKind::Ident(name),
        name@ == "_"@,
    ensures
        pattern_single(g, at(p)) == read(p + 1, Pattern::Wildcard),
{
    assert(at(p).skip() == at(p + 1));
}

/// A name with nothing in parentheses behind it binds that name.
pub proof fn name_pattern(g: Src, p: nat, name: String)
    requires
        plain_name(g, p, name),
        g.kind(p + 1) != TokenKind::Delim(Delim::LParen),
    ensures
        pattern_single(g, at(p)) == read(p + 1, Pattern::Ident(name@)),
{
    plain_name_is_a_path(g, p, name);
    assert(at(p).after(path_name(g, at(p))) == at(p + 1));
    assert(pattern_single(g, at(p)) == path_pattern(g, at(p)));
}

/// A literal token is the pattern of that literal.
pub proof fn literal_pattern(g: Src, p: nat)
    requires
        is_pattern_literal(g.kind(p)),
    ensures
        pattern_single(g, at(p)) == read(p + 1, Pattern::Literal(literal_of(g.kind(p))->0)),
{
    assert(at(p).skip() == at(p + 1));
}

/// The literals that stand in a pattern: numbers, strings that are not raw, characters and
/// booleans.
pub proof fn literals_in_patterns(k: TokenKind)
    ensures
        k is Int || k is IntHex || k is IntOct || k is IntBin || k is Float ==> is_pattern_literal(
            k,
        ),
        k is Str || k is Char || k is Bool ==> is_pattern_literal(k),
        k is RawStr || k is Null ==> !is_pattern_literal(k),
        is_pattern_literal(k) ==> literal_of(k) is Some,
{
}

/// `mut name` binds the name for change.
pub proof fn mut_pattern(g: Src, p: nat)
    requires
        g.kind(p) == TokenKind::Keyword(Keyword::Mut),
    ensures
        ({
            let name = word(g, at(p + 1));
            let q_name = behind(p + 1, name);
            let fits = name.res is Ok;
            &&& pattern_single(g, at(p)).res is Ok <==> fits
            &&& fits ==> pattern_single(g, at(p)) == read(q_name, Pattern::Mut(name.out()))
        }),
{
    let name = word(g, at(p + 1));
    let q_name = behind(p + 1, name);
    assert(at(p).skip() == at(p + 1));
    assert(name.res is Ok ==> at(p + 1).after(name) == at(q_name));
}

/// Patterns in parentheses are a tuple pattern of exactly these.
pub proof fn tuple_pattern(g: Src, p: nat)
    requires
        g.kind(p) == TokenKind::Delim(Delim::LParen),
    ensures
        ({
            let parts = pattern_list(g, at(p + 1));
            let q_parts = behind(p + 1, parts);
            let fits = parts.res is Ok
                && g.kind(q_parts) == TokenKind::Delim(Delim::RParen);
            &&& pattern_single(g, at(p)).res is Ok <==> fits
            &&& fits ==> pattern_single(g, at(p)) == read(q_parts + 1, Pattern::Tuple(parts.out()))
        }),
{
    let parts = pattern_list(g, at(p + 1));
    let q_parts = behind(p + 1, parts);
    assert(at(p).skip() == at(p + 1));
    assert(parts.res is Ok ==> at(p + 1).after(parts) == at(q_parts));
    assert(g.kind(q_parts) == TokenKind::Delim(Delim::RParen)
        ==> at(q_parts).delim(g, Delim::RParen) == at(q_parts + 1));
}

/// A name other than `_`, or a keyword other than `mut`, such as `Some`.
pub open spec fn begins_a_path(k: TokenKind) -> bool {
    (k matches TokenKind::Ident(n) && n@ != "_"@) || (k is Keyword && k != TokenKind::Keyword(
        Keyword::Mut,
    ))
}

/// A path with nothing in parentheses behind it is that path alone.
pub proof fn path_pattern_form(g: Src, p: nat, name: Seq<char>, q: nat)
    requires
        begins_a_path(g.kind(p)),
        path_name(g, at(p)) == read(q, name),
        p <= q,
        g.kind(q) != TokenKind::Delim(Delim::LParen),
    ensures
        pattern_single(g, at(p)) == read(q, Pattern::Ident(name)),
{
    assert(at(p).after(path_name(g, at(p))) == at(q));
    assert(pattern_single(g, at(p)) == path_pattern(g, at(p)));
}

/// A path with patterns in parentheses behind it is the tuple-struct pattern of that path and
/// exactly these patterns.
pub proof fn variant_pattern(g: Src, p: nat)
    requires
        begins_a_path(g.kind(p)),
        g.kind(behind(p, path_name(g, at(p)))) == TokenKind::Delim(Delim::LParen),
    ensures
        ({
            let name = path_name(g, at(p));
            let q_name = behind(p, name);
            let parts = pattern_list(g, at(q_name + 1));
            let q_parts = behind(q_name + 1, parts);
            let fits = name.res is Ok
                && g.kind(q_name) == TokenKind::Delim(Delim::LParen)
                && parts.res is Ok
                && g.kind(q_parts) == TokenKind::Delim(Delim::RParen);
            &&& pattern_single(g, at(p)).res is Ok <==> fits
            &&& fits
                ==> pattern_single(g, at(p)) == read(
                    q_parts + 1,
                    Pattern::TupleStruct(name.out(), parts.out()),
                )
        }),
{
    let name = path_name(g, at(p));
    let q_name = behind(p, name);
    let parts = pattern_list(g, at(q_name + 1));
    let q_parts = behind(q_name + 1, parts);
    assert(at(q_name).skip() == at(q_name + 1));
    assert(name.res is Ok ==> at(p).after(name) == at(q_name));
    assert(g.kind(q_name) == TokenKind::Delim(Delim::LParen)
        ==> at(q_name).delim(g, Delim::LParen) == at(q_name + 1));
    assert(parts.res is Ok ==> at(q_name + 1).after(parts) == at(q_parts));
    assert(g.kind(q_parts) == TokenKind::Delim(Delim::RParen)
        ==> at(q_parts).delim(g, Delim::RParen) == at(q_parts + 1));
    assert(pattern_single(g, at(p)) == path_pattern(g, at(p)));
}

/// A name followed by `(`, patterns with commas between them and `)` is the tuple-struct
/// pattern of that name with exactly these patterns, up to the token behind `)`.
pub proof fn name_with_patterns(
    g: Src,
    p: nat,
    name: String,
    xs: Seq<Pattern>,
    starts: Seq<nat>,
    ends: Seq<nat>,
    q: nat,
)
    requires
        g.kind(p) == TokenKind::Ident(name),
        name@ != "_"@,
        g.kind(p + 1) == TokenKind::Delim(Delim::LParen),
        g.kind(q) == TokenKind::Delim(Delim::RParen),
        xs.len() == 0 ==> q == p + 2,
        xs.len() > 0 ==> {
            &&& starts[0] == p + 2
            &&& listed(g, a_pattern(g), TokenKind::Delim(Delim::Comma), xs, starts, ends)
            &&& forall|i: int|
                0 <= i < xs.len() ==> g.kind(#[trigger] starts[i]) != TokenKind::Delim(
                    Delim::RParen,
                )
            &&& list_end(
                g,
                ends[xs.len() - 1],
                TokenKind::Delim(Delim::RParen),
                q,
            )
        },
    ensures
        pattern_single(g, at(p)) == read(q + 1, Pattern::TupleStruct(name@, xs)),
{
    plain_name_is_a_path(g, p, name);
    variant_pattern(g, p);
    if xs.len() == 0 {
        no_patterns(g, p + 2);
        assert(xs =~= Seq::<Pattern>::empty());
    } else {
        patterns_in_a_list(g, p + 2, xs, starts, ends, q);
        patterns_in_a_list_from(g, xs, starts, ends, q, 0);
        assert(starts[0] <= ends[0]) by {
            assert(a_pattern(g)(starts[0], xs[0], ends[0]));
        }
    }
}

/// A pattern with no `|` behind it is that pattern alone.
pub proof fn single_pattern(g: Src, p: nat, x: Pattern, q: nat)
    requires
        pattern_single(g, at(p)) == read(q, x),
        p <= q,
        g.kind(q) != TokenKind::Op(Op::Pipe),
    ensures
        pattern(g, at(p)) == read(q, x),
{
    assert(at(p).after(pattern_single(g, at(p))) == at(q));
}

proof fn alternatives_from(
    g: Src,
    xs: Seq<Pattern>,
    starts: Seq<nat>,
    ends: Seq<nat>,
    k: int,
)
    requires
        0 <= k < xs.len(),
        listed(g, an_alternative(g), TokenKind::Op(Op::Pipe), xs, starts, ends),
        g.kind(ends[xs.len() - 1]) != TokenKind::Op(Op::Pipe),
    ensures
        more_alternatives(g, at(ends[k]), xs.take(k + 1)) == read(ends[xs.len() - 1], xs),
        ends[k] <= ends[xs.len() - 1],
    decreases xs.len() - k,
{
    let done = xs.take(k + 1);
    let p = ends[k];
    assert(at(p).skip() == at(p + 1));
    if k + 1 == xs.len() {
        assert(done =~= xs);
        assert(more_alternatives(g, at(p), done) == read(ends[xs.len() - 1], xs));
    } else {
        alternatives_from(g, xs, starts, ends, k + 1);
        let x = xs[k + 1];
        assert(an_alternative(g)(starts[k + 1], x, ends[k + 1]));
        assert(g.kind(ends[k]) == TokenKind::Op(Op::Pipe) && starts[k + 1] == p + 1);
        assert(pattern_single(g, at(p + 1)) == read(ends[k + 1], x));
        assert(at(p + 1).after(pattern_single(g, at(p + 1))) == at(ends[k + 1]));
        assert(done.push(x) =~= xs.take((k + 1) + 1));
        assert(
            more_alternatives(g, at(p), done) == more_alternatives(
                g,
                at(ends[k + 1]),
                xs.take((k + 1) + 1),
            )
        );
    }
}

/// Two or more patterns with `|` between them are these alternatives, in their order.
pub proof fn alternatives(
    g: Src,
    p: nat,
    xs: Seq<Pattern>,
    starts: Seq<nat>,
    ends: Seq<nat>,
)
    requires
        xs.len() > 0,
        listed(g, an_alternative(g), TokenKind::Op(Op::Pipe), xs, starts, ends),
        p == starts[0],
        g.kind(ends[xs.len() - 1]) != TokenKind::Op(Op::Pipe),
        xs.len() > 1,
    ensures
        pattern(g, at(p)) == read(ends[xs.len() - 1], Pattern::Or(xs)),
{
    assert(at(p).skip() == at(p + 1));
    let x = xs[0];
    assert(an_alternative(g)(starts[0], x, ends[0]));
    assert(pattern_single(g, at(p)) == read(ends[0], x));
    assert(at(p).after(pattern_single(g, at(p))) == at(ends[0]));
    alternatives_from(g, xs, starts, ends, 0);
    assert(seq![x] =~= xs.take(1));
    assert(g.kind(ends[0]) == TokenKind::Op(Op::Pipe));
    assert(at(ends[0]).after(more_alternatives(g, at(ends[0]), seq![x])) == at(ends[xs.len() - 1]));
}

proof fn array_patterns_from(
    g: Src,
    xs: Seq<Pattern>,
    starts: Seq<nat>,
    ends: Seq<nat>,
    q: nat,
    k: int,
)
    requires
        0 <= k < xs.len(),
        listed(g, a_pattern(g), TokenKind::Delim(Delim::Comma), xs, starts, ends),
        forall|i: int| 0 <= i < xs.len()
            ==> g.kind(#[trigger] starts[i]) != TokenKind::Delim(Delim::RBracket),
        forall|i: int| 0 <= i < xs.len()
            ==> g.kind(#[trigger] starts[i]) != TokenKind::Op(Op::DotDot),
        list_end(g, ends[xs.len() - 1], TokenKind::Delim(Delim::RBracket), q),
    ensures
        array_pattern(g, at(starts[k]), xs.take(k)) == read(q, (xs, None::<Option<Seq<char>>>)),
        starts[k] <= q,
    decreases xs.len() - k,
{
    let done = xs.take(k);
    let x = xs[k];
    let p = starts[k];
    let e = ends[k];
    assert(a_pattern(g)(p, x, e));
    assert(g.kind(starts[k]) == g.kind(p));
    assert(at(e).skip() == at(e + 1));
    assert(done.push(x) =~= xs.take(k + 1));
    assert(at(p).after(pattern(g, at(p))) == at(e));
    if k + 1 == xs.len() {
        assert(xs.take(k + 1) =~= xs);
        if g.kind(e) == TokenKind::Delim(Delim::Comma) {
            assert(array_pattern(g, at(e + 1), xs) == read(e + 1, (xs, None::<Option<Seq<char>>>)));
        }
    } else {
        array_patterns_from(g, xs, starts, ends, q, k + 1);
        assert(g.kind(ends[k]) == TokenKind::Delim(Delim::Comma) && starts[k + 1] == e + 1);
    }
}

/// Patterns with commas between them are read in their order up to `]`.
pub proof fn array_patterns(
    g: Src,
    xs: Seq<Pattern>,
    starts: Seq<nat>,
    ends: Seq<nat>,
    q: nat,
)
    requires
        xs.len() > 0,
        listed(g, a_pattern(g), TokenKind::Delim(Delim::Comma), xs, starts, ends),
        forall|i: int| 0 <= i < xs.len()
            ==> g.kind(#[trigger] starts[i]) != TokenKind::Delim(Delim::RBracket),
        forall|i: int| 0 <= i < xs.len()
            ==> g.kind(#[trigger] starts[i]) != TokenKind::Op(Op::DotDot),
        list_end(g, ends[xs.len() - 1], TokenKind::Delim(Delim::RBracket), q),
    ensures
        array_pattern(g, at(starts[0]), seq![]) == read(q, (xs, None::<Option<Seq<char>>>)),
{
    array_patterns_from(g, xs, starts, ends, q, 0);
    assert(xs.take(0) =~= Seq::<Pattern>::empty());
}

proof fn array_patterns_with_rest_from(
    g: Src,
    xs: Seq<Pattern>,
    cuts: Seq<nat>,
    k: int,
)
    requires
        0 <= k <= xs.len(),
        in_a_row(a_pattern_and_a_comma(g), xs, cuts),
        g.kind(cuts[xs.len() as int]) == TokenKind::Op(Op::DotDot),
        forall|i: int|
            0 <= i < xs.len() ==> g.kind(#[trigger] cuts[i]) != TokenKind::Op(Op::DotDot)
                && g.kind(cuts[i]) != TokenKind::Delim(Delim::RBracket),
    ensures
        array_pattern(g, at(cuts[k]), xs.take(k)) == array_pattern(
            g,
            at(cuts[xs.len() as int]),
            xs,
        ),
        cuts[k] <= cuts[xs.len() as int],
    decreases xs.len() - k,
{
    if k == xs.len() {
        assert(xs.take(k) =~= xs);
    } else {
        array_patterns_with_rest_from(g, xs, cuts, k + 1);
        let x = xs[k];
        let e = (cuts[k + 1] - 1) as nat;
        assert(a_pattern_and_a_comma(g)(cuts[k], x, cuts[k + 1]));
        assert(g.kind(cuts[k]) != TokenKind::Op(Op::DotDot));
        assert(at(cuts[k]).after(pattern(g, at(cuts[k]))) == at(e));
        assert(at(e).skip() == at(cuts[k + 1]));
        assert(xs.take(k).push(x) =~= xs.take(k + 1));
    }
}

/// A pattern and the comma behind it, from `a` up to `b`.
pub open spec fn a_pattern_and_a_comma(g: Src) -> spec_fn(nat, Pattern, nat) -> bool {
    |a: nat, x: Pattern, b: nat|
        {
            &&& b > 0
            &&& a <= b - 1
            &&& pattern(g, at(a)) == read((b - 1) as nat, x)
            &&& g.kind((b - 1) as nat) == TokenKind::Delim(Delim::Comma)
        }
}

/// `[patterns, ..]` matches an array that begins with what the patterns match, and
/// `[patterns, ..name]` binds the rest.
pub proof fn array_pattern_with_rest(g: Src, p: nat, xs: Seq<Pattern>, cuts: Seq<nat>, name: String)
    requires
        g.kind(p) == TokenKind::Delim(Delim::LBracket),
        in_a_row(a_pattern_and_a_comma(g), xs, cuts),
        cuts[0] == p + 1,
        g.kind(cuts[xs.len() as int]) == TokenKind::Op(Op::DotDot),
        forall|i: int|
            0 <= i < xs.len() ==> g.kind(#[trigger] cuts[i]) != TokenKind::Op(Op::DotDot)
                && g.kind(cuts[i]) != TokenKind::Delim(Delim::RBracket),
    ensures
        ({
            let q = cuts[xs.len() as int];
            &&& g.kind(q + 1) == TokenKind::Delim(Delim::RBracket) ==> pattern_single(g, at(p))
                == read(q + 2, Pattern::Array(xs, Some(None)))
            &&& g.kind(q + 1) == TokenKind::Ident(name) && g.kind(q + 2) == TokenKind::Delim(
                Delim::RBracket,
            ) ==> pattern_single(g, at(p)) == read(q + 3, Pattern::Array(xs, Some(Some(name@))))
        }),
{
    let q = cuts[xs.len() as int];
    array_patterns_with_rest_from(g, xs, cuts, 0);
    assert(xs.take(0) =~= Seq::<Pattern>::empty());
    assert(at(p).skip() == at(p + 1));
    assert(at(q).skip() == at(q + 1));
    assert(at(q + 1).skip() == at(q + 2));
    assert(pattern_single(g, at(p)) == array_pattern_tail(g, at(p + 1)));
    if g.kind(q + 1) == TokenKind::Ident(name) {
        assert(word(g, at(q + 1)) == read(q + 2, name@));
        assert(array_pattern(g, at(q), xs) == read(q + 2, (xs, Some(Some(name@)))));
        assert(at(p + 1).after(array_pattern(g, at(p + 1), seq![])) == at(q + 2));
    } else if g.kind(q + 1) == TokenKind::Delim(Delim::RBracket) {
        assert(array_pattern(g, at(q), xs) == read(q + 1, (xs, Some(None::<Seq<char>>))));
        assert(at(p + 1).after(array_pattern(g, at(p + 1), seq![])) == at(q + 1));
    }
}

/// `[patterns]` matches an array of just as many elements.
pub proof fn array_pattern_without_rest(g: Src, p: nat, xs: Seq<Pattern>, q: nat)
    requires
        g.kind(p) == TokenKind::Delim(Delim::LBracket),
        array_pattern(g, at(p + 1), seq![]) == read(q, (xs, None::<Option<Seq<char>>>)),
        p + 1 <= q,
    ensures
        pattern_single(g, at(p)).res is Ok <==> g.kind(q) == TokenKind::Delim(Delim::RBracket),
        g.kind(q) == TokenKind::Delim(Delim::RBracket) ==> pattern_single(g, at(p)) == read(
            q + 1,
            Pattern::Array(xs, None),
        ),
{
    assert(at(p).skip() == at(p + 1));
    assert(at(p + 1).after(array_pattern(g, at(p + 1), seq![])) == at(q));
    assert(pattern_single(g, at(p)) == array_pattern_tail(g, at(p + 1)));
}

} // verus!
