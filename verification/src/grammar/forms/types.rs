//! Types and generic parameters.
use crate::grammar::cursor::{ident, path_name, segments, word, Src};
use crate::grammar::exprs::expr;
use crate::grammar::forms::{behind, list_end, listed};
use crate::grammar::laws::{at, read};
use crate::grammar::types::{
    array_type, dyn_type, fn_type, generic_arg, generic_args, generic_param, generic_param_list,
    generic_params, is_primitive, literal, literal_of, more_generic_args, more_trait_bounds,
    more_types, named_type, option_type, paren_type, result_type, trait_bound, trait_bounds,
    type_list, type_of, type_ref, where_bounds, where_clause,
};
use crate::text::joined;
use crate::token::{Delim, Keyword, Op, TokenKind};
use crate::tree::{Expr, GenericParam, Literal, TraitBound, Type, TypeRef, WhereBound};
use vstd::prelude::*;

verus! {

/// A type from `a` up to `b`.
pub open spec fn a_type(g: Src) -> spec_fn(nat, Type, nat) -> bool {
    |a: nat, x: Type, b: nat| type_of(g, at(a)) == read(b, x)
}

/// `()` is the unit type.
pub proof fn unit_type(g: Src, p: nat)
    requires
        g.kind(p) == TokenKind::Delim(Delim::LParen),
        g.kind(p + 1) == TokenKind::Delim(Delim::RParen),
    ensures
        ({
            type_of(g, at(p)) == read(p + 2, Type::Unit)
        }),
{
    assert(at(p).skip() == at(p + 1));
    assert(at(p + 1).skip() == at(p + 2));
}

/// `!` is the type of what never comes back.
pub proof fn never_type(g: Src, p: nat)
    requires
        g.kind(p) == TokenKind::Op(Op::Not),
    ensures
        ({
            type_of(g, at(p)) == read(p + 1, Type::Never)
        }),
{
    assert(at(p).skip() == at(p + 1));
}

/// A single type in parentheses is that type.
pub proof fn parenthesised_type(g: Src, p: nat)
    requires
        g.kind(p) == TokenKind::Delim(Delim::LParen),
        g.kind(p + 1) != TokenKind::Delim(Delim::RParen),
        g.kind(behind(p + 1, type_of(g, at(p + 1)))) != TokenKind::Delim(Delim::Comma),
    ensures
        ({
            let t = type_of(g, at(p + 1));
            let q_t = behind(p + 1, t);
            let fits = t.res is Ok
                && g.kind(q_t) == TokenKind::Delim(Delim::RParen);
            &&& type_of(g, at(p)).res is Ok <==> fits
            &&& fits ==> type_of(g, at(p)) == read(q_t + 1, t.out())
        }),
{
    let t = type_of(g, at(p + 1));
    let q_t = behind(p + 1, t);
    assert(at(p).skip() == at(p + 1));
    assert(t.res is Ok ==> at(p + 1).after(t) == at(q_t));
    assert(g.kind(q_t) == TokenKind::Delim(Delim::RParen)
        ==> at(q_t).delim(g, Delim::RParen) == at(q_t + 1));
    assert(type_of(g, at(p)) == paren_type(g, at(p + 1)));
}

/// `[T]` is an array of `T`.
pub proof fn array_type_without_a_size(g: Src, p: nat)
    requires
        g.kind(p) == TokenKind::Delim(Delim::LBracket),
        g.kind(behind(p + 1, type_of(g, at(p + 1)))) != TokenKind::Delim(Delim::Semi),
    ensures
        ({
            let t = type_of(g, at(p + 1));
            let q_t = behind(p + 1, t);
            let fits = t.res is Ok
                && g.kind(q_t) == TokenKind::Delim(Delim::RBracket);
            &&& type_of(g, at(p)).res is Ok <==> fits
            &&& fits ==> type_of(g, at(p)) == read(q_t + 1, Type::Array(Box::new(t.out()), None))
        }),
{
    let t = type_of(g, at(p + 1));
    let q_t = behind(p + 1, t);
    assert(at(p).skip() == at(p + 1));
    assert(t.res is Ok ==> at(p + 1).after(t) == at(q_t));
    assert(g.kind(q_t) == TokenKind::Delim(Delim::RBracket)
        ==> at(q_t).delim(g, Delim::RBracket) == at(q_t + 1));
    assert(type_of(g, at(p)) == array_type(g, at(p + 1)));
}

/// `[T; n]` is an array of `T` with the size `n`.
pub proof fn array_type_with_a_size(g: Src, p: nat)
    requires
        g.kind(p) == TokenKind::Delim(Delim::LBracket),
        g.kind(behind(p + 1, type_of(g, at(p + 1)))) == TokenKind::Delim(Delim::Semi),
    ensures
        ({
            let t = type_of(g, at(p + 1));
            let q_t = behind(p + 1, t);
            let size = expr(g, at(q_t + 1), 0);
            let q_size = behind(q_t + 1, size);
            let fits = t.res is Ok
                && g.kind(q_t) == TokenKind::Delim(Delim::Semi)
                && size.res is Ok
                && g.kind(q_size) == TokenKind::Delim(Delim::RBracket);
            &&& type_of(g, at(p)).res is Ok <==> fits
            &&& fits
                ==> type_of(g, at(p)) == read(
                    q_size + 1,
                    Type::Array(Box::new(t.out()), Some(Box::new(size.out()))),
                )
        }),
{
    let t = type_of(g, at(p + 1));
    let q_t = behind(p + 1, t);
    let size = expr(g, at(q_t + 1), 0);
    let q_size = behind(q_t + 1, size);
    assert(at(q_t).skip() == at(q_t + 1));
    assert(at(p).skip() == at(p + 1));
    assert(t.res is Ok ==> at(p + 1).after(t) == at(q_t));
    assert(g.kind(q_t) == TokenKind::Delim(Delim::Semi)
        ==> at(q_t).delim(g, Delim::Semi) == at(q_t + 1));
    assert(size.res is Ok ==> at(q_t + 1).after(size) == at(q_size));
    assert(g.kind(q_size) == TokenKind::Delim(Delim::RBracket)
        ==> at(q_size).delim(g, Delim::RBracket) == at(q_size + 1));
    assert(type_of(g, at(p)) == array_type(g, at(p + 1)));
}

/// `dyn Name<...>` is a trait object.
pub proof fn dyn_type_form(g: Src, p: nat)
    requires
        g.kind(p) == TokenKind::Keyword(Keyword::Dyn),
    ensures
        ({
            let name = word(g, at(p + 1));
            let q_name = behind(p + 1, name);
            let args = generic_args(g, at(q_name));
            let q_args = behind(q_name, args);
            let fits = name.res is Ok
                && args.res is Ok;
            &&& type_of(g, at(p)).res is Ok <==> fits
            &&& fits ==> type_of(g, at(p)) == read(q_args, Type::Dyn(name.out(), args.out()))
        }),
{
    let name = word(g, at(p + 1));
    let q_name = behind(p + 1, name);
    let args = generic_args(g, at(q_name));
    let q_args = behind(q_name, args);
    assert(at(p).skip() == at(p + 1));
    assert(name.res is Ok ==> at(p + 1).after(name) == at(q_name));
    assert(args.res is Ok ==> at(q_name).after(args) == at(q_args));
    assert(type_of(g, at(p)) == dyn_type(g, at(p + 1)));
}

/// `fn(types) -> T` is a function type.
pub proof fn fn_type_form(g: Src, p: nat)
    requires
        g.kind(p) == TokenKind::Keyword(Keyword::Fn),
    ensures
        ({
            let params = type_list(g, at(p + 2), Delim::RParen);
            let q_params = behind(p + 2, params);
            let ret = type_of(g, at(q_params + 2));
            let q_ret = behind(q_params + 2, ret);
            let fits = g.kind(p + 1) == TokenKind::Delim(Delim::LParen)
                && params.res is Ok
                && g.kind(q_params) == TokenKind::Delim(Delim::RParen)
                && g.kind(q_params + 1) == TokenKind::Op(Op::Arrow)
                && ret.res is Ok;
            &&& type_of(g, at(p)).res is Ok <==> fits
            &&& fits
                ==> type_of(g, at(p)) == read(q_ret, Type::Fn(params.out(), Box::new(ret.out())))
        }),
{
    let params = type_list(g, at(p + 2), Delim::RParen);
    let q_params = behind(p + 2, params);
    let ret = type_of(g, at(q_params + 2));
    let q_ret = behind(q_params + 2, ret);
    assert(at(p).skip() == at(p + 1));
    assert(g.kind(p + 1) == TokenKind::Delim(Delim::LParen)
        ==> at(p + 1).delim(g, Delim::LParen) == at(p + 2));
    assert(params.res is Ok ==> at(p + 2).after(params) == at(q_params));
    assert(g.kind(q_params) == TokenKind::Delim(Delim::RParen)
        ==> at(q_params).delim(g, Delim::RParen) == at(q_params + 1));
    assert(g.kind(q_params + 1) == TokenKind::Op(Op::Arrow)
        ==> at(q_params + 1).op(g, Op::Arrow) == at(q_params + 2));
    assert(ret.res is Ok ==> at(q_params + 2).after(ret) == at(q_ret));
    assert(type_of(g, at(p)) == fn_type(g, at(p + 1)));
}

/// `Option<T>` is an option of `T`.
pub proof fn option_type_form(g: Src, p: nat)
    requires
        g.kind(p) == TokenKind::Keyword(Keyword::Option),
    ensures
        ({
            let t = type_of(g, at(p + 2));
            let q_t = behind(p + 2, t);
            let fits = g.kind(p + 1) == TokenKind::Op(Op::Lt)
                && t.res is Ok
                && g.kind(q_t) == TokenKind::Op(Op::Gt);
            &&& type_of(g, at(p)).res is Ok <==> fits
            &&& fits ==> type_of(g, at(p)) == read(q_t + 1, Type::Option(Box::new(t.out())))
        }),
{
    let t = type_of(g, at(p + 2));
    let q_t = behind(p + 2, t);
    assert(at(p).skip() == at(p + 1));
    assert(g.kind(p + 1) == TokenKind::Op(Op::Lt) ==> at(p + 1).op(g, Op::Lt) == at(p + 2));
    assert(t.res is Ok ==> at(p + 2).after(t) == at(q_t));
    assert(g.kind(q_t) == TokenKind::Op(Op::Gt) ==> at(q_t).op(g, Op::Gt) == at(q_t + 1));
    assert(type_of(g, at(p)) == option_type(g, at(p + 1)));
}

/// `Result<T, E>` is a result of `T` or `E`, in this order.
pub proof fn result_type_form(g: Src, p: nat)
    requires
        g.kind(p) == TokenKind::Keyword(Keyword::Result),
    ensures
        ({
            let t = type_of(g, at(p + 2));
            let q_t = behind(p + 2, t);
            let e = type_of(g, at(q_t + 1));
            let q_e = behind(q_t + 1, e);
            let fits = g.kind(p + 1) == TokenKind::Op(Op::Lt)
                && t.res is Ok
                && g.kind(q_t) == TokenKind::Delim(Delim::Comma)
                && e.res is Ok
                && g.kind(q_e) == TokenKind::Op(Op::Gt);
            &&& type_of(g, at(p)).res is Ok <==> fits
            &&& fits
                ==> type_of(g, at(p)) == read(
                    q_e + 1,
                    Type::Result(Box::new(t.out()), Box::new(e.out())),
                )
        }),
{
    let t = type_of(g, at(p + 2));
    let q_t = behind(p + 2, t);
    let e = type_of(g, at(q_t + 1));
    let q_e = behind(q_t + 1, e);
    assert(at(p).skip() == at(p + 1));
    assert(g.kind(p + 1) == TokenKind::Op(Op::Lt) ==> at(p + 1).op(g, Op::Lt) == at(p + 2));
    assert(t.res is Ok ==> at(p + 2).after(t) == at(q_t));
    assert(g.kind(q_t) == TokenKind::Delim(Delim::Comma)
        ==> at(q_t).delim(g, Delim::Comma) == at(q_t + 1));
    assert(e.res is Ok ==> at(q_t + 1).after(e) == at(q_e));
    assert(g.kind(q_e) == TokenKind::Op(Op::Gt) ==> at(q_e).op(g, Op::Gt) == at(q_e + 1));
    assert(type_of(g, at(p)) == result_type(g, at(p + 1)));
}

proof fn types_in_a_list_from(
    g: Src, close: Delim,
    xs: Seq<Type>,
    starts: Seq<nat>,
    ends: Seq<nat>,
    q: nat,
    k: int,
)
    requires
        0 <= k < xs.len(),
        listed(g, a_type(g), TokenKind::Delim(Delim::Comma), xs, starts, ends),
        forall|i: int| 0 <= i < xs.len()
            ==> g.kind(#[trigger] starts[i]) != TokenKind::Delim(close),
        list_end(g, ends[xs.len() - 1], TokenKind::Delim(close), q),
    ensures
        more_types(g, at(ends[k]), close, xs.take(k + 1)) == read(q, xs),
        ends[k] <= q,
    decreases xs.len() - k,
{
    let done = xs.take(k + 1);
    let p = ends[k];
    assert(at(p).skip() == at(p + 1));
    if k + 1 == xs.len() {
        assert(done =~= xs);
        assert(more_types(g, at(p), close, done) == read(q, xs));
    } else {
        types_in_a_list_from(g, close, xs, starts, ends, q, k + 1);
        let x = xs[k + 1];
        assert(a_type(g)(starts[k + 1], x, ends[k + 1]));
        assert(g.kind(ends[k]) == TokenKind::Delim(Delim::Comma) && starts[k + 1] == p + 1);
        assert(type_of(g, at(p + 1)) == read(ends[k + 1], x));
        assert(at(p + 1).after(type_of(g, at(p + 1))) == at(ends[k + 1]));
        assert(done.push(x) =~= xs.take((k + 1) + 1));
        assert(
            more_types(g, at(p), close, done) == more_types(
                g,
                at(ends[k + 1]),
                close,
                xs.take((k + 1) + 1),
            )
        );
    }
}

/// Types with commas between them, perhaps with one behind the last, are read in their order up
/// to the closing token.
pub proof fn types_in_a_list(
    g: Src, close: Delim,
    p: nat,
    xs: Seq<Type>,
    starts: Seq<nat>,
    ends: Seq<nat>,
    q: nat,
)
    requires
        xs.len() > 0,
        listed(g, a_type(g), TokenKind::Delim(Delim::Comma), xs, starts, ends),
        p == starts[0],
        forall|i: int| 0 <= i < xs.len()
            ==> g.kind(#[trigger] starts[i]) != TokenKind::Delim(close),
        list_end(g, ends[xs.len() - 1], TokenKind::Delim(close), q),
    ensures
        type_list(g, at(p), close) == read(q, xs),
{
    assert(at(p).skip() == at(p + 1));
    let x = xs[0];
    assert(a_type(g)(starts[0], x, ends[0]));
    assert(type_of(g, at(p)) == read(ends[0], x));
    assert(at(p).after(type_of(g, at(p))) == at(ends[0]));
    types_in_a_list_from(g, close, xs, starts, ends, q, 0);
    assert(seq![x] =~= xs.take(1));
}

proof fn tuple_type_from(
    g: Src,
    xs: Seq<Type>,
    starts: Seq<nat>,
    ends: Seq<nat>,
    q: nat,
    k: int,
)
    requires
        0 <= k < xs.len(),
        listed(g, a_type(g), TokenKind::Delim(Delim::Comma), xs, starts, ends),
        forall|i: int| 0 <= i < xs.len()
            ==> g.kind(#[trigger] starts[i]) != TokenKind::Delim(Delim::RParen),
        list_end(g, ends[xs.len() - 1], TokenKind::Delim(Delim::RParen), q),
    ensures
        more_types(g, at(ends[k]), Delim::RParen, xs.take(k + 1)) == read(q, xs),
        ends[k] <= q,
    decreases xs.len() - k,
{
    let done = xs.take(k + 1);
    let p = ends[k];
    assert(at(p).skip() == at(p + 1));
    if k + 1 == xs.len() {
        assert(done =~= xs);
        assert(more_types(g, at(p), Delim::RParen, done) == read(q, xs));
    } else {
        tuple_type_from(g, xs, starts, ends, q, k + 1);
        let x = xs[k + 1];
        assert(a_type(g)(starts[k + 1], x, ends[k + 1]));
        assert(g.kind(ends[k]) == TokenKind::Delim(Delim::Comma) && starts[k + 1] == p + 1);
        assert(type_of(g, at(p + 1)) == read(ends[k + 1], x));
        assert(at(p + 1).after(type_of(g, at(p + 1))) == at(ends[k + 1]));
        assert(done.push(x) =~= xs.take((k + 1) + 1));
        assert(
            more_types(g, at(p), Delim::RParen, done) == more_types(
                g,
                at(ends[k + 1]),
                Delim::RParen,
                xs.take((k + 1) + 1),
            )
        );
    }
}

/// Types in parentheses with a comma behind the first are a tuple type of exactly these.
pub proof fn tuple_type(
    g: Src,
    p: nat,
    xs: Seq<Type>,
    starts: Seq<nat>,
    ends: Seq<nat>,
    q: nat,
)
    requires
        xs.len() > 0,
        listed(g, a_type(g), TokenKind::Delim(Delim::Comma), xs, starts, ends),
        p + 1 == starts[0],
        forall|i: int| 0 <= i < xs.len()
            ==> g.kind(#[trigger] starts[i]) != TokenKind::Delim(Delim::RParen),
        list_end(g, ends[xs.len() - 1], TokenKind::Delim(Delim::RParen), q),
        g.kind(p) == TokenKind::Delim(Delim::LParen),
        g.kind(q) == TokenKind::Delim(Delim::RParen),
        g.kind(ends[0]) == TokenKind::Delim(Delim::Comma),
    ensures
        type_of(g, at(p)) == read(q + 1, Type::Tuple(xs)),
{
    assert(at(p).skip() == at(p + 1));
    let x = xs[0];
    assert(a_type(g)(starts[0], x, ends[0]));
    assert(type_of(g, at(p + 1)) == read(ends[0], x));
    assert(at(p + 1).after(type_of(g, at(p + 1))) == at(ends[0]));
    tuple_type_from(g, xs, starts, ends, q, 0);
    assert(seq![x] =~= xs.take(1));
    assert(g.kind(starts[0]) == g.kind(p + 1));
    assert(at(ends[0]).after(more_types(g, at(ends[0]), Delim::RParen, seq![x])) == at(q));
    assert(type_of(g, at(p)) == paren_type(g, at(p + 1)));
}

/// A generic argument from `a` up to `b`.
pub open spec fn a_generic_arg(g: Src) -> spec_fn(nat, Type, nat) -> bool {
    |a: nat, x: Type, b: nat| generic_arg(g, at(a)) == read(b, x)
}

proof fn generic_arguments_from(
    g: Src,
    xs: Seq<Type>,
    starts: Seq<nat>,
    ends: Seq<nat>,
    k: int,
)
    requires
        0 <= k < xs.len(),
        listed(g, a_generic_arg(g), TokenKind::Delim(Delim::Comma), xs, starts, ends),
        g.kind(ends[xs.len() - 1]) != TokenKind::Delim(Delim::Comma),
    ensures
        more_generic_args(g, at(ends[k]), xs.take(k + 1)) == read(ends[xs.len() - 1], xs),
        ends[k] <= ends[xs.len() - 1],
    decreases xs.len() - k,
{
    let done = xs.take(k + 1);
    let p = ends[k];
    assert(at(p).skip() == at(p + 1));
    if k + 1 == xs.len() {
        assert(done =~= xs);
        assert(more_generic_args(g, at(p), done) == read(ends[xs.len() - 1], xs));
    } else {
        generic_arguments_from(g, xs, starts, ends, k + 1);
        let x = xs[k + 1];
        assert(a_generic_arg(g)(starts[k + 1], x, ends[k + 1]));
        assert(g.kind(ends[k]) == TokenKind::Delim(Delim::Comma) && starts[k + 1] == p + 1);
        assert(generic_arg(g, at(p + 1)) == read(ends[k + 1], x));
        assert(at(p + 1).after(generic_arg(g, at(p + 1))) == at(ends[k + 1]));
        assert(done.push(x) =~= xs.take((k + 1) + 1));
        assert(
            more_generic_args(g, at(p), done) == more_generic_args(
                g,
                at(ends[k + 1]),
                xs.take((k + 1) + 1),
            )
        );
    }
}

/// `<args>` holds the arguments in their order.
pub proof fn generic_arguments(
    g: Src,
    p: nat,
    xs: Seq<Type>,
    starts: Seq<nat>,
    ends: Seq<nat>,
)
    requires
        xs.len() > 0,
        listed(g, a_generic_arg(g), TokenKind::Delim(Delim::Comma), xs, starts, ends),
        p + 1 == starts[0],
        g.kind(ends[xs.len() - 1]) != TokenKind::Delim(Delim::Comma),
        g.kind(p) == TokenKind::Op(Op::Lt),
        g.kind(p + 1) != TokenKind::Op(Op::Gt),
        g.kind(ends[xs.len() - 1]) == TokenKind::Op(Op::Gt),
    ensures
        generic_args(g, at(p)) == read(ends[xs.len() - 1] + 1, xs),
{
    assert(at(p).skip() == at(p + 1));
    let x = xs[0];
    assert(a_generic_arg(g)(starts[0], x, ends[0]));
    assert(generic_arg(g, at(p + 1)) == read(ends[0], x));
    assert(at(p + 1).after(generic_arg(g, at(p + 1))) == at(ends[0]));
    generic_arguments_from(g, xs, starts, ends, 0);
    assert(seq![x] =~= xs.take(1));
    assert(at(ends[0]).after(more_generic_args(g, at(ends[0]), seq![x])) == at(ends[xs.len() - 1]));
}

/// Without `<` there are no generic arguments, and between `<` and `>` there may be none.
pub proof fn no_generic_arguments(g: Src, p: nat)
    ensures
        g.kind(p) != TokenKind::Op(Op::Lt)
            ==> generic_args(g, at(p)) == read(p, Seq::<Type>::empty()),
        g.kind(p) == TokenKind::Op(Op::Lt) && g.kind(p + 1) == TokenKind::Op(Op::Gt)
            ==> generic_args(g, at(p)) == read(p + 2, Seq::<Type>::empty()),
        g.kind(p) != TokenKind::Op(Op::Lt) ==> generic_params(g, at(p)) == read(
            p,
            Seq::<GenericParam>::empty(),
        ),
        g.kind(p) != TokenKind::Keyword(Keyword::Where) ==> where_clause(g, at(p)) == read(
            p,
            Seq::<WhereBound>::empty(),
        ),
{
    assert(at(p).skip() == at(p + 1));
    assert(at(p + 1).skip() == at(p + 2));
}

/// A generic argument that is a literal is a value, any other one is a type.
pub proof fn generic_argument(g: Src, p: nat)
    ensures
        match literal_of(g.kind(p)) {
            Some(l) => generic_arg(g, at(p)) == read(
                p + 1,
                Type::ConstArg(Box::new(Expr::Literal(l))),
            ),
            None => generic_arg(g, at(p)) == type_of(g, at(p)),
        },
{
    assert(at(p).skip() == at(p + 1));
}

/// Each literal token stands for the literal of its kind with its own text.
pub proof fn literals_keep_kind_and_text(g: Src, p: nat, text: String, b: bool)
    ensures
        g.kind(p) == TokenKind::Int(text) ==> literal(g, at(p)) == read(p + 1, Literal::Int(text@)),
        g.kind(p) == TokenKind::IntHex(text) ==> literal(g, at(p)) == read(
            p + 1,
            Literal::IntHex(text@),
        ),
        g.kind(p) == TokenKind::IntOct(text) ==> literal(g, at(p)) == read(
            p + 1,
            Literal::IntOct(text@),
        ),
        g.kind(p) == TokenKind::IntBin(text) ==> literal(g, at(p)) == read(
            p + 1,
            Literal::IntBin(text@),
        ),
        g.kind(p) == TokenKind::Float(text) ==> literal(g, at(p)) == read(
            p + 1,
            Literal::Float(text@),
        ),
        g.kind(p) == TokenKind::Str(text) ==> literal(g, at(p)) == read(p + 1, Literal::Str(text@)),
        g.kind(p) == TokenKind::RawStr(text) ==> literal(g, at(p)) == read(
            p + 1,
            Literal::RawStr(text@),
        ),
        g.kind(p) == TokenKind::Char(text) ==> literal(g, at(p)) == read(
            p + 1,
            Literal::Char(text@),
        ),
        g.kind(p) == TokenKind::Bool(b) ==> literal(g, at(p)) == read(p + 1, Literal::Bool(b)),
        g.kind(p) == TokenKind::Null ==> literal(g, at(p)) == read(p + 1, Literal::Null),
        g.kind(p) is Ident || g.kind(p) is Keyword || g.kind(p) is Op || g.kind(p) is Delim
            || g.kind(p) is Eof ==> literal(g, at(p)).res is Err,
{
    assert(at(p).skip() == at(p + 1));
}

/// An identifier is a word, and so is a keyword, by its spelling. Only an identifier is an
/// identifier. Nothing else is either.
pub proof fn words_and_identifiers(g: Src, p: nat)
    ensures
        g.kind(p) matches TokenKind::Ident(s) ==> word(g, at(p)) == read(p + 1, s@) && ident(
            g,
            at(p),
        ) == read(p + 1, s@),
        g.kind(p) matches TokenKind::Keyword(k) ==> word(g, at(p)) == read(p + 1, k.source())
            && ident(g, at(p)).res is Err,
        !(g.kind(p) is Ident || g.kind(p) is Keyword) ==> word(g, at(p)).res is Err && ident(
            g,
            at(p),
        ).res is Err,
{
    assert(at(p).skip() == at(p + 1));
}

/// A name of a primitive type is that primitive, without arguments.
pub proof fn primitive_type(g: Src, p: nat, name: String)
    requires
        g.kind(p) == TokenKind::Ident(name),
        is_primitive(name@),
        g.kind(p + 1) != TokenKind::Op(Op::ColonColon),
    ensures
        ({
            type_of(g, at(p)) == read(p + 1, Type::Primitive(name@))
        }),
{
    assert(at(p).skip() == at(p + 1));
    assert(word(g, at(p)) == read(p + 1, name@));
    assert(segments(g, at(p + 1), seq![name@]) == read(p + 1, seq![name@]));
    one_word_joined(name@);
    assert(path_name(g, at(p)) == read(p + 1, name@));
    assert(named_type(g, at(p)) == read(p + 1, Type::Primitive(name@)));
}

/// A name, or a keyword that begins no type of its own.
pub open spec fn begins_a_name(k: TokenKind) -> bool {
    k is Ident || (k matches TokenKind::Keyword(w) && !(w is Borrow || w is Dyn || w is Fn || w
        is Option || w is Result))
}

/// A list of types may be empty.
pub proof fn no_types(g: Src, p: nat, close: Delim)
    requires
        g.kind(p) == TokenKind::Delim(close),
    ensures
        type_list(g, at(p), close) == read(p, Seq::<Type>::empty()),
{
}

/// A bound of a `where` clause is kept behind those before it. Where `{` follows its comma, the
/// clause ends behind the comma; where another token does, it goes on there.
pub proof fn one_where_bound_more(
    g: Src,
    p: nat,
    done: Seq<WhereBound>,
    x: WhereBound,
    q: nat,
)
    requires
        a_where_bound(g)(p, x, q),
    ensures
        g.kind(q) != TokenKind::Delim(Delim::Comma) ==> where_bounds(g, at(p), done) == read(
            q,
            done.push(x),
        ),
        g.kind(q) == TokenKind::Delim(Delim::Comma) && g.kind(q + 1) == TokenKind::Delim(
            Delim::LBrace,
        ) ==> where_bounds(g, at(p), done) == read(q + 1, done.push(x)),
        g.kind(q) == TokenKind::Delim(Delim::Comma) && g.kind(q + 1) != TokenKind::Delim(
            Delim::LBrace,
        ) ==> where_bounds(g, at(p), done) == where_bounds(g, at(q + 1), done.push(x)),
{
    assert(at(p).after(word(g, at(p))) == at(p + 1));
    assert(at(p + 1).delim(g, Delim::Colon) == at(p + 2));
    assert(at(p + 2).after(trait_bounds(g, at(p + 2))) == at(q));
    assert(at(q).skip() == at(q + 1));
    assert(x == WhereBound { name: x.name, bounds: x.bounds });
}

/// A path that is no primitive is a named type with the arguments behind it.
pub proof fn named_type_form(g: Src, p: nat)
    requires
        begins_a_name(g.kind(p)),
        !is_primitive(path_name(g, at(p)).out()),
    ensures
        ({
            let name = path_name(g, at(p));
            let q_name = behind(p, name);
            let args = generic_args(g, at(q_name));
            let q_args = behind(q_name, args);
            let fits = name.res is Ok
                && args.res is Ok;
            &&& type_of(g, at(p)).res is Ok <==> fits
            &&& fits ==> type_of(g, at(p)) == read(q_args, Type::Named(name.out(), args.out()))
        }),
{
    let name = path_name(g, at(p));
    let q_name = behind(p, name);
    let args = generic_args(g, at(q_name));
    let q_args = behind(q_name, args);
    assert(name.res is Ok ==> at(p).after(name) == at(q_name));
    assert(args.res is Ok ==> at(q_name).after(args) == at(q_args));
    assert(type_of(g, at(p)) == named_type(g, at(p)));
}

/// A name and the generic arguments behind it.
pub proof fn trait_bound_form(g: Src, p: nat)
    ensures
        ({
            let name = word(g, at(p));
            let q_name = behind(p, name);
            let args = generic_args(g, at(q_name));
            let q_args = behind(q_name, args);
            let fits = name.res is Ok
                && args.res is Ok;
            &&& trait_bound(g, at(p)).res is Ok <==> fits
            &&& fits
                ==> trait_bound(g, at(p)) == read(
                    q_args,
                    TraitBound { name: name.out(), args: args.out() },
                )
        }),
{
    let name = word(g, at(p));
    let q_name = behind(p, name);
    let args = generic_args(g, at(q_name));
    let q_args = behind(q_name, args);
    assert(name.res is Ok ==> at(p).after(name) == at(q_name));
    assert(args.res is Ok ==> at(q_name).after(args) == at(q_args));
}

/// A name and the generic arguments behind it.
pub proof fn type_ref_form(g: Src, p: nat)
    ensures
        ({
            let name = word(g, at(p));
            let q_name = behind(p, name);
            let args = generic_args(g, at(q_name));
            let q_args = behind(q_name, args);
            let fits = name.res is Ok
                && args.res is Ok;
            &&& type_ref(g, at(p)).res is Ok <==> fits
            &&& fits
                ==> type_ref(g, at(p)) == read(
                    q_args,
                    TypeRef { name: name.out(), args: args.out() },
                )
        }),
{
    let name = word(g, at(p));
    let q_name = behind(p, name);
    let args = generic_args(g, at(q_name));
    let q_args = behind(q_name, args);
    assert(name.res is Ok ==> at(p).after(name) == at(q_name));
    assert(args.res is Ok ==> at(q_name).after(args) == at(q_args));
}

/// A bound from `a` up to `b`.
pub open spec fn a_bound(g: Src) -> spec_fn(nat, TraitBound, nat) -> bool {
    |a: nat, x: TraitBound, b: nat| trait_bound(g, at(a)) == read(b, x)
}

proof fn bounds_with_plus_from(
    g: Src,
    xs: Seq<TraitBound>,
    starts: Seq<nat>,
    ends: Seq<nat>,
    k: int,
)
    requires
        0 <= k < xs.len(),
        listed(g, a_bound(g), TokenKind::Op(Op::Plus), xs, starts, ends),
        g.kind(ends[xs.len() - 1]) != TokenKind::Op(Op::Plus),
    ensures
        more_trait_bounds(g, at(ends[k]), xs.take(k + 1)) == read(ends[xs.len() - 1], xs),
        ends[k] <= ends[xs.len() - 1],
    decreases xs.len() - k,
{
    let done = xs.take(k + 1);
    let p = ends[k];
    assert(at(p).skip() == at(p + 1));
    if k + 1 == xs.len() {
        assert(done =~= xs);
        assert(more_trait_bounds(g, at(p), done) == read(ends[xs.len() - 1], xs));
    } else {
        bounds_with_plus_from(g, xs, starts, ends, k + 1);
        let x = xs[k + 1];
        assert(a_bound(g)(starts[k + 1], x, ends[k + 1]));
        assert(g.kind(ends[k]) == TokenKind::Op(Op::Plus) && starts[k + 1] == p + 1);
        assert(trait_bound(g, at(p + 1)) == read(ends[k + 1], x));
        assert(at(p + 1).after(trait_bound(g, at(p + 1))) == at(ends[k + 1]));
        assert(done.push(x) =~= xs.take((k + 1) + 1));
        assert(
            more_trait_bounds(g, at(p), done) == more_trait_bounds(
                g,
                at(ends[k + 1]),
                xs.take((k + 1) + 1),
            )
        );
    }
}

/// Bounds with `+` between them are read in their order.
pub proof fn bounds_with_plus(
    g: Src,
    p: nat,
    xs: Seq<TraitBound>,
    starts: Seq<nat>,
    ends: Seq<nat>,
)
    requires
        xs.len() > 0,
        listed(g, a_bound(g), TokenKind::Op(Op::Plus), xs, starts, ends),
        p == starts[0],
        g.kind(ends[xs.len() - 1]) != TokenKind::Op(Op::Plus),
    ensures
        trait_bounds(g, at(p)) == read(ends[xs.len() - 1], xs),
{
    assert(at(p).skip() == at(p + 1));
    let x = xs[0];
    assert(a_bound(g)(starts[0], x, ends[0]));
    assert(trait_bound(g, at(p)) == read(ends[0], x));
    assert(at(p).after(trait_bound(g, at(p))) == at(ends[0]));
    bounds_with_plus_from(g, xs, starts, ends, 0);
    assert(seq![x] =~= xs.take(1));
}

/// `const N: T` is a const parameter.
pub proof fn const_parameter(g: Src, p: nat)
    requires
        g.kind(p) == TokenKind::Keyword(Keyword::Const),
    ensures
        ({
            let name = word(g, at(p + 1));
            let q_name = behind(p + 1, name);
            let ty = type_of(g, at(q_name + 1));
            let q_ty = behind(q_name + 1, ty);
            let fits = name.res is Ok
                && g.kind(q_name) == TokenKind::Delim(Delim::Colon)
                && ty.res is Ok;
            &&& generic_param(g, at(p)).res is Ok <==> fits
            &&& fits
                ==> generic_param(g, at(p)) == read(
                    q_ty,
                    GenericParam::Const { name: name.out(), ty: ty.out() },
                )
        }),
{
    let name = word(g, at(p + 1));
    let q_name = behind(p + 1, name);
    let ty = type_of(g, at(q_name + 1));
    let q_ty = behind(q_name + 1, ty);
    assert(at(p).skip() == at(p + 1));
    assert(name.res is Ok ==> at(p + 1).after(name) == at(q_name));
    assert(g.kind(q_name) == TokenKind::Delim(Delim::Colon)
        ==> at(q_name).delim(g, Delim::Colon) == at(q_name + 1));
    assert(ty.res is Ok ==> at(q_name + 1).after(ty) == at(q_ty));
}

/// A name alone is a type parameter without bounds.
pub proof fn type_parameter(g: Src, p: nat)
    requires
        g.kind(p) != TokenKind::Keyword(Keyword::Const),
        g.kind(behind(p, word(g, at(p)))) != TokenKind::Delim(Delim::Colon),
    ensures
        ({
            let name = word(g, at(p));
            let q_name = behind(p, name);
            let fits = name.res is Ok;
            &&& generic_param(g, at(p)).res is Ok <==> fits
            &&& fits
                ==> generic_param(g, at(p)) == read(
                    q_name,
                    GenericParam::Type { name: name.out(), bounds: seq![] },
                )
        }),
{
    let name = word(g, at(p));
    let q_name = behind(p, name);
    assert(name.res is Ok ==> at(p).after(name) == at(q_name));
}

/// `T: bounds` is a type parameter with these bounds.
pub proof fn bounded_parameter(g: Src, p: nat)
    requires
        g.kind(p) != TokenKind::Keyword(Keyword::Const),
        g.kind(behind(p, word(g, at(p)))) == TokenKind::Delim(Delim::Colon),
    ensures
        ({
            let name = word(g, at(p));
            let q_name = behind(p, name);
            let bounds = trait_bounds(g, at(q_name + 1));
            let q_bounds = behind(q_name + 1, bounds);
            let fits = name.res is Ok
                && g.kind(q_name) == TokenKind::Delim(Delim::Colon)
                && bounds.res is Ok;
            &&& generic_param(g, at(p)).res is Ok <==> fits
            &&& fits
                ==> generic_param(g, at(p)) == read(
                    q_bounds,
                    GenericParam::Type { name: name.out(), bounds: bounds.out() },
                )
        }),
{
    let name = word(g, at(p));
    let q_name = behind(p, name);
    let bounds = trait_bounds(g, at(q_name + 1));
    let q_bounds = behind(q_name + 1, bounds);
    assert(at(q_name).skip() == at(q_name + 1));
    assert(name.res is Ok ==> at(p).after(name) == at(q_name));
    assert(g.kind(q_name) == TokenKind::Delim(Delim::Colon)
        ==> at(q_name).delim(g, Delim::Colon) == at(q_name + 1));
    assert(bounds.res is Ok ==> at(q_name + 1).after(bounds) == at(q_bounds));
}

/// A generic parameter from `a` up to `b`.
pub open spec fn a_generic_param(g: Src) -> spec_fn(nat, GenericParam, nat) -> bool {
    |a: nat, x: GenericParam, b: nat| generic_param(g, at(a)) == read(b, x)
}

proof fn generic_parameters_in_a_list_from(
    g: Src,
    xs: Seq<GenericParam>,
    starts: Seq<nat>,
    ends: Seq<nat>,
    q: nat,
    k: int,
)
    requires
        0 <= k < xs.len(),
        listed(g, a_generic_param(g), TokenKind::Delim(Delim::Comma), xs, starts, ends),
        forall|i: int| 0 <= i < xs.len() ==> g.kind(#[trigger] starts[i]) != TokenKind::Op(Op::Gt),
        list_end(g, ends[xs.len() - 1], TokenKind::Op(Op::Gt), q),
    ensures
        generic_param_list(g, at(starts[k]), xs.take(k)) == read(q, xs),
        starts[k] <= q,
    decreases xs.len() - k,
{
    let done = xs.take(k);
    let x = xs[k];
    let p = starts[k];
    let e = ends[k];
    assert(a_generic_param(g)(p, x, e));
    assert(g.kind(starts[k]) == g.kind(p));
    assert(at(e).skip() == at(e + 1));
    assert(done.push(x) =~= xs.take(k + 1));
    assert(at(p).after(generic_param(g, at(p))) == at(e));
    if k + 1 == xs.len() {
        assert(xs.take(k + 1) =~= xs);
        if g.kind(e) == TokenKind::Delim(Delim::Comma) {
            assert(generic_param_list(g, at(e + 1), xs) == read(e + 1, xs));
        }
    } else {
        generic_parameters_in_a_list_from(g, xs, starts, ends, q, k + 1);
        assert(g.kind(ends[k]) == TokenKind::Delim(Delim::Comma) && starts[k + 1] == e + 1);
    }
}

/// Generic parameters with commas between them are read in their order up to `>`.
pub proof fn generic_parameters_in_a_list(
    g: Src,
    xs: Seq<GenericParam>,
    starts: Seq<nat>,
    ends: Seq<nat>,
    q: nat,
)
    requires
        xs.len() > 0,
        listed(g, a_generic_param(g), TokenKind::Delim(Delim::Comma), xs, starts, ends),
        forall|i: int| 0 <= i < xs.len() ==> g.kind(#[trigger] starts[i]) != TokenKind::Op(Op::Gt),
        list_end(g, ends[xs.len() - 1], TokenKind::Op(Op::Gt), q),
    ensures
        generic_param_list(g, at(starts[0]), seq![]) == read(q, xs),
{
    generic_parameters_in_a_list_from(g, xs, starts, ends, q, 0);
    assert(xs.take(0) =~= Seq::<GenericParam>::empty());
}

/// `<params>` holds the parameters in their order.
pub proof fn generic_parameters(g: Src, p: nat, xs: Seq<GenericParam>, q: nat)
    requires
        g.kind(p) == TokenKind::Op(Op::Lt),
        generic_param_list(g, at(p + 1), seq![]) == read(q, xs),
        p + 1 <= q,
    ensures
        generic_params(g, at(p)).res is Ok <==> g.kind(q) == TokenKind::Op(Op::Gt),
        g.kind(q) == TokenKind::Op(Op::Gt) ==> generic_params(g, at(p)) == read(q + 1, xs),
{
    assert(at(p).skip() == at(p + 1));
    assert(at(p + 1).after(generic_param_list(g, at(p + 1), seq![])) == at(q));
}

/// `name: bounds` from `a` up to `b`.
pub open spec fn a_where_bound(g: Src) -> spec_fn(nat, WhereBound, nat) -> bool {
    |a: nat, x: WhereBound, b: nat| word(g, at(a))
        == read(a + 1, x.name) && g.kind(a + 1)
            == TokenKind::Delim(Delim::Colon) && trait_bounds(g, at(a + 2))
                == read(b, x.bounds) && a + 2 <= b
}

proof fn where_bounds_in_a_list_from(
    g: Src,
    xs: Seq<WhereBound>,
    starts: Seq<nat>,
    ends: Seq<nat>,
    k: int,
)
    requires
        0 <= k < xs.len(),
        listed(g, a_where_bound(g), TokenKind::Delim(Delim::Comma), xs, starts, ends),
        forall|i: int| 0 <= i < xs.len()
            ==> g.kind(#[trigger] starts[i]) != TokenKind::Delim(Delim::LBrace),
        g.kind(ends[xs.len() - 1]) != TokenKind::Delim(Delim::Comma),
    ensures
        where_bounds(g, at(starts[k]), xs.take(k)) == read(ends[xs.len() - 1], xs),
        starts[k] <= ends[xs.len() - 1],
    decreases xs.len() - k,
{
    let done = xs.take(k);
    let x = xs[k];
    let p = starts[k];
    let e = ends[k];
    assert(a_where_bound(g)(p, x, e));
    assert(g.kind(starts[k]) == g.kind(p));
    assert(at(e).skip() == at(e + 1));
    assert(done.push(x) =~= xs.take(k + 1));
    assert(at(p).after(word(g, at(p))) == at(p + 1));
    assert(at(p + 1).delim(g, Delim::Colon) == at(p + 2));
    assert(at(p + 2).after(trait_bounds(g, at(p + 2))) == at(e));
    assert(x == WhereBound { name: x.name, bounds: x.bounds });
    if k + 1 == xs.len() {
        assert(xs.take(k + 1) =~= xs);
    } else {
        where_bounds_in_a_list_from(g, xs, starts, ends, k + 1);
        assert(g.kind(ends[k]) == TokenKind::Delim(Delim::Comma) && starts[k + 1] == e + 1);
    }
}

/// The bounds of a `where` clause with commas between them are read in their order, up to what
/// follows or up to a `{` behind a comma.
pub proof fn where_bounds_in_a_list(
    g: Src,
    xs: Seq<WhereBound>,
    starts: Seq<nat>,
    ends: Seq<nat>,
)
    requires
        xs.len() > 0,
        listed(g, a_where_bound(g), TokenKind::Delim(Delim::Comma), xs, starts, ends),
        forall|i: int| 0 <= i < xs.len()
            ==> g.kind(#[trigger] starts[i]) != TokenKind::Delim(Delim::LBrace),
        g.kind(ends[xs.len() - 1]) != TokenKind::Delim(Delim::Comma),
    ensures
        where_bounds(g, at(starts[0]), seq![]) == read(ends[xs.len() - 1], xs),
{
    where_bounds_in_a_list_from(g, xs, starts, ends, 0);
    assert(xs.take(0) =~= Seq::<WhereBound>::empty());
}

/// `where` is followed by its bounds.
pub proof fn where_clause_form(g: Src, p: nat)
    requires
        g.kind(p) == TokenKind::Keyword(Keyword::Where),
    ensures
        where_clause(g, at(p)) == where_bounds(g, at(p + 1), seq![]),
{
    assert(at(p).skip() == at(p + 1));
}

/// One name joined is that name.
proof fn one_word_joined(name: Seq<char>)
    ensures
        joined(seq![name]) == name,
{
    reveal_with_fuel(joined, 3);
    assert(seq![name].drop_last() =~= Seq::<Seq<char>>::empty());
}

} // verus!
