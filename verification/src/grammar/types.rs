//! Types, generic parameters and arguments, literals and patterns.
use crate::grammar::cursor::{path_name, word, Cur, Src, Step};
use crate::grammar::exprs::expr;
use crate::token::{Delim, Keyword, Op, TokenKind};
use crate::tree::{Expr, GenericParam, Literal, Pattern, TraitBound, Type, TypeRef, WhereBound};
use vstd::prelude::*;

verus! {

/// The names of the primitive types.
pub open spec fn is_primitive(name: Seq<char>) -> bool {
    ||| name == "i8"@
    ||| name == "i16"@
    ||| name == "i32"@
    ||| name == "i64"@
    ||| name == "i128"@
    ||| name == "isize"@
    ||| name == "u8"@
    ||| name == "u16"@
    ||| name == "u32"@
    ||| name == "u64"@
    ||| name == "u128"@
    ||| name == "usize"@
    ||| name == "f32"@
    ||| name == "f64"@
    ||| name == "bool"@
    ||| name == "char"@
    ||| name == "String"@
    ||| name == "str"@
}

/// The literal that a token stands for.
pub open spec fn literal_of(kind: TokenKind) -> Option<Literal> {
    match kind {
        TokenKind::Int(x) => Some(Literal::Int(x@)),
        TokenKind::IntHex(x) => Some(Literal::IntHex(x@)),
        TokenKind::IntOct(x) => Some(Literal::IntOct(x@)),
        TokenKind::IntBin(x) => Some(Literal::IntBin(x@)),
        TokenKind::Float(x) => Some(Literal::Float(x@)),
        TokenKind::Str(x) => Some(Literal::Str(x@)),
        TokenKind::RawStr(x) => Some(Literal::RawStr(x@)),
        TokenKind::Char(x) => Some(Literal::Char(x@)),
        TokenKind::Bool(b) => Some(Literal::Bool(b)),
        TokenKind::Null => Some(Literal::Null),
        _ => None,
    }
}

/// A literal. The failure shows at the token after the one that is none.
pub open spec fn literal(g: Src, s: Cur) -> Step<Literal> {
    if s.err is Some {
        s.stuck()
    } else {
        let s1 = s.advance(g);
        match literal_of(g.kind(s.pos)) {
            Some(x) => s1.ok(x),
            None => s1.fail(g, "expected literal, found "@ + g.kind(s.pos).shown()).stuck(),
        }
    }
}

pub open spec fn is_int(kind: TokenKind) -> bool {
    kind is Int || kind is IntHex || kind is IntOct || kind is IntBin
}

/// The tokens that begin a literal pattern.
pub open spec fn is_pattern_literal(kind: TokenKind) -> bool {
    is_int(kind) || kind is Float || kind is Str || kind is Char || kind is Bool
}

/// A type.
pub open spec fn type_of(g: Src, s: Cur) -> Step<Type>
    decreases s.left(g), 2nat,
{
    if s.err is Some {
        s.stuck()
    } else if s.at_delim(g, Delim::LParen) {
        paren_type(g, s.skip())
    } else if s.at_op(g, Op::Not) {
        s.skip().ok(Type::Never)
    } else if s.at_delim(g, Delim::LBracket) {
        array_type(g, s.skip())
    } else if s.at_op(g, Op::Amp) || s.at_kw(g, Keyword::Borrow) {
        ref_type(g, s.skip())
    } else if s.at_kw(g, Keyword::Dyn) {
        dyn_type(g, s.skip())
    } else if s.at_kw(g, Keyword::Fn) {
        fn_type(g, s.skip())
    } else if s.at_kw(g, Keyword::Option) {
        option_type(g, s.skip())
    } else if s.at_kw(g, Keyword::Result) {
        result_type(g, s.skip())
    } else {
        named_type(g, s)
    }
}

/// After `(`: the unit type, a type in parentheses, or a tuple type, told by a comma.
pub open spec fn paren_type(g: Src, s: Cur) -> Step<Type>
    decreases s.left(g), 4nat,
{
    if s.at_delim(g, Delim::RParen) {
        s.skip().ok(Type::Unit)
    } else {
        let first = type_of(g, s);
        let s1 = s.after(first);
        let all = more_types(g, s1, Delim::RParen, seq![first.out()]);
        let s2 = s1.after(all).delim(g, Delim::RParen);
        s2.ok(if s1.at_delim(g, Delim::Comma) { Type::Tuple(all.out()) } else { first.out() })
    }
}

/// Types up to `close`, with commas between them and perhaps one behind the last.
pub open spec fn type_list(g: Src, s: Cur, close: Delim) -> Step<Seq<Type>>
    decreases s.left(g), 4nat,
{
    if s.at_delim(g, close) {
        s.ok(seq![])
    } else {
        let first = type_of(g, s);
        more_types(g, s.after(first), close, seq![first.out()])
    }
}

pub open spec fn more_types(g: Src, s: Cur, close: Delim, done: Seq<Type>) -> Step<Seq<Type>>
    decreases s.left(g), 0nat,
{
    if !s.at_delim(g, Delim::Comma) {
        s.ok(done)
    } else if s.skip().at_delim(g, close) {
        s.skip().ok(done)
    } else {
        let next = type_of(g, s.skip());
        more_types(g, s.skip().after(next), close, done.push(next.out()))
    }
}

/// After `[`: an element type, and a size where there is a `;`.
pub open spec fn array_type(g: Src, s: Cur) -> Step<Type>
    decreases s.left(g), 4nat,
{
    let elem = type_of(g, s);
    let s1 = s.after(elem);
    if s1.at_delim(g, Delim::Semi) {
        let size = expr(g, s1.skip(), 0);
        let s2 = s1.skip().after(size).delim(g, Delim::RBracket);
        s2.ok(Type::Array(Box::new(elem.out()), Some(Box::new(size.out()))))
    } else {
        s1.delim(g, Delim::RBracket).ok(Type::Array(Box::new(elem.out()), None))
    }
}

/// After `&` or `borrow`.
pub open spec fn ref_type(g: Src, s: Cur) -> Step<Type>
    decreases s.left(g), 4nat,
{
    let mutable = s.at_kw(g, Keyword::Mut);
    let s1 = if mutable { s.skip() } else { s };
    let inner = type_of(g, s1);
    s1.after(inner).ok(Type::Ref { lifetime: None, mutable, inner: Box::new(inner.out()) })
}

/// After `dyn`.
pub open spec fn dyn_type(g: Src, s: Cur) -> Step<Type>
    decreases s.left(g), 4nat,
{
    let name = word(g, s);
    let s1 = s.after(name);
    let args = generic_args(g, s1);
    s1.after(args).ok(Type::Dyn(name.out(), args.out()))
}

/// After `fn`.
pub open spec fn fn_type(g: Src, s: Cur) -> Step<Type>
    decreases s.left(g), 4nat,
{
    if s.err is Some {
        s.stuck()
    } else {
        let s1 = s.delim(g, Delim::LParen);
        let params = type_list(g, s1, Delim::RParen);
        let s2 = s1.after(params).delim(g, Delim::RParen).op(g, Op::Arrow);
        let ret = type_of(g, s2);
        s2.after(ret).ok(Type::Fn(params.out(), Box::new(ret.out())))
    }
}

/// After `Option`.
pub open spec fn option_type(g: Src, s: Cur) -> Step<Type>
    decreases s.left(g), 4nat,
{
    if s.err is Some {
        s.stuck()
    } else {
        let s1 = s.op(g, Op::Lt);
        let inner = type_of(g, s1);
        s1.after(inner).op(g, Op::Gt).ok(Type::Option(Box::new(inner.out())))
    }
}

/// After `Result`.
pub open spec fn result_type(g: Src, s: Cur) -> Step<Type>
    decreases s.left(g), 4nat,
{
    if s.err is Some {
        s.stuck()
    } else {
        let s1 = s.op(g, Op::Lt);
        let good = type_of(g, s1);
        let s2 = s1.after(good).delim(g, Delim::Comma);
        let bad = type_of(g, s2);
        let s3 = s2.after(bad).op(g, Op::Gt);
        s3.ok(Type::Result(Box::new(good.out()), Box::new(bad.out())))
    }
}

/// A primitive, or a name with its generic arguments.
pub open spec fn named_type(g: Src, s: Cur) -> Step<Type>
    decreases s.left(g), 1nat,
{
    if s.err is Some {
        s.stuck()
    } else {
        let name = path_name(g, s);
        let s1 = s.after(name);
        if s1.err is Some {
            s1.stuck()
        } else if is_primitive(name.out()) {
            s1.ok(Type::Primitive(name.out()))
        } else {
            let args = generic_args(g, s1);
            s1.after(args).ok(Type::Named(name.out(), args.out()))
        }
    }
}

/// `<...>` or nothing.
pub open spec fn generic_args(g: Src, s: Cur) -> Step<Seq<Type>>
    decreases s.left(g), 0nat,
{
    if !s.at_op(g, Op::Lt) {
        s.ok(seq![])
    } else if s.skip().at_op(g, Op::Gt) {
        s.skip().skip().ok(seq![])
    } else {
        let s1 = s.skip();
        let first = generic_arg(g, s1);
        let s2 = s1.after(first);
        let all = more_generic_args(g, s2, seq![first.out()]);
        s2.after(all).op(g, Op::Gt).ok(all.out())
    }
}

pub open spec fn more_generic_args(g: Src, s: Cur, done: Seq<Type>) -> Step<Seq<Type>>
    decreases s.left(g), 0nat,
{
    if !s.at_delim(g, Delim::Comma) {
        s.ok(done)
    } else {
        let next = generic_arg(g, s.skip());
        more_generic_args(g, s.skip().after(next), done.push(next.out()))
    }
}

/// A type, or a literal for a const parameter.
pub open spec fn generic_arg(g: Src, s: Cur) -> Step<Type>
    decreases s.left(g), 4nat,
{
    if s.err is None && literal_of(g.kind(s.pos)) is Some {
        let value = literal(g, s);
        s.after(value).ok(Type::ConstArg(Box::new(Expr::Literal(value.out()))))
    } else {
        type_of(g, s)
    }
}

/// A trait with its arguments.
pub open spec fn trait_bound(g: Src, s: Cur) -> Step<TraitBound>
    decreases s.left(g), 4nat,
{
    let name = word(g, s);
    let s1 = s.after(name);
    let args = generic_args(g, s1);
    s1.after(args).ok(TraitBound { name: name.out(), args: args.out() })
}

/// A type or a trait in an `impl` header.
pub open spec fn type_ref(g: Src, s: Cur) -> Step<TypeRef>
    decreases s.left(g), 4nat,
{
    let name = word(g, s);
    let s1 = s.after(name);
    let args = generic_args(g, s1);
    s1.after(args).ok(TypeRef { name: name.out(), args: args.out() })
}

/// Traits with `+` between them.
pub open spec fn trait_bounds(g: Src, s: Cur) -> Step<Seq<TraitBound>>
    decreases s.left(g), 6nat,
{
    let first = trait_bound(g, s);
    more_trait_bounds(g, s.after(first), seq![first.out()])
}

pub open spec fn more_trait_bounds(g: Src, s: Cur, done: Seq<TraitBound>) -> Step<Seq<TraitBound>>
    decreases s.left(g), 0nat,
{
    if !s.at_op(g, Op::Plus) {
        s.ok(done)
    } else {
        let next = trait_bound(g, s.skip());
        more_trait_bounds(g, s.skip().after(next), done.push(next.out()))
    }
}

/// `<...>` with parameters, or nothing.
pub open spec fn generic_params(g: Src, s: Cur) -> Step<Seq<GenericParam>>
    decreases s.left(g), 0nat,
{
    if !s.at_op(g, Op::Lt) {
        s.ok(seq![])
    } else {
        let all = generic_param_list(g, s.skip(), seq![]);
        s.skip().after(all).op(g, Op::Gt).ok(all.out())
    }
}

pub open spec fn generic_param_list(g: Src, s: Cur, done: Seq<GenericParam>) -> Step<
    Seq<GenericParam>,
>
    decreases s.left(g), 10nat,
{
    if s.at_op(g, Op::Gt) {
        s.ok(done)
    } else {
        let param = generic_param(g, s);
        let s1 = s.after(param);
        let all = done.push(param.out());
        if s1.at_delim(g, Delim::Comma) {
            generic_param_list(g, s1.skip(), all)
        } else {
            s1.ok(all)
        }
    }
}

pub open spec fn generic_param(g: Src, s: Cur) -> Step<GenericParam>
    decreases s.left(g), 8nat,
{
    if s.err is Some {
        s.stuck()
    } else if s.at_kw(g, Keyword::Const) {
        let name = word(g, s.skip());
        let s1 = s.skip().after(name).delim(g, Delim::Colon);
        let ty = type_of(g, s1);
        s1.after(ty).ok(GenericParam::Const { name: name.out(), ty: ty.out() })
    } else {
        let name = word(g, s);
        let s1 = s.after(name);
        if s1.at_delim(g, Delim::Colon) {
            let bounds = trait_bounds(g, s1.skip());
            s1.skip().after(bounds).ok(
                GenericParam::Type { name: name.out(), bounds: bounds.out() },
            )
        } else {
            s1.ok(GenericParam::Type { name: name.out(), bounds: seq![] })
        }
    }
}

/// `where ...` or nothing.
pub open spec fn where_clause(g: Src, s: Cur) -> Step<Seq<WhereBound>>
    decreases s.left(g), 0nat,
{
    if s.at_kw(g, Keyword::Where) {
        where_bounds(g, s.skip(), seq![])
    } else {
        s.ok(seq![])
    }
}

/// Bounds with commas between them; a comma in front of `{` ends them too.
pub open spec fn where_bounds(g: Src, s: Cur, done: Seq<WhereBound>) -> Step<Seq<WhereBound>>
    decreases s.left(g), 0nat,
{
    if s.err is Some {
        s.stuck()
    } else {
        let name = word(g, s);
        let s1 = s.after(name).delim(g, Delim::Colon);
        let bounds = trait_bounds(g, s1);
        let s2 = s1.after(bounds);
        let all = done.push(WhereBound { name: name.out(), bounds: bounds.out() });
        if !s2.at_delim(g, Delim::Comma) {
            s2.ok(all)
        } else if s2.skip().at_delim(g, Delim::LBrace) {
            s2.skip().ok(all)
        } else {
            where_bounds(g, s2.skip(), all)
        }
    }
}

/// A pattern, or several with `|` between them.
pub open spec fn pattern(g: Src, s: Cur) -> Step<Pattern>
    decreases s.left(g), 4nat,
{
    let first = pattern_single(g, s);
    let s1 = s.after(first);
    if s1.at_op(g, Op::Pipe) {
        let all = more_alternatives(g, s1, seq![first.out()]);
        s1.after(all).ok(Pattern::Or(all.out()))
    } else {
        s1.ok(first.out())
    }
}

pub open spec fn more_alternatives(g: Src, s: Cur, done: Seq<Pattern>) -> Step<Seq<Pattern>>
    decreases s.left(g), 0nat,
{
    if !s.at_op(g, Op::Pipe) {
        s.ok(done)
    } else {
        let next = pattern_single(g, s.skip());
        more_alternatives(g, s.skip().after(next), done.push(next.out()))
    }
}

/// A pattern without `|` at the top.
pub open spec fn pattern_single(g: Src, s: Cur) -> Step<Pattern>
    decreases s.left(g), 2nat,
{
    if s.err is Some {
        s.stuck()
    } else if s.at_name(g, "_"@) {
        s.skip().ok(Pattern::Wildcard)
    } else if s.at_kw(g, Keyword::Mut) {
        let name = word(g, s.skip());
        s.skip().after(name).ok(Pattern::Mut(name.out()))
    } else if s.at_delim(g, Delim::LParen) {
        let parts = pattern_list(g, s.skip());
        s.skip().after(parts).delim(g, Delim::RParen).ok(Pattern::Tuple(parts.out()))
    } else if s.at_delim(g, Delim::LBracket) {
        array_pattern_tail(g, s.skip())
    } else if is_pattern_literal(g.kind(s.pos)) {
        let value = literal(g, s);
        s.after(value).ok(Pattern::Literal(value.out()))
    } else {
        path_pattern(g, s)
    }
}

/// A name, with patterns in parentheses where it is a tuple-like variant.
pub open spec fn path_pattern(g: Src, s: Cur) -> Step<Pattern>
    decreases s.left(g), 0nat,
{
    if s.err is Some {
        s.stuck()
    } else {
        let name = path_name(g, s);
        let s1 = s.after(name);
        if s1.at_delim(g, Delim::LParen) {
            let parts = pattern_list(g, s1.skip());
            s1.skip().after(parts).delim(g, Delim::RParen).ok(
                Pattern::TupleStruct(name.out(), parts.out()),
            )
        } else {
            s1.ok(Pattern::Ident(name.out()))
        }
    }
}

/// Patterns up to `)`.
pub open spec fn pattern_list(g: Src, s: Cur) -> Step<Seq<Pattern>>
    decreases s.left(g), 6nat,
{
    if s.at_delim(g, Delim::RParen) {
        s.ok(seq![])
    } else {
        let first = pattern(g, s);
        more_patterns(g, s.after(first), seq![first.out()])
    }
}

pub open spec fn more_patterns(g: Src, s: Cur, done: Seq<Pattern>) -> Step<Seq<Pattern>>
    decreases s.left(g), 0nat,
{
    if !s.at_delim(g, Delim::Comma) {
        s.ok(done)
    } else if s.skip().at_delim(g, Delim::RParen) {
        s.skip().ok(done)
    } else {
        let next = pattern(g, s.skip());
        more_patterns(g, s.skip().after(next), done.push(next.out()))
    }
}

/// After `[`.
pub open spec fn array_pattern_tail(g: Src, s: Cur) -> Step<Pattern>
    decreases s.left(g), 7nat,
{
    let parts = array_pattern(g, s, seq![]);
    s.after(parts).delim(g, Delim::RBracket).ok(Pattern::Array(parts.out().0, parts.out().1))
}

/// Patterns up to `]`, or up to `..` or `..name`.
pub open spec fn array_pattern(g: Src, s: Cur, done: Seq<Pattern>) -> Step<
    (Seq<Pattern>, Option<Option<Seq<char>>>),
>
    decreases s.left(g), 6nat,
{
    if s.at_delim(g, Delim::RBracket) {
        s.ok((done, None))
    } else if s.at_op(g, Op::DotDot) {
        if s.skip().at_ident(g) {
            let name = word(g, s.skip());
            s.skip().after(name).ok((done, Some(Some(name.out()))))
        } else {
            s.skip().ok((done, Some(None)))
        }
    } else {
        let next = pattern(g, s);
        let s1 = s.after(next);
        let all = done.push(next.out());
        if s1.at_delim(g, Delim::Comma) {
            array_pattern(g, s1.skip(), all)
        } else {
            s1.ok((all, None))
        }
    }
}

} // verus!
