//! Reading types, generic parameters and arguments, literals and patterns.
use crate::ast::{
    Expr, GenericParam, GenericParams, Literal, Pattern, TraitBound, Type, TypeRef, WhereBound,
    WhereClause,
};
use crate::ast_tree::{trees, Syntax};
use crate::grammar::cursor::path_name;
use crate::grammar::types::{
    array_pattern, array_pattern_tail, array_type, dyn_type, fn_type, generic_arg, generic_args,
    generic_param, generic_param_list, generic_params, is_primitive, literal, more_alternatives,
    more_generic_args, more_patterns, more_trait_bounds, more_types, named_type, option_type,
    paren_type, pattern, pattern_list, pattern_single, ref_type, result_type, trait_bound,
    trait_bounds, type_list, type_of, type_ref, where_bounds, where_clause,
};
use crate::parser::stream::{meets, meets_all, none, one, push, ParseResult, Parser};
use crate::text::{concat2, concat3, joined, same_text};
use crate::token::{Delim, Keyword, Op, TokenKind};
use vstd::prelude::*;

verus! {

fn is_primitive_type_name(s: &str) -> (r: bool)
    ensures
        r == is_primitive(s@),
{
    same_text(s, "i8") || same_text(s, "i16") || same_text(s, "i32") || same_text(s, "i64")
        || same_text(s, "i128") || same_text(s, "isize") || same_text(s, "u8") || same_text(
        s,
        "u16",
    ) || same_text(s, "u32") || same_text(s, "u64") || same_text(s, "u128") || same_text(s, "usize")
        || same_text(s, "f32") || same_text(s, "f64") || same_text(s, "bool") || same_text(
        s,
        "char",
    ) || same_text(s, "String") || same_text(s, "str")
}

/// The parts with `::` between them.
pub(super) fn join_path(parts: &Vec<String>) -> (r: String)
    ensures
        r@ == joined(trees(parts@)),
{
    let ghost all = trees(parts@);
    if parts.len() == 0 {
        return String::new();
    }
    let mut name = parts[0].clone();
    assert(all.take(1).len() == 1);
    for i in 1..parts.len()
        invariant
            all == trees(parts@),
            parts.len() >= 1,
            name@ == joined(all.take(i as int)),
    {
        let longer = concat3(name.as_str(), "::", parts[i].as_str());
        proof {
            let part = all.take(i + 1);
            assert(part.drop_last() =~= all.take(i as int));
            assert(part.last() == parts@[i as int]@);
        }
        name = longer;
    }
    assert(all.take(parts@.len() as int) =~= all);
    name
}

impl Parser {
    /// A path, joined into one name.
    pub(super) fn parse_path_name(&mut self) -> (r: ParseResult<String>)
        requires
            old(self).wf(),
        ensures
            old(self).keeps(*final(self)),
            meets(
                path_name(old(self).src(), old(self).cur()),
                final(self).cur(),
                r,
            ),
        decreases old(self).left(), 0nat,
    {
        let first = self.expect_word()?;
        let path = self.parse_further_path_segments(one(first))?;
        Ok(join_path(&path))
    }

    /// Generic arguments in `<...>`, or none.
    pub(super) fn parse_generic_args_opt(&mut self) -> (r: ParseResult<Vec<Type>>)
        requires
            old(self).wf(),
        ensures
            old(self).keeps(*final(self)),
            meets_all(
                generic_args(old(self).src(), old(self).cur()),
                final(self).cur(),
                r,
            ),
        decreases old(self).left(), 0nat,
    {
        if !self.check_op(Op::Lt) {
            return Ok(none());
        }
        self.advance();
        if self.eat_op(Op::Gt) {
            return Ok(none());
        }
        let first = self.parse_generic_arg()?;
        let args = self.parse_more_generic_args(one(first))?;
        self.expect_op(Op::Gt)?;
        Ok(args)
    }

    #[verifier::loop_isolation(false)]
    fn parse_more_generic_args(&mut self, first: Vec<Type>) -> (r: ParseResult<Vec<Type>>)
        requires
            old(self).wf(),
        ensures
            old(self).keeps(*final(self)),
            meets_all(
                more_generic_args(old(self).src(), old(self).cur(), trees(first@)),
                final(self).cur(),
                r,
            ),
        decreases old(self).left(), 0nat,
    {
        let mut args = first;
        let ghost whole = more_generic_args(self.src(), self.cur(), trees(args@));
        let ghost start = self.left();
        loop
            invariant
                old(self).keeps(*self),
                self.left() <= start,
                whole == more_generic_args(self.src(), self.cur(), trees(args@)),
            decreases self.left(),
        {
            proof {
                reveal_with_fuel(more_generic_args, 2);
            }
            if !self.eat_delim(Delim::Comma) {
                return Ok(args);
            }
            let next = self.parse_generic_arg()?;
            push(&mut args, next);
        }
    }

    /// A type, or a literal for a const parameter.
    fn parse_generic_arg(&mut self) -> (r: ParseResult<Type>)
        requires
            old(self).wf(),
        ensures
            old(self).keeps(*final(self)),
            meets(
                generic_arg(old(self).src(), old(self).cur()),
                final(self).cur(),
                r,
            ),
            r is Ok ==> final(self).left() < old(self).left(),
        decreases old(self).left(), 2nat,
    {
        if matches!(self.peek_kind(), TokenKind::Int(_) | TokenKind::IntHex(_)
            | TokenKind::IntOct(_) | TokenKind::IntBin(_) | TokenKind::Float(_)
            | TokenKind::Str(_) | TokenKind::RawStr(_) | TokenKind::Char(_) | TokenKind::Bool(_)
            | TokenKind::Null) {
            let lit = self.parse_literal()?;
            let value = Expr::Literal(lit);
            proof {
                value.unfold();
            }
            let made = Type::ConstArg(Box::new(value));
            proof {
                made.unfold();
            }
            return Ok(made);
        }
        self.parse_type()
    }

    pub(super) fn parse_literal(&mut self) -> (r: ParseResult<Literal>)
        requires
            old(self).wf(),
        ensures
            old(self).keeps(*final(self)),
            meets(
                literal(old(self).src(), old(self).cur()),
                final(self).cur(),
                r,
            ),
            r is Ok ==> final(self).left() < old(self).left(),
        decreases old(self).left(), 0nat,
    {
        let lit = match self.advance() {
            TokenKind::Int(s) => Literal::Int(s),
            TokenKind::IntHex(s) => Literal::IntHex(s),
            TokenKind::IntOct(s) => Literal::IntOct(s),
            TokenKind::IntBin(s) => Literal::IntBin(s),
            TokenKind::Float(s) => Literal::Float(s),
            TokenKind::Str(s) => Literal::Str(s),
            TokenKind::RawStr(s) => Literal::RawStr(s),
            TokenKind::Char(s) => Literal::Char(s),
            TokenKind::Bool(b) => Literal::Bool(b),
            TokenKind::Null => Literal::Null,
            other => {
                let shown = other.show();
                return Err(self.failed(concat2("expected literal, found ", shown.as_str())));
            },
        };
        proof {
            lit.unfold();
        }
        Ok(lit)
    }

    pub(super) fn parse_trait_bound(&mut self) -> (r: ParseResult<TraitBound>)
        requires
            old(self).wf(),
        ensures
            old(self).keeps(*final(self)),
            meets(
                trait_bound(old(self).src(), old(self).cur()),
                final(self).cur(),
                r,
            ),
            r is Ok ==> final(self).left() < old(self).left(),
        decreases old(self).left(), 0nat,
    {
        let name = self.expect_word()?;
        let args = self.parse_generic_args_opt()?;
        let made = TraitBound { name, args };
        proof {
            made.unfold();
        }
        Ok(made)
    }

    pub(super) fn parse_type_ref(&mut self) -> (r: ParseResult<TypeRef>)
        requires
            old(self).wf(),
        ensures
            old(self).keeps(*final(self)),
            meets(
                type_ref(old(self).src(), old(self).cur()),
                final(self).cur(),
                r,
            ),
            r is Ok ==> final(self).left() < old(self).left(),
        decreases old(self).left(), 0nat,
    {
        let name = self.expect_word()?;
        let args = self.parse_generic_args_opt()?;
        let made = TypeRef { name, args };
        proof {
            made.unfold();
        }
        Ok(made)
    }

    /// Traits with `+` between them.
    #[verifier::loop_isolation(false)]
    pub(super) fn parse_trait_bounds(&mut self) -> (r: ParseResult<Vec<TraitBound>>)
        requires
            old(self).wf(),
        ensures
            old(self).keeps(*final(self)),
            meets_all(
                trait_bounds(old(self).src(), old(self).cur()),
                final(self).cur(),
                r,
            ),
            r is Ok ==> final(self).left() < old(self).left(),
        decreases old(self).left(), 1nat,
    {
        let first = self.parse_trait_bound()?;
        let mut bounds = one(first);
        let ghost whole = more_trait_bounds(self.src(), self.cur(), trees(bounds@));
        let ghost start = self.left();
        loop
            invariant
                old(self).keeps(*self),
                self.left() <= start,
                whole == more_trait_bounds(self.src(), self.cur(), trees(bounds@)),
            decreases self.left(),
        {
            proof {
                reveal_with_fuel(more_trait_bounds, 2);
            }
            if !self.eat_op(Op::Plus) {
                return Ok(bounds);
            }
            let next = self.parse_trait_bound()?;
            push(&mut bounds, next);
        }
    }

    pub(super) fn parse_generic_params(&mut self) -> (r: ParseResult<GenericParams>)
        requires
            old(self).wf(),
        ensures
            old(self).keeps(*final(self)),
            meets(
                generic_params(old(self).src(), old(self).cur()),
                final(self).cur(),
                r,
            ),
        decreases old(self).left(), 0nat,
    {
        if !self.check_op(Op::Lt) {
            let made = GenericParams(none());
            proof {
                made.unfold();
            }
            return Ok(made);
        }
        self.advance();
        let params = self.parse_generic_param_list()?;
        self.expect_op(Op::Gt)?;
        let made = GenericParams(params);
        proof {
            made.unfold();
        }
        Ok(made)
    }

    #[verifier::loop_isolation(false)]
    fn parse_generic_param_list(&mut self) -> (r: ParseResult<Vec<GenericParam>>)
        requires
            old(self).wf(),
        ensures
            old(self).keeps(*final(self)),
            meets_all(
                generic_param_list(old(self).src(), old(self).cur(), seq![]),
                final(self).cur(),
                r,
            ),
        decreases old(self).left(), 2nat,
    {
        let mut params = none();
        let ghost whole = generic_param_list(self.src(), self.cur(), trees(params@));
        let ghost start = self.left();
        loop
            invariant
                old(self).keeps(*self),
                self.left() <= start,
                whole == generic_param_list(self.src(), self.cur(), trees(params@)),
            decreases self.left(),
        {
            proof {
                reveal_with_fuel(generic_param_list, 2);
            }
            if self.check_op(Op::Gt) {
                return Ok(params);
            }
            let param = self.parse_generic_param()?;
            push(&mut params, param);
            if !self.eat_delim(Delim::Comma) {
                return Ok(params);
            }
        }
    }

    fn parse_generic_param(&mut self) -> (r: ParseResult<GenericParam>)
        requires
            old(self).wf(),
        ensures
            old(self).keeps(*final(self)),
            meets(
                generic_param(old(self).src(), old(self).cur()),
                final(self).cur(),
                r,
            ),
            r is Ok ==> final(self).left() < old(self).left(),
        decreases old(self).left(), 1nat,
    {
        if self.eat_kw(Keyword::Const) {
            let name = self.expect_word()?;
            self.expect_delim(Delim::Colon)?;
            let ty = self.parse_type()?;
            let made = GenericParam::Const { name, ty };
            proof {
                made.unfold();
            }
            return Ok(made);
        }
        let name = self.expect_word()?;
        let bounds = if self.eat_delim(Delim::Colon) {
            self.parse_trait_bounds()?
        } else {
            none()
        };
        let made = GenericParam::Type { name, bounds };
        proof {
            made.unfold();
        }
        Ok(made)
    }

    pub(super) fn parse_where_clause(&mut self) -> (r: ParseResult<WhereClause>)
        requires
            old(self).wf(),
        ensures
            old(self).keeps(*final(self)),
            meets(
                where_clause(old(self).src(), old(self).cur()),
                final(self).cur(),
                r,
            ),
        decreases old(self).left(), 0nat,
    {
        if !self.eat_kw(Keyword::Where) {
            let made = WhereClause(none());
            proof {
                made.unfold();
            }
            return Ok(made);
        }
        let bounds = self.parse_where_bounds()?;
        let made = WhereClause(bounds);
        proof {
            made.unfold();
        }
        Ok(made)
    }

    #[verifier::loop_isolation(false)]
    fn parse_where_bounds(&mut self) -> (r: ParseResult<Vec<WhereBound>>)
        requires
            old(self).wf(),
        ensures
            old(self).keeps(*final(self)),
            meets_all(
                where_bounds(old(self).src(), old(self).cur(), seq![]),
                final(self).cur(),
                r,
            ),
            r is Ok ==> final(self).left() < old(self).left(),
        decreases old(self).left(), 0nat,
    {
        let mut all = none();
        let ghost whole = where_bounds(self.src(), self.cur(), trees(all@));
        let ghost start = self.left();
        loop
            invariant
                old(self).keeps(*self),
                self.left() <= start,
                whole == where_bounds(self.src(), self.cur(), trees(all@)),
            decreases self.left(),
        {
            proof {
                reveal_with_fuel(where_bounds, 2);
            }
            let name = self.expect_word()?;
            self.expect_delim(Delim::Colon)?;
            let bounds = self.parse_trait_bounds()?;
            let bound = WhereBound { name, bounds };
            proof {
                bound.unfold();
            }
            push(&mut all, bound);
            if !self.eat_delim(Delim::Comma) {
                return Ok(all);
            }
            if self.check_delim(Delim::LBrace) {
                return Ok(all);
            }
        }
    }

    /// A type.
    pub fn parse_type(&mut self) -> (r: ParseResult<Type>)
        requires
            old(self).wf(),
        ensures
            old(self).keeps(*final(self)),
            meets(
                type_of(old(self).src(), old(self).cur()),
                final(self).cur(),
                r,
            ),
            r is Ok ==> final(self).left() < old(self).left(),
        decreases old(self).left(), 1nat,
    {
        if self.eat_delim(Delim::LParen) {
            return self.parse_paren_type();
        }
        if self.eat_op(Op::Not) {
            let made = Type::Never;
            proof {
                made.unfold();
            }
            return Ok(made);
        }
        if self.eat_delim(Delim::LBracket) {
            return self.parse_array_type();
        }
        if self.eat_op(Op::Amp) {
            return self.parse_ref_type();
        }
        if self.eat_kw(Keyword::Borrow) {
            return self.parse_ref_type();
        }
        if self.eat_kw(Keyword::Dyn) {
            return self.parse_dyn_type();
        }
        if self.eat_kw(Keyword::Fn) {
            return self.parse_fn_type();
        }
        if self.eat_kw(Keyword::Option) {
            return self.parse_option_type();
        }
        if self.eat_kw(Keyword::Result) {
            return self.parse_result_type();
        }
        self.parse_named_type()
    }

    /// After `(`: the unit type, a type in parentheses, or a tuple type, told by a comma.
    fn parse_paren_type(&mut self) -> (r: ParseResult<Type>)
        requires
            old(self).wf(),
        ensures
            old(self).keeps(*final(self)),
            meets(
                paren_type(old(self).src(), old(self).cur()),
                final(self).cur(),
                r,
            ),
            r is Ok ==> final(self).left() < old(self).left(),
        decreases old(self).left(), 2nat,
    {
        if self.eat_delim(Delim::RParen) {
            let made = Type::Unit;
            proof {
                made.unfold();
            }
            return Ok(made);
        }
        let first = self.parse_type()?;
        if self.check_delim(Delim::Comma) {
            let types = self.parse_more_types(Delim::RParen, one(first))?;
            self.expect_delim(Delim::RParen)?;
            let made = Type::Tuple(types);
            proof {
                made.unfold();
            }
            return Ok(made);
        }
        self.expect_delim(Delim::RParen)?;
        Ok(first)
    }

    /// Types up to `close`, with commas between them.
    pub(super) fn parse_type_list(&mut self, close: Delim) -> (r: ParseResult<Vec<Type>>)
        requires
            old(self).wf(),
        ensures
            old(self).keeps(*final(self)),
            meets_all(
                type_list(old(self).src(), old(self).cur(), close),
                final(self).cur(),
                r,
            ),
        decreases old(self).left(), 2nat,
    {
        if self.check_delim(close) {
            return Ok(none());
        }
        let first = self.parse_type()?;
        self.parse_more_types(close, one(first))
    }

    #[verifier::loop_isolation(false)]
    fn parse_more_types(&mut self, close: Delim, first: Vec<Type>) -> (r: ParseResult<Vec<Type>>)
        requires
            old(self).wf(),
        ensures
            old(self).keeps(*final(self)),
            meets_all(
                more_types(old(self).src(), old(self).cur(), close, trees(first@)),
                final(self).cur(),
                r,
            ),
        decreases old(self).left(), 0nat,
    {
        let mut types = first;
        let ghost whole = more_types(self.src(), self.cur(), close, trees(types@));
        let ghost start = self.left();
        loop
            invariant
                old(self).keeps(*self),
                self.left() <= start,
                whole == more_types(self.src(), self.cur(), close, trees(types@)),
            decreases self.left(),
        {
            proof {
                reveal_with_fuel(more_types, 2);
            }
            if !self.eat_delim(Delim::Comma) {
                return Ok(types);
            }
            if self.check_delim(close) {
                return Ok(types);
            }
            let next = self.parse_type()?;
            push(&mut types, next);
        }
    }

    /// After `[`.
    fn parse_array_type(&mut self) -> (r: ParseResult<Type>)
        requires
            old(self).wf(),
        ensures
            old(self).keeps(*final(self)),
            meets(
                array_type(old(self).src(), old(self).cur()),
                final(self).cur(),
                r,
            ),
            r is Ok ==> final(self).left() < old(self).left(),
        decreases old(self).left(), 2nat,
    {
        let elem = self.parse_type()?;
        if self.eat_delim(Delim::Semi) {
            let size = self.parse_expr(0)?;
            self.expect_delim(Delim::RBracket)?;
            let made = Type::Array(Box::new(elem), Some(Box::new(size)));
            proof {
                made.unfold();
            }
            return Ok(made);
        }
        self.expect_delim(Delim::RBracket)?;
        let made = Type::Array(Box::new(elem), None);
        proof {
            made.unfold();
        }
        Ok(made)
    }

    /// After `&` or `borrow`.
    fn parse_ref_type(&mut self) -> (r: ParseResult<Type>)
        requires
            old(self).wf(),
        ensures
            old(self).keeps(*final(self)),
            meets(
                ref_type(old(self).src(), old(self).cur()),
                final(self).cur(),
                r,
            ),
            r is Ok ==> final(self).left() < old(self).left(),
        decreases old(self).left(), 2nat,
    {
        let mutable = self.eat_kw(Keyword::Mut);
        let inner = self.parse_type()?;
        let made = Type::Ref { lifetime: None, mutable, inner: Box::new(inner) };
        proof {
            made.unfold();
        }
        Ok(made)
    }

    /// After `dyn`.
    fn parse_dyn_type(&mut self) -> (r: ParseResult<Type>)
        requires
            old(self).wf(),
        ensures
            old(self).keeps(*final(self)),
            meets(
                dyn_type(old(self).src(), old(self).cur()),
                final(self).cur(),
                r,
            ),
            r is Ok ==> final(self).left() < old(self).left(),
        decreases old(self).left(), 2nat,
    {
        let name = self.expect_word()?;
        let args = self.parse_generic_args_opt()?;
        let made = Type::Dyn(name, args);
        proof {
            made.unfold();
        }
        Ok(made)
    }

    /// After `fn`.
    fn parse_fn_type(&mut self) -> (r: ParseResult<Type>)
        requires
            old(self).wf(),
        ensures
            old(self).keeps(*final(self)),
            meets(
                fn_type(old(self).src(), old(self).cur()),
                final(self).cur(),
                r,
            ),
            r is Ok ==> final(self).left() < old(self).left(),
        decreases old(self).left(), 2nat,
    {
        self.expect_delim(Delim::LParen)?;
        let params = self.parse_type_list(Delim::RParen)?;
        self.expect_delim(Delim::RParen)?;
        self.expect_op(Op::Arrow)?;
        let ret = self.parse_type()?;
        let made = Type::Fn(params, Box::new(ret));
        proof {
            made.unfold();
        }
        Ok(made)
    }

    /// After `Option`.
    fn parse_option_type(&mut self) -> (r: ParseResult<Type>)
        requires
            old(self).wf(),
        ensures
            old(self).keeps(*final(self)),
            meets(
                option_type(old(self).src(), old(self).cur()),
                final(self).cur(),
                r,
            ),
            r is Ok ==> final(self).left() < old(self).left(),
        decreases old(self).left(), 2nat,
    {
        self.expect_op(Op::Lt)?;
        let inner = self.parse_type()?;
        self.expect_op(Op::Gt)?;
        let made = Type::Option(Box::new(inner));
        proof {
            made.unfold();
        }
        Ok(made)
    }

    /// After `Result`.
    fn parse_result_type(&mut self) -> (r: ParseResult<Type>)
        requires
            old(self).wf(),
        ensures
            old(self).keeps(*final(self)),
            meets(
                result_type(old(self).src(), old(self).cur()),
                final(self).cur(),
                r,
            ),
            r is Ok ==> final(self).left() < old(self).left(),
        decreases old(self).left(), 2nat,
    {
        self.expect_op(Op::Lt)?;
        let good = self.parse_type()?;
        self.expect_delim(Delim::Comma)?;
        let bad = self.parse_type()?;
        self.expect_op(Op::Gt)?;
        let made = Type::Result(Box::new(good), Box::new(bad));
        proof {
            made.unfold();
        }
        Ok(made)
    }

    /// A primitive, or a name with its generic arguments.
    fn parse_named_type(&mut self) -> (r: ParseResult<Type>)
        requires
            old(self).wf(),
        ensures
            old(self).keeps(*final(self)),
            meets(
                named_type(old(self).src(), old(self).cur()),
                final(self).cur(),
                r,
            ),
            r is Ok ==> final(self).left() < old(self).left(),
        decreases old(self).left(), 0nat,
    {
        let name = self.parse_path_name()?;
        if is_primitive_type_name(name.as_str()) {
            let made = Type::Primitive(name);
            proof {
                made.unfold();
            }
            return Ok(made);
        }
        let args = self.parse_generic_args_opt()?;
        let made = Type::Named(name, args);
        proof {
            made.unfold();
        }
        Ok(made)
    }

    pub(super) fn parse_pattern(&mut self) -> (r: ParseResult<Pattern>)
        requires
            old(self).wf(),
        ensures
            old(self).keeps(*final(self)),
            meets(
                pattern(old(self).src(), old(self).cur()),
                final(self).cur(),
                r,
            ),
            r is Ok ==> final(self).left() < old(self).left(),
        decreases old(self).left(), 1nat,
    {
        let first = self.parse_pattern_single()?;
        if self.check_op(Op::Pipe) {
            let patterns = self.parse_more_alternatives(one(first))?;
            let made = Pattern::Or(patterns);
            proof {
                made.unfold();
            }
            return Ok(made);
        }
        Ok(first)
    }

    #[verifier::loop_isolation(false)]
    fn parse_more_alternatives(&mut self, first: Vec<Pattern>) -> (r: ParseResult<Vec<Pattern>>)
        requires
            old(self).wf(),
        ensures
            old(self).keeps(*final(self)),
            meets_all(
                more_alternatives(old(self).src(), old(self).cur(), trees(first@)),
                final(self).cur(),
                r,
            ),
        decreases old(self).left(), 0nat,
    {
        let mut patterns = first;
        let ghost whole = more_alternatives(self.src(), self.cur(), trees(patterns@));
        let ghost start = self.left();
        loop
            invariant
                old(self).keeps(*self),
                self.left() <= start,
                whole == more_alternatives(self.src(), self.cur(), trees(patterns@)),
            decreases self.left(),
        {
            proof {
                reveal_with_fuel(more_alternatives, 2);
            }
            if !self.eat_op(Op::Pipe) {
                return Ok(patterns);
            }
            let next = self.parse_pattern_single()?;
            push(&mut patterns, next);
        }
    }

    pub(super) fn parse_pattern_single(&mut self) -> (r: ParseResult<Pattern>)
        requires
            old(self).wf(),
        ensures
            old(self).keeps(*final(self)),
            meets(
                pattern_single(old(self).src(), old(self).cur()),
                final(self).cur(),
                r,
            ),
            r is Ok ==> final(self).left() < old(self).left(),
        decreases old(self).left(), 0nat,
    {
        if self.check_name("_") {
            self.advance();
            let made = Pattern::Wildcard;
            proof {
                made.unfold();
            }
            return Ok(made);
        }
        if self.eat_kw(Keyword::Mut) {
            let name = self.expect_word()?;
            let made = Pattern::Mut(name);
            proof {
                made.unfold();
            }
            return Ok(made);
        }
        if self.eat_delim(Delim::LParen) {
            let patterns = self.parse_pattern_list()?;
            self.expect_delim(Delim::RParen)?;
            let made = Pattern::Tuple(patterns);
            proof {
                made.unfold();
            }
            return Ok(made);
        }
        if self.eat_delim(Delim::LBracket) {
            return self.parse_array_pattern();
        }
        if matches!(self.peek_kind(), TokenKind::Int(_) | TokenKind::Float(_) | TokenKind::Str(_)
            | TokenKind::Char(_) | TokenKind::Bool(_) | TokenKind::IntHex(_)
            | TokenKind::IntOct(_) | TokenKind::IntBin(_)) {
            let lit = self.parse_literal()?;
            let made = Pattern::Literal(lit);
            proof {
                made.unfold();
            }
            return Ok(made);
        }
        let name = self.parse_path_name()?;
        if self.eat_delim(Delim::LParen) {
            let patterns = self.parse_pattern_list()?;
            self.expect_delim(Delim::RParen)?;
            let made = Pattern::TupleStruct(name, patterns);
            proof {
                made.unfold();
            }
            return Ok(made);
        }
        let made = Pattern::Ident(name);
        proof {
            made.unfold();
        }
        Ok(made)
    }

    /// Patterns up to `)`.
    #[verifier::loop_isolation(false)]
    fn parse_pattern_list(&mut self) -> (r: ParseResult<Vec<Pattern>>)
        requires
            old(self).wf(),
        ensures
            old(self).keeps(*final(self)),
            meets_all(
                pattern_list(old(self).src(), old(self).cur()),
                final(self).cur(),
                r,
            ),
        decreases old(self).left(), 2nat,
    {
        if self.check_delim(Delim::RParen) {
            return Ok(none());
        }
        let first = self.parse_pattern()?;
        let mut patterns = one(first);
        let ghost whole = more_patterns(self.src(), self.cur(), trees(patterns@));
        let ghost start = self.left();
        loop
            invariant
                old(self).keeps(*self),
                self.left() <= start,
                whole == more_patterns(self.src(), self.cur(), trees(patterns@)),
            decreases self.left(),
        {
            proof {
                reveal_with_fuel(more_patterns, 2);
            }
            if !self.eat_delim(Delim::Comma) {
                return Ok(patterns);
            }
            if self.check_delim(Delim::RParen) {
                return Ok(patterns);
            }
            let next = self.parse_pattern()?;
            push(&mut patterns, next);
        }
    }

    /// After `[`: patterns up to `]`, or up to `..` or `..name`.
    #[verifier::loop_isolation(false)]
    fn parse_array_pattern(&mut self) -> (r: ParseResult<Pattern>)
        requires
            old(self).wf(),
        ensures
            old(self).keeps(*final(self)),
            meets(
                array_pattern_tail(old(self).src(), old(self).cur()),
                final(self).cur(),
                r,
            ),
            r is Ok ==> final(self).left() < old(self).left(),
        decreases old(self).left(), 2nat,
    {
        let mut patterns = none();
        let ghost whole = array_pattern(self.src(), self.cur(), trees(patterns@));
        let ghost start = self.left();
        let mut rest: Option<Option<String>> = None;
        loop
            invariant
                old(self).keeps(*self),
                self.left() <= start,
                whole == array_pattern(self.src(), self.cur(), trees(patterns@)),
                rest is None,
            decreases self.left(),
        {
            proof {
                reveal_with_fuel(array_pattern, 2);
            }
            if self.check_delim(Delim::RBracket) {
                break;
            }
            if self.eat_op(Op::DotDot) {
                let bind = if self.check_ident() {
                    Some(self.expect_word()?)
                } else {
                    None
                };
                rest = Some(bind);
                break;
            }
            let next = self.parse_pattern()?;
            push(&mut patterns, next);
            if !self.eat_delim(Delim::Comma) {
                break;
            }
        }
        self.expect_delim(Delim::RBracket)?;
        let made = Pattern::Array(patterns, rest);
        proof {
            made.unfold();
        }
        Ok(made)
    }
}

} // verus!
