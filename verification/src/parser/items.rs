//! Reading items and whole programs.
use crate::ast::{
    ActorDecl, ActorItem, Attribute, ConstDecl, EnumDecl, EnumVariant, Expr, FieldConstraint,
    FieldDecl, FnDecl, ImplDecl, ImplItem, IndexDecl, Item, ItemKind, ModDecl, OnHandler,
    OwnershipMod, Param, Program, PropDecl, SchemaDecl, ServerDecl, ServerItem, StateDecl,
    StaticDecl, Stmt, StructBody, StructDecl, TableDecl, TableField, TargetKind, TraitDecl,
    TraitItem, Type, TypeAliasDecl, UiDecl, UiItem, UsePath, Visibility,
};
use crate::ast_tree::{trees, Syntax};
use crate::grammar::cursor::Src;
use crate::grammar::items::{
    actor_items, actor_tail, attr, attrs, const_tail, constraints, domain_item_kind, enum_tail,
    field_list, fn_decl, impl_items, impl_tail, import_path, import_tail, index_tail, is_item_start,
    item, item_kind, item_list, items_of, mod_tail, more_names, more_params, on_handler, param,
    param_list, program, prop_tail, resume, schema_tail, server_items, server_tail, state_tail,
    static_tail, struct_body, struct_tail, table_fields, table_tail, target_items, target_kind,
    trait_items, trait_tail, type_alias_tail, ui_item, ui_items, ui_tail, use_path, use_tail,
    valued_tail, variant, variant_list, versions, visibility,
};
use crate::grammar::recovery::{failing_item_moves, resume_moves};
use crate::parser::stream::{
    failures, meets, meets_all, none, one, push, without_docs, ParseError, ParseResult, Parser,
};
use crate::text::{same_text, u64_or_zero};
use crate::token::{Delim, Keyword, Op, Token, TokenKind};
use vstd::prelude::*;

verus! {

/// The tokens that begin an item.
pub(super) fn item_start_keyword(kind: &TokenKind) -> (r: bool)
    ensures
        r == is_item_start(*kind),
{
    matches!(
        kind,
        TokenKind::Keyword(Keyword::Fn) | TokenKind::Keyword(Keyword::Async)
            | TokenKind::Keyword(Keyword::Struct) | TokenKind::Keyword(Keyword::Enum)
            | TokenKind::Keyword(Keyword::Trait) | TokenKind::Keyword(Keyword::Impl)
            | TokenKind::Keyword(Keyword::Mod) | TokenKind::Keyword(Keyword::Use)
            | TokenKind::Keyword(Keyword::Import) | TokenKind::Keyword(Keyword::Const)
            | TokenKind::Keyword(Keyword::Static) | TokenKind::Keyword(Keyword::Type)
            | TokenKind::Keyword(Keyword::Table) | TokenKind::Keyword(Keyword::Index)
            | TokenKind::Keyword(Keyword::Schema) | TokenKind::Keyword(Keyword::Ui)
            | TokenKind::Keyword(Keyword::Component) | TokenKind::Keyword(Keyword::Server)
            | TokenKind::Keyword(Keyword::Actor) | TokenKind::Keyword(Keyword::Pub)
            | TokenKind::Op(Op::At) | TokenKind::Op(Op::Hash)
    )
}

/// The items among statements, in order.
fn only_items(stmts: Vec<Stmt>) -> (r: Vec<Item>)
    ensures
        trees(r@) == items_of(trees(stmts@)),
{
    let ghost all = stmts@;
    let ghost mut n: int = 0;
    let mut rest = stmts;
    let mut items: Vec<Item> = none();
    while rest.len() > 0
        invariant
            0 <= n,
            n + rest@.len() == all.len(),
            rest@ == all.skip(n),
            trees(items@) == items_of(trees(all.take(n))),
        decreases rest@.len(),
    {
        let s = rest.remove(0);
        proof {
            s.unfold();
            let more = trees(all.take(n + 1));
            assert(more.last() == s.tree());
            assert(more.drop_last() =~= trees(all.take(n)));
            n = n + 1;
        }
        if let Stmt::Item(i) = s {
            push(&mut items, *i);
        }
        assert(rest@ =~= all.skip(n));
    }
    assert(all.take(n) =~= all);
    items
}

/// Reads a stream of tokens: the items, and the failures in the order in which they showed.
pub fn parse_program(tokens: Vec<Token>) -> (r: (Program, Vec<ParseError>))
    requires
        (Src { toks: without_docs(tokens@), lit: true }).ends_after(0),
    ensures
        (r.0.tree(), failures(r.1@)) == program(
            Src { toks: without_docs(tokens@), lit: true },
            0,
            seq![],
            seq![],
        ),
{
    let mut p = Parser::new(tokens);
    let all = p.parse_program();
    (all, p.into_errors())
}

impl Parser {
    /// All the items up to the end of the stream. What cannot be read is noted, and reading
    /// goes on at the next item.
    pub fn parse_program(&mut self) -> (r: Program)
        requires
            old(self).wf(),
        ensures
            final(self).wf(),
            final(self).src() == old(self).src(),
            final(self).cur().at_end(final(self).src()),
            (r.tree(), final(self).noted()) == program(
                old(self).src(),
                old(self).cur().pos,
                seq![],
                old(self).noted(),
            ),
    {
        let mut items = none();
        let ghost whole = program(self.src(), self.cur().pos, trees(items@), self.noted());
        while !self.at_end()
            invariant
                self.wf(),
                self.src() == old(self).src(),
                whole == program(self.src(), self.cur().pos, trees(items@), self.noted()),
            decreases self.left(),
        {
            let ghost g = self.src();
            let ghost p = self.cur().pos;
            match self.parse_item() {
                Ok(i) => push(&mut items, i),
                Err(e) => {
                    let ghost failed = self.cur().pos;
                    self.note(e);
                    self.synchronize_item();
                    proof {
                        if is_item_start(g.kind(p)) {
                            failing_item_moves(g, p);
                        }
                        resume_moves(g, failed);
                    }
                },
            }
        }
        let made = Program { items };
        proof {
            made.unfold();
        }
        made
    }

    /// Goes on past the next `;`, or at the next token that begins an item, or at the end.
    fn synchronize_item(&mut self)
        requires
            old(self).wf(),
        ensures
            old(self).keeps(*final(self)),
            final(self).cur().pos == resume(old(self).src(), old(self).cur().pos),
    {
        while !self.at_end()
            invariant
                old(self).keeps(*self),
                resume(self.src(), self.cur().pos) == resume(old(self).src(), old(self).cur().pos),
            decreases self.left(),
        {
            if self.check_delim(Delim::Semi) {
                self.advance();
                return;
            }
            if item_start_keyword(self.peek_kind()) {
                return;
            }
            self.advance();
        }
    }

    /// Any number of `@name(args)`.
    #[verifier::loop_isolation(false)]
    fn parse_attrs(&mut self) -> (r: ParseResult<Vec<Attribute>>)
        requires
            old(self).wf(),
        ensures
            old(self).keeps(*final(self)),
            meets_all(
                attrs(old(self).src(), old(self).cur(), seq![]),
                final(self).cur(),
                r,
            ),
        decreases old(self).left(), 0nat,
    {
        let mut all = none();
        let ghost whole = attrs(self.src(), self.cur(), trees(all@));
        let ghost start = self.left();
        loop
            invariant
                old(self).keeps(*self),
                self.left() <= start,
                whole == attrs(self.src(), self.cur(), trees(all@)),
            decreases self.left(),
        {
            proof {
                reveal_with_fuel(attrs, 2);
            }
            if !self.eat_op(Op::At) {
                return Ok(all);
            }
            let a = self.parse_attr()?;
            push(&mut all, a);
        }
    }

    /// After `@`.
    fn parse_attr(&mut self) -> (r: ParseResult<Attribute>)
        requires
            old(self).wf(),
        ensures
            old(self).keeps(*final(self)),
            meets(
                attr(old(self).src(), old(self).cur()),
                final(self).cur(),
                r,
            ),
            r is Ok ==> final(self).left() < old(self).left(),
        decreases old(self).left(), 0nat,
    {
        let name = self.expect_word()?;
        let mut args = none();
        if self.eat_delim(Delim::LParen) {
            args = self.parse_expr_list(Delim::RParen)?;
            self.expect_delim(Delim::RParen)?;
        }
        let made = Attribute { name, args };
        proof {
            made.unfold();
        }
        Ok(made)
    }

    /// `pub`, `pub(package)` or nothing.
    fn parse_visibility(&mut self) -> (r: ParseResult<Visibility>)
        requires
            old(self).wf(),
        ensures
            old(self).keeps(*final(self)),
            meets(
                visibility(old(self).src(), old(self).cur()),
                final(self).cur(),
                r,
            ),
    {
        if !self.eat_kw(Keyword::Pub) {
            return Ok(Visibility::Private);
        }
        if !self.eat_delim(Delim::LParen) {
            return Ok(Visibility::Pub);
        }
        let word = self.expect_ident()?;
        self.expect_delim(Delim::RParen)?;
        if same_text(word.as_str(), "package") {
            return Ok(Visibility::PubPackage);
        }
        self.error("expected `package` inside pub(...)")
    }

    /// An item with its attributes and visibility.
    pub(super) fn parse_item(&mut self) -> (r: ParseResult<Item>)
        requires
            old(self).wf(),
        ensures
            old(self).keeps(*final(self)),
            meets(
                item(old(self).src(), old(self).cur()),
                final(self).cur(),
                r,
            ),
            r is Ok ==> final(self).left() < old(self).left(),
        decreases old(self).left(), 3nat,
    {
        let span = self.here();
        let attrs = self.parse_attrs()?;
        let visibility = self.parse_visibility()?;
        let kind = self.parse_item_kind()?;
        let made = Item { attrs, visibility, kind, span };
        proof {
            made.unfold();
        }
        Ok(made)
    }

    /// What an item declares, told by its first token.
    #[verifier::rlimit(60)]
    fn parse_item_kind(&mut self) -> (r: ParseResult<ItemKind>)
        requires
            old(self).wf(),
        ensures
            old(self).keeps(*final(self)),
            meets(
                item_kind(old(self).src(), old(self).cur()),
                final(self).cur(),
                r,
            ),
            r is Ok ==> final(self).left() < old(self).left(),
        decreases old(self).left(), 2nat,
    {
        if self.eat_op(Op::Hash) {
            let (kind, items) = self.parse_target_items()?;
            let made = ItemKind::TargetBlock(kind, items);
            proof {
                made.unfold();
            }
            return Ok(made);
        }
        let k = match self.peek_kind() {
            TokenKind::Keyword(k) => *k,
            _ => return self.unexpected("expected item, found "),
        };
        match k {
            Keyword::Async | Keyword::Fn => {
                let d = self.parse_fn_decl()?;
                let made = ItemKind::Fn(d);
                proof {
                    made.unfold();
                }
                return Ok(made);
            },
            Keyword::Struct => {
                let d = self.parse_struct_decl()?;
                let made = ItemKind::Struct(d);
                proof {
                    made.unfold();
                }
                return Ok(made);
            },
            Keyword::Enum => {
                let d = self.parse_enum_decl()?;
                let made = ItemKind::Enum(d);
                proof {
                    made.unfold();
                }
                return Ok(made);
            },
            Keyword::Trait => {
                let d = self.parse_trait_decl()?;
                let made = ItemKind::Trait(d);
                proof {
                    made.unfold();
                }
                return Ok(made);
            },
            Keyword::Impl => {
                let d = self.parse_impl_decl()?;
                let made = ItemKind::Impl(d);
                proof {
                    made.unfold();
                }
                return Ok(made);
            },
            Keyword::Mod => {
                let d = self.parse_mod_decl()?;
                let made = ItemKind::Mod(d);
                proof {
                    made.unfold();
                }
                return Ok(made);
            },
            Keyword::Use => {
                let d = self.parse_use_decl()?;
                let made = ItemKind::Use(d);
                proof {
                    made.unfold();
                }
                return Ok(made);
            },
            Keyword::Import => {
                let d = self.parse_import_decl()?;
                let made = ItemKind::Import(d);
                proof {
                    made.unfold();
                }
                return Ok(made);
            },
            Keyword::Const => {
                let d = self.parse_const_decl()?;
                let made = ItemKind::Const(d);
                proof {
                    made.unfold();
                }
                return Ok(made);
            },
            Keyword::Static => {
                let d = self.parse_static_decl()?;
                let made = ItemKind::Static(d);
                proof {
                    made.unfold();
                }
                return Ok(made);
            },
            _ => self.parse_domain_item_kind(k),
        }
    }

    /// The item kinds beyond the core ones, at the keyword `k`.
    #[verifier::rlimit(60)]
    fn parse_domain_item_kind(&mut self, k: Keyword) -> (r: ParseResult<ItemKind>)
        requires
            old(self).wf(),
            old(self).cur().at_kw(old(self).src(), k),
        ensures
            old(self).keeps(*final(self)),
            meets(domain_item_kind(old(self).src(), old(self).cur(), k), final(self).cur(), r),
            r is Ok ==> final(self).left() < old(self).left(),
        decreases old(self).left(), 1nat,
    {
        match k {
            Keyword::Type => {
                let d = self.parse_type_alias()?;
                let made = ItemKind::TypeAlias(d);
                proof {
                    made.unfold();
                }
                return Ok(made);
            },
            Keyword::Table => {
                let d = self.parse_table_decl()?;
                let made = ItemKind::Table(d);
                proof {
                    made.unfold();
                }
                return Ok(made);
            },
            Keyword::Index => {
                let d = self.parse_index_decl()?;
                let made = ItemKind::Index(d);
                proof {
                    made.unfold();
                }
                return Ok(made);
            },
            Keyword::Schema => {
                let d = self.parse_schema_decl()?;
                let made = ItemKind::Schema(d);
                proof {
                    made.unfold();
                }
                return Ok(made);
            },
            Keyword::Ui => {
                self.advance();
                let d = self.parse_ui_body()?;
                let made = ItemKind::Ui(d);
                proof {
                    made.unfold();
                }
                return Ok(made);
            },
            Keyword::Component => {
                self.advance();
                let d = self.parse_ui_body()?;
                let made = ItemKind::Component(d);
                proof {
                    made.unfold();
                }
                return Ok(made);
            },
            Keyword::Server => {
                let d = self.parse_server_decl()?;
                let made = ItemKind::Server(d);
                proof {
                    made.unfold();
                }
                return Ok(made);
            },
            Keyword::Actor => {
                let d = self.parse_actor_decl()?;
                let made = ItemKind::Actor(d);
                proof {
                    made.unfold();
                }
                return Ok(made);
            },
            _ => self.unexpected("expected item, found "),
        }
    }

    /// After `#`: `target(kind)`.
    fn parse_target_kind(&mut self) -> (r: ParseResult<TargetKind>)
        requires
            old(self).wf(),
        ensures
            old(self).keeps(*final(self)),
            meets(
                target_kind(old(self).src(), old(self).cur()),
                final(self).cur(),
                r,
            ),
            r is Ok ==> final(self).left() < old(self).left(),
    {
        let name = self.expect_word()?;
        if !same_text(name.as_str(), "target") {
            return self.error("expected `target` after `#`");
        }
        self.expect_delim(Delim::LParen)?;
        let word = self.expect_word()?;
        let kind = if same_text(word.as_str(), "native") {
            TargetKind::Native
        } else if same_text(word.as_str(), "wasm") {
            TargetKind::Wasm
        } else if same_text(word.as_str(), "all") {
            TargetKind::All
        } else {
            return self.error("expected native|wasm|all inside #target(...)");
        };
        self.expect_delim(Delim::RParen)?;
        Ok(kind)
    }

    /// After `#`: `target(kind) { items }`.
    pub(super) fn parse_target_items(&mut self) -> (r: ParseResult<(TargetKind, Vec<Item>)>)
        requires
            old(self).wf(),
        ensures
            old(self).keeps(*final(self)),
            meets(
                target_items(old(self).src(), old(self).cur()),
                final(self).cur(),
                r,
            ),
            r is Ok ==> final(self).left() < old(self).left(),
        decreases old(self).left(), 5nat,
    {
        let kind = self.parse_target_kind()?;
        self.expect_delim(Delim::LBrace)?;
        let items = self.parse_item_list()?;
        self.expect_delim(Delim::RBrace)?;
        Ok((kind, items))
    }

    /// Items up to `}` or the end of the stream.
    #[verifier::loop_isolation(false)]
    fn parse_item_list(&mut self) -> (r: ParseResult<Vec<Item>>)
        requires
            old(self).wf(),
        ensures
            old(self).keeps(*final(self)),
            meets_all(
                item_list(old(self).src(), old(self).cur(), seq![]),
                final(self).cur(),
                r,
            ),
        decreases old(self).left(), 4nat,
    {
        let mut items = none();
        let ghost whole = item_list(self.src(), self.cur(), trees(items@));
        let ghost start = self.left();
        loop
            invariant
                old(self).keeps(*self),
                self.left() <= start,
                whole == item_list(self.src(), self.cur(), trees(items@)),
            decreases self.left(),
        {
            proof {
                reveal_with_fuel(item_list, 2);
            }
            if self.check_delim(Delim::RBrace) || self.at_end() {
                return Ok(items);
            }
            let i = self.parse_item()?;
            push(&mut items, i);
        }
    }

    #[verifier::rlimit(40)]
    fn parse_fn_decl(&mut self) -> (r: ParseResult<FnDecl>)
        requires
            old(self).wf(),
        ensures
            old(self).keeps(*final(self)),
            meets(
                fn_decl(old(self).src(), old(self).cur()),
                final(self).cur(),
                r,
            ),
            r is Ok ==> final(self).left() < old(self).left(),
        decreases old(self).left(), 0nat,
    {
        let is_async = self.eat_kw(Keyword::Async);
        self.expect_kw(Keyword::Fn)?;
        let name = self.expect_ident()?;
        let generics = self.parse_generic_params()?;
        self.expect_delim(Delim::LParen)?;
        let params = self.parse_param_list()?;
        self.expect_delim(Delim::RParen)?;
        let return_type = if self.eat_op(Op::Arrow) {
            Some(self.parse_type()?)
        } else {
            None
        };
        let where_clause = self.parse_where_clause()?;
        let body = if self.eat_delim(Delim::Semi) {
            None
        } else {
            Some(self.parse_block()?)
        };
        let made = FnDecl { is_async, name, generics, params, return_type, where_clause, body };
        proof {
            made.unfold();
        }
        Ok(made)
    }

    /// Parameters up to `)`.
    fn parse_param_list(&mut self) -> (r: ParseResult<Vec<Param>>)
        requires
            old(self).wf(),
        ensures
            old(self).keeps(*final(self)),
            meets_all(
                param_list(old(self).src(), old(self).cur()),
                final(self).cur(),
                r,
            ),
        decreases old(self).left(), 1nat,
    {
        if self.check_delim(Delim::RParen) {
            return Ok(none());
        }
        let first = self.parse_param()?;
        self.parse_more_params(one(first))
    }

    #[verifier::loop_isolation(false)]
    fn parse_more_params(&mut self, first: Vec<Param>) -> (r: ParseResult<Vec<Param>>)
        requires
            old(self).wf(),
        ensures
            old(self).keeps(*final(self)),
            meets_all(
                more_params(old(self).src(), old(self).cur(), trees(first@)),
                final(self).cur(),
                r,
            ),
        decreases old(self).left(), 0nat,
    {
        let mut params = first;
        let ghost whole = more_params(self.src(), self.cur(), trees(params@));
        let ghost start = self.left();
        loop
            invariant
                old(self).keeps(*self),
                self.left() <= start,
                whole == more_params(self.src(), self.cur(), trees(params@)),
            decreases self.left(),
        {
            proof {
                reveal_with_fuel(more_params, 2);
            }
            if !self.eat_delim(Delim::Comma) {
                return Ok(params);
            }
            if self.check_delim(Delim::RParen) {
                return Ok(params);
            }
            let next = self.parse_param()?;
            push(&mut params, next);
        }
    }

    /// A parameter: variadic after `..` or `...`, a receiver, or `name: type = default`.
    #[verifier::rlimit(40)]
    fn parse_param(&mut self) -> (r: ParseResult<Param>)
        requires
            old(self).wf(),
        ensures
            old(self).keeps(*final(self)),
            meets(
                param(old(self).src(), old(self).cur()),
                final(self).cur(),
                r,
            ),
            r is Ok ==> final(self).left() < old(self).left(),
        decreases old(self).left(), 0nat,
    {
        if self.eat_op(Op::DotDot) {
            self.eat_op(Op::Dot);
            let name = self.expect_word()?;
            self.expect_delim(Delim::Colon)?;
            let ty = self.parse_type()?;
            let made = Param {
                ownership: OwnershipMod::Plain,
                name,
                is_variadic: true,
                ty,
                default: None,
            };
            proof {
                made.unfold();
            }
            return Ok(made);
        }
        let ownership = if self.eat_kw(Keyword::Borrow) {
            if self.eat_kw(Keyword::Mut) {
                OwnershipMod::BorrowMut
            } else {
                OwnershipMod::Borrow
            }
        } else if self.eat_kw(Keyword::Move) {
            OwnershipMod::Move
        } else {
            OwnershipMod::Plain
        };
        let name = self.expect_word()?;
        if same_text(name.as_str(), "self") {
            let ty = Type::Unit;
            proof {
                ty.unfold();
            }
            let made = Param { ownership, name, is_variadic: false, ty, default: None };
            proof {
                made.unfold();
            }
            return Ok(made);
        }
        self.expect_delim(Delim::Colon)?;
        let ty = self.parse_type()?;
        let default = if self.eat_op(Op::Eq) {
            Some(self.parse_expr(0)?)
        } else {
            None
        };
        let made = Param { ownership, name, is_variadic: false, ty, default };
        proof {
            made.unfold();
        }
        Ok(made)
    }

    fn parse_struct_decl(&mut self) -> (r: ParseResult<StructDecl>)
        requires
            old(self).wf(),
        ensures
            old(self).keeps(*final(self)),
            meets(
                old(self).cur().kw(old(self).src(), Keyword::Struct).next(
                    struct_tail(
                        old(self).src(),
                        old(self).cur().kw(old(self).src(), Keyword::Struct),
                    ),
                ),
                final(self).cur(),
                r,
            ),
            r is Ok ==> final(self).left() < old(self).left(),
        decreases old(self).left(), 0nat,
    {
        self.expect_kw(Keyword::Struct)?;
        let name = self.expect_ident()?;
        let generics = self.parse_generic_params()?;
        let body = self.parse_struct_body()?;
        let made = StructDecl { name, generics, body };
        proof {
            made.unfold();
        }
        Ok(made)
    }

    /// `;`, `(types);` or `{ fields }`.
    fn parse_struct_body(&mut self) -> (r: ParseResult<StructBody>)
        requires
            old(self).wf(),
        ensures
            old(self).keeps(*final(self)),
            meets(
                struct_body(old(self).src(), old(self).cur()),
                final(self).cur(),
                r,
            ),
            r is Ok ==> final(self).left() < old(self).left(),
        decreases old(self).left(), 0nat,
    {
        if self.eat_delim(Delim::Semi) {
            let made = StructBody::Unit;
            proof {
                made.unfold();
            }
            return Ok(made);
        }
        if self.eat_delim(Delim::LParen) {
            let tys = self.parse_type_list(Delim::RParen)?;
            self.expect_delim(Delim::RParen)?;
            self.expect_delim(Delim::Semi)?;
            let made = StructBody::Tuple(tys);
            proof {
                made.unfold();
            }
            return Ok(made);
        }
        self.expect_delim(Delim::LBrace)?;
        let fields = self.parse_fields()?;
        self.expect_delim(Delim::RBrace)?;
        let made = StructBody::Named(fields);
        proof {
            made.unfold();
        }
        Ok(made)
    }

    /// Fields up to `}`, with commas between them.
    #[verifier::loop_isolation(false)]
    fn parse_fields(&mut self) -> (r: ParseResult<Vec<FieldDecl>>)
        requires
            old(self).wf(),
        ensures
            old(self).keeps(*final(self)),
            meets_all(
                field_list(old(self).src(), old(self).cur(), seq![]),
                final(self).cur(),
                r,
            ),
        decreases old(self).left(), 0nat,
    {
        let mut fields = none();
        let ghost whole = field_list(self.src(), self.cur(), trees(fields@));
        let ghost start = self.left();
        loop
            invariant
                old(self).keeps(*self),
                self.left() <= start,
                whole == field_list(self.src(), self.cur(), trees(fields@)),
            decreases self.left(),
        {
            proof {
                reveal_with_fuel(field_list, 2);
            }
            if self.check_delim(Delim::RBrace) {
                return Ok(fields);
            }
            let visibility = self.parse_visibility()?;
            let name = self.expect_word()?;
            self.expect_delim(Delim::Colon)?;
            let ty = self.parse_type()?;
            let field = FieldDecl { visibility, name, ty };
            proof {
                field.unfold();
            }
            push(&mut fields, field);
            if !self.eat_delim(Delim::Comma) {
                return Ok(fields);
            }
        }
    }

    fn parse_enum_decl(&mut self) -> (r: ParseResult<EnumDecl>)
        requires
            old(self).wf(),
        ensures
            old(self).keeps(*final(self)),
            meets(
                old(self).cur().kw(old(self).src(), Keyword::Enum).next(
                    enum_tail(old(self).src(), old(self).cur().kw(old(self).src(), Keyword::Enum)),
                ),
                final(self).cur(),
                r,
            ),
            r is Ok ==> final(self).left() < old(self).left(),
        decreases old(self).left(), 0nat,
    {
        self.expect_kw(Keyword::Enum)?;
        let name = self.expect_word()?;
        let generics = self.parse_generic_params()?;
        self.expect_delim(Delim::LBrace)?;
        let variants = self.parse_variants()?;
        self.expect_delim(Delim::RBrace)?;
        let made = EnumDecl { name, generics, variants };
        proof {
            made.unfold();
        }
        Ok(made)
    }

    /// Variants up to `}`, with commas between them.
    #[verifier::loop_isolation(false)]
    fn parse_variants(&mut self) -> (r: ParseResult<Vec<EnumVariant>>)
        requires
            old(self).wf(),
        ensures
            old(self).keeps(*final(self)),
            meets_all(
                variant_list(old(self).src(), old(self).cur(), seq![]),
                final(self).cur(),
                r,
            ),
        decreases old(self).left(), 1nat,
    {
        let mut variants = none();
        let ghost whole = variant_list(self.src(), self.cur(), trees(variants@));
        let ghost start = self.left();
        loop
            invariant
                old(self).keeps(*self),
                self.left() <= start,
                whole == variant_list(self.src(), self.cur(), trees(variants@)),
            decreases self.left(),
        {
            proof {
                reveal_with_fuel(variant_list, 2);
            }
            if self.check_delim(Delim::RBrace) {
                return Ok(variants);
            }
            let v = self.parse_variant()?;
            push(&mut variants, v);
            if !self.eat_delim(Delim::Comma) {
                return Ok(variants);
            }
        }
    }

    fn parse_variant(&mut self) -> (r: ParseResult<EnumVariant>)
        requires
            old(self).wf(),
        ensures
            old(self).keeps(*final(self)),
            meets(
                variant(old(self).src(), old(self).cur()),
                final(self).cur(),
                r,
            ),
            r is Ok ==> final(self).left() < old(self).left(),
        decreases old(self).left(), 0nat,
    {
        let name = self.expect_word()?;
        let mut data = none();
        if self.eat_delim(Delim::LParen) {
            data = self.parse_type_list(Delim::RParen)?;
            self.expect_delim(Delim::RParen)?;
        }
        let made = EnumVariant { name, data };
        proof {
            made.unfold();
        }
        Ok(made)
    }

    fn parse_trait_decl(&mut self) -> (r: ParseResult<TraitDecl>)
        requires
            old(self).wf(),
        ensures
            old(self).keeps(*final(self)),
            meets(
                old(self).cur().kw(old(self).src(), Keyword::Trait).next(
                    trait_tail(
                        old(self).src(),
                        old(self).cur().kw(old(self).src(), Keyword::Trait),
                    ),
                ),
                final(self).cur(),
                r,
            ),
            r is Ok ==> final(self).left() < old(self).left(),
        decreases old(self).left(), 0nat,
    {
        self.expect_kw(Keyword::Trait)?;
        let name = self.expect_word()?;
        let generics = self.parse_generic_params()?;
        self.expect_delim(Delim::LBrace)?;
        let items = self.parse_trait_items()?;
        self.expect_delim(Delim::RBrace)?;
        let made = TraitDecl { name, generics, items };
        proof {
            made.unfold();
        }
        Ok(made)
    }

    #[verifier::loop_isolation(false)]
    fn parse_trait_items(&mut self) -> (r: ParseResult<Vec<TraitItem>>)
        requires
            old(self).wf(),
        ensures
            old(self).keeps(*final(self)),
            meets_all(
                trait_items(old(self).src(), old(self).cur(), seq![]),
                final(self).cur(),
                r,
            ),
        decreases old(self).left(), 1nat,
    {
        let mut items = none();
        let ghost whole = trait_items(self.src(), self.cur(), trees(items@));
        let ghost start = self.left();
        loop
            invariant
                old(self).keeps(*self),
                self.left() <= start,
                whole == trait_items(self.src(), self.cur(), trees(items@)),
            decreases self.left(),
        {
            proof {
                reveal_with_fuel(trait_items, 2);
            }
            if self.check_delim(Delim::RBrace) {
                return Ok(items);
            }
            let made = if self.eat_kw(Keyword::Type) {
                let name = self.expect_word()?;
                self.expect_delim(Delim::Semi)?;
                TraitItem::AssocType(name)
            } else {
                TraitItem::Fn(self.parse_fn_decl()?)
            };
            proof {
                made.unfold();
            }
            push(&mut items, made);
        }
    }

    #[verifier::rlimit(40)]
    fn parse_impl_decl(&mut self) -> (r: ParseResult<ImplDecl>)
        requires
            old(self).wf(),
        ensures
            old(self).keeps(*final(self)),
            meets(
                old(self).cur().kw(old(self).src(), Keyword::Impl).next(
                    impl_tail(old(self).src(), old(self).cur().kw(old(self).src(), Keyword::Impl)),
                ),
                final(self).cur(),
                r,
            ),
            r is Ok ==> final(self).left() < old(self).left(),
        decreases old(self).left(), 0nat,
    {
        self.expect_kw(Keyword::Impl)?;
        let generics = self.parse_generic_params()?;
        let first = self.parse_type_ref()?;
        let (trait_ref, target) = if self.eat_kw(Keyword::For) {
            let target = self.parse_type_ref()?;
            (Some(first), target)
        } else {
            (None, first)
        };
        let where_clause = self.parse_where_clause()?;
        self.expect_delim(Delim::LBrace)?;
        let items = self.parse_impl_items()?;
        self.expect_delim(Delim::RBrace)?;
        let made = ImplDecl { generics, trait_ref, target, where_clause, items };
        proof {
            made.unfold();
        }
        Ok(made)
    }

    #[verifier::loop_isolation(false)]
    fn parse_impl_items(&mut self) -> (r: ParseResult<Vec<ImplItem>>)
        requires
            old(self).wf(),
        ensures
            old(self).keeps(*final(self)),
            meets_all(
                impl_items(old(self).src(), old(self).cur(), seq![]),
                final(self).cur(),
                r,
            ),
        decreases old(self).left(), 1nat,
    {
        let mut items = none();
        let ghost whole = impl_items(self.src(), self.cur(), trees(items@));
        let ghost start = self.left();
        loop
            invariant
                old(self).keeps(*self),
                self.left() <= start,
                whole == impl_items(self.src(), self.cur(), trees(items@)),
            decreases self.left(),
        {
            proof {
                reveal_with_fuel(impl_items, 2);
            }
            if self.check_delim(Delim::RBrace) {
                return Ok(items);
            }
            let made = if self.eat_kw(Keyword::Type) {
                let name = self.expect_word()?;
                self.expect_op(Op::Eq)?;
                let ty = self.parse_type()?;
                self.expect_delim(Delim::Semi)?;
                ImplItem::AssocType(name, ty)
            } else {
                ImplItem::Fn(self.parse_fn_decl()?)
            };
            proof {
                made.unfold();
            }
            push(&mut items, made);
        }
    }

    fn parse_mod_decl(&mut self) -> (r: ParseResult<ModDecl>)
        requires
            old(self).wf(),
        ensures
            old(self).keeps(*final(self)),
            meets(
                old(self).cur().kw(old(self).src(), Keyword::Mod).next(
                    mod_tail(old(self).src(), old(self).cur().kw(old(self).src(), Keyword::Mod)),
                ),
                final(self).cur(),
                r,
            ),
            r is Ok ==> final(self).left() < old(self).left(),
        decreases old(self).left(), 0nat,
    {
        self.expect_kw(Keyword::Mod)?;
        let name = self.expect_word()?;
        self.expect_delim(Delim::LBrace)?;
        let items = self.parse_item_list()?;
        self.expect_delim(Delim::RBrace)?;
        let made = ModDecl { name, items };
        proof {
            made.unfold();
        }
        Ok(made)
    }

    #[verifier::loop_isolation(false)]
    fn parse_use_decl(&mut self) -> (r: ParseResult<UsePath>)
        requires
            old(self).wf(),
        ensures
            old(self).keeps(*final(self)),
            meets(
                old(self).cur().kw(old(self).src(), Keyword::Use).next(
                    use_tail(old(self).src(), old(self).cur().kw(old(self).src(), Keyword::Use)),
                ),
                final(self).cur(),
                r,
            ),
            r is Ok ==> final(self).left() < old(self).left(),
    {
        self.expect_kw(Keyword::Use)?;
        let first = self.expect_word()?;
        let mut path = one(first);
        let mut items: Vec<String> = none();
        let ghost whole = use_path(self.src(), self.cur(), trees(path@));
        let ghost start = self.left();
        loop
            invariant
                old(self).keeps(*self),
                self.left() <= start,
                whole == use_path(self.src(), self.cur(), trees(path@)),
                trees(items@) == Seq::<Seq<char>>::empty(),
            decreases self.left(),
        {
            proof {
                reveal_with_fuel(use_path, 2);
            }
            if !self.eat_op(Op::ColonColon) {
                break;
            }
            if self.eat_delim(Delim::LBrace) {
                let name = self.expect_word()?;
                items = self.parse_more_names(one(name))?;
                self.expect_delim(Delim::RBrace)?;
                break;
            }
            let name = self.expect_word()?;
            push(&mut path, name);
        }
        self.expect_delim(Delim::Semi)?;
        let made = UsePath { path, items };
        proof {
            made.unfold();
        }
        Ok(made)
    }

    /// Further names with commas in front, perhaps with one behind the last.
    #[verifier::loop_isolation(false)]
    fn parse_more_names(&mut self, first: Vec<String>) -> (r: ParseResult<Vec<String>>)
        requires
            old(self).wf(),
        ensures
            old(self).keeps(*final(self)),
            meets_all(
                more_names(old(self).src(), old(self).cur(), trees(first@)),
                final(self).cur(),
                r,
            ),
    {
        let mut names = first;
        let ghost whole = more_names(self.src(), self.cur(), trees(names@));
        let ghost start = self.left();
        loop
            invariant
                old(self).keeps(*self),
                self.left() <= start,
                whole == more_names(self.src(), self.cur(), trees(names@)),
            decreases self.left(),
        {
            proof {
                reveal_with_fuel(more_names, 2);
            }
            if !self.eat_delim(Delim::Comma) {
                return Ok(names);
            }
            if self.check_delim(Delim::RBrace) {
                return Ok(names);
            }
            let name = self.expect_word()?;
            push(&mut names, name);
        }
    }

    #[verifier::loop_isolation(false)]
    fn parse_import_decl(&mut self) -> (r: ParseResult<Vec<String>>)
        requires
            old(self).wf(),
        ensures
            old(self).keeps(*final(self)),
            meets_all(
                old(self).cur().kw(old(self).src(), Keyword::Import).next(
                    import_tail(
                        old(self).src(),
                        old(self).cur().kw(old(self).src(), Keyword::Import),
                    ),
                ),
                final(self).cur(),
                r,
            ),
            r is Ok ==> final(self).left() < old(self).left(),
    {
        self.expect_kw(Keyword::Import)?;
        let first = self.expect_word()?;
        let mut path = one(first);
        let ghost whole = import_path(self.src(), self.cur(), trees(path@));
        let ghost start = self.left();
        loop
            invariant
                old(self).keeps(*self),
                self.left() <= start,
                whole == import_path(self.src(), self.cur(), trees(path@)),
            decreases self.left(),
        {
            proof {
                reveal_with_fuel(import_path, 2);
            }
            if !self.eat_op(Op::ColonColon) {
                break;
            }
            let name = self.expect_word()?;
            push(&mut path, name);
        }
        self.expect_delim(Delim::Semi)?;
        Ok(path)
    }

    /// `name: type = value`
    fn parse_valued(&mut self) -> (r: ParseResult<(String, Type, Expr)>)
        requires
            old(self).wf(),
        ensures
            old(self).keeps(*final(self)),
            meets(
                valued_tail(old(self).src(), old(self).cur()),
                final(self).cur(),
                r,
            ),
            r is Ok ==> final(self).left() < old(self).left(),
        decreases old(self).left(), 0nat,
    {
        let name = self.expect_word()?;
        self.expect_delim(Delim::Colon)?;
        let ty = self.parse_type()?;
        self.expect_op(Op::Eq)?;
        let value = self.parse_expr(0)?;
        Ok((name, ty, value))
    }

    fn parse_const_decl(&mut self) -> (r: ParseResult<ConstDecl>)
        requires
            old(self).wf(),
        ensures
            old(self).keeps(*final(self)),
            meets(
                old(self).cur().kw(old(self).src(), Keyword::Const).next(
                    const_tail(
                        old(self).src(),
                        old(self).cur().kw(old(self).src(), Keyword::Const),
                    ),
                ),
                final(self).cur(),
                r,
            ),
            r is Ok ==> final(self).left() < old(self).left(),
        decreases old(self).left(), 0nat,
    {
        self.expect_kw(Keyword::Const)?;
        let (name, ty, value) = self.parse_valued()?;
        self.expect_delim(Delim::Semi)?;
        let made = ConstDecl { name, ty, value };
        proof {
            made.unfold();
        }
        Ok(made)
    }

    fn parse_static_decl(&mut self) -> (r: ParseResult<StaticDecl>)
        requires
            old(self).wf(),
        ensures
            old(self).keeps(*final(self)),
            meets(
                old(self).cur().kw(old(self).src(), Keyword::Static).next(
                    static_tail(
                        old(self).src(),
                        old(self).cur().kw(old(self).src(), Keyword::Static),
                    ),
                ),
                final(self).cur(),
                r,
            ),
            r is Ok ==> final(self).left() < old(self).left(),
        decreases old(self).left(), 0nat,
    {
        self.expect_kw(Keyword::Static)?;
        let (name, ty, value) = self.parse_valued()?;
        self.expect_delim(Delim::Semi)?;
        let made = StaticDecl { name, ty, value };
        proof {
            made.unfold();
        }
        Ok(made)
    }

    fn parse_type_alias(&mut self) -> (r: ParseResult<TypeAliasDecl>)
        requires
            old(self).wf(),
        ensures
            old(self).keeps(*final(self)),
            meets(
                old(self).cur().kw(old(self).src(), Keyword::Type).next(
                    type_alias_tail(
                        old(self).src(),
                        old(self).cur().kw(old(self).src(), Keyword::Type),
                    ),
                ),
                final(self).cur(),
                r,
            ),
            r is Ok ==> final(self).left() < old(self).left(),
        decreases old(self).left(), 0nat,
    {
        self.expect_kw(Keyword::Type)?;
        let name = self.expect_word()?;
        let generics = self.parse_generic_params()?;
        self.expect_op(Op::Eq)?;
        let ty = self.parse_type()?;
        self.expect_delim(Delim::Semi)?;
        let made = TypeAliasDecl { name, generics, ty };
        proof {
            made.unfold();
        }
        Ok(made)
    }

    fn parse_table_decl(&mut self) -> (r: ParseResult<TableDecl>)
        requires
            old(self).wf(),
        ensures
            old(self).keeps(*final(self)),
            meets(
                old(self).cur().kw(old(self).src(), Keyword::Table).next(
                    table_tail(
                        old(self).src(),
                        old(self).cur().kw(old(self).src(), Keyword::Table),
                    ),
                ),
                final(self).cur(),
                r,
            ),
            r is Ok ==> final(self).left() < old(self).left(),
        decreases old(self).left(), 0nat,
    {
        self.expect_kw(Keyword::Table)?;
        let name = self.expect_word()?;
        self.expect_delim(Delim::LBrace)?;
        let fields = self.parse_table_fields()?;
        self.expect_delim(Delim::RBrace)?;
        let made = TableDecl { name, fields };
        proof {
            made.unfold();
        }
        Ok(made)
    }

    /// Columns up to `}`, with commas between them.
    #[verifier::loop_isolation(false)]
    fn parse_table_fields(&mut self) -> (r: ParseResult<Vec<TableField>>)
        requires
            old(self).wf(),
        ensures
            old(self).keeps(*final(self)),
            meets_all(
                table_fields(old(self).src(), old(self).cur(), seq![]),
                final(self).cur(),
                r,
            ),
        decreases old(self).left(), 0nat,
    {
        let mut fields = none();
        let ghost whole = table_fields(self.src(), self.cur(), trees(fields@));
        let ghost start = self.left();
        loop
            invariant
                old(self).keeps(*self),
                self.left() <= start,
                whole == table_fields(self.src(), self.cur(), trees(fields@)),
            decreases self.left(),
        {
            proof {
                reveal_with_fuel(table_fields, 2);
            }
            if self.check_delim(Delim::RBrace) {
                return Ok(fields);
            }
            let name = self.expect_word()?;
            self.expect_delim(Delim::Colon)?;
            let ty = self.parse_type()?;
            let constraints = self.parse_constraints()?;
            let field = TableField { name, ty, constraints };
            proof {
                field.unfold();
            }
            push(&mut fields, field);
            if !self.eat_delim(Delim::Comma) {
                return Ok(fields);
            }
        }
    }

    /// Column constraints, which are plain identifiers.
    #[verifier::loop_isolation(false)]
    #[verifier::rlimit(40)]
    fn parse_constraints(&mut self) -> (r: ParseResult<Vec<FieldConstraint>>)
        requires
            old(self).wf(),
        ensures
            old(self).keeps(*final(self)),
            meets_all(
                constraints(old(self).src(), old(self).cur(), seq![]),
                final(self).cur(),
                r,
            ),
        decreases old(self).left(), 0nat,
    {
        let mut all = none();
        let ghost whole = constraints(self.src(), self.cur(), trees(all@));
        let ghost start = self.left();
        loop
            invariant
                old(self).keeps(*self),
                self.left() <= start,
                whole == constraints(self.src(), self.cur(), trees(all@)),
            decreases self.left(),
        {
            proof {
                reveal_with_fuel(constraints, 2);
            }
            let made = if self.check_name("primary_key") {
                self.advance();
                FieldConstraint::PrimaryKey
            } else if self.check_name("auto_increment") {
                self.advance();
                FieldConstraint::AutoIncrement
            } else if self.check_name("unique") {
                self.advance();
                FieldConstraint::Unique
            } else if self.check_name("not_null") {
                self.advance();
                FieldConstraint::NotNull
            } else if self.check_name("default") {
                self.advance();
                self.expect_delim(Delim::LParen)?;
                let value = self.parse_expr(0)?;
                self.expect_delim(Delim::RParen)?;
                FieldConstraint::Default(value)
            } else {
                return Ok(all);
            };
            proof {
                made.unfold();
            }
            push(&mut all, made);
        }
    }

    fn parse_index_decl(&mut self) -> (r: ParseResult<IndexDecl>)
        requires
            old(self).wf(),
        ensures
            old(self).keeps(*final(self)),
            meets(
                old(self).cur().kw(old(self).src(), Keyword::Index).next(
                    index_tail(
                        old(self).src(),
                        old(self).cur().kw(old(self).src(), Keyword::Index),
                    ),
                ),
                final(self).cur(),
                r,
            ),
            r is Ok ==> final(self).left() < old(self).left(),
    {
        self.expect_kw(Keyword::Index)?;
        let name = self.expect_word()?;
        self.expect_kw(Keyword::On)?;
        let table = self.expect_word()?;
        self.expect_delim(Delim::LParen)?;
        let column = self.expect_word()?;
        self.expect_delim(Delim::RParen)?;
        let mut using_hash = false;
        if self.check_name("using") {
            self.advance();
            let mode = self.expect_word()?;
            using_hash = same_text(mode.as_str(), "hash");
        }
        self.expect_delim(Delim::Semi)?;
        let made = IndexDecl { name, table, column, using_hash };
        proof {
            made.unfold();
        }
        Ok(made)
    }

    fn parse_schema_decl(&mut self) -> (r: ParseResult<SchemaDecl>)
        requires
            old(self).wf(),
        ensures
            old(self).keeps(*final(self)),
            meets(
                old(self).cur().kw(old(self).src(), Keyword::Schema).next(
                    schema_tail(
                        old(self).src(),
                        old(self).cur().kw(old(self).src(), Keyword::Schema),
                    ),
                ),
                final(self).cur(),
                r,
            ),
            r is Ok ==> final(self).left() < old(self).left(),
        decreases old(self).left(), 0nat,
    {
        self.expect_kw(Keyword::Schema)?;
        let name = self.expect_word()?;
        self.expect_delim(Delim::LBrace)?;
        let versions = self.parse_versions()?;
        self.expect_delim(Delim::RBrace)?;
        let made = SchemaDecl { name, versions };
        proof {
            made.unfold();
        }
        Ok(made)
    }

    /// `version number { ... }`, any number of times. Of a block only the items count.
    #[verifier::loop_isolation(false)]
    fn parse_versions(&mut self) -> (r: ParseResult<Vec<(u64, Vec<Item>)>>)
        requires
            old(self).wf(),
        ensures
            old(self).keeps(*final(self)),
            meets_all(
                versions(old(self).src(), old(self).cur(), seq![]),
                final(self).cur(),
                r,
            ),
        decreases old(self).left(), 0nat,
    {
        let mut all = none();
        let ghost whole = versions(self.src(), self.cur(), trees(all@));
        let ghost start = self.left();
        loop
            invariant
                old(self).keeps(*self),
                self.left() <= start,
                whole == versions(self.src(), self.cur(), trees(all@)),
            decreases self.left(),
        {
            proof {
                reveal_with_fuel(versions, 2);
            }
            if !self.check_name("version") {
                return Ok(all);
            }
            self.advance();
            let number = match self.advance() {
                TokenKind::Int(text) => u64_or_zero(text.as_str()),
                _ => return self.error("expected integer version number"),
            };
            let body = self.parse_block()?;
            proof {
                body.unfold();
            }
            let items = only_items(body.stmts);
            push(&mut all, (number, items));
        }
    }

    fn parse_server_decl(&mut self) -> (r: ParseResult<ServerDecl>)
        requires
            old(self).wf(),
        ensures
            old(self).keeps(*final(self)),
            meets(
                old(self).cur().kw(old(self).src(), Keyword::Server).next(
                    server_tail(
                        old(self).src(),
                        old(self).cur().kw(old(self).src(), Keyword::Server),
                    ),
                ),
                final(self).cur(),
                r,
            ),
            r is Ok ==> final(self).left() < old(self).left(),
        decreases old(self).left(), 0nat,
    {
        self.expect_kw(Keyword::Server)?;
        let name = self.expect_word()?;
        self.expect_delim(Delim::LBrace)?;
        let items = self.parse_server_items()?;
        self.expect_delim(Delim::RBrace)?;
        let made = ServerDecl { name, items };
        proof {
            made.unfold();
        }
        Ok(made)
    }

    #[verifier::loop_isolation(false)]
    fn parse_server_items(&mut self) -> (r: ParseResult<Vec<ServerItem>>)
        requires
            old(self).wf(),
        ensures
            old(self).keeps(*final(self)),
            meets_all(
                server_items(old(self).src(), old(self).cur(), seq![]),
                final(self).cur(),
                r,
            ),
        decreases old(self).left(), 0nat,
    {
        let mut items = none();
        let ghost whole = server_items(self.src(), self.cur(), trees(items@));
        let ghost start = self.left();
        loop
            invariant
                old(self).keeps(*self),
                self.left() <= start,
                whole == server_items(self.src(), self.cur(), trees(items@)),
            decreases self.left(),
        {
            proof {
                reveal_with_fuel(server_items, 2);
            }
            if self.check_delim(Delim::RBrace) {
                return Ok(items);
            }
            let made = if self.eat_kw(Keyword::Listen) {
                let args = self.parse_arg_list()?;
                self.expect_delim(Delim::Semi)?;
                ServerItem::Listen(args)
            } else if self.eat_kw(Keyword::On) {
                ServerItem::On(self.parse_on_handler()?)
            } else {
                return self.error("expected `listen` or `on` inside server block");
            };
            proof {
                made.unfold();
            }
            push(&mut items, made);
        }
    }

    /// After `on`.
    fn parse_on_handler(&mut self) -> (r: ParseResult<OnHandler>)
        requires
            old(self).wf(),
        ensures
            old(self).keeps(*final(self)),
            meets(
                on_handler(old(self).src(), old(self).cur()),
                final(self).cur(),
                r,
            ),
            r is Ok ==> final(self).left() < old(self).left(),
        decreases old(self).left(), 0nat,
    {
        let name = self.expect_word()?;
        self.expect_delim(Delim::LParen)?;
        let params = self.parse_param_list()?;
        self.expect_delim(Delim::RParen)?;
        let body = self.parse_block()?;
        let made = OnHandler { name, params, body };
        proof {
            made.unfold();
        }
        Ok(made)
    }

    fn parse_actor_decl(&mut self) -> (r: ParseResult<ActorDecl>)
        requires
            old(self).wf(),
        ensures
            old(self).keeps(*final(self)),
            meets(
                old(self).cur().kw(old(self).src(), Keyword::Actor).next(
                    actor_tail(
                        old(self).src(),
                        old(self).cur().kw(old(self).src(), Keyword::Actor),
                    ),
                ),
                final(self).cur(),
                r,
            ),
            r is Ok ==> final(self).left() < old(self).left(),
        decreases old(self).left(), 0nat,
    {
        self.expect_kw(Keyword::Actor)?;
        let name = self.expect_word()?;
        self.expect_delim(Delim::LBrace)?;
        let items = self.parse_actor_items()?;
        self.expect_delim(Delim::RBrace)?;
        let made = ActorDecl { name, items };
        proof {
            made.unfold();
        }
        Ok(made)
    }

    #[verifier::loop_isolation(false)]
    fn parse_actor_items(&mut self) -> (r: ParseResult<Vec<ActorItem>>)
        requires
            old(self).wf(),
        ensures
            old(self).keeps(*final(self)),
            meets_all(
                actor_items(old(self).src(), old(self).cur(), seq![]),
                final(self).cur(),
                r,
            ),
        decreases old(self).left(), 0nat,
    {
        let mut items = none();
        let ghost whole = actor_items(self.src(), self.cur(), trees(items@));
        let ghost start = self.left();
        loop
            invariant
                old(self).keeps(*self),
                self.left() <= start,
                whole == actor_items(self.src(), self.cur(), trees(items@)),
            decreases self.left(),
        {
            proof {
                reveal_with_fuel(actor_items, 2);
            }
            if self.check_delim(Delim::RBrace) {
                return Ok(items);
            }
            let made = if self.eat_kw(Keyword::State) {
                ActorItem::State(self.parse_state_tail()?)
            } else if self.eat_kw(Keyword::On) {
                ActorItem::On(self.parse_on_handler()?)
            } else {
                return self.error("expected `state` or `on` inside actor block");
            };
            proof {
                made.unfold();
            }
            push(&mut items, made);
        }
    }

    /// After `state`.
    fn parse_state_tail(&mut self) -> (r: ParseResult<StateDecl>)
        requires
            old(self).wf(),
        ensures
            old(self).keeps(*final(self)),
            meets(
                state_tail(old(self).src(), old(self).cur()),
                final(self).cur(),
                r,
            ),
            r is Ok ==> final(self).left() < old(self).left(),
        decreases old(self).left(), 1nat,
    {
        let (name, ty, value) = self.parse_valued()?;
        self.expect_delim(Delim::Semi)?;
        let made = StateDecl { name, ty, value };
        proof {
            made.unfold();
        }
        Ok(made)
    }

    /// After `ui` or `component`.
    fn parse_ui_body(&mut self) -> (r: ParseResult<UiDecl>)
        requires
            old(self).wf(),
        ensures
            old(self).keeps(*final(self)),
            meets(
                ui_tail(old(self).src(), old(self).cur()),
                final(self).cur(),
                r,
            ),
            r is Ok ==> final(self).left() < old(self).left(),
        decreases old(self).left(), 0nat,
    {
        let name = self.expect_word()?;
        self.expect_delim(Delim::LBrace)?;
        let items = self.parse_ui_items()?;
        self.expect_delim(Delim::RBrace)?;
        let made = UiDecl { name, items };
        proof {
            made.unfold();
        }
        Ok(made)
    }

    #[verifier::loop_isolation(false)]
    fn parse_ui_items(&mut self) -> (r: ParseResult<Vec<UiItem>>)
        requires
            old(self).wf(),
        ensures
            old(self).keeps(*final(self)),
            meets_all(
                ui_items(old(self).src(), old(self).cur(), seq![]),
                final(self).cur(),
                r,
            ),
        decreases old(self).left(), 2nat,
    {
        let mut items = none();
        let ghost whole = ui_items(self.src(), self.cur(), trees(items@));
        let ghost start = self.left();
        loop
            invariant
                old(self).keeps(*self),
                self.left() <= start,
                whole == ui_items(self.src(), self.cur(), trees(items@)),
            decreases self.left(),
        {
            proof {
                reveal_with_fuel(ui_items, 2);
            }
            if self.check_delim(Delim::RBrace) {
                return Ok(items);
            }
            let next = self.parse_ui_item()?;
            push(&mut items, next);
        }
    }

    fn parse_ui_item(&mut self) -> (r: ParseResult<UiItem>)
        requires
            old(self).wf(),
        ensures
            old(self).keeps(*final(self)),
            meets(
                ui_item(old(self).src(), old(self).cur()),
                final(self).cur(),
                r,
            ),
            r is Ok ==> final(self).left() < old(self).left(),
        decreases old(self).left(), 1nat,
    {
        let made = if self.eat_kw(Keyword::State) {
            UiItem::State(self.parse_state_tail()?)
        } else if self.eat_kw(Keyword::Prop) {
            UiItem::Prop(self.parse_prop_tail()?)
        } else if self.eat_kw(Keyword::Render) {
            UiItem::Render(self.parse_block()?)
        } else if self.eat_kw(Keyword::Mount) {
            UiItem::Mount(self.parse_block()?)
        } else if self.eat_kw(Keyword::Unmount) {
            UiItem::Unmount(self.parse_block()?)
        } else if self.check_kw(Keyword::Async) || self.check_kw(Keyword::Fn) {
            UiItem::Fn(self.parse_fn_decl()?)
        } else {
            return self.unexpected(
                "expected state/prop/render/mount/unmount/fn inside ui/component block, found ",
            );
        };
        proof {
            made.unfold();
        }
        Ok(made)
    }

    /// After `prop`.
    fn parse_prop_tail(&mut self) -> (r: ParseResult<PropDecl>)
        requires
            old(self).wf(),
        ensures
            old(self).keeps(*final(self)),
            meets(
                prop_tail(old(self).src(), old(self).cur()),
                final(self).cur(),
                r,
            ),
            r is Ok ==> final(self).left() < old(self).left(),
        decreases old(self).left(), 0nat,
    {
        let name = self.expect_word()?;
        self.expect_delim(Delim::Colon)?;
        let ty = self.parse_type()?;
        self.expect_delim(Delim::Semi)?;
        let made = PropDecl { name, ty };
        proof {
            made.unfold();
        }
        Ok(made)
    }
}

} // verus!
