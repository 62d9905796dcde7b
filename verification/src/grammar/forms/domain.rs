//! Items for data, servers, actors and user interfaces.
use crate::grammar::cursor::{word, Failure, Src};
use crate::grammar::exprs::{arg_list, args_tail, expr};
use crate::grammar::forms::{behind, list_end, listed};
use crate::grammar::items::{
    actor_items, actor_tail, constraints, fn_decl, index_tail, is_item_start, items_of, on_handler,
    param_list, prop_tail, resume, schema_tail, server_items, server_tail, state_tail, table_fields,
    table_tail, ui_item, ui_items, ui_tail, versions,
};
use crate::grammar::laws::{at, read};
use crate::grammar::stmts::block;
use crate::grammar::types::type_of;
use crate::text::number_or_zero;
use crate::token::{Delim, Keyword, TokenKind};
use crate::tree::{
    ActorDecl, ActorItem, Block, FieldConstraint, IndexDecl, Item, OnHandler, PropDecl, SchemaDecl,
    ServerDecl, ServerItem, Stmt, TableDecl, TableField, Type, UiDecl, UiItem,
};
use vstd::prelude::*;

verus! {

/// After `table`: a name and columns in braces.
#[verifier::rlimit(20)]
pub proof fn table_form(g: Src, p: nat)
    ensures
        ({
            let name = word(g, at(p));
            let q_name = behind(p, name);
            let fields = table_fields(g, at(q_name + 1), seq![]);
            let q_fields = behind(q_name + 1, fields);
            let fits = name.res is Ok
                && g.kind(q_name) == TokenKind::Delim(Delim::LBrace)
                && fields.res is Ok
                && g.kind(q_fields) == TokenKind::Delim(Delim::RBrace);
            &&& table_tail(g, at(p)).res is Ok <==> fits
            &&& fits
                ==> table_tail(g, at(p)) == read(
                    q_fields + 1,
                    TableDecl { name: name.out(), fields: fields.out() },
                )
        }),
{
    let name = word(g, at(p));
    let q_name = behind(p, name);
    let fields = table_fields(g, at(q_name + 1), seq![]);
    let q_fields = behind(q_name + 1, fields);
    assert(name.res is Ok ==> at(p).after(name) == at(q_name));
    assert(g.kind(q_name) == TokenKind::Delim(Delim::LBrace)
        ==> at(q_name).delim(g, Delim::LBrace) == at(q_name + 1));
    assert(fields.res is Ok ==> at(q_name + 1).after(fields) == at(q_fields));
    assert(g.kind(q_fields) == TokenKind::Delim(Delim::RBrace)
        ==> at(q_fields).delim(g, Delim::RBrace) == at(q_fields + 1));
}

/// A column, `name: type constraints`, from `a` up to `b`.
pub open spec fn a_column(g: Src) -> spec_fn(nat, TableField, nat) -> bool {
    |a: nat, x: TableField, b: nat| {
        let ty = type_of(g, at(a + 2));
        let q = behind(a + 2, ty);
        &&& word(g, at(a)) == read(a + 1, x.name)
        &&& g.kind(a + 1) == TokenKind::Delim(Delim::Colon)
        &&& ty.res == Ok::<Type, Failure>(x.ty)
        &&& constraints(g, at(q), seq![]) == read(b, x.constraints)
        &&& q <= b
    }
}

#[verifier::rlimit(40)]
proof fn columns_from(
    g: Src,
    xs: Seq<TableField>,
    starts: Seq<nat>,
    ends: Seq<nat>,
    q: nat,
    k: int,
)
    requires
        0 <= k < xs.len(),
        listed(g, a_column(g), TokenKind::Delim(Delim::Comma), xs, starts, ends),
        forall|i: int| 0 <= i < xs.len()
            ==> g.kind(#[trigger] starts[i]) != TokenKind::Delim(Delim::RBrace),
        list_end(g, ends[xs.len() - 1], TokenKind::Delim(Delim::RBrace), q),
    ensures
        table_fields(g, at(starts[k]), xs.take(k)) == read(q, xs),
        starts[k] <= q,
    decreases xs.len() - k,
{
    let done = xs.take(k);
    let x = xs[k];
    let p = starts[k];
    let e = ends[k];
    assert(a_column(g)(p, x, e));
    assert(g.kind(starts[k]) == g.kind(p));
    assert(at(e).skip() == at(e + 1));
    assert(done.push(x) =~= xs.take(k + 1));
    let ty = type_of(g, at(p + 2));
    let q1 = behind(p + 2, ty);
    assert(at(p).after(word(g, at(p))) == at(p + 1));
    assert(at(p + 1).delim(g, Delim::Colon) == at(p + 2));
    assert(at(p + 2).after(ty) == at(q1));
    assert(at(q1).after(constraints(g, at(q1), seq![])) == at(e));
    assert(x == TableField { name: x.name, ty: x.ty, constraints: x.constraints });
    if k + 1 == xs.len() {
        assert(xs.take(k + 1) =~= xs);
        if g.kind(e) == TokenKind::Delim(Delim::Comma) {
            assert(table_fields(g, at(e + 1), xs) == read(e + 1, xs));
        }
    } else {
        columns_from(g, xs, starts, ends, q, k + 1);
        assert(g.kind(ends[k]) == TokenKind::Delim(Delim::Comma) && starts[k + 1] == e + 1);
    }
}

/// The columns of a table, with commas between them, are read in their order up to `}`.
pub proof fn columns(
    g: Src,
    xs: Seq<TableField>,
    starts: Seq<nat>,
    ends: Seq<nat>,
    q: nat,
)
    requires
        xs.len() > 0,
        listed(g, a_column(g), TokenKind::Delim(Delim::Comma), xs, starts, ends),
        forall|i: int| 0 <= i < xs.len()
            ==> g.kind(#[trigger] starts[i]) != TokenKind::Delim(Delim::RBrace),
        list_end(g, ends[xs.len() - 1], TokenKind::Delim(Delim::RBrace), q),
    ensures
        table_fields(g, at(starts[0]), seq![]) == read(q, xs),
{
    columns_from(g, xs, starts, ends, q, 0);
    assert(xs.take(0) =~= Seq::<TableField>::empty());
}

/// The names of constraints are told apart.
proof fn names_of_constraints()
    ensures
        "primary_key"@ != "auto_increment"@,
        "primary_key"@ != "unique"@,
        "primary_key"@ != "not_null"@,
        "primary_key"@ != "default"@,
        "auto_increment"@ != "unique"@,
        "auto_increment"@ != "not_null"@,
        "auto_increment"@ != "default"@,
        "unique"@ != "not_null"@,
        "unique"@ != "default"@,
        "not_null"@ != "default"@,
{
    reveal_strlit("primary_key");
    reveal_strlit("auto_increment");
    reveal_strlit("unique");
    reveal_strlit("not_null");
    reveal_strlit("default");
    assert("primary_key"@.len() == 11);
    assert("auto_increment"@.len() == 14);
    assert("unique"@.len() == 6);
    assert("not_null"@.len() == 8);
    assert("default"@.len() == 7);
}

/// Each constraint by its name, kept behind those before it; any other token ends them.
pub proof fn constraints_in_order(g: Src, p: nat, done: Seq<FieldConstraint>, name: String)
    ensures
        !(g.kind(p) is Ident) ==> constraints(g, at(p), done) == read(p, done),
        g.kind(p) == TokenKind::Ident(name) ==> {
            &&& name@ == "primary_key"@ ==> constraints(g, at(p), done) == constraints(
                g,
                at(p + 1),
                done.push(FieldConstraint::PrimaryKey),
            )
            &&& name@ == "auto_increment"@ ==> constraints(g, at(p), done) == constraints(
                g,
                at(p + 1),
                done.push(FieldConstraint::AutoIncrement),
            )
            &&& name@ == "unique"@ ==> constraints(g, at(p), done) == constraints(
                g,
                at(p + 1),
                done.push(FieldConstraint::Unique),
            )
            &&& name@ == "not_null"@ ==> constraints(g, at(p), done) == constraints(
                g,
                at(p + 1),
                done.push(FieldConstraint::NotNull),
            )
            &&& name@ != "primary_key"@ && name@ != "auto_increment"@ && name@ != "unique"@
                && name@ != "not_null"@ && name@ != "default"@ ==> constraints(g, at(p), done)
                == read(p, done)
        },
{
    names_of_constraints();
    assert(at(p).skip() == at(p + 1));
}

/// `default(value)` gives a column its default.
#[verifier::rlimit(30)]
pub proof fn default_constraint(g: Src, p: nat, done: Seq<FieldConstraint>, name: String)
    requires
        g.kind(p) == TokenKind::Ident(name),
        name@ == "default"@,
    ensures
        ({
            let value = expr(g, at(p + 2), 0);
            let q_value = behind(p + 2, value);
            let fits = g.kind(p + 1) == TokenKind::Delim(Delim::LParen)
                && value.res is Ok
                && g.kind(q_value) == TokenKind::Delim(Delim::RParen);
            &&& !fits ==> constraints(g, at(p), done).res is Err
            &&& fits
                ==> constraints(g, at(p), done) == constraints(
                    g,
                    at(q_value + 1),
                    done.push(FieldConstraint::Default(value.out())),
                )
        }),
{
    let value = expr(g, at(p + 2), 0);
    let q_value = behind(p + 2, value);
    assert(at(p).skip() == at(p + 1));
    assert(g.kind(p + 1) == TokenKind::Delim(Delim::LParen)
        ==> at(p + 1).delim(g, Delim::LParen) == at(p + 2));
    assert(value.res is Ok ==> at(p + 2).after(value) == at(q_value));
    assert(g.kind(q_value) == TokenKind::Delim(Delim::RParen)
        ==> at(q_value).delim(g, Delim::RParen) == at(q_value + 1));
    names_of_constraints();
    let s1 = at(p + 1).delim(g, Delim::LParen);
    let e = expr(g, s1, 0);
    assert(
        constraints(g, at(p), done) == constraints(
            g,
            s1.after(e).delim(g, Delim::RParen),
            done.push(FieldConstraint::Default(e.out())),
        )
    );
}

/// After `index`: `name on table(column);`, and `using hash` in front of `;` makes it a hash
/// index.
pub proof fn index_form(
    g: Src,
    p: nat,
    name: String,
    table: String,
    column: String,
    mode: String,
    u: String,
)
    requires
        g.kind(p) == TokenKind::Ident(name),
        g.kind(p + 1) == TokenKind::Keyword(Keyword::On),
        g.kind(p + 2) == TokenKind::Ident(table),
        g.kind(p + 3) == TokenKind::Delim(Delim::LParen),
        g.kind(p + 4) == TokenKind::Ident(column),
        g.kind(p + 5) == TokenKind::Delim(Delim::RParen),
    ensures
        g.kind(p + 6) == TokenKind::Delim(Delim::Semi) ==> index_tail(g, at(p)) == read(
            p + 7,
            IndexDecl { name: name@, table: table@, column: column@, using_hash: false },
        ),
        g.kind(p + 6) == TokenKind::Ident(u) && u@ == "using"@ && g.kind(p + 7)
            == TokenKind::Ident(mode) && g.kind(p + 8) == TokenKind::Delim(Delim::Semi)
            ==> index_tail(g, at(p)) == read(
            p + 9,
            IndexDecl {
                name: name@,
                table: table@,
                column: column@,
                using_hash: mode@ == "hash"@,
            },
        ),
        g.kind(p + 6) != TokenKind::Delim(Delim::Semi) && !(g.kind(p + 6) is Ident) ==> index_tail(
            g,
            at(p),
        ).res is Err,
{
    assert(word(g, at(p)) == read(p + 1, name@));
    assert(at(p).after(word(g, at(p))) == at(p + 1));
    assert(at(p + 1).kw(g, Keyword::On) == at(p + 2));
    assert(word(g, at(p + 2)) == read(p + 3, table@));
    assert(at(p + 2).after(word(g, at(p + 2))) == at(p + 3));
    assert(at(p + 3).delim(g, Delim::LParen) == at(p + 4));
    assert(word(g, at(p + 4)) == read(p + 5, column@));
    assert(at(p + 4).after(word(g, at(p + 4))) == at(p + 5));
    assert(at(p + 5).delim(g, Delim::RParen) == at(p + 6));
    assert(at(p + 6).skip() == at(p + 7));
    assert(at(p + 7).skip() == at(p + 8));
    assert(at(p + 8).skip() == at(p + 9));
}

/// After `schema`: a name and versions in braces.
pub proof fn schema_form(g: Src, p: nat)
    ensures
        ({
            let name = word(g, at(p));
            let q_name = behind(p, name);
            let all = versions(g, at(q_name + 1), seq![]);
            let q_all = behind(q_name + 1, all);
            let fits = name.res is Ok
                && g.kind(q_name) == TokenKind::Delim(Delim::LBrace)
                && all.res is Ok
                && g.kind(q_all) == TokenKind::Delim(Delim::RBrace);
            &&& schema_tail(g, at(p)).res is Ok <==> fits
            &&& fits
                ==> schema_tail(g, at(p)) == read(
                    q_all + 1,
                    SchemaDecl { name: name.out(), versions: all.out() },
                )
        }),
{
    let name = word(g, at(p));
    let q_name = behind(p, name);
    let all = versions(g, at(q_name + 1), seq![]);
    let q_all = behind(q_name + 1, all);
    assert(name.res is Ok ==> at(p).after(name) == at(q_name));
    assert(g.kind(q_name) == TokenKind::Delim(Delim::LBrace)
        ==> at(q_name).delim(g, Delim::LBrace) == at(q_name + 1));
    assert(all.res is Ok ==> at(q_name + 1).after(all) == at(q_all));
    assert(g.kind(q_all) == TokenKind::Delim(Delim::RBrace)
        ==> at(q_all).delim(g, Delim::RBrace) == at(q_all + 1));
}

/// `version number { items }` is kept behind the versions before it, with the items of its block
/// in their order; anything but `version` ends them, and a version needs a number.
pub proof fn versions_in_order(
    g: Src,
    p: nat,
    done: Seq<(u64, Seq<Item>)>,
    name: String,
    text: String,
    b: Block,
    q: nat,
)
    ensures
        !(g.kind(p) is Ident) ==> versions(g, at(p), done) == read(p, done),
        g.kind(p) == TokenKind::Ident(name) && name@ != "version"@ ==> versions(g, at(p), done)
            == read(p, done),
        g.kind(p) == TokenKind::Ident(name) && name@ == "version"@ && g.kind(p + 1)
            == TokenKind::Int(text) && block(g, at(p + 2)) == read(q, b) && p + 2 <= q ==> versions(
            g,
            at(p),
            done,
        ) == versions(g, at(q), done.push((number_or_zero(text@), items_of(b.stmts)))),
        g.kind(p) == TokenKind::Ident(name) && name@ == "version"@ && !(g.kind(p + 1) is Int)
            ==> versions(g, at(p), done).res is Err,
{
    assert(at(p).skip() == at(p + 1));
    assert(at(p + 1).skip() == at(p + 2));
    if g.kind(p + 1) is Int {
        assert(at(p + 1).advance(g) == at(p + 2));
        if block(g, at(p + 2)) == read(q, b) && p + 2 <= q {
            assert(at(p + 2).after(block(g, at(p + 2))) == at(q));
        }
    }
}

/// Of the statements of a block the items are kept in their order, and nothing else is.
pub proof fn items_among_statements(before: Seq<Stmt>, x: Stmt)
    ensures
        items_of(seq![]) == Seq::<Item>::empty(),
        match x {
            Stmt::Item(i) => items_of(before.push(x)) == items_of(before).push(*i),
            _ => items_of(before.push(x)) == items_of(before),
        },
{
    assert(before.push(x).drop_last() =~= before);
}

/// After `server`: a name and parts in braces.
#[verifier::rlimit(20)]
pub proof fn server_form(g: Src, p: nat)
    ensures
        ({
            let name = word(g, at(p));
            let q_name = behind(p, name);
            let items = server_items(g, at(q_name + 1), seq![]);
            let q_items = behind(q_name + 1, items);
            let fits = name.res is Ok
                && g.kind(q_name) == TokenKind::Delim(Delim::LBrace)
                && items.res is Ok
                && g.kind(q_items) == TokenKind::Delim(Delim::RBrace);
            &&& server_tail(g, at(p)).res is Ok <==> fits
            &&& fits
                ==> server_tail(g, at(p)) == read(
                    q_items + 1,
                    ServerDecl { name: name.out(), items: items.out() },
                )
        }),
{
    let name = word(g, at(p));
    let q_name = behind(p, name);
    let items = server_items(g, at(q_name + 1), seq![]);
    let q_items = behind(q_name + 1, items);
    assert(name.res is Ok ==> at(p).after(name) == at(q_name));
    assert(g.kind(q_name) == TokenKind::Delim(Delim::LBrace)
        ==> at(q_name).delim(g, Delim::LBrace) == at(q_name + 1));
    assert(items.res is Ok ==> at(q_name + 1).after(items) == at(q_items));
    assert(g.kind(q_items) == TokenKind::Delim(Delim::RBrace)
        ==> at(q_items).delim(g, Delim::RBrace) == at(q_items + 1));
}

/// After `actor`: a name and parts in braces.
#[verifier::rlimit(20)]
pub proof fn actor_form(g: Src, p: nat)
    ensures
        ({
            let name = word(g, at(p));
            let q_name = behind(p, name);
            let items = actor_items(g, at(q_name + 1), seq![]);
            let q_items = behind(q_name + 1, items);
            let fits = name.res is Ok
                && g.kind(q_name) == TokenKind::Delim(Delim::LBrace)
                && items.res is Ok
                && g.kind(q_items) == TokenKind::Delim(Delim::RBrace);
            &&& actor_tail(g, at(p)).res is Ok <==> fits
            &&& fits
                ==> actor_tail(g, at(p)) == read(
                    q_items + 1,
                    ActorDecl { name: name.out(), items: items.out() },
                )
        }),
{
    let name = word(g, at(p));
    let q_name = behind(p, name);
    let items = actor_items(g, at(q_name + 1), seq![]);
    let q_items = behind(q_name + 1, items);
    assert(name.res is Ok ==> at(p).after(name) == at(q_name));
    assert(g.kind(q_name) == TokenKind::Delim(Delim::LBrace)
        ==> at(q_name).delim(g, Delim::LBrace) == at(q_name + 1));
    assert(items.res is Ok ==> at(q_name + 1).after(items) == at(q_items));
    assert(g.kind(q_items) == TokenKind::Delim(Delim::RBrace)
        ==> at(q_items).delim(g, Delim::RBrace) == at(q_items + 1));
}

/// After `ui` or `component`: a name and parts in braces.
#[verifier::rlimit(20)]
pub proof fn ui_form(g: Src, p: nat)
    ensures
        ({
            let name = word(g, at(p));
            let q_name = behind(p, name);
            let items = ui_items(g, at(q_name + 1), seq![]);
            let q_items = behind(q_name + 1, items);
            let fits = name.res is Ok
                && g.kind(q_name) == TokenKind::Delim(Delim::LBrace)
                && items.res is Ok
                && g.kind(q_items) == TokenKind::Delim(Delim::RBrace);
            &&& ui_tail(g, at(p)).res is Ok <==> fits
            &&& fits
                ==> ui_tail(g, at(p)) == read(
                    q_items + 1,
                    UiDecl { name: name.out(), items: items.out() },
                )
        }),
{
    let name = word(g, at(p));
    let q_name = behind(p, name);
    let items = ui_items(g, at(q_name + 1), seq![]);
    let q_items = behind(q_name + 1, items);
    assert(name.res is Ok ==> at(p).after(name) == at(q_name));
    assert(g.kind(q_name) == TokenKind::Delim(Delim::LBrace)
        ==> at(q_name).delim(g, Delim::LBrace) == at(q_name + 1));
    assert(items.res is Ok ==> at(q_name + 1).after(items) == at(q_items));
    assert(g.kind(q_items) == TokenKind::Delim(Delim::RBrace)
        ==> at(q_items).delim(g, Delim::RBrace) == at(q_items + 1));
}

/// After `on`: a name, parameters and a block.
#[verifier::rlimit(20)]
pub proof fn handler(g: Src, p: nat)
    ensures
        ({
            let name = word(g, at(p));
            let q_name = behind(p, name);
            let params = param_list(g, at(q_name + 1));
            let q_params = behind(q_name + 1, params);
            let body = block(g, at(q_params + 1));
            let q_body = behind(q_params + 1, body);
            let fits = name.res is Ok
                && g.kind(q_name) == TokenKind::Delim(Delim::LParen)
                && params.res is Ok
                && g.kind(q_params) == TokenKind::Delim(Delim::RParen)
                && body.res is Ok;
            &&& on_handler(g, at(p)).res is Ok <==> fits
            &&& fits
                ==> on_handler(g, at(p)) == read(
                    q_body,
                    OnHandler { name: name.out(), params: params.out(), body: body.out() },
                )
        }),
{
    let name = word(g, at(p));
    let q_name = behind(p, name);
    let params = param_list(g, at(q_name + 1));
    let q_params = behind(q_name + 1, params);
    let body = block(g, at(q_params + 1));
    let q_body = behind(q_params + 1, body);
    assert(name.res is Ok ==> at(p).after(name) == at(q_name));
    assert(g.kind(q_name) == TokenKind::Delim(Delim::LParen)
        ==> at(q_name).delim(g, Delim::LParen) == at(q_name + 1));
    assert(params.res is Ok ==> at(q_name + 1).after(params) == at(q_params));
    assert(g.kind(q_params) == TokenKind::Delim(Delim::RParen)
        ==> at(q_params).delim(g, Delim::RParen) == at(q_params + 1));
    assert(body.res is Ok ==> at(q_params + 1).after(body) == at(q_body));
}

/// `listen(args);` of a server is kept behind the parts before it.
#[verifier::rlimit(20)]
pub proof fn listen_part(g: Src, p: nat, done: Seq<ServerItem>)
    requires
        g.kind(p) == TokenKind::Keyword(Keyword::Listen),
    ensures
        ({
            let args = arg_list(g, at(p + 1));
            let q_args = behind(p + 1, args);
            let fits = args.res is Ok
                && g.kind(q_args) == TokenKind::Delim(Delim::Semi);
            &&& !fits ==> server_items(g, at(p), done).res is Err
            &&& fits
                ==> server_items(g, at(p), done) == server_items(
                    g,
                    at(q_args + 1),
                    done.push(ServerItem::Listen(args.out())),
                )
        }),
{
    let args = arg_list(g, at(p + 1));
    let q_args = behind(p + 1, args);
    assert(at(p).skip() == at(p + 1));
    assert(args.res is Ok ==> at(p + 1).after(args) == at(q_args));
    assert(g.kind(q_args) == TokenKind::Delim(Delim::Semi)
        ==> at(q_args).delim(g, Delim::Semi) == at(q_args + 1));
    assert(
        server_items(g, at(p), done) == server_items(
            g,
            at(p + 1).after(args).delim(g, Delim::Semi),
            done.push(ServerItem::Listen(args.out())),
        )
    );
}

/// `(args)` holds exactly these arguments.
pub proof fn argument_list(g: Src, p: nat)
    ensures
        ({
            let args = args_tail(g, at(p + 1));
            let q_args = behind(p + 1, args);
            let fits = g.kind(p) == TokenKind::Delim(Delim::LParen)
                && args.res is Ok;
            &&& arg_list(g, at(p)).res is Ok <==> fits
            &&& fits ==> arg_list(g, at(p)) == read(q_args, args.out())
        }),
{
    let args = args_tail(g, at(p + 1));
    let q_args = behind(p + 1, args);
    assert(g.kind(p) == TokenKind::Delim(Delim::LParen)
        ==> at(p).delim(g, Delim::LParen) == at(p + 1));
    assert(args.res is Ok ==> at(p + 1).after(args) == at(q_args));
}

/// `on` of a server is kept behind the parts before it.
#[verifier::rlimit(20)]
pub proof fn server_handler(g: Src, p: nat, done: Seq<ServerItem>)
    requires
        g.kind(p) == TokenKind::Keyword(Keyword::On),
    ensures
        ({
            let h = on_handler(g, at(p + 1));
            let q_h = behind(p + 1, h);
            let fits = h.res is Ok;
            &&& !fits ==> server_items(g, at(p), done).res is Err
            &&& fits
                ==> server_items(g, at(p), done) == server_items(
                    g,
                    at(q_h),
                    done.push(ServerItem::On(h.out())),
                )
        }),
{
    let h = on_handler(g, at(p + 1));
    let q_h = behind(p + 1, h);
    assert(at(p).skip() == at(p + 1));
    assert(h.res is Ok ==> at(p + 1).after(h) == at(q_h));
    assert(
        server_items(g, at(p), done) == server_items(
            g,
            at(p + 1).after(h),
            done.push(ServerItem::On(h.out())),
        )
    );
}

/// `on` of an actor is kept behind the parts before it.
#[verifier::rlimit(20)]
pub proof fn actor_handler(g: Src, p: nat, done: Seq<ActorItem>)
    requires
        g.kind(p) == TokenKind::Keyword(Keyword::On),
    ensures
        ({
            let h = on_handler(g, at(p + 1));
            let q_h = behind(p + 1, h);
            let fits = h.res is Ok;
            &&& !fits ==> actor_items(g, at(p), done).res is Err
            &&& fits
                ==> actor_items(g, at(p), done) == actor_items(
                    g,
                    at(q_h),
                    done.push(ActorItem::On(h.out())),
                )
        }),
{
    let h = on_handler(g, at(p + 1));
    let q_h = behind(p + 1, h);
    assert(at(p).skip() == at(p + 1));
    assert(h.res is Ok ==> at(p + 1).after(h) == at(q_h));
    assert(
        actor_items(g, at(p), done) == actor_items(
            g,
            at(p + 1).after(h),
            done.push(ActorItem::On(h.out())),
        )
    );
}

/// `state` of an actor is kept behind the parts before it.
#[verifier::rlimit(20)]
pub proof fn actor_state(g: Src, p: nat, done: Seq<ActorItem>)
    requires
        g.kind(p) == TokenKind::Keyword(Keyword::State),
    ensures
        ({
            let d = state_tail(g, at(p + 1));
            let q_d = behind(p + 1, d);
            let fits = d.res is Ok;
            &&& !fits ==> actor_items(g, at(p), done).res is Err
            &&& fits
                ==> actor_items(g, at(p), done) == actor_items(
                    g,
                    at(q_d),
                    done.push(ActorItem::State(d.out())),
                )
        }),
{
    let d = state_tail(g, at(p + 1));
    let q_d = behind(p + 1, d);
    assert(at(p).skip() == at(p + 1));
    assert(d.res is Ok ==> at(p + 1).after(d) == at(q_d));
    assert(
        actor_items(g, at(p), done) == actor_items(
            g,
            at(p + 1).after(d),
            done.push(ActorItem::State(d.out())),
        )
    );
}

/// `}` ends the parts of a server, an actor or a user interface, and nothing else may stand
/// there.
pub proof fn ends_of_parts(
    g: Src,
    p: nat,
    s: Seq<ServerItem>,
    a: Seq<ActorItem>,
    u: Seq<UiItem>,
)
    ensures
        g.kind(p) == TokenKind::Delim(Delim::RBrace) ==> server_items(g, at(p), s) == read(p, s)
            && actor_items(g, at(p), a) == read(p, a) && ui_items(g, at(p), u) == read(p, u),
        !(g.kind(p) is Keyword) && g.kind(p) != TokenKind::Delim(Delim::RBrace) ==> server_items(
            g,
            at(p),
            s,
        ).res is Err && actor_items(g, at(p), a).res is Err && ui_item(g, at(p)).res is Err,
{
}

/// A part of a user interface is kept behind those before it.
pub proof fn one_ui_part_more(g: Src, p: nat, done: Seq<UiItem>, x: UiItem, q: nat)
    requires
        g.kind(p) != TokenKind::Delim(Delim::RBrace),
    ensures
        ui_item(g, at(p)) == read(q, x) && p < q && p < g.toks.len() ==> ui_items(g, at(p), done)
            == ui_items(g, at(q), done.push(x)),
        ui_item(g, at(p)).res is Err ==> ui_items(g, at(p), done).res is Err,
{
    let i = ui_item(g, at(p));
    let s1 = at(p).after(i);
    if i.res is Err {
        assert(at(p).moved(g, s1));
        assert(ui_items(g, at(p), done) == ui_items(g, s1, done.push(i.out())));
    } else if i == read(q, x) && p < q && p < g.toks.len() {
        assert(s1 == at(q));
        assert(at(p).moved(g, at(q)));
    }
}

/// `state` in a user interface.
pub proof fn ui_state(g: Src, p: nat)
    requires
        g.kind(p) == TokenKind::Keyword(Keyword::State),
    ensures
        ({
            let x = state_tail(g, at(p + 1));
            let q_x = behind(p + 1, x);
            let fits = x.res is Ok;
            &&& ui_item(g, at(p)).res is Ok <==> fits
            &&& fits ==> ui_item(g, at(p)) == read(q_x, UiItem::State(x.out()))
        }),
{
    let x = state_tail(g, at(p + 1));
    let q_x = behind(p + 1, x);
    assert(at(p).skip() == at(p + 1));
    assert(x.res is Ok ==> at(p + 1).after(x) == at(q_x));
}

/// `prop` in a user interface.
pub proof fn ui_prop(g: Src, p: nat)
    requires
        g.kind(p) == TokenKind::Keyword(Keyword::Prop),
    ensures
        ({
            let x = prop_tail(g, at(p + 1));
            let q_x = behind(p + 1, x);
            let fits = x.res is Ok;
            &&& ui_item(g, at(p)).res is Ok <==> fits
            &&& fits ==> ui_item(g, at(p)) == read(q_x, UiItem::Prop(x.out()))
        }),
{
    let x = prop_tail(g, at(p + 1));
    let q_x = behind(p + 1, x);
    assert(at(p).skip() == at(p + 1));
    assert(x.res is Ok ==> at(p + 1).after(x) == at(q_x));
}

/// `render` in a user interface.
pub proof fn ui_render(g: Src, p: nat)
    requires
        g.kind(p) == TokenKind::Keyword(Keyword::Render),
    ensures
        ({
            let x = block(g, at(p + 1));
            let q_x = behind(p + 1, x);
            let fits = x.res is Ok;
            &&& ui_item(g, at(p)).res is Ok <==> fits
            &&& fits ==> ui_item(g, at(p)) == read(q_x, UiItem::Render(x.out()))
        }),
{
    let x = block(g, at(p + 1));
    let q_x = behind(p + 1, x);
    assert(at(p).skip() == at(p + 1));
    assert(x.res is Ok ==> at(p + 1).after(x) == at(q_x));
}

/// `mount` in a user interface.
pub proof fn ui_mount(g: Src, p: nat)
    requires
        g.kind(p) == TokenKind::Keyword(Keyword::Mount),
    ensures
        ({
            let x = block(g, at(p + 1));
            let q_x = behind(p + 1, x);
            let fits = x.res is Ok;
            &&& ui_item(g, at(p)).res is Ok <==> fits
            &&& fits ==> ui_item(g, at(p)) == read(q_x, UiItem::Mount(x.out()))
        }),
{
    let x = block(g, at(p + 1));
    let q_x = behind(p + 1, x);
    assert(at(p).skip() == at(p + 1));
    assert(x.res is Ok ==> at(p + 1).after(x) == at(q_x));
}

/// `unmount` in a user interface.
pub proof fn ui_unmount(g: Src, p: nat)
    requires
        g.kind(p) == TokenKind::Keyword(Keyword::Unmount),
    ensures
        ({
            let x = block(g, at(p + 1));
            let q_x = behind(p + 1, x);
            let fits = x.res is Ok;
            &&& ui_item(g, at(p)).res is Ok <==> fits
            &&& fits ==> ui_item(g, at(p)) == read(q_x, UiItem::Unmount(x.out()))
        }),
{
    let x = block(g, at(p + 1));
    let q_x = behind(p + 1, x);
    assert(at(p).skip() == at(p + 1));
    assert(x.res is Ok ==> at(p + 1).after(x) == at(q_x));
}

/// A function in a user interface.
pub proof fn ui_function(g: Src, p: nat)
    requires
        g.kind(p) == TokenKind::Keyword(Keyword::Fn) || g.kind(p) == TokenKind::Keyword(
            Keyword::Async,
        ),
    ensures
        ({
            let x = fn_decl(g, at(p));
            let q_x = behind(p, x);
            let fits = x.res is Ok;
            &&& ui_item(g, at(p)).res is Ok <==> fits
            &&& fits ==> ui_item(g, at(p)) == read(q_x, UiItem::Fn(x.out()))
        }),
{
    let x = fn_decl(g, at(p));
    let q_x = behind(p, x);
    assert(x.res is Ok ==> at(p).after(x) == at(q_x));
}

/// After `prop`: a name and a type.
pub proof fn prop_form(g: Src, p: nat)
    ensures
        ({
            let name = word(g, at(p));
            let q_name = behind(p, name);
            let ty = type_of(g, at(q_name + 1));
            let q_ty = behind(q_name + 1, ty);
            let fits = name.res is Ok
                && g.kind(q_name) == TokenKind::Delim(Delim::Colon)
                && ty.res is Ok
                && g.kind(q_ty) == TokenKind::Delim(Delim::Semi);
            &&& prop_tail(g, at(p)).res is Ok <==> fits
            &&& fits
                ==> prop_tail(g, at(p)) == read(
                    q_ty + 1,
                    PropDecl { name: name.out(), ty: ty.out() },
                )
        }),
{
    let name = word(g, at(p));
    let q_name = behind(p, name);
    let ty = type_of(g, at(q_name + 1));
    let q_ty = behind(q_name + 1, ty);
    assert(name.res is Ok ==> at(p).after(name) == at(q_name));
    assert(g.kind(q_name) == TokenKind::Delim(Delim::Colon)
        ==> at(q_name).delim(g, Delim::Colon) == at(q_name + 1));
    assert(ty.res is Ok ==> at(q_name + 1).after(ty) == at(q_ty));
    assert(g.kind(q_ty) == TokenKind::Delim(Delim::Semi)
        ==> at(q_ty).delim(g, Delim::Semi) == at(q_ty + 1));
}

/// After a failure reading goes on at the first token from there that begins an item, or behind
/// the first `;`, whichever comes first, or at the end.
pub proof fn where_reading_goes_on(g: Src, p: nat, q: nat)
    requires
        p <= q,
        forall|i: nat|
            p <= i < q
                ==> !(#[trigger] g.kind(i) is Eof) && g.kind(i) != TokenKind::Delim(Delim::Semi)
                && !is_item_start(g.kind(i)),
    ensures
        g.kind(q) is Eof || is_item_start(g.kind(q)) ==> resume(g, p) == q,
        g.kind(q) == TokenKind::Delim(Delim::Semi) ==> resume(g, p) == q + 1,
    decreases q - p,
{
    if p < q {
        assert(!(g.kind(p) is Eof));
        where_reading_goes_on(g, p + 1, q);
    }
}

} // verus!
