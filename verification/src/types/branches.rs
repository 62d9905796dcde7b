//! What is found in branches, blocks, statements and functions, told by what is found in their
//! parts.
use crate::tree::{
    Block, ElseBranch, Expr, FnDecl, IfExpr, ImplItem, MatchArm, MatchArmBody, MatchExpr, Param,
    Pattern, Stmt, Type,
};
use crate::types::checks::{
    annotation, arm, arms, bind, bind_pattern, block, closure_locals, enter, expr, expr_inner,
    full_type, function, if_expr, impl_functions, known, known_method, local, local_in, match_expr,
    or_unit, own_reading, param_locals, part, stmt, stmts, told, told_block, Bound, Found, Locals,
    MaybeFound, Scope,
};
use crate::types::growth::{after, expr_inner_grows};
use crate::types::model::{ty_text, Problem, Registry, Ty};
use crate::types::names::{first, put, put_then_lookup};
use crate::types::params::inside;
use crate::types::pieces::{
    alone, arm_alone, arm_found_alike, block_alone, block_found_alike, found_alike, names, noted,
    run, type_found_alike,
};
use crate::types::rules::{method, read, resolve, satisfies, Reading};
use vstd::prelude::*;

verus! {

/// The condition and the branches of an `if` are looked at, each on its own. The condition has
/// to be one, and the whole is of the type of the first branch; another type of the other
/// branch is a problem.
pub proof fn branches(
    c: Scope,
    env: Locals,
    x: IfExpr,
    expected: Option<Ty>,
    errs: Seq<Problem>,
)
    ensures
        ({
            let a = alone(c, env, x.cond, Some(Ty::Bool));
            let b = block_alone(c, env, x.then_block, told_block(x.then_block, expected));
            let t = or_unit(b.ty);
            let found = expr_inner(c, env, Expr::If(Box::new(x)), expected, errs);
            &&& found.ty == t
            &&& match x.else_branch {
                None => found.errs == errs + a.errs + b.errs,
                Some(ElseBranch::Block(other)) => {
                    let d = block_alone(c, env, other, told_block(other, Some(t)));
                    found.errs == noted(
                        c,
                        errs + a.errs + b.errs + d.errs,
                        or_unit(d.ty) != t,
                        "`if`/`else` branches have incompatible types: `"@ + ty_text(t)
                            + "` and `"@ + ty_text(or_unit(d.ty))
                            + "` (Document 5 rule 5: no cross-branch guessing)"@,
                    )
                },
                Some(ElseBranch::If(inner)) => {
                    let d = expr_inner(c, env, Expr::If(inner), Some(t), seq![]);
                    found.errs == noted(
                        c,
                        errs + a.errs + b.errs + d.errs,
                        d.ty != t,
                        "`if`/`else if` branches have incompatible types: `"@ + ty_text(t)
                            + "` and `"@ + ty_text(d.ty) + "` (Document 5 rule 5)"@,
                    )
                },
            }
        }),
{
    let a = alone(c, env, x.cond, Some(Ty::Bool));
    let b = block_alone(c, env, x.then_block, told_block(x.then_block, expected));
    let t = or_unit(b.ty);
    found_alike(c, env, x.cond, Some(Ty::Bool), errs);
    block_found_alike(c, env, x.then_block, told_block(x.then_block, expected), errs + a.errs);
    let so_far = errs + a.errs + b.errs;
    assert(so_far + Seq::<Problem>::empty() =~= so_far);
    match x.else_branch {
        None => {},
        Some(ElseBranch::Block(other)) => {
            block_found_alike(c, env, other, told_block(other, Some(t)), so_far);
        },
        Some(ElseBranch::If(inner)) => {
            expr_inner_grows(c, env, Expr::If(inner), Some(t), seq![], so_far);
            assert(expr_inner(c, env, Expr::If(inner), Some(t), so_far) == if_expr(
                c,
                env,
                *inner,
                Some(t),
                so_far,
            ));
        },
    }
    assert(expr_inner(c, env, Expr::If(Box::new(x)), expected, errs) == if_expr(
        c,
        env,
        x,
        expected,
        errs,
    ));
}

/// What is expected of the arm `i` of a `match`: the type expected of the whole, or else the
/// type of the first arm.
pub open spec fn arm_hint(
    c: Scope,
    env: Locals,
    all: Seq<MatchArm>,
    expected: Option<Ty>,
    i: int,
) -> Option<Ty> {
    if expected is Some {
        expected
    } else if i == 0 {
        None
    } else {
        Some(arm_alone(c, env, all[0], None).ty)
    }
}

/// The problems of each arm of a `match`: its own, and one more where it is of another type
/// than is expected of it.
pub open spec fn in_arms(
    c: Scope,
    env: Locals,
    all: Seq<MatchArm>,
    expected: Option<Ty>,
) -> spec_fn(int) -> Seq<Problem> {
    |i: int|
        {
            let hint = arm_hint(c, env, all, expected, i);
            let a = arm_alone(c, env, all[i], hint);
            match hint {
                Some(t) => noted(
                    c,
                    a.errs,
                    a.ty != t,
                    "`match` arms have incompatible types: `"@ + ty_text(t) + "` and `"@ + ty_text(
                        a.ty,
                    ) + "` (Document 5 rule 5: no cross-branch guessing)"@,
                ),
                None => a.errs,
            }
        }
}

proof fn arms_in_order(
    c: Scope,
    env: Locals,
    all: Seq<MatchArm>,
    expected: Option<Ty>,
    n: nat,
    errs: Seq<Problem>,
)
    requires
        n <= all.len(),
    ensures
        arms(c, env, all, expected, n, errs).errs == errs + run(in_arms(c, env, all, expected), n),
        arms(c, env, all, expected, n, errs).ty == arm_hint(c, env, all, expected, n as int),
    decreases n,
{
    let f = in_arms(c, env, all, expected);
    if n == 0 {
        assert(errs + run(f, 0) =~= errs);
    } else {
        arms_in_order(c, env, all, expected, (n - 1) as nat, errs);
        let before = arms(c, env, all, expected, (n - 1) as nat, errs);
        arm_found_alike(c, env, all[n - 1], before.ty, before.errs);
        assert(errs + run(f, n) =~= before.errs + f(n - 1));
        assert(arms(c, env, all, expected, n, errs).errs =~= before.errs + f(n - 1));
    }
}

/// What is matched on is looked at on its own, then each arm in their order. The whole is of
/// the type expected, or else of the type of the first arm.
pub proof fn matches(
    c: Scope,
    env: Locals,
    x: MatchExpr,
    expected: Option<Ty>,
    errs: Seq<Problem>,
)
    ensures
        expr_inner(c, env, Expr::Match(Box::new(x)), expected, errs) == (Found {
            ty: or_unit(arm_hint(c, env, x.arms, expected, x.arms.len() as int)),
            errs: errs + alone(c, env, x.scrutinee, None).errs + run(
                in_arms(c, env, x.arms, expected),
                x.arms.len(),
            ),
        }),
{
    let a = alone(c, env, x.scrutinee, None);
    found_alike(c, env, x.scrutinee, None, errs);
    arms_in_order(c, env, x.arms, expected, x.arms.len(), errs + a.errs);
    assert(expr_inner(c, env, Expr::Match(Box::new(x)), expected, errs) == match_expr(
        c,
        env,
        x,
        expected,
        errs,
    ));
}

/// Every problem of the value that is matched on is a problem of the `match`, whatever its arms
/// are; to match on a name that is not bound is one.
pub proof fn matched_value_is_checked(
    c: Scope,
    env: Locals,
    x: MatchExpr,
    name: Seq<char>,
    expected: Option<Ty>,
    errs: Seq<Problem>,
)
    ensures
        expr(c, env, x.scrutinee, None, errs).errs.is_prefix_of(
            expr(c, env, Expr::Match(Box::new(x)), expected, errs).errs,
        ),
        forall|k: int|
            0 <= k < expr(c, env, x.scrutinee, None, errs).errs.len() ==> expr(
                c,
                env,
                Expr::Match(Box::new(x)),
                expected,
                errs,
            ).errs.contains(#[trigger] expr(c, env, x.scrutinee, None, errs).errs[k]),
        x.scrutinee == Expr::Ident(name) && local(env, name) is None ==> expr(
            c,
            env,
            Expr::Match(Box::new(x)),
            expected,
            errs,
        ).errs.len() > errs.len(),
{
    let e = Expr::Match(Box::new(x));
    let a = alone(c, env, x.scrutinee, None);
    let before = expr(c, env, x.scrutinee, None, errs).errs;
    let inner = expr_inner(c, env, e, expected, errs).errs;
    let whole = expr(c, env, e, expected, errs).errs;
    matches(c, env, x, expected, errs);
    found_alike(c, env, x.scrutinee, None, errs);
    assert(before =~= inner.take(before.len() as int));
    assert(inner =~= whole.take(inner.len() as int));
    assert(before =~= whole.take(before.len() as int));
    assert forall|k: int| 0 <= k < before.len() implies whole.contains(#[trigger] before[k]) by {
        assert(whole[k] == before[k]);
    }
    if x.scrutinee == Expr::Ident(name) && local(env, name) is None {
        names(c, env, name, None, errs);
        assert(
            part(c, env, x.scrutinee, None, errs) == expr_inner(c, env, x.scrutinee, None, errs)
        );
        assert(before.len() == errs.len() + 1);
    }
}

/// An arm has names of its own. Its guard is looked at and has to be a condition, and then its
/// body, of which the type of the arm is expected.
pub proof fn arms_of_a_match(
    c: Scope,
    env: Locals,
    a: MatchArm,
    expected: Option<Ty>,
    errs: Seq<Problem>,
)
    ensures
        ({
            let inside = enter(env);
            let guarded = match a.guard {
                Some(g) => errs + alone(c, inside, g, Some(Ty::Bool)).errs,
                None => errs,
            };
            match a.body {
                MatchArmBody::Expr(e) => arm(c, env, a, expected, errs) == (Found {
                    ty: alone(c, inside, *e, told(*e, expected)).ty,
                    errs: guarded + alone(c, inside, *e, told(*e, expected)).errs,
                }),
                MatchArmBody::Block(b) => arm(c, env, a, expected, errs) == (Found {
                    ty: or_unit(block_alone(c, inside, b, told_block(b, expected)).ty),
                    errs: guarded + block_alone(c, inside, b, told_block(b, expected)).errs,
                }),
            }
        }),
{
    let inside = enter(env);
    let guarded = match a.guard {
        Some(g) => errs + alone(c, inside, g, Some(Ty::Bool)).errs,
        None => errs,
    };
    if let Some(g) = a.guard {
        found_alike(c, inside, g, Some(Ty::Bool), errs);
    }
    match a.body {
        MatchArmBody::Expr(e) => found_alike(c, inside, *e, told(*e, expected), guarded),
        MatchArmBody::Block(b) => block_found_alike(
            c,
            inside,
            b,
            told_block(b, expected),
            guarded,
        ),
    }
}

/// A block has names of its own. Its statements are looked at, then the expression that ends
/// it, of which the type of the block is expected; without one it has no type.
pub proof fn ends_of_blocks(
    c: Scope,
    env: Locals,
    b: Block,
    expected: Option<Ty>,
    errs: Seq<Problem>,
)
    ensures
        ({
            let after = stmts(c, enter(env), b.stmts, b.stmts.len(), errs);
            match b.tail {
                Some(e) => block(c, env, b, expected, errs) == (MaybeFound {
                    ty: Some(alone(c, after.env, *e, expected).ty),
                    errs: after.errs + alone(c, after.env, *e, expected).errs,
                }),
                None => block(c, env, b, expected, errs) == (MaybeFound {
                    ty: None,
                    errs: after.errs,
                }),
            }
        }),
{
    let after = stmts(c, enter(env), b.stmts, b.stmts.len(), errs);
    if let Some(e) = b.tail {
        found_alike(c, after.env, *e, expected, after.errs);
    }
}

proof fn stmts_of_a_longer_list(
    c: Scope,
    env: Locals,
    all: Seq<Stmt>,
    more: Seq<Stmt>,
    n: nat,
    errs: Seq<Problem>,
)
    requires
        n <= all.len(),
    ensures
        stmts(c, env, all + more, n, errs) == stmts(c, env, all, n, errs),
    decreases n,
{
    if n > 0 {
        stmts_of_a_longer_list(c, env, all, more, (n - 1) as nat, errs);
        assert((all + more)[n - 1] == all[n - 1]);
    }
}

/// Statements are looked at in their order, each with the names that those before it bind.
pub proof fn statements_in_order(
    c: Scope,
    env: Locals,
    before: Seq<Stmt>,
    s: Stmt,
    errs: Seq<Problem>,
)
    ensures
        stmts(c, env, seq![], 0, errs) == (Bound { env, errs }),
        ({
            let all = before.push(s);
            let first = stmts(c, env, before, before.len(), errs);
            stmts(c, env, all, all.len(), errs) == stmt(c, first.env, s, first.errs)
        }),
{
    let all = before.push(s);
    assert(all =~= before + seq![s]);
    stmts_of_a_longer_list(c, env, before, seq![s], before.len(), errs);
    assert(all[all.len() - 1] == s);
    assert(all.len() - 1 == before.len());
}

/// The value of a `let` is looked at with the type that it is annotated with in mind. The name
/// is of that type, or else of the type of the value; with neither it is a problem.
pub proof fn lets(
    c: Scope,
    env: Locals,
    mutable: bool,
    pattern: Pattern,
    ty: Option<Type>,
    value: Option<Expr>,
    errs: Seq<Problem>,
)
    ensures
        ({
            let found = stmt(c, env, Stmt::Let { mutable, pattern, ty, value }, errs);
            let wanted = match ty {
                Some(t) => Some(full_type(c, t, seq![]).ty),
                None => None,
            };
            let written = match ty {
                Some(t) => errs + full_type(c, t, seq![]).errs,
                None => errs,
            };
            &&& found.errs == (match value {
                Some(e) => written + alone(c, env, e, wanted).errs,
                None => noted(
                    c,
                    written,
                    ty is None,
                    "cannot infer type: no annotation and no initializer"@,
                ),
            })
            &&& found.env == bind_pattern(
                env,
                pattern,
                match (wanted, value) {
                    (Some(t), _) => t,
                    (None, Some(e)) => expr(c, env, e, None, errs).ty,
                    (None, None) => Ty::Unit,
                },
            )
        }),
{
    let wanted = match ty {
        Some(t) => Some(full_type(c, t, seq![]).ty),
        None => None,
    };
    let written = match ty {
        Some(t) => errs + full_type(c, t, seq![]).errs,
        None => errs,
    };
    if let Some(t) = ty {
        type_found_alike(c, t, errs);
    }
    if let Some(e) = value {
        found_alike(c, env, e, wanted, written);
    }
}

/// An expression as a statement is looked at and binds nothing. No other statement is looked
/// into, and none but `let` binds a name.
pub proof fn other_statements(c: Scope, env: Locals, s: Stmt, errs: Seq<Problem>)
    ensures
        match s {
            Stmt::Let { .. } => true,
            Stmt::Expr(e) => stmt(c, env, s, errs) == (Bound {
                env,
                errs: errs + alone(c, env, e, None).errs,
            }),
            _ => stmt(c, env, s, errs) == (Bound { env, errs }),
        },
{
    if let Stmt::Expr(e) = s {
        found_alike(c, env, e, None, errs);
    }
}

/// A name, marked `mut` or not, is bound in the innermost block, and no other name changes.
/// No other pattern binds anything.
pub proof fn what_patterns_bind(env: Locals, p: Pattern, t: Ty, other: Seq<char>)
    requires
        env.len() > 0,
    ensures
        match p {
            Pattern::Ident(name) => local(bind_pattern(env, p, t), other) == (if other == name {
                Some(t)
            } else {
                local(env, other)
            }),
            Pattern::Mut(name) => local(bind_pattern(env, p, t), other) == (if other == name {
                Some(t)
            } else {
                local(env, other)
            }),
            _ => bind_pattern(env, p, t) == env,
        },
        bind_pattern(env, p, t).len() == env.len(),
        forall|i: int| 0 <= i < env.len() - 1 ==> #[trigger] bind_pattern(env, p, t)[i] == env[i],
{
    if let Pattern::Ident(name) = p {
        binding(env, name, t, other);
    }
    if let Pattern::Mut(name) = p {
        binding(env, name, t, other);
    }
}

/// A name that is bound is found, and no other name changes.
pub proof fn binding(env: Locals, name: Seq<char>, t: Ty, other: Seq<char>)
    requires
        env.len() > 0,
    ensures
        local(bind(env, name, t), other) == (if other == name {
            Some(t)
        } else {
            local(env, other)
        }),
{
    let n = env.len();
    let inside = bind(env, name, t);
    put_then_lookup(env[n - 1], name, t, other);
    assert(inside[n - 1] == put(env[n - 1], name, t));
    same_outside(inside, env, other, (n - 1) as nat);
}

proof fn same_outside(a: Locals, b: Locals, name: Seq<char>, n: nat)
    requires
        n <= a.len(),
        n <= b.len(),
        forall|i: int| 0 <= i < n ==> #[trigger] a[i] == b[i],
    ensures
        local_in(a, name, n) == local_in(b, name, n),
    decreases n,
{
    if n > 0 {
        same_outside(a, b, name, (n - 1) as nat);
    }
}

proof fn closure_locals_of_a_longer_list(
    env: Locals,
    params: Seq<(Pattern, Option<Type>)>,
    more: Seq<(Pattern, Option<Type>)>,
    n: nat,
)
    requires
        n <= params.len(),
    ensures
        closure_locals(env, params + more, n) == closure_locals(env, params, n),
    decreases n,
{
    if n > 0 {
        closure_locals_of_a_longer_list(env, params, more, (n - 1) as nat);
        assert((params + more)[n - 1] == params[n - 1]);
    }
}

/// Each plain name among the parameters of a closure is bound to the type that is written, or
/// to `()`; other patterns bind nothing.
pub proof fn parameters_of_closures(
    env: Locals,
    before: Seq<(Pattern, Option<Type>)>,
    p: Pattern,
    t: Option<Type>,
)
    ensures
        closure_locals(env, seq![], 0) == env,
        ({
            let all = before.push((p, t));
            let first = closure_locals(env, before, before.len());
            closure_locals(env, all, all.len()) == (match p {
                Pattern::Ident(name) => bind(
                    first,
                    name,
                    match t {
                        Some(t) => resolve(t),
                        None => Ty::Unit,
                    },
                ),
                _ => first,
            })
        }),
{
    let all = before.push((p, t));
    assert(all =~= before + seq![(p, t)]);
    closure_locals_of_a_longer_list(env, before, seq![(p, t)], before.len());
    assert(all[all.len() - 1] == (p, t));
    assert(all.len() - 1 == before.len());
}

proof fn param_locals_of_a_longer_list(
    params: Seq<Param>,
    more: Seq<Param>,
    own: Option<Ty>,
    n: nat,
)
    requires
        n <= params.len(),
    ensures
        param_locals(params + more, own, n) == param_locals(params, own, n),
    decreases n,
{
    if n > 0 {
        param_locals_of_a_longer_list(params, more, own, (n - 1) as nat);
        assert((params + more)[n - 1] == params[n - 1]);
    }
}

/// Each parameter of a function is bound to its type; in a method the receiver is bound to the
/// type of the `impl`, and `Self` stands for it.
pub proof fn parameters_of_functions(before: Seq<Param>, p: Param, own: Option<Ty>)
    ensures
        param_locals(seq![], own, 0) == enter(seq![]),
        ({
            let all = before.push(p);
            let first = param_locals(before, own, before.len());
            param_locals(all, own, all.len()) == (match own {
                Some(t) => bind(
                    first,
                    p.name,
                    if p.name == "self"@ {
                        t
                    } else {
                        read(p.ty, Reading::Within(t))
                    },
                ),
                None => if p.name == "self"@ {
                    first
                } else {
                    bind(first, p.name, read(p.ty, Reading::Plain))
                },
            })
        }),
{
    let all = before.push(p);
    assert(all =~= before + seq![p]);
    param_locals_of_a_longer_list(before, seq![p], own, before.len());
    assert(all[all.len() - 1] == p);
    assert(all.len() - 1 == before.len());
}

/// The body of a function is looked at under its name, with its parameters bound and with what
/// it gives back expected of it. A bare signature has nothing to look at.
pub proof fn functions(reg: Registry, f: FnDecl, own: Option<Ty>, errs: Seq<Problem>)
    ensures
        f.body is None ==> function(reg, f, own, errs) == errs,
        f.body matches Some(b) ==> function(reg, f, own, errs) == errs + block_alone(
            Scope { known: known(reg), name: f.name, own },
            param_locals(f.params, own, f.params.len()),
            b,
            match (f.return_type, own) {
                (None, _) => None,
                (Some(t), Some(own)) => Some(read(t, Reading::Within(own))),
                (Some(t), None) => Some(read(t, Reading::Plain)),
            },
        ).errs,
{
    if let Some(b) = f.body {
        block_found_alike(
            Scope { known: known(reg), name: f.name, own },
            param_locals(f.params, own, f.params.len()),
            b,
            match f.return_type {
                Some(t) => Some(read(t, own_reading(own))),
                None => None,
            },
            errs,
        );
    }
}

/// Bodies are checked against what the registry holds.
pub proof fn what_bodies_know(reg: Registry, t: Ty, target: Seq<char>, name: Seq<char>)
    ensures
        known(reg).structs == reg.structs,
        known(reg).enums == reg.enums,
        known(reg).functions == reg.functions,
        known(reg).traits == reg.traits,
        (known(reg).methods)(target, name) == method(reg, Ty::Named(target), name),
        (known(reg).satisfied)(t, name) == satisfies(reg, t, name),
        known_method(known(reg), t, name) == method(reg, t, name),
{
}

proof fn impl_functions_of_a_longer_list(
    reg: Registry,
    items: Seq<ImplItem>,
    more: Seq<ImplItem>,
    own: Ty,
    n: nat,
    errs: Seq<Problem>,
)
    requires
        n <= items.len(),
    ensures
        impl_functions(reg, items + more, own, n, errs) == impl_functions(reg, items, own, n, errs),
    decreases n,
{
    if n > 0 {
        impl_functions_of_a_longer_list(reg, items, more, own, (n - 1) as nat, errs);
        assert((items + more)[n - 1] == items[n - 1]);
    }
}

/// Each function of an `impl` block is looked at in their order, as a method of its type.
pub proof fn functions_of_an_impl(
    reg: Registry,
    before: Seq<ImplItem>,
    x: ImplItem,
    own: Ty,
    errs: Seq<Problem>,
)
    ensures
        impl_functions(reg, seq![], own, 0, errs) == errs,
        ({
            let all = before.push(x);
            let first = impl_functions(reg, before, own, before.len(), errs);
            impl_functions(reg, all, own, all.len(), errs) == (match x {
                ImplItem::Fn(f) => function(reg, f, Some(own), first),
                ImplItem::AssocType(..) => first,
            })
        }),
{
    let all = before.push(x);
    assert(all =~= before + seq![x]);
    impl_functions_of_a_longer_list(reg, before, seq![x], own, before.len(), errs);
    assert(all[all.len() - 1] == x);
    assert(all.len() - 1 == before.len());
}

} // verus!
