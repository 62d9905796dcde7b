//! Checking only ever adds problems; each names where it was found, and they are the same
//! whatever was found before.
use crate::tree::{
    Arg, Block, ClosureBody, ClosureExpr, ElseBranch, Expr, FnDecl, IfExpr, ImplItem, Item,
    ItemKind, MatchArm, MatchArmBody, MatchExpr, Program, Stmt, Type,
};
use crate::types::checks::{
    annotated_args, annotation, arg_types, args_against, arm, arms, array, array_items, behind_ref,
    block, bound_problems, bounds_problems, call, check, check_all, checked, closure,
    closure_locals, element_expected, enter, excused, expr, expr_inner, full_type, function,
    generic_args, generic_result, generics_of, if_expr, impl_functions, inferred, item_expected,
    known, known_method, lit_fields, match_expr, method_call, missing_fields, operation, or_unit,
    own_reading, param_locals, part, receiver, right_expected, stmt, stmts, struct_lit, told,
    told_block, told_found, tuple_items, variant_call, Locals, Scope,
};
use crate::types::laws::{impl_is_complete_or_a_problem, no_implicit_coercion, push_behind};
use crate::types::model::{FnSig, ParamKind, Problem, Registry, Ty};
use crate::types::names::{first, get, lookup};
use crate::types::rules::{
    add_all_impls, add_impls, all_type_args, declare_all, impl_methods, impl_problems, impl_title,
    is_orphan, missing_methods, orphan_message, primitive, read, substitute, State,
};
use vstd::prelude::*;

verus! {

/// The problems in `a` are the first ones in `b`.
pub open spec fn grows(a: Seq<Problem>, b: Seq<Problem>) -> bool {
    a.is_prefix_of(b)
}

/// The problems in `a` are the first ones in `b`, and each of the others names the function
/// at hand.
pub open spec fn adds(c: Scope, a: Seq<Problem>, b: Seq<Problem>) -> bool {
    grows(a, b) && forall|i: int| a.len() <= i < b.len() ==> (#[trigger] b[i]).context == c.name
}

proof fn grows_on(a: Seq<Problem>, b: Seq<Problem>, c: Seq<Problem>)
    requires
        grows(a, b),
        grows(b, c),
    ensures
        grows(a, c),
{
    assert forall|i: int| 0 <= i < a.len() implies a[i] == c.subrange(0, a.len() as int)[i] by {
        assert(a[i] == b.subrange(0, a.len() as int)[i]);
        assert(b[i] == c.subrange(0, b.len() as int)[i]);
    }
    assert(a =~= c.subrange(0, a.len() as int));
}

broadcast use push_behind;

proof fn adds_on(c: Scope, a: Seq<Problem>, b: Seq<Problem>, d: Seq<Problem>)
    requires
        adds(c, a, b),
        adds(c, b, d),
    ensures
        adds(c, a, d),
{
    grows_on(a, b, d);
    assert forall|i: int| a.len() <= i < d.len() implies (#[trigger] d[i]).context == c.name by {
        if i < b.len() {
            assert(b[i] == d.subrange(0, b.len() as int)[i]);
        }
    }
}

pub proof fn full_type_grows(c: Scope, t: Type, errs: Seq<Problem>, more: Seq<Problem>)
    ensures
        adds(c, errs, full_type(c, t, errs).errs),
        full_type(c, t, more + errs).errs == more + full_type(c, t, errs).errs,
        full_type(c, t, more + errs).ty == full_type(c, t, errs).ty,
    decreases t, 0nat,
{
    if let Type::Named(name, args) = t {
        if let Some(ps) = generics_of(c.known, name) {
            if args.len() > 0 && args.len() == ps.len() {
                generic_args_grow(c, name, ps, args, args.len(), errs, more);
            }
        }
    }
}

proof fn generic_args_grow(
    c: Scope,
    name: Seq<char>,
    ps: Seq<ParamKind>,
    args: Seq<Type>,
    n: nat,
    errs: Seq<Problem>,
    more: Seq<Problem>,
)
    ensures
        adds(c, errs, generic_args(c, name, ps, args, n, errs).errs),
        generic_args(c, name, ps, args, n, more + errs).errs
            == more + generic_args(c, name, ps, args, n, errs).errs,
        generic_args(c, name, ps, args, n, more + errs).args
            == generic_args(c, name, ps, args, n, errs).args,
        generic_args(c, name, ps, args, n, more + errs).bad
            == generic_args(c, name, ps, args, n, errs).bad,
    decreases args, n,
{
    if n == 0 || n > args.len() || n > ps.len() {
    } else {
        generic_args_grow(c, name, ps, args, (n - 1) as nat, errs, more);
        let before = generic_args(c, name, ps, args, (n - 1) as nat, errs);
        let after = generic_args(c, name, ps, args, n, errs);
        if ps[n - 1] is Type && !(args[n - 1] is ConstArg) {
            full_type_grows(c, args[n - 1], before.errs, more);
        }
        adds_on(c, errs, before.errs, after.errs);
    }
}

/// Checking an expression keeps the problems that were found before it.
pub proof fn expr_grows(
    c: Scope,
    env: Locals,
    e: Expr,
    expected: Option<Ty>,
    errs: Seq<Problem>,
    more: Seq<Problem>,
)
    ensures
        adds(c, errs, expr(c, env, e, expected, errs).errs),
        expr(c, env, e, expected, more + errs).errs == more + expr(c, env, e, expected, errs).errs,
        expr(c, env, e, expected, more + errs).ty == expr(c, env, e, expected, errs).ty,
    decreases e, 11nat,
{
    part_grows(c, env, e, expected, errs, more);
}

pub proof fn part_grows(
    c: Scope,
    env: Locals,
    e: Expr,
    expected: Option<Ty>,
    errs: Seq<Problem>,
    more: Seq<Problem>,
)
    ensures
        adds(c, errs, part(c, env, e, expected, errs).errs),
        part(c, env, e, expected, more + errs).errs == more + part(c, env, e, expected, errs).errs,
        part(c, env, e, expected, more + errs).ty == part(c, env, e, expected, errs).ty,
    decreases e, 10nat,
{
    expr_inner_grows(c, env, e, expected, errs, more);
    let found = expr_inner(c, env, e, expected, errs);
    adds_on(c, errs, found.errs, part(c, env, e, expected, errs).errs);
}

#[verifier::rlimit(40)]
pub proof fn expr_inner_grows(
    c: Scope,
    env: Locals,
    e: Expr,
    expected: Option<Ty>,
    errs: Seq<Problem>,
    more: Seq<Problem>,
)
    ensures
        adds(c, errs, expr_inner(c, env, e, expected, errs).errs),
        expr_inner(c, env, e, expected, more + errs).errs
            == more + expr_inner(c, env, e, expected, errs).errs,
        expr_inner(c, env, e, expected, more + errs).ty == expr_inner(c, env, e, expected, errs).ty,
    decreases e, 9nat,
{
    let after = expr_inner(c, env, e, expected, errs).errs;
    match e {
        Expr::Paren(inner) => part_grows(c, env, *inner, told(*inner, expected), errs, more),
        Expr::Array(items) => array_grows(c, env, items, expected, errs, more),
        Expr::Tuple(items) => tuple_items_grow(c, env, items, expected, items.len(), errs, more),
        Expr::StructLit { name, fields, spread } => struct_lit_grows(
            c,
            env,
            name,
            fields,
            spread is Some,
            expected,
            errs,
            more,
        ),
        Expr::If(x) => if_expr_grows(c, env, *x, expected, errs, more),
        Expr::Match(x) => match_expr_grows(c, env, *x, expected, errs, more),
        Expr::Block(b) => block_grows(c, env, *b, told_block(*b, expected), errs, more),
        Expr::Unsafe(b) => block_grows(c, env, *b, told_block(*b, expected), errs, more),
        Expr::Unary { op, expr: inner } => {
            part_grows(c, env, *inner, told(*inner, expected), errs, more);
            let found = part(c, env, *inner, told(*inner, expected), errs);
            adds_on(c, errs, found.errs, after);
        },
        Expr::Binary { op, lhs, rhs } => {
            part_grows(c, env, *lhs, None, errs, more);
            let left = part(c, env, *lhs, None, errs);
            part_grows(c, env, *rhs, told(*rhs, right_expected(left.ty)), left.errs, more);
            let right = part(c, env, *rhs, told(*rhs, right_expected(left.ty)), left.errs);
            adds_on(c, errs, left.errs, right.errs);
            operation_grows(c, op, left.ty, right.ty, right.errs, more);
            adds_on(c, errs, right.errs, after);
        },
        Expr::Assign { lhs, rhs, .. } => {
            part_grows(c, env, *lhs, None, errs, more);
            let left = part(c, env, *lhs, None, errs);
            part_grows(c, env, *rhs, told_found(*rhs, left.ty), left.errs, more);
            adds_on(c, errs, left.errs, after);
        },
        Expr::Cast { expr: inner, ty } => {
            part_grows(c, env, *inner, None, errs, more);
            let found = part(c, env, *inner, None, errs);
            full_type_grows(c, *ty, found.errs, more);
            adds_on(c, errs, found.errs, after);
        },
        Expr::Range { lo, hi, .. } => {
            part_grows(c, env, *lo, None, errs, more);
            let low = part(c, env, *lo, None, errs);
            part_grows(c, env, *hi, told_found(*hi, low.ty), low.errs, more);
            adds_on(c, errs, low.errs, after);
        },
        Expr::Propagate(inner) => part_grows(c, env, *inner, None, errs, more),
        Expr::Field { expr: inner, name } => {
            part_grows(c, env, *inner, None, errs, more);
            let found = part(c, env, *inner, None, errs);
            adds_on(c, errs, found.errs, after);
        },
        Expr::Index { expr: inner, index } => {
            part_grows(c, env, *inner, None, errs, more);
            let base = part(c, env, *inner, None, errs);
            part_grows(c, env, *index, None, base.errs, more);
            let place = part(c, env, *index, None, base.errs);
            adds_on(c, errs, base.errs, place.errs);
            adds_on(c, errs, place.errs, after);
        },
        Expr::Call { callee, args } => call_grows(c, env, *callee, args, expected, errs, more),
        Expr::MethodCall { receiver, name, args } => {
            part_grows(c, env, *receiver, None, errs, more);
            let base = part(c, env, *receiver, None, errs);
            method_call_grows(c, env, base.ty, name, args, expected, base.errs, more);
            adds_on(c, errs, base.errs, after);
        },
        Expr::Borrow { expr: inner, mutable } => {
            part_grows(c, env, *inner, told(*inner, behind_ref(expected)), errs, more);
        },
        Expr::Await(inner) => part_grows(c, env, *inner, None, errs, more),
        Expr::Throw(inner) => part_grows(c, env, *inner, None, errs, more),
        Expr::Return(inner) => {
            if let Some(v) = inner {
                part_grows(c, env, *v, None, errs, more);
            }
        },
        Expr::Yield(inner) => part_grows(c, env, *inner, None, errs, more),
        Expr::Closure(x) => closure_grows(c, env, *x, errs, more),
        _ => {},
    }
}

proof fn operation_grows(
    c: Scope,
    op: crate::ast::BinaryOp,
    lt: Ty,
    rt: Ty,
    errs: Seq<Problem>,
    more: Seq<Problem>,
)
    ensures
        adds(c, errs, operation(c, op, lt, rt, errs).errs),
        operation(c, op, lt, rt, more + errs).errs == more + operation(c, op, lt, rt, errs).errs,
        operation(c, op, lt, rt, more + errs).ty == operation(c, op, lt, rt, errs).ty,
{
}

proof fn array_grows(
    c: Scope,
    env: Locals,
    items: Seq<Expr>,
    expected: Option<Ty>,
    errs: Seq<Problem>,
    more: Seq<Problem>,
)
    ensures
        adds(c, errs, array(c, env, items, expected, errs).errs),
        array(c, env, items, expected, more + errs).errs
            == more + array(c, env, items, expected, errs).errs,
        array(c, env, items, expected, more + errs).ty == array(c, env, items, expected, errs).ty,
    decreases items, items.len() + 1,
{
    if items.len() > 0 {
        let hint = told(items[0], element_expected(expected));
        part_grows(c, env, items[0], hint, errs, more);
        let head = part(c, env, items[0], hint, errs);
        array_items_grow(c, env, items, head.ty, items.len(), head.errs, more);
        adds_on(c, errs, head.errs, array(c, env, items, expected, errs).errs);
    }
}

proof fn array_items_grow(
    c: Scope,
    env: Locals,
    items: Seq<Expr>,
    head: Ty,
    n: nat,
    errs: Seq<Problem>,
    more: Seq<Problem>,
)
    ensures
        adds(c, errs, array_items(c, env, items, head, n, errs)),
        array_items(c, env, items, head, n, more + errs) == more + array_items(
            c,
            env,
            items,
            head,
            n,
            errs,
        ),
    decreases items, n,
{
    if n <= 1 || n > items.len() {
    } else {
        array_items_grow(c, env, items, head, (n - 1) as nat, errs, more);
        let before = array_items(c, env, items, head, (n - 1) as nat, errs);
        let hint = told(items[n - 1], Some(head));
        part_grows(c, env, items[n - 1], hint, before, more);
        let found = part(c, env, items[n - 1], hint, before);
        adds_on(c, errs, before, found.errs);
        adds_on(c, errs, found.errs, array_items(c, env, items, head, n, errs));
    }
}

proof fn tuple_items_grow(
    c: Scope,
    env: Locals,
    items: Seq<Expr>,
    expected: Option<Ty>,
    n: nat,
    errs: Seq<Problem>,
    more: Seq<Problem>,
)
    ensures
        adds(c, errs, tuple_items(c, env, items, expected, n, errs).errs),
        tuple_items(c, env, items, expected, n, more + errs).errs
            == more + tuple_items(c, env, items, expected, n, errs).errs,
        tuple_items(c, env, items, expected, n, more + errs).tys
            == tuple_items(c, env, items, expected, n, errs).tys,
    decreases items, n,
{
    if n == 0 || n > items.len() {
    } else {
        tuple_items_grow(c, env, items, expected, (n - 1) as nat, errs, more);
        let before = tuple_items(c, env, items, expected, (n - 1) as nat, errs);
        let hint = told(items[n - 1], item_expected(expected, items.len(), n - 1));
        part_grows(c, env, items[n - 1], hint, before.errs, more);
        adds_on(c, errs, before.errs, tuple_items(c, env, items, expected, n, errs).errs);
    }
}

proof fn args_against_grow(
    c: Scope,
    env: Locals,
    args: Seq<Arg>,
    params: Seq<Ty>,
    n: nat,
    errs: Seq<Problem>,
    more: Seq<Problem>,
)
    ensures
        adds(c, errs, args_against(c, env, args, params, n, errs)),
        args_against(c, env, args, params, n, more + errs) == more + args_against(
            c,
            env,
            args,
            params,
            n,
            errs,
        ),
    decreases args, n,
{
    if n == 0 || n > args.len() {
    } else {
        args_against_grow(c, env, args, params, (n - 1) as nat, errs, more);
        let before = args_against(c, env, args, params, (n - 1) as nat, errs);
        let hint = if n <= params.len() {
            Some(params[n - 1])
        } else {
            None
        };
        part_grows(c, env, args[n - 1].value, hint, before, more);
        adds_on(c, errs, before, args_against(c, env, args, params, n, errs));
    }
}

proof fn arg_types_grow(
    c: Scope,
    env: Locals,
    args: Seq<Arg>,
    n: nat,
    errs: Seq<Problem>,
    more: Seq<Problem>,
)
    ensures
        adds(c, errs, arg_types(c, env, args, n, errs).errs),
        arg_types(c, env, args, n, more + errs).errs
            == more + arg_types(c, env, args, n, errs).errs,
        arg_types(c, env, args, n, more + errs).tys == arg_types(c, env, args, n, errs).tys,
    decreases args, n,
{
    if n == 0 || n > args.len() {
    } else {
        arg_types_grow(c, env, args, (n - 1) as nat, errs, more);
        let before = arg_types(c, env, args, (n - 1) as nat, errs);
        part_grows(c, env, args[n - 1].value, None, before.errs, more);
        adds_on(c, errs, before.errs, arg_types(c, env, args, n, errs).errs);
    }
}

proof fn bound_problems_grow(
    c: Scope,
    function: Seq<char>,
    param: Seq<char>,
    t: Ty,
    traits: Seq<Seq<char>>,
    n: nat,
    errs: Seq<Problem>,
    more: Seq<Problem>,
)
    ensures
        adds(c, errs, bound_problems(c, function, param, t, traits, n, errs)),
        bound_problems(c, function, param, t, traits, n, more + errs) == more + bound_problems(
            c,
            function,
            param,
            t,
            traits,
            n,
            errs,
        ),
    decreases n,
{
    if n == 0 || n > traits.len() {
    } else {
        bound_problems_grow(c, function, param, t, traits, (n - 1) as nat, errs, more);
        adds_on(
            c,
            errs,
            bound_problems(c, function, param, t, traits, (n - 1) as nat, errs),
            bound_problems(c, function, param, t, traits, n, errs),
        );
    }
}

proof fn bounds_problems_grow(
    c: Scope,
    function: Seq<char>,
    bounds: Seq<(Seq<char>, Seq<Seq<char>>)>,
    subst: Seq<(Seq<char>, Ty)>,
    n: nat,
    errs: Seq<Problem>,
    more: Seq<Problem>,
)
    ensures
        adds(c, errs, bounds_problems(c, function, bounds, subst, n, errs)),
        bounds_problems(c, function, bounds, subst, n, more + errs) == more + bounds_problems(
            c,
            function,
            bounds,
            subst,
            n,
            errs,
        ),
    decreases n,
{
    if n == 0 || n > bounds.len() {
    } else {
        bounds_problems_grow(c, function, bounds, subst, (n - 1) as nat, errs, more);
        let before = bounds_problems(c, function, bounds, subst, (n - 1) as nat, errs);
        let (param, traits) = bounds[n - 1];
        if let Some(t) = lookup(subst, param) {
            bound_problems_grow(c, function, param, t, traits, traits.len(), before, more);
        }
        adds_on(c, errs, before, bounds_problems(c, function, bounds, subst, n, errs));
    }
}

proof fn call_grows(
    c: Scope,
    env: Locals,
    callee: Expr,
    args: Seq<Arg>,
    expected: Option<Ty>,
    errs: Seq<Problem>,
    more: Seq<Problem>,
)
    ensures
        adds(c, errs, call(c, env, callee, args, expected, errs).errs),
        call(c, env, callee, args, expected, more + errs).errs
            == more + call(c, env, callee, args, expected, errs).errs,
        call(c, env, callee, args, expected, more + errs).ty
            == call(c, env, callee, args, expected, errs).ty,
    decreases args, args.len() + 2,
{
    args_against_grow(c, env, args, seq![], args.len(), errs, more);
    match callee {
        Expr::Ident(name) => {
            if let Some(shape) = get(c.known.functions, name) {
                args_against_grow(c, env, args, shape.params, args.len(), errs, more);
                arg_types_grow(c, env, args, args.len(), errs, more);
                let found = arg_types(c, env, args, args.len(), errs);
                let subst = inferred(shape.params, found.tys);
                bounds_problems_grow(
                    c,
                    name,
                    shape.bounds,
                    subst,
                    shape.bounds.len(),
                    found.errs,
                    more,
                );
                adds_on(c, errs, found.errs, generic_result(c, name, shape, found).errs);
            }
        },
        Expr::Path(path) => {
            if path.len() == 2 && get(c.known.enums, path[0]) is Some {
                let shape = get(c.known.enums, path[0])->0;
                if let Some(data) = first(shape.variants, path[1]) {
                    args_against_grow(c, env, args, data, args.len(), errs, more);
                    let after = args_against(c, env, args, data, args.len(), errs);
                    adds_on(
                        c,
                        errs,
                        after,
                        variant_call(c, env, path[0], path[1], shape, args, errs).errs,
                    );
                }
            }
        },
        _ => {},
    }
}

proof fn method_call_grows(
    c: Scope,
    env: Locals,
    base: Ty,
    name: Seq<char>,
    args: Seq<Arg>,
    expected: Option<Ty>,
    errs: Seq<Problem>,
    more: Seq<Problem>,
)
    ensures
        adds(c, errs, method_call(c, env, base, name, args, expected, errs).errs),
        method_call(c, env, base, name, args, expected, more + errs).errs
            == more + method_call(c, env, base, name, args, expected, errs).errs,
        method_call(c, env, base, name, args, expected, more + errs).ty
            == method_call(c, env, base, name, args, expected, errs).ty,
    decreases args, args.len() + 1,
{
    let params = match known_method(c.known, receiver(c, base), name) {
        Some(sig) => sig.params,
        None => seq![],
    };
    args_against_grow(c, env, args, params, args.len(), errs, more);
    adds_on(
        c,
        errs,
        args_against(c, env, args, params, args.len(), errs),
        method_call(c, env, base, name, args, expected, errs).errs,
    );
}

proof fn lit_fields_grow(
    c: Scope,
    env: Locals,
    name: Seq<char>,
    declared: Seq<(Seq<char>, Ty)>,
    subst: Seq<(Seq<char>, Ty)>,
    fields: Seq<(Seq<char>, Expr)>,
    n: nat,
    errs: Seq<Problem>,
    more: Seq<Problem>,
)
    ensures
        adds(c, errs, lit_fields(c, env, name, declared, subst, fields, n, errs)),
        lit_fields(c, env, name, declared, subst, fields, n, more + errs) == more + lit_fields(
            c,
            env,
            name,
            declared,
            subst,
            fields,
            n,
            errs,
        ),
    decreases fields, n,
{
    if n == 0 || n > fields.len() {
    } else {
        lit_fields_grow(c, env, name, declared, subst, fields, (n - 1) as nat, errs, more);
        let before = lit_fields(c, env, name, declared, subst, fields, (n - 1) as nat, errs);
        if let Some(t) = lookup(declared, fields[n - 1].0) {
            let hint = Some(substitute(t, subst));
            part_grows(c, env, fields[n - 1].1, hint, before, more);
        }
        adds_on(c, errs, before, lit_fields(c, env, name, declared, subst, fields, n, errs));
    }
}

proof fn missing_fields_grow(
    c: Scope,
    name: Seq<char>,
    declared: Seq<(Seq<char>, Ty)>,
    fields: Seq<(Seq<char>, Expr)>,
    n: nat,
    errs: Seq<Problem>,
    more: Seq<Problem>,
)
    ensures
        adds(c, errs, missing_fields(c, name, declared, fields, n, errs)),
        missing_fields(c, name, declared, fields, n, more + errs) == more + missing_fields(
            c,
            name,
            declared,
            fields,
            n,
            errs,
        ),
    decreases n,
{
    if n == 0 || n > declared.len() {
    } else {
        missing_fields_grow(c, name, declared, fields, (n - 1) as nat, errs, more);
        let before = missing_fields(c, name, declared, fields, (n - 1) as nat, errs);
        adds_on(c, errs, before, missing_fields(c, name, declared, fields, n, errs));
    }
}

proof fn struct_lit_grows(
    c: Scope,
    env: Locals,
    name: Seq<char>,
    fields: Seq<(Seq<char>, Expr)>,
    has_spread: bool,
    expected: Option<Ty>,
    errs: Seq<Problem>,
    more: Seq<Problem>,
)
    ensures
        adds(c, errs, struct_lit(c, env, name, fields, has_spread, expected, errs).errs),
        struct_lit(c, env, name, fields, has_spread, expected, more + errs).errs
            == more + struct_lit(c, env, name, fields, has_spread, expected, errs).errs,
        struct_lit(c, env, name, fields, has_spread, expected, more + errs).ty
            == struct_lit(c, env, name, fields, has_spread, expected, errs).ty,
    decreases fields, fields.len() + 1,
{
    if let Some(shape) = get(c.known.structs, name) {
        let subst = match annotated_args(name, shape, expected) {
            Some(args) => all_type_args(shape.generics, args),
            None => seq![],
        };
        lit_fields_grow(c, env, name, shape.fields, subst, fields, fields.len(), errs, more);
        let after = lit_fields(c, env, name, shape.fields, subst, fields, fields.len(), errs);
        missing_fields_grow(c, name, shape.fields, fields, shape.fields.len(), after, more);
        adds_on(
            c,
            errs,
            after,
            struct_lit(c, env, name, fields, has_spread, expected, errs).errs,
        );
    }
}

proof fn if_expr_grows(
    c: Scope,
    env: Locals,
    x: IfExpr,
    expected: Option<Ty>,
    errs: Seq<Problem>,
    more: Seq<Problem>,
)
    ensures
        adds(c, errs, if_expr(c, env, x, expected, errs).errs),
        if_expr(c, env, x, expected, more + errs).errs
            == more + if_expr(c, env, x, expected, errs).errs,
        if_expr(c, env, x, expected, more + errs).ty == if_expr(c, env, x, expected, errs).ty,
    decreases x, 0nat,
{
    part_grows(c, env, x.cond, Some(Ty::Bool), errs, more);
    let cond = part(c, env, x.cond, Some(Ty::Bool), errs);
    let hint = told_block(x.then_block, expected);
    block_grows(c, env, x.then_block, hint, cond.errs, more);
    let first = block(c, env, x.then_block, hint, cond.errs);
    adds_on(c, errs, cond.errs, first.errs);
    let t = or_unit(first.ty);
    let after = if_expr(c, env, x, expected, errs).errs;
    match x.else_branch {
        Some(ElseBranch::Block(b)) => {
            let hint = told_block(b, Some(t));
            block_grows(c, env, b, hint, first.errs, more);
            let second = block(c, env, b, hint, first.errs);
            adds_on(c, errs, first.errs, second.errs);
            adds_on(c, errs, second.errs, after);
        },
        Some(ElseBranch::If(inner)) => {
            if_expr_grows(c, env, *inner, Some(t), first.errs, more);
            let second = if_expr(c, env, *inner, Some(t), first.errs);
            adds_on(c, errs, first.errs, second.errs);
            adds_on(c, errs, second.errs, after);
        },
        None => {},
    }
}

pub proof fn arm_grows(
    c: Scope,
    env: Locals,
    a: MatchArm,
    expected: Option<Ty>,
    errs: Seq<Problem>,
    more: Seq<Problem>,
)
    ensures
        adds(c, errs, arm(c, env, a, expected, errs).errs),
        arm(c, env, a, expected, more + errs).errs == more + arm(c, env, a, expected, errs).errs,
        arm(c, env, a, expected, more + errs).ty == arm(c, env, a, expected, errs).ty,
    decreases a, 0nat,
{
    let inside = enter(env);
    let before = match a.guard {
        Some(g) => part(c, inside, g, Some(Ty::Bool), errs).errs,
        None => errs,
    };
    if let Some(g) = a.guard {
        part_grows(c, inside, g, Some(Ty::Bool), errs, more);
    }
    match a.body {
        MatchArmBody::Expr(e) => part_grows(c, inside, *e, told(*e, expected), before, more),
        MatchArmBody::Block(b) => block_grows(c, inside, b, told_block(b, expected), before, more),
    }
    adds_on(c, errs, before, arm(c, env, a, expected, errs).errs);
}

proof fn arms_grow(
    c: Scope,
    env: Locals,
    all: Seq<MatchArm>,
    expected: Option<Ty>,
    n: nat,
    errs: Seq<Problem>,
    more: Seq<Problem>,
)
    ensures
        adds(c, errs, arms(c, env, all, expected, n, errs).errs),
        arms(c, env, all, expected, n, more + errs).errs
            == more + arms(c, env, all, expected, n, errs).errs,
        arms(c, env, all, expected, n, more + errs).ty == arms(c, env, all, expected, n, errs).ty,
    decreases all, n,
{
    if n == 0 || n > all.len() {
    } else {
        arms_grow(c, env, all, expected, (n - 1) as nat, errs, more);
        let before = arms(c, env, all, expected, (n - 1) as nat, errs);
        arm_grows(c, env, all[n - 1], before.ty, before.errs, more);
        let found = arm(c, env, all[n - 1], before.ty, before.errs);
        adds_on(c, errs, before.errs, found.errs);
        adds_on(c, errs, found.errs, arms(c, env, all, expected, n, errs).errs);
    }
}

proof fn match_expr_grows(
    c: Scope,
    env: Locals,
    x: MatchExpr,
    expected: Option<Ty>,
    errs: Seq<Problem>,
    more: Seq<Problem>,
)
    ensures
        adds(c, errs, match_expr(c, env, x, expected, errs).errs),
        match_expr(c, env, x, expected, more + errs).errs
            == more + match_expr(c, env, x, expected, errs).errs,
        match_expr(c, env, x, expected, more + errs).ty == match_expr(c, env, x, expected, errs).ty,
    decreases x, 0nat,
{
    part_grows(c, env, x.scrutinee, None, errs, more);
    let scrutinee = part(c, env, x.scrutinee, None, errs);
    arms_grow(c, env, x.arms, expected, x.arms.len(), scrutinee.errs, more);
    adds_on(c, errs, scrutinee.errs, match_expr(c, env, x, expected, errs).errs);
}

proof fn closure_grows(
    c: Scope,
    env: Locals,
    x: ClosureExpr,
    errs: Seq<Problem>,
    more: Seq<Problem>,
)
    ensures
        adds(c, errs, closure(c, env, x, errs)),
        closure(c, env, x, more + errs) == more + closure(c, env, x, errs),
    decreases x, 0nat,
{
    let inside = closure_locals(enter(env), x.params, x.params.len());
    match x.body {
        ClosureBody::Expr(e) => part_grows(c, inside, *e, None, errs, more),
        ClosureBody::Block(b) => block_grows(c, inside, b, None, errs, more),
    }
}

/// Checking a block keeps the problems that were found before it.
pub proof fn block_grows(
    c: Scope,
    env: Locals,
    b: Block,
    expected: Option<Ty>,
    errs: Seq<Problem>,
    more: Seq<Problem>,
)
    ensures
        adds(c, errs, block(c, env, b, expected, errs).errs),
        block(c, env, b, expected, more + errs).errs
            == more + block(c, env, b, expected, errs).errs,
        block(c, env, b, expected, more + errs).ty == block(c, env, b, expected, errs).ty,
    decreases b, 0nat,
{
    stmts_grow(c, enter(env), b.stmts, b.stmts.len(), errs, more);
    let after = stmts(c, enter(env), b.stmts, b.stmts.len(), errs);
    if let Some(e) = b.tail {
        part_grows(c, after.env, *e, expected, after.errs, more);
        adds_on(c, errs, after.errs, block(c, env, b, expected, errs).errs);
    }
}

proof fn stmts_grow(
    c: Scope,
    env: Locals,
    all: Seq<Stmt>,
    n: nat,
    errs: Seq<Problem>,
    more: Seq<Problem>,
)
    ensures
        adds(c, errs, stmts(c, env, all, n, errs).errs),
        stmts(c, env, all, n, more + errs).errs == more + stmts(c, env, all, n, errs).errs,
        stmts(c, env, all, n, more + errs).env == stmts(c, env, all, n, errs).env,
    decreases all, n,
{
    if n == 0 || n > all.len() {
    } else {
        stmts_grow(c, env, all, (n - 1) as nat, errs, more);
        let before = stmts(c, env, all, (n - 1) as nat, errs);
        stmt_grows(c, before.env, all[n - 1], before.errs, more);
        adds_on(c, errs, before.errs, stmts(c, env, all, n, errs).errs);
    }
}

proof fn stmt_grows(c: Scope, env: Locals, s: Stmt, errs: Seq<Problem>, more: Seq<Problem>)
    ensures
        adds(c, errs, stmt(c, env, s, errs).errs),
        stmt(c, env, s, more + errs).errs == more + stmt(c, env, s, errs).errs,
        stmt(c, env, s, more + errs).env == stmt(c, env, s, errs).env,
    decreases s, 0nat,
{
    match s {
        Stmt::Let { pattern, ty, value, .. } => {
            let annotated = annotation(c, ty, errs);
            if let Some(t) = ty {
                full_type_grows(c, t, errs, more);
            }
            let given = match value {
                Some(e) => expr(c, env, e, annotated.ty, annotated.errs).errs,
                None => annotated.errs,
            };
            if let Some(e) = value {
                expr_grows(c, env, e, annotated.ty, annotated.errs, more);
            }
            adds_on(c, errs, annotated.errs, given);
            adds_on(c, errs, given, stmt(c, env, s, errs).errs);
        },
        Stmt::Expr(e) => expr_grows(c, env, e, None, errs, more),
        _ => {},
    }
}
/// The body of a function: each problem names the function, and they are the same whatever
/// was found before.
pub proof fn problems_name_their_function(
    reg: Registry,
    f: FnDecl,
    own: Option<Ty>,
    errs: Seq<Problem>,
    more: Seq<Problem>,
)
    ensures
        adds(Scope { known: known(reg), name: f.name, own }, errs, function(reg, f, own, errs)),
        function(reg, f, own, more + errs) == more + function(reg, f, own, errs),
{
    if let Some(body) = f.body {
        block_grows(
            Scope { known: known(reg), name: f.name, own },
            param_locals(f.params, own, f.params.len()),
            body,
            match f.return_type {
                Some(t) => Some(read(t, own_reading(own))),
                None => None,
            },
            errs,
            more,
        );
    }
}

proof fn impl_functions_grow(
    reg: Registry,
    items: Seq<ImplItem>,
    own: Ty,
    n: nat,
    errs: Seq<Problem>,
    more: Seq<Problem>,
)
    ensures
        grows(errs, impl_functions(reg, items, own, n, errs)),
        impl_functions(reg, items, own, n, more + errs) == more + impl_functions(
            reg,
            items,
            own,
            n,
            errs,
        ),
    decreases n,
{
    if n == 0 || n > items.len() {
    } else {
        impl_functions_grow(reg, items, own, (n - 1) as nat, errs, more);
        let before = impl_functions(reg, items, own, (n - 1) as nat, errs);
        if let ImplItem::Fn(f) = items[n - 1] {
            problems_name_their_function(reg, f, Some(own), before, more);
        }
        grows_on(errs, before, impl_functions(reg, items, own, n, errs));
    }
}

/// The bodies of an item: the problems are the same whatever was found before.
pub proof fn check_grows(reg: Registry, item: Item, errs: Seq<Problem>, more: Seq<Problem>)
    ensures
        grows(errs, check(reg, item, errs)),
        check(reg, item, more + errs) == more + check(reg, item, errs),
    decreases item, 0nat,
{
    match item.kind {
        ItemKind::Fn(f) => problems_name_their_function(reg, f, None, errs, more),
        ItemKind::Impl(d) => impl_functions_grow(
            reg,
            d.items,
            primitive(d.target.name),
            d.items.len(),
            errs,
            more,
        ),
        ItemKind::Mod(m) => check_all_grows(reg, m.items, m.items.len(), errs, more),
        _ => {},
    }
}

proof fn check_all_grows(
    reg: Registry,
    items: Seq<Item>,
    n: nat,
    errs: Seq<Problem>,
    more: Seq<Problem>,
)
    ensures
        grows(errs, check_all(reg, items, n, errs)),
        check_all(reg, items, n, more + errs) == more + check_all(reg, items, n, errs),
    decreases items, n,
{
    if n == 0 || n > items.len() {
    } else {
        check_all_grows(reg, items, (n - 1) as nat, errs, more);
        let before = check_all(reg, items, (n - 1) as nat, errs);
        check_grows(reg, items[n - 1], before, more);
        grows_on(errs, before, check_all(reg, items, n, errs));
    }
}

/// The state with more problems in front.
pub open spec fn after(more: Seq<Problem>, s: State) -> State {
    State { reg: s.reg, errs: more + s.errs }
}

proof fn missing_methods_grow(
    trait_name: Seq<char>,
    target: Seq<char>,
    required: Seq<(Seq<char>, FnSig)>,
    methods: Seq<(Seq<char>, FnSig)>,
    n: nat,
    errs: Seq<Problem>,
    more: Seq<Problem>,
)
    ensures
        missing_methods(trait_name, target, required, methods, n, more + errs) == more
            + missing_methods(trait_name, target, required, methods, n, errs),
    decreases n,
{
    if n == 0 || n > required.len() {
    } else {
        missing_methods_grow(
            trait_name,
            target,
            required,
            methods,
            (n - 1) as nat,
            errs,
            more,
        );
    }
}

/// The `impl` blocks of an item: the problems are the same whatever was found before.
pub proof fn add_impls_grows(s: State, item: Item, more: Seq<Problem>)
    ensures
        grows(s.errs, add_impls(s, item).errs),
        add_impls(after(more, s), item) == after(more, add_impls(s, item)),
    decreases item, 0nat,
{
    match item.kind {
        ItemKind::Impl(d) => {
            if let Some(t) = d.trait_ref {
                let target = d.target.name;
                let methods = impl_methods(d.items, primitive(target), d.items.len());
                impl_is_complete_or_a_problem(s.reg, t.name, target, methods, s.errs);
                let orphan = Problem {
                    message: orphan_message(t.name, target),
                    context: impl_title(t.name, target),
                };
                let found = if is_orphan(s.reg, t.name, target) {
                    s.errs.push(orphan)
                } else {
                    s.errs
                };
                if let Some(shape) = get(s.reg.traits, t.name) {
                    missing_methods_grow(
                        t.name,
                        target,
                        shape.methods,
                        methods,
                        shape.methods.len(),
                        found,
                        more,
                    );
                }
                assert(impl_problems(s.reg, t.name, target, methods, more + s.errs) == more
                    + impl_problems(s.reg, t.name, target, methods, s.errs));
            }
        },
        ItemKind::Mod(m) => add_all_impls_grow(s, m.items, m.items.len(), more),
        _ => {},
    }
}

proof fn add_all_impls_grow(s: State, items: Seq<Item>, n: nat, more: Seq<Problem>)
    ensures
        grows(s.errs, add_all_impls(s, items, n).errs),
        add_all_impls(after(more, s), items, n) == after(more, add_all_impls(s, items, n)),
    decreases items, n,
{
    if n == 0 || n > items.len() {
    } else {
        add_all_impls_grow(s, items, (n - 1) as nat, more);
        let before = add_all_impls(s, items, (n - 1) as nat);
        add_impls_grows(before, items[n - 1], more);
        grows_on(s.errs, before.errs, add_all_impls(s, items, n).errs);
    }
}

proof fn missing_methods_name_the_impl(
    trait_name: Seq<char>,
    target: Seq<char>,
    required: Seq<(Seq<char>, FnSig)>,
    methods: Seq<(Seq<char>, FnSig)>,
    n: nat,
    errs: Seq<Problem>,
    i: int,
)
    requires
        errs.len() <= i < missing_methods(trait_name, target, required, methods, n, errs).len(),
    ensures
        missing_methods(trait_name, target, required, methods, n, errs)[i].context == impl_title(
            trait_name,
            target,
        ),
    decreases n,
{
    if n == 0 || n > required.len() {
    } else {
        let before = missing_methods(
            trait_name,
            target,
            required,
            methods,
            (n - 1) as nat,
            errs,
        );
        if i < before.len() {
            missing_methods_name_the_impl(
                trait_name,
                target,
                required,
                methods,
                (n - 1) as nat,
                errs,
                i,
            );
        }
    }
}

/// Each problem of an `impl` of a trait names the trait and the type.
pub proof fn problems_name_their_impl(
    reg: Registry,
    trait_name: Seq<char>,
    target: Seq<char>,
    methods: Seq<(Seq<char>, FnSig)>,
    errs: Seq<Problem>,
    i: int,
)
    requires
        errs.len() <= i < impl_problems(reg, trait_name, target, methods, errs).len(),
    ensures
        impl_problems(reg, trait_name, target, methods, errs)[i].context == impl_title(
            trait_name,
            target,
        ),
{
    let orphan = Problem {
        message: orphan_message(trait_name, target),
        context: impl_title(trait_name, target),
    };
    let after = if is_orphan(reg, trait_name, target) {
        errs.push(orphan)
    } else {
        errs
    };
    impl_is_complete_or_a_problem(reg, trait_name, target, methods, errs);
    if let Some(shape) = get(reg.traits, trait_name) {
        if i >= after.len() {
            missing_methods_name_the_impl(
                trait_name,
                target,
                shape.methods,
                methods,
                shape.methods.len(),
                after,
                i,
            );
        } else {
            missing_methods_keep(
                trait_name,
                target,
                shape.methods,
                methods,
                shape.methods.len(),
                after,
                i,
            );
        }
    }
}

proof fn missing_methods_keep(
    trait_name: Seq<char>,
    target: Seq<char>,
    required: Seq<(Seq<char>, FnSig)>,
    methods: Seq<(Seq<char>, FnSig)>,
    n: nat,
    errs: Seq<Problem>,
    i: int,
)
    requires
        0 <= i < errs.len(),
    ensures
        missing_methods(trait_name, target, required, methods, n, errs).len() >= errs.len(),
        missing_methods(trait_name, target, required, methods, n, errs)[i] == errs[i],
    decreases n,
{
    if n == 0 || n > required.len() {
    } else {
        missing_methods_keep(trait_name, target, required, methods, (n - 1) as nat, errs, i);
    }
}

/// A problem once found stays: checking a program only ever adds to the problems.
pub proof fn checking_keeps_problems(s: State, p: Program)
    ensures
        grows(s.errs, checked(s, p).errs),
{
    let declared = State { reg: declare_all(s.reg, p.items, p.items.len()), errs: s.errs };
    add_all_impls_grow(declared, p.items, p.items.len(), seq![]);
    let complete = add_all_impls(declared, p.items, p.items.len());
    check_all_grows(complete.reg, p.items, p.items.len(), complete.errs, seq![]);
    grows_on(s.errs, complete.errs, checked(s, p).errs);
}

/// What a program adds to the problems is the same whatever was found before.
pub proof fn problems_before_do_not_matter(s: State, p: Program, more: Seq<Problem>)
    ensures
        checked(after(more, s), p) == after(more, checked(s, p)),
{
    let declared = State { reg: declare_all(s.reg, p.items, p.items.len()), errs: s.errs };
    add_all_impls_grow(declared, p.items, p.items.len(), more);
    let complete = add_all_impls(declared, p.items, p.items.len());
    check_all_grows(complete.reg, p.items, p.items.len(), complete.errs, more);
}

/// What checking an expression comes to, whatever the expression: the problems found before
/// it stay, each new one names the function, an expectation that is not met adds one, but
/// of a numeric literal where the type expected is open, and what was found before changes
/// neither the type nor the new problems.
pub proof fn checking_an_expression(
    c: Scope,
    env: Locals,
    e: Expr,
    expected: Option<Ty>,
    errs: Seq<Problem>,
    more: Seq<Problem>,
)
    ensures
        adds(c, errs, expr(c, env, e, expected, errs).errs),
        expected is Some && expr(c, env, e, expected, errs).ty != expected->0 && !excused(
            c,
            e,
            expected,
        ) ==> expr(
            c,
            env,
            e,
            expected,
            errs,
        ).errs.len() > errs.len(),
        expr(c, env, e, expected, more + errs).ty == expr(c, env, e, expected, errs).ty,
        expr(c, env, e, expected, more + errs).errs == more + expr(
            c,
            env,
            e,
            expected,
            errs,
        ).errs,
{
    expr_grows(c, env, e, expected, errs, more);
    expr_inner_grows(c, env, e, expected, errs, more);
    if let Some(t) = expected {
        no_implicit_coercion(c, env, e, t, errs);
    }
}

} // verus!
