//! What is found in calls, literals of several values, branches and blocks, told by what is
//! found in their parts.
use crate::text::nat_text;
use crate::tree::{Arg, Expr};
use crate::types::checks::{
    annotated_args, arg_types, args_against, array, array_items, bound_problems, bounds_problems,
    call, element_expected, expr, expr_inner, function, generic_result, inferred, is_known, is_open,
    item_expected, known, known_method, lit_fields, method_call, missing_fields, no_field,
    no_variant, or_unit, receiver, struct_lit, told, tuple_items, unknown_call, variant_call, Found,
    Known, Locals, Scope,
};
use crate::types::model::{ty_text, EnumShape, FnSig, FunctionShape, Problem, StructShape, Ty};
use crate::types::names::{first, get, lookup};
use crate::types::pieces::{alone, found_alike, noted, run};
use crate::types::rules::{all_type_args, holds_param, lookup_name, method, primitive, substitute};
use vstd::prelude::*;

verus! {

/// What is expected of the item `i` of a tuple.
pub open spec fn item_hint(items: Seq<Expr>, expected: Option<Ty>, i: int) -> Option<Ty> {
    told(items[i], item_expected(expected, items.len(), i))
}

/// The problems of each item of a tuple.
pub open spec fn in_items(
    c: Scope,
    env: Locals,
    items: Seq<Expr>,
    expected: Option<Ty>,
) -> spec_fn(int) -> Seq<Problem> {
    |i: int| alone(c, env, items[i], item_hint(items, expected, i)).errs
}

proof fn tuple_items_in_order(
    c: Scope,
    env: Locals,
    items: Seq<Expr>,
    expected: Option<Ty>,
    n: nat,
    errs: Seq<Problem>,
)
    requires
        n <= items.len(),
    ensures
        tuple_items(c, env, items, expected, n, errs).errs == errs + run(
            in_items(c, env, items, expected),
            n,
        ),
        tuple_items(c, env, items, expected, n, errs).tys.len() == n,
        forall|i: int|
            0 <= i < n ==> #[trigger] tuple_items(c, env, items, expected, n, errs).tys[i]
                == alone(c, env, items[i], item_hint(items, expected, i)).ty,
    decreases n,
{
    let f = in_items(c, env, items, expected);
    if n == 0 {
        assert(errs + run(f, 0) =~= errs);
    } else {
        tuple_items_in_order(c, env, items, expected, (n - 1) as nat, errs);
        let before = tuple_items(c, env, items, expected, (n - 1) as nat, errs);
        let hint = item_hint(items, expected, n - 1);
        found_alike(c, env, items[n - 1], hint, before.errs);
        assert(f(n - 1) == alone(c, env, items[n - 1], hint).errs);
        assert(errs + run(f, n) =~= before.errs + f(n - 1));
    }
}

/// A tuple is of the types of its items, in their order, and each item is looked at.
pub proof fn tuples(
    c: Scope,
    env: Locals,
    items: Seq<Expr>,
    expected: Option<Ty>,
    errs: Seq<Problem>,
)
    ensures
        ({
            let found = expr_inner(c, env, Expr::Tuple(items), expected, errs);
            &&& found.errs == errs + run(in_items(c, env, items, expected), items.len())
            &&& found.ty matches Ty::Tuple(ts) && ts.len() == items.len() && forall|i: int|
                0 <= i < ts.len() ==> #[trigger] ts[i] == alone(
                    c,
                    env,
                    items[i],
                    item_hint(items, expected, i),
                ).ty
        }),
{
    tuple_items_in_order(c, env, items, expected, items.len(), errs);
}

/// The problems of each element of an array behind the first: its own, and one more where it
/// is not of the type of the first.
pub open spec fn in_elements(
    c: Scope,
    env: Locals,
    items: Seq<Expr>,
    head: Ty,
) -> spec_fn(int) -> Seq<Problem> {
    |i: int|
        if i == 0 {
            seq![]
        } else {
            let a = alone(c, env, items[i], told(items[i], Some(head)));
            noted(
                c,
                a.errs,
                a.ty != head,
                "array element type mismatch: expected `"@ + ty_text(head) + "`, found `"@
                    + ty_text(a.ty) + "`"@,
            )
        }
}

proof fn elements_in_order(
    c: Scope,
    env: Locals,
    items: Seq<Expr>,
    head: Ty,
    n: nat,
    errs: Seq<Problem>,
)
    requires
        n <= items.len(),
    ensures
        array_items(c, env, items, head, n, errs) == errs + run(
            in_elements(c, env, items, head),
            n,
        ),
    decreases n,
{
    let f = in_elements(c, env, items, head);
    if n == 0 {
        assert(errs + run(f, 0) =~= errs);
    } else {
        elements_in_order(c, env, items, head, (n - 1) as nat, errs);
        let before = array_items(c, env, items, head, (n - 1) as nat, errs);
        let hint = told(items[n - 1], Some(head));
        found_alike(c, env, items[n - 1], hint, before);
        assert(errs + run(f, n) =~= before + f(n - 1));
        if n > 1 {
            assert(array_items(c, env, items, head, n, errs) =~= before + f(n - 1));
        } else {
            assert(before + f(0) =~= errs);
        }
    }
}

/// An array is of the type of its first element, and each element is looked at. An element of
/// another type is a problem.
pub proof fn arrays(
    c: Scope,
    env: Locals,
    items: Seq<Expr>,
    expected: Option<Ty>,
    errs: Seq<Problem>,
)
    requires
        items.len() > 0,
    ensures
        ({
            let a = alone(c, env, items[0], told(items[0], element_expected(expected)));
            expr_inner(c, env, Expr::Array(items), expected, errs) == (Found {
                ty: Ty::Array(Box::new(a.ty)),
                errs: errs + a.errs + run(in_elements(c, env, items, a.ty), items.len()),
            })
        }),
{
    let a = alone(c, env, items[0], told(items[0], element_expected(expected)));
    found_alike(c, env, items[0], told(items[0], element_expected(expected)), errs);
    elements_in_order(c, env, items, a.ty, items.len(), errs + a.errs);
    assert(expr_inner(c, env, Expr::Array(items), expected, errs) == array(
        c,
        env,
        items,
        expected,
        errs,
    ));
}

/// Of `e.name` the expression is looked at. A struct has the fields that were declared, with
/// the type arguments of the value in place of the parameters; any other name is a problem. Of
/// what is no struct nothing is said.
pub proof fn fields(
    c: Scope,
    env: Locals,
    inner: Expr,
    name: Seq<char>,
    expected: Option<Ty>,
    errs: Seq<Problem>,
)
    ensures
        ({
            let a = alone(c, env, inner, None);
            let found = expr_inner(
                c,
                env,
                Expr::Field { expr: Box::new(inner), name },
                expected,
                errs,
            );
            match a.ty {
                Ty::Named(n) => match get(c.known.structs, n) {
                    Some(shape) => match first(shape.fields, name) {
                        Some(t) => found == (Found { ty: t, errs: errs + a.errs }),
                        None => found == (Found {
                            ty: Ty::Unit,
                            errs: noted(c, errs + a.errs, true, no_field(n, name)),
                        }),
                    },
                    None => found == (Found { ty: Ty::Unit, errs: errs + a.errs }),
                },
                Ty::Generic(n, args) => match get(c.known.structs, n) {
                    Some(shape) => match first(shape.fields, name) {
                        Some(t) => found == (Found {
                            ty: substitute(t, all_type_args(shape.generics, args)),
                            errs: errs + a.errs,
                        }),
                        None => found == (Found {
                            ty: Ty::Unit,
                            errs: noted(c, errs + a.errs, true, no_field(n, name)),
                        }),
                    },
                    None => found == (Found { ty: Ty::Unit, errs: errs + a.errs }),
                },
                _ => found == (Found { ty: Ty::Unit, errs: errs + a.errs }),
            }
        }),
{
    found_alike(c, env, inner, None, errs);
}

/// The problems of each argument of a call, held against the parameter in its place; where
/// there is none, looked at on its own.
pub open spec fn in_args(
    c: Scope,
    env: Locals,
    args: Seq<Arg>,
    params: Seq<Ty>,
) -> spec_fn(int) -> Seq<Problem> {
    |i: int|
        if i < params.len() {
            alone(c, env, args[i].value, Some(params[i])).errs
        } else {
            alone(c, env, args[i].value, None).errs
        }
}

/// Each argument is looked at, in their order.
pub proof fn args_in_order(
    c: Scope,
    env: Locals,
    args: Seq<Arg>,
    params: Seq<Ty>,
    n: nat,
    errs: Seq<Problem>,
)
    requires
        n <= args.len(),
    ensures
        args_against(c, env, args, params, n, errs) == errs + run(in_args(c, env, args, params), n),
    decreases n,
{
    let f = in_args(c, env, args, params);
    if n == 0 {
        assert(errs + run(f, 0) =~= errs);
    } else {
        args_in_order(c, env, args, params, (n - 1) as nat, errs);
        let before = args_against(c, env, args, params, (n - 1) as nat, errs);
        if n <= params.len() {
            found_alike(c, env, args[n - 1].value, Some(params[n - 1]), before);
        } else {
            found_alike(c, env, args[n - 1].value, None, before);
        }
        assert(errs + run(f, n) =~= before + f(n - 1));
    }
}

proof fn types_in_order(c: Scope, env: Locals, args: Seq<Arg>, n: nat, errs: Seq<Problem>)
    requires
        n <= args.len(),
    ensures
        arg_types(c, env, args, n, errs).errs == errs + run(in_args(c, env, args, seq![]), n),
        arg_types(c, env, args, n, errs).tys == Seq::new(
            n,
            |i: int| alone(c, env, args[i].value, None).ty,
        ),
    decreases n,
{
    let f = in_args(c, env, args, seq![]);
    if n == 0 {
        assert(errs + run(f, 0) =~= errs);
        assert(arg_types(c, env, args, n, errs).tys =~= Seq::new(
            n,
            |i: int| alone(c, env, args[i].value, None).ty,
        ));
    } else {
        types_in_order(c, env, args, (n - 1) as nat, errs);
        let before = arg_types(c, env, args, (n - 1) as nat, errs);
        found_alike(c, env, args[n - 1].value, None, before.errs);
        assert(errs + run(f, n) =~= before.errs + f(n - 1));
        assert(arg_types(c, env, args, n, errs).tys =~= Seq::new(
            n,
            |i: int| alone(c, env, args[i].value, None).ty,
        ));
    }
}

/// A call of a declared function is of the type that it gives back, and each argument is held
/// against the parameter in its place.
pub proof fn plain_calls(
    c: Scope,
    env: Locals,
    name: Seq<char>,
    args: Seq<Arg>,
    shape: FunctionShape,
    expected: Option<Ty>,
    errs: Seq<Problem>,
)
    requires
        get(c.known.functions, name) == Some(shape),
        shape.generics.len() == 0,
    ensures
        expr_inner(
            c,
            env,
            Expr::Call { callee: Box::new(Expr::Ident(name)), args },
            expected,
            errs,
        ) == (Found {
            ty: shape.ret,
            errs: errs + run(in_args(c, env, args, shape.params), args.len()),
        }),
{
    args_in_order(c, env, args, shape.params, args.len(), errs);
    assert(expr_inner(
        c,
        env,
        Expr::Call { callee: Box::new(Expr::Ident(name)), args },
        expected,
        errs,
    ) == call(c, env, Expr::Ident(name), args, expected, errs));
}

/// The problems of the bounds of a generic function: one for each trait that the type found
/// for a parameter lacks.
pub open spec fn in_traits(
    c: Scope,
    function: Seq<char>,
    param: Seq<char>,
    t: Ty,
    traits: Seq<Seq<char>>,
) -> spec_fn(int) -> Seq<Problem> {
    |i: int|
        noted(
            c,
            seq![],
            !(c.known.satisfied)(t, traits[i]),
            "type `"@ + ty_text(t) + "` does not satisfy bound `"@ + traits[i]
                + "` required for generic parameter `"@ + param + "` of `"@ + function
                + "` (Document 8 §2/§3)"@,
        )
}

pub open spec fn in_bounds(
    c: Scope,
    function: Seq<char>,
    bounds: Seq<(Seq<char>, Seq<Seq<char>>)>,
    subst: Seq<(Seq<char>, Ty)>,
) -> spec_fn(int) -> Seq<Problem> {
    |i: int|
        match lookup(subst, bounds[i].0) {
            Some(t) => run(in_traits(c, function, bounds[i].0, t, bounds[i].1), bounds[i].1.len()),
            None => seq![],
        }
}

proof fn traits_in_order(
    c: Scope,
    function: Seq<char>,
    param: Seq<char>,
    t: Ty,
    traits: Seq<Seq<char>>,
    n: nat,
    errs: Seq<Problem>,
)
    requires
        n <= traits.len(),
    ensures
        bound_problems(c, function, param, t, traits, n, errs) == errs + run(
            in_traits(c, function, param, t, traits),
            n,
        ),
    decreases n,
{
    let f = in_traits(c, function, param, t, traits);
    if n == 0 {
        assert(errs + run(f, 0) =~= errs);
    } else {
        traits_in_order(c, function, param, t, traits, (n - 1) as nat, errs);
        let before = bound_problems(c, function, param, t, traits, (n - 1) as nat, errs);
        assert(errs + run(f, n) =~= before + f(n - 1));
        assert(bound_problems(c, function, param, t, traits, n, errs) =~= before + f(n - 1));
    }
}

proof fn bounds_in_order(
    c: Scope,
    function: Seq<char>,
    bounds: Seq<(Seq<char>, Seq<Seq<char>>)>,
    subst: Seq<(Seq<char>, Ty)>,
    n: nat,
    errs: Seq<Problem>,
)
    requires
        n <= bounds.len(),
    ensures
        bounds_problems(c, function, bounds, subst, n, errs) == errs + run(
            in_bounds(c, function, bounds, subst),
            n,
        ),
    decreases n,
{
    let f = in_bounds(c, function, bounds, subst);
    if n == 0 {
        assert(errs + run(f, 0) =~= errs);
    } else {
        bounds_in_order(c, function, bounds, subst, (n - 1) as nat, errs);
        let before = bounds_problems(c, function, bounds, subst, (n - 1) as nat, errs);
        let (param, traits) = bounds[n - 1];
        if let Some(t) = lookup(subst, param) {
            traits_in_order(c, function, param, t, traits, traits.len(), before);
        }
        assert(errs + run(f, n) =~= before + f(n - 1));
        assert(bounds_problems(c, function, bounds, subst, n, errs) =~= before + f(n - 1));
    }
}

/// A call of a generic function looks at each argument on its own and learns from their types
/// what the type parameters are; the result is the declared one with these in their place, and
/// each bound that they do not meet is a problem.
pub proof fn generic_calls(
    c: Scope,
    env: Locals,
    name: Seq<char>,
    args: Seq<Arg>,
    shape: FunctionShape,
    expected: Option<Ty>,
    errs: Seq<Problem>,
)
    requires
        get(c.known.functions, name) == Some(shape),
        shape.generics.len() > 0,
    ensures
        ({
            let tys = Seq::new(args.len(), |i: int| alone(c, env, args[i].value, None).ty);
            let subst = inferred(shape.params, tys);
            expr_inner(
                c,
                env,
                Expr::Call { callee: Box::new(Expr::Ident(name)), args },
                expected,
                errs,
            ) == (Found {
                ty: substitute(shape.ret, subst),
                errs: errs + run(in_args(c, env, args, seq![]), args.len()) + run(
                    in_bounds(c, name, shape.bounds, subst),
                    shape.bounds.len(),
                ),
            })
        }),
{
    types_in_order(c, env, args, args.len(), errs);
    let found = arg_types(c, env, args, args.len(), errs);
    let subst = inferred(shape.params, found.tys);
    bounds_in_order(c, name, shape.bounds, subst, shape.bounds.len(), found.errs);
    assert(expr_inner(
        c,
        env,
        Expr::Call { callee: Box::new(Expr::Ident(name)), args },
        expected,
        errs,
    ) == call(c, env, Expr::Ident(name), args, expected, errs));
    assert(call(c, env, Expr::Ident(name), args, expected, errs) == generic_result(
        c,
        name,
        shape,
        found,
    ));
}

/// A variant with arguments is of the type of its enum. Each argument is held against what the
/// variant carries, too many or too few are a problem, and so is a variant that the enum does
/// not have.
pub proof fn variant_calls(
    c: Scope,
    env: Locals,
    enum_name: Seq<char>,
    variant: Seq<char>,
    args: Seq<Arg>,
    shape: EnumShape,
    expected: Option<Ty>,
    errs: Seq<Problem>,
)
    requires
        get(c.known.enums, enum_name) == Some(shape),
    ensures
        ({
            let found = expr_inner(
                c,
                env,
                Expr::Call { callee: Box::new(Expr::Path(seq![enum_name, variant])), args },
                expected,
                errs,
            );
            &&& found.ty == Ty::Named(enum_name)
            &&& match first(shape.variants, variant) {
                Some(data) => found.errs == noted(
                    c,
                    errs + run(in_args(c, env, args, data), args.len()),
                    args.len() != data.len(),
                    "`"@ + enum_name + "::"@ + variant + "`"@ + " expects "@ + nat_text(data.len())
                        + " argument(s), found "@ + nat_text(args.len()),
                ),
                None => found.errs == noted(c, errs, true, no_variant(enum_name, variant)),
            }
        }),
{
    let path = seq![enum_name, variant];
    if let Some(data) = first(shape.variants, variant) {
        args_in_order(c, env, args, data, args.len(), errs);
    }
    assert(expr_inner(
        c,
        env,
        Expr::Call { callee: Box::new(Expr::Path(path)), args },
        expected,
        errs,
    ) == call(c, env, Expr::Path(path), args, expected, errs));
    assert(call(c, env, Expr::Path(path), args, expected, errs) == variant_call(
        c,
        env,
        enum_name,
        variant,
        shape,
        args,
        errs,
    ));
}

/// A call of something that is not declared looks at each argument on its own, and is of the
/// type expected.
pub proof fn calls_of_something_else(
    c: Scope,
    env: Locals,
    callee: Expr,
    args: Seq<Arg>,
    expected: Option<Ty>,
    errs: Seq<Problem>,
)
    requires
        match callee {
            Expr::Ident(name) => get(c.known.functions, name) is None,
            Expr::Path(path) => path.len() != 2 || get(c.known.enums, path[0]) is None,
            _ => true,
        },
    ensures
        expr_inner(
            c,
            env,
            Expr::Call { callee: Box::new(callee), args },
            expected,
            errs,
        ) == (Found {
            ty: or_unit(expected),
            errs: errs + run(in_args(c, env, args, seq![]), args.len()),
        }),
{
    args_in_order(c, env, args, seq![], args.len(), errs);
    assert(expr_inner(
        c,
        env,
        Expr::Call { callee: Box::new(callee), args },
        expected,
        errs,
    ) == call(c, env, callee, args, expected, errs));
    assert(call(c, env, callee, args, expected, errs) == unknown_call(
        c,
        env,
        args,
        expected,
        errs,
    ));
}

/// Of a method call that finds its method the value and each argument are looked at, each
/// argument held against the parameter in its place, and nothing else is a problem but a wrong
/// number of arguments: too few or too many.
pub proof fn method_calls(
    c: Scope,
    env: Locals,
    value: Expr,
    name: Seq<char>,
    args: Seq<Arg>,
    sig: FnSig,
    expected: Option<Ty>,
    errs: Seq<Problem>,
)
    requires
        known_method(
            c.known,
            receiver(c, alone(c, env, value, None).ty),
            name,
        ) == Some(sig),
    ensures
        ({
            let a = alone(c, env, value, None);
            let found = expr_inner(
                c,
                env,
                Expr::MethodCall { receiver: Box::new(value), name, args },
                expected,
                errs,
            );
            let parts = errs + a.errs + run(in_args(c, env, args, sig.params), args.len());
            &&& found.ty == sig.ret
            &&& found.errs == parts <==> args.len() == sig.params.len()
            &&& args.len() < sig.params.len() || args.len() > sig.params.len() ==> found.errs
                == parts.push(
                Problem {
                    message: "method `"@ + name + "` on `"@ + ty_text(a.ty) + "`"@ + " expects "@
                        + nat_text(sig.params.len()) + " argument(s), found "@ + nat_text(
                        args.len(),
                    ),
                    context: c.name,
                },
            )
        }),
{
    let a = alone(c, env, value, None);
    found_alike(c, env, value, None, errs);
    args_in_order(c, env, args, sig.params, args.len(), errs + a.errs);
    let parts = errs + a.errs + run(in_args(c, env, args, sig.params), args.len());
    assert(method_call(c, env, a.ty, name, args, expected, errs + a.errs).ty == sig.ret);
    assert(args.len() != sig.params.len() ==> method_call(
        c,
        env,
        a.ty,
        name,
        args,
        expected,
        errs + a.errs,
    ).errs.len() == parts.len() + 1);
}

/// A method call that finds no method looks at the value and at each argument on its own. It is
/// a problem where enough is known of the type to say that it lacks the method.
pub proof fn calls_of_no_method(
    c: Scope,
    env: Locals,
    value: Expr,
    name: Seq<char>,
    args: Seq<Arg>,
    expected: Option<Ty>,
    errs: Seq<Problem>,
)
    requires
        known_method(c.known, receiver(c, alone(c, env, value, None).ty), name) is None,
    ensures
        ({
            let a = alone(c, env, value, None);
            expr_inner(
                c,
                env,
                Expr::MethodCall { receiver: Box::new(value), name, args },
                expected,
                errs,
            ) == (Found {
                ty: or_unit(expected),
                errs: noted(
                    c,
                    errs + a.errs + run(in_args(c, env, args, seq![]), args.len()),
                    is_known(c.known, receiver(c, a.ty)),
                    "no method named `"@ + name + "` found for type `"@ + ty_text(a.ty) + "`"@,
                ),
            })
        }),
{
    let a = alone(c, env, value, None);
    found_alike(c, env, value, None, errs);
    args_in_order(c, env, args, seq![], args.len(), errs + a.errs);
    let whole = method_call(c, env, a.ty, name, args, expected, errs + a.errs);
    assert(whole.ty == or_unit(expected));
}

/// A method is found by the name of the type, whatever its type arguments, and through a trait
/// object by the trait. Nothing else has methods.
pub proof fn where_methods_are_found(known: Known, t: Ty, name: Seq<char>)
    ensures
        match t {
            Ty::Named(n) => known_method(known, t, name) == (known.methods)(n, name),
            Ty::Generic(n, args) => known_method(known, t, name) == known_method(
                known,
                Ty::Named(n),
                name,
            ),
            Ty::DynTrait(n) => known_method(known, t, name) == (match get(known.traits, n) {
                Some(shape) => lookup(shape.methods, name),
                None => None,
            }),
            _ => known_method(known, t, name) is None,
        },
{
}

/// Enough is known of the structs, the enums and the traits that are declared, and of nothing
/// else.
pub proof fn what_is_known(known: Known, t: Ty)
    ensures
        match t {
            Ty::Named(n) => is_known(known, t) <==> get(known.structs, n) is Some || get(
                known.enums,
                n,
            ) is Some,
            Ty::Generic(n, args) => is_known(known, t) == is_known(known, Ty::Named(n)),
            Ty::DynTrait(n) => is_known(known, t) <==> get(known.traits, n) is Some,
            _ => !is_known(known, t),
        },
        match t {
            Ty::Named(n) => is_open(known, t) <==> !is_known(known, t),
            _ => is_open(known, t) <==> holds_param(t),
        },
{
}

/// Inside an `impl` the type goes by the name of the `impl`, and elsewhere by itself.
pub proof fn receivers(c: Scope, t: Ty, s: Seq<char>)
    ensures
        c.own != Some(t) ==> receiver(c, t) == t,
        c.own == Some(t) && t == primitive(s) ==> receiver(c, t) == Ty::Named(s),
        c.own == Some(t) && lookup_name(t) is None ==> receiver(c, t) == t,
{
    names_of_types(s);
}

/// A primitive goes by its own name, and so does any other named type.
pub proof fn names_of_types(s: Seq<char>)
    ensures
        lookup_name(primitive(s)) == Some(s),
        ty_text(primitive(s)) == s,
{
}

/// The problems of each field of a struct literal: a field that the struct does not have is
/// one, and the value of any other is held against the declared type.
pub open spec fn in_fields(
    c: Scope,
    env: Locals,
    name: Seq<char>,
    declared: Seq<(Seq<char>, Ty)>,
    subst: Seq<(Seq<char>, Ty)>,
    fields: Seq<(Seq<char>, Expr)>,
) -> spec_fn(int) -> Seq<Problem> {
    |i: int|
        match lookup(declared, fields[i].0) {
            Some(t) => alone(c, env, fields[i].1, Some(substitute(t, subst))).errs,
            None => noted(c, seq![], true, no_field(name, fields[i].0)),
        }
}

/// The problems of each declared field: one where the literal leaves it out.
pub open spec fn in_declared(
    c: Scope,
    name: Seq<char>,
    declared: Seq<(Seq<char>, Ty)>,
    fields: Seq<(Seq<char>, Expr)>,
) -> spec_fn(int) -> Seq<Problem> {
    |i: int|
        noted(
            c,
            seq![],
            !(exists|j: int| 0 <= j < fields.len() && (#[trigger] fields[j]).0 == declared[i].0),
            "missing field `"@ + declared[i].0 + "` in struct literal for `"@ + name + "`"@,
        )
}

proof fn fields_in_order(
    c: Scope,
    env: Locals,
    name: Seq<char>,
    declared: Seq<(Seq<char>, Ty)>,
    subst: Seq<(Seq<char>, Ty)>,
    fields: Seq<(Seq<char>, Expr)>,
    n: nat,
    errs: Seq<Problem>,
)
    requires
        n <= fields.len(),
    ensures
        lit_fields(c, env, name, declared, subst, fields, n, errs) == errs + run(
            in_fields(c, env, name, declared, subst, fields),
            n,
        ),
    decreases n,
{
    let f = in_fields(c, env, name, declared, subst, fields);
    if n == 0 {
        assert(errs + run(f, 0) =~= errs);
    } else {
        fields_in_order(c, env, name, declared, subst, fields, (n - 1) as nat, errs);
        let before = lit_fields(c, env, name, declared, subst, fields, (n - 1) as nat, errs);
        assert(errs + run(f, n) =~= before + f(n - 1));
        if let Some(t) = lookup(declared, fields[n - 1].0) {
            found_alike(c, env, fields[n - 1].1, Some(substitute(t, subst)), before);
        } else {
            assert(
                lit_fields(c, env, name, declared, subst, fields, n, errs) =~= before + f(n - 1)
            );
        }
    }
}

proof fn declared_in_order(
    c: Scope,
    name: Seq<char>,
    declared: Seq<(Seq<char>, Ty)>,
    fields: Seq<(Seq<char>, Expr)>,
    n: nat,
    errs: Seq<Problem>,
)
    requires
        n <= declared.len(),
    ensures
        missing_fields(c, name, declared, fields, n, errs) == errs + run(
            in_declared(c, name, declared, fields),
            n,
        ),
    decreases n,
{
    let f = in_declared(c, name, declared, fields);
    if n == 0 {
        assert(errs + run(f, 0) =~= errs);
    } else {
        declared_in_order(c, name, declared, fields, (n - 1) as nat, errs);
        let before = missing_fields(c, name, declared, fields, (n - 1) as nat, errs);
        assert(errs + run(f, n) =~= before + f(n - 1));
        assert(missing_fields(c, name, declared, fields, n, errs) =~= before + f(n - 1));
    }
}

/// A literal of a declared struct is of its type, with the type arguments of the annotation
/// where there are as many as parameters. Each field is looked at, and each declared field that
/// is left out is a problem, unless the rest is taken from another value.
pub proof fn struct_literals(
    c: Scope,
    env: Locals,
    name: Seq<char>,
    fields: Seq<(Seq<char>, Expr)>,
    spread: Option<Box<Expr>>,
    shape: StructShape,
    expected: Option<Ty>,
    errs: Seq<Problem>,
)
    requires
        get(c.known.structs, name) == Some(shape),
    ensures
        ({
            let found = expr_inner(
                c,
                env,
                Expr::StructLit { name, fields, spread },
                expected,
                errs,
            );
            let args = match expected {
                Some(Ty::Generic(n, args)) if n == name && args.len() == shape.generics.len()
                    && args.len() > 0 => Some(args),
                _ => None,
            };
            let subst = match args {
                Some(args) => all_type_args(shape.generics, args),
                None => seq![],
            };
            let looked = errs + run(
                in_fields(c, env, name, shape.fields, subst, fields),
                fields.len(),
            );
            &&& found.ty == (match args {
                Some(args) => Ty::Generic(name, args),
                None => Ty::Named(name),
            })
            &&& spread is Some ==> found.errs == looked
            &&& spread is None ==> found.errs == looked + run(
                in_declared(c, name, shape.fields, fields),
                shape.fields.len(),
            )
        }),
{
    let args = annotated_args(name, shape, expected);
    let subst = match args {
        Some(args) => all_type_args(shape.generics, args),
        None => seq![],
    };
    fields_in_order(c, env, name, shape.fields, subst, fields, fields.len(), errs);
    let looked = errs + run(in_fields(c, env, name, shape.fields, subst, fields), fields.len());
    declared_in_order(c, name, shape.fields, fields, shape.fields.len(), looked);
    assert(expr_inner(c, env, Expr::StructLit { name, fields, spread }, expected, errs)
        == struct_lit(c, env, name, fields, spread is Some, expected, errs));
}

/// A literal of a struct that is not declared is a problem, and nothing in it is looked at.
pub proof fn literals_of_no_struct(
    c: Scope,
    env: Locals,
    name: Seq<char>,
    fields: Seq<(Seq<char>, Expr)>,
    spread: Option<Box<Expr>>,
    expected: Option<Ty>,
    errs: Seq<Problem>,
)
    requires
        get(c.known.structs, name) is None,
    ensures
        expr_inner(c, env, Expr::StructLit { name, fields, spread }, expected, errs) == (Found {
            ty: Ty::Named(name),
            errs: noted(c, errs, true, "undefined struct `"@ + name + "`"@),
        }),
{
    assert(expr_inner(c, env, Expr::StructLit { name, fields, spread }, expected, errs)
        == struct_lit(c, env, name, fields, spread is Some, expected, errs));
}

/// A path of two names of which the first is an enum is a variant that carries nothing, or a
/// problem. Of any other path nothing is said.
pub proof fn paths(
    c: Scope,
    env: Locals,
    path: Seq<Seq<char>>,
    expected: Option<Ty>,
    errs: Seq<Problem>,
)
    ensures
        ({
            let found = expr_inner(c, env, Expr::Path(path), expected, errs);
            if path.len() == 2 && get(c.known.enums, path[0]) is Some {
                &&& found.ty == Ty::Named(path[0])
                &&& match first(get(c.known.enums, path[0])->0.variants, path[1]) {
                    Some(data) => found.errs == noted(
                        c,
                        errs,
                        data.len() > 0,
                        "enum variant `"@ + path[0] + "::"@ + path[1]
                            + "` carries data and must be called with arguments"@,
                    ),
                    None => found.errs == noted(c, errs, true, no_variant(path[0], path[1])),
                }
            } else {
                found == (Found { ty: or_unit(expected), errs })
            }
        }),
{
}

} // verus!
