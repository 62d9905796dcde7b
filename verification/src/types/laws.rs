//! What holds of the checker as a whole.
use crate::ast::BinaryOp;
use crate::tree::{Arg, ElseBranch, Expr, IfExpr, ImplDecl, Literal, MatchArm, Pattern, Stmt, Type};
use crate::types::checks::{
    arm, arms, array, bind, bind_pattern, block, bound_problems, call, const_args, enter, excused,
    expr, expr_inner, field_type, full_type, generic_args, generics_of, gives, if_expr, inferred,
    local, lit_fields, local_in, missing_fields, operation, or_unit, part, path_type, stmt, told_block,
    with_dimensions, Found, Locals, Scope,
};
use crate::types::model::{
    EnumShape, FnSig, GenericArg, ImplRecord, ParamKind, Problem, Registry, StructShape, Ty,
};
use crate::types::names::{
    first, found_in, get, lookup, place_holds_value, place_in, put, put_then_lookup,
};
use crate::types::params::{annotations_hold_none, without_params_there_are_none};
use crate::types::rules::{
    add_impl, all_type_args, holds_param, impl_problems, impl_title, inherent_method_from, is_float,
    is_numeric, is_orphan, lookup_name, mark, mark_all, method, missing_methods, orphan_message,
    read, resolve, satisfies, substitute, substitute_all, unify, unify_all, Reading, State,
};
use vstd::prelude::*;

verus! {

/// A problem that is added to some comes behind those that were there before them.
pub broadcast proof fn push_behind(more: Seq<Problem>, errs: Seq<Problem>, x: Problem)
    ensures
        #[trigger] (more + errs).push(x) == more + errs.push(x),
{
    assert((more + errs).push(x) =~= more + errs.push(x));
}

/// Nothing to substitute changes nothing.
pub proof fn substitute_nothing(t: Ty)
    ensures
        substitute(t, seq![]) == t,
    decreases t,
{
    match t {
        Ty::TypeParam(_) => {},
        Ty::Array(e) => substitute_nothing(*e),
        Ty::Tuple(ts) => {
            assert forall|i: int| 0 <= i < ts.len() implies substitute(
                #[trigger] ts[i],
                seq![],
            ) == ts[i] by {
                substitute_nothing(ts[i]);
            }
            assert(substitute_all(ts, seq![]) =~= ts);
        },
        Ty::Ref(_, e) => substitute_nothing(*e),
        Ty::OptionTy(e) => substitute_nothing(*e),
        Ty::ResultTy(o, e) => {
            substitute_nothing(*o);
            substitute_nothing(*e);
        },
        Ty::Fn(ps, r) => {
            assert forall|i: int| 0 <= i < ps.len() implies substitute(
                #[trigger] ps[i],
                seq![],
            ) == ps[i] by {
                substitute_nothing(ps[i]);
            }
            assert(substitute_all(ps, seq![]) =~= ps);
            substitute_nothing(*r);
        },
        _ => {},
    }
}

/// No names to mark changes nothing: a declaration without type parameters keeps its types
/// as they are written.
pub proof fn mark_nothing(t: Ty)
    ensures
        mark(t, seq![]) == t,
    decreases t,
{
    match t {
        Ty::Array(e) => mark_nothing(*e),
        Ty::Tuple(ts) => {
            assert forall|i: int| 0 <= i < ts.len() implies mark(#[trigger] ts[i], seq![])
                == ts[i] by {
                mark_nothing(ts[i]);
            }
            assert(mark_all(ts, seq![]) =~= ts);
        },
        Ty::Ref(_, e) => mark_nothing(*e),
        Ty::OptionTy(e) => mark_nothing(*e),
        Ty::ResultTy(o, e) => {
            mark_nothing(*o);
            mark_nothing(*e);
        },
        Ty::Fn(ps, r) => {
            assert forall|i: int| 0 <= i < ps.len() implies mark(#[trigger] ps[i], seq![])
                == ps[i] by {
                mark_nothing(ps[i]);
            }
            assert(mark_all(ps, seq![]) =~= ps);
            mark_nothing(*r);
        },
        _ => {},
    }
}

/// Whether a type has a type parameter that stands where one can be substituted.
pub open spec fn has_param(t: Ty, name: Seq<char>) -> bool
    decreases t,
{
    match t {
        Ty::TypeParam(n) => n == name,
        Ty::Array(e) => has_param(*e, name),
        Ty::Tuple(ts) => exists|i: int| 0 <= i < ts.len() && has_param(#[trigger] ts[i], name),
        Ty::Ref(_, e) => has_param(*e, name),
        Ty::OptionTy(e) => has_param(*e, name),
        Ty::ResultTy(o, e) => has_param(*o, name) || has_param(*e, name),
        Ty::Fn(ps, r) => has_param(*r, name) || exists|i: int|
            0 <= i < ps.len() && has_param(#[trigger] ps[i], name),
        _ => false,
    }
}

/// What was substituted does not come back: only what stands for the parameters can hold
/// one of them.
pub proof fn substitution_is_complete(t: Ty, subst: Seq<(Seq<char>, Ty)>, name: Seq<char>)
    requires
        lookup(subst, name) is Some,
        forall|i: int| 0 <= i < subst.len() ==> !has_param((#[trigger] subst[i]).1, name),
    ensures
        !has_param(substitute(t, subst), name),
    decreases t,
{
    match t {
        Ty::TypeParam(n) => {
            place_holds_value(subst, n, subst.len());
            if let Some(i) = place_in(subst, n, subst.len()) {
                assert(!has_param(subst[i].1, name));
            }
        },
        Ty::Array(e) => substitution_is_complete(*e, subst, name),
        Ty::Tuple(ts) => {
            let all = substitute_all(ts, subst);
            assert forall|i: int| 0 <= i < all.len() implies !has_param(
                #[trigger] all[i],
                name,
            ) by {
                substitution_is_complete(ts[i], subst, name);
            }
        },
        Ty::Ref(_, e) => substitution_is_complete(*e, subst, name),
        Ty::OptionTy(e) => substitution_is_complete(*e, subst, name),
        Ty::ResultTy(o, e) => {
            substitution_is_complete(*o, subst, name);
            substitution_is_complete(*e, subst, name);
        },
        Ty::Fn(ps, r) => {
            let all = substitute_all(ps, subst);
            assert forall|i: int| 0 <= i < all.len() implies !has_param(
                #[trigger] all[i],
                name,
            ) by {
                substitution_is_complete(ps[i], subst, name);
            }
            substitution_is_complete(*r, subst, name);
        },
        _ => {},
    }
}

/// In a method `Self` is the type of the `impl`.
pub proof fn self_is_the_own_type(own: Ty, args: Seq<Type>)
    ensures
        read(Type::Named("Self"@, args), Reading::Within(own)) == own,
{
    let names = seq!["Self"@];
    let subst = seq![("Self"@, own)];
    assert(names[0] == "Self"@);
    assert(names.contains("Self"@));
    assert(found_in(subst, "Self"@, 1) == Some(own));
}

/// The type found first for a type parameter stays.
pub proof fn first_inference_stays(p: Ty, a: Ty, out: Seq<(Seq<char>, Ty)>, name: Seq<char>)
    requires
        lookup(out, name) is Some,
    ensures
        lookup(unify(p, a, out), name) == lookup(out, name),
    decreases p, 0nat,
{
    match (p, a) {
        (Ty::TypeParam(n), _) => {
            put_then_lookup(out, n, a, name);
        },
        (Ty::Array(x), Ty::Array(y)) => first_inference_stays(*x, *y, out, name),
        (Ty::Ref(_, x), Ty::Ref(_, y)) => first_inference_stays(*x, *y, out, name),
        (Ty::Tuple(xs), Ty::Tuple(ys)) => {
            if xs.len() == ys.len() {
                first_inferences_stay(xs, ys, xs.len(), out, name);
            }
        },
        _ => {},
    }
}

proof fn first_inferences_stay(
    ps: Seq<Ty>,
    xs: Seq<Ty>,
    n: nat,
    out: Seq<(Seq<char>, Ty)>,
    name: Seq<char>,
)
    requires
        lookup(out, name) is Some,
    ensures
        lookup(unify_all(ps, xs, n, out), name) == lookup(out, name),
    decreases ps, n,
{
    if n == 0 || n > ps.len() || n > xs.len() {
    } else {
        first_inferences_stay(ps, xs, (n - 1) as nat, out, name);
        first_inference_stays(
            ps[n - 1],
            xs[n - 1],
            unify_all(ps, xs, (n - 1) as nat, out),
            name,
        );
    }
}

/// A parameter of type `T` takes its type from the argument, and so does one of type `[T]`
/// from the elements of an array.
pub proof fn parameters_are_inferred(name: Seq<char>, t: Ty)
    ensures
        lookup(inferred(seq![Ty::TypeParam(name)], seq![t]), name) == Some(t),
        lookup(
            inferred(seq![Ty::Array(Box::new(Ty::TypeParam(name)))], seq![Ty::Array(Box::new(t))]),
            name,
        ) == Some(t),
{
    let empty = Seq::<(Seq<char>, Ty)>::empty();
    put_then_lookup(empty, name, t, name);
    let p = Ty::TypeParam(name);
    assert(unify(p, t, empty) == put(empty, name, t));
    assert(unify_all(seq![p], seq![t], 0, empty) == empty);
    assert(unify_all(seq![p], seq![t], 1, empty) == unify(p, t, empty));
    let pa = Ty::Array(Box::new(p));
    let ta = Ty::Array(Box::new(t));
    assert(unify(pa, ta, empty) == unify(p, t, empty));
    assert(unify_all(seq![pa], seq![ta], 0, empty) == empty);
    assert(unify_all(seq![pa], seq![ta], 1, empty) == unify(pa, ta, empty));
}

/// An integer literal takes up a numeric type that is expected, and is an `i32` otherwise;
/// a float literal takes up a float type, and is an `f64` otherwise.
pub proof fn literals_default(c: Scope, env: Locals, text: Seq<char>, t: Ty, errs: Seq<Problem>)
    ensures
        expr(c, env, Expr::Literal(Literal::Int(text)), None, errs) == (Found {
            ty: Ty::I32,
            errs,
        }),
        expr(c, env, Expr::Literal(Literal::Float(text)), None, errs) == (Found {
            ty: Ty::F64,
            errs,
        }),
        is_numeric(t) ==> expr(c, env, Expr::Literal(Literal::Int(text)), Some(t), errs) == (
        Found { ty: t, errs }),
        is_float(t) ==> expr(c, env, Expr::Literal(Literal::Float(text)), Some(t), errs) == (
        Found { ty: t, errs }),
{
}

/// `null` can stand only where `null` is expected.
pub proof fn null_is_no_other_value(c: Scope, env: Locals, t: Ty, errs: Seq<Problem>)
    ensures
        expr(c, env, Expr::Literal(Literal::Null), Some(t), errs).ty is Null,
        expr(c, env, Expr::Literal(Literal::Null), Some(t), errs).errs == errs <==> t is Null,
{
    let after = expr(c, env, Expr::Literal(Literal::Null), Some(t), errs).errs;
    assert(!(t is Null) ==> after.len() == errs.len() + 1);
}

/// A path of two names of which the first is an enum is a variant: without arguments it has
/// to be one that carries nothing. With or without arguments the type is the enum.
pub proof fn variants_of_an_enum(
    c: Scope,
    env: Locals,
    enum_name: Seq<char>,
    variant: Seq<char>,
    shape: EnumShape,
    args: Seq<Arg>,
    expected: Option<Ty>,
    errs: Seq<Problem>,
)
    requires
        get(c.known.enums, enum_name) == Some(shape),
    ensures
        expr(c, env, Expr::Path(seq![enum_name, variant]), expected, errs).ty == Ty::Named(
            enum_name,
        ),
        expr(c, env, Expr::Path(seq![enum_name, variant]), None, errs).errs == errs <==> (first(
            shape.variants,
            variant,
        ) matches Some(data) && data.len() == 0),
        call(c, env, Expr::Path(seq![enum_name, variant]), args, expected, errs).ty == Ty::Named(
            enum_name,
        ),
{
    let path = seq![enum_name, variant];
    assert(path[0] == enum_name && path[1] == variant);
    let after = path_type(c, path, None, errs).errs;
    assert(after == errs || after.len() == errs.len() + 1);
    assert(expr_inner(c, env, Expr::Path(path), expected, errs).ty == Ty::Named(enum_name));
}

/// There is no implicit coercion: an expression of another type than the one expected is a
/// problem, whatever the expression. Only a numeric literal is not held against a type that
/// is open.
pub proof fn no_implicit_coercion(
    c: Scope,
    env: Locals,
    e: Expr,
    t: Ty,
    errs: Seq<Problem>,
)
    ensures
        expr(c, env, e, Some(t), errs).ty == t ==> expr(c, env, e, Some(t), errs).errs
            == expr_inner(c, env, e, Some(t), errs).errs,
        expr(c, env, e, Some(t), errs).ty != t && !(e == Expr::Literal(Literal::Null)) && !excused(
            c,
            e,
            Some(t),
        ) ==> expr(c, env, e, Some(t), errs).errs.len() == expr_inner(
            c,
            env,
            e,
            Some(t),
            errs,
        ).errs.len() + 1,
        expr(c, env, e, Some(t), errs).ty != t && e == Expr::Literal(Literal::Null) ==> expr(
            c,
            env,
            e,
            Some(t),
            errs,
        ).errs.len() == errs.len() + 1,
        !holds_param(t) && !excused(c, e, Some(t)) && expr(c, env, e, Some(t), errs).ty == t ==> (
        expr_inner(c, env, e, Some(t), errs).ty == t || holds_param(
            expr_inner(c, env, e, Some(t), errs).ty,
        )),
{
    without_params_there_are_none(expr_inner(c, env, e, Some(t), errs).ty);
    without_params_there_are_none(t);
}

/// An empty array needs to be told its type.
pub proof fn empty_array_needs_a_type(c: Scope, env: Locals, t: Ty, errs: Seq<Problem>)
    ensures
        expr(c, env, Expr::Array(seq![]), None, errs).errs.len() == errs.len() + 1,
        expr(c, env, Expr::Array(seq![]), Some(Ty::Array(Box::new(t))), errs) == (Found {
            ty: Ty::Array(Box::new(t)),
            errs,
        }),
{
    let items = Seq::<Expr>::empty();
    assert(array(c, env, items, None, errs).errs.len() == errs.len() + 1);
    assert(array(c, env, items, Some(Ty::Array(Box::new(t))), errs) == (Found {
        ty: Ty::Array(Box::new(t)),
        errs,
    }));
}

/// The operators that compare.
pub open spec fn compares(op: BinaryOp) -> bool {
    op is EqEq || op is NotEq || op is Lt || op is Gt || op is LtEq || op is GtEq
}

/// Arithmetic and comparison take operands of one type, and a mismatch is a problem. Either
/// way a comparison is a `bool`, and the result of arithmetic has the type of the left
/// operand. Products of one generic struct have a rule of their own.
pub proof fn operands_have_to_agree(c: Scope, op: BinaryOp, lt: Ty, rt: Ty, errs: Seq<Problem>)
    requires
        !(op is AndAnd) && !(op is OrOr) && !(op is Coalesce),
        !(op is Mul && lt is Generic && rt is Generic && lt->Generic_0 == rt->Generic_0),
    ensures
        lt == rt ==> operation(c, op, lt, rt, errs).errs == errs,
        lt != rt ==> operation(c, op, lt, rt, errs).errs.len() == errs.len() + 1,
        operation(c, op, lt, rt, errs).ty == (if compares(op) {
            Ty::Bool
        } else {
            lt
        }),
{
}

/// A product of one generic struct that is no matrix takes operands with the same arguments.
pub proof fn other_products(
    c: Scope,
    name: Seq<char>,
    largs: Seq<GenericArg>,
    rargs: Seq<GenericArg>,
    errs: Seq<Problem>,
)
    requires
        const_args(largs, largs.len()).len() != 2 || const_args(rargs, rargs.len()).len() != 2,
    ensures
        ({
            let found = operation(
                c,
                BinaryOp::Mul,
                Ty::Generic(name, largs),
                Ty::Generic(name, rargs),
                errs,
            );
            &&& found.ty == Ty::Generic(name, largs)
            &&& largs == rargs ==> found.errs == errs
            &&& largs != rargs ==> found.errs.len() == errs.len() + 1
        }),
{
}

/// The values among the arguments of a product, up to the `n`th: the first is the number of
/// rows, the others the number of columns.
proof fn dimensions_of_product(args: Seq<GenericArg>, rows: i64, cols: i64, n: nat)
    requires
        n <= args.len(),
    ensures
        const_args(with_dimensions(args, rows, cols), n).len() == const_args(args, n).len(),
        forall|k: int|
            0 <= k < const_args(args, n).len() ==> #[trigger] const_args(
                with_dimensions(args, rows, cols),
                n,
            )[k] == (if k == 0 {
                rows
            } else {
                cols
            }),
    decreases n,
{
    if n > 0 {
        dimensions_of_product(args, rows, cols, (n - 1) as nat);
    }
}

/// Two matrices can be multiplied exactly where the columns of the left are the rows of the
/// right, and the product has the rows of the left and the columns of the right. The other
/// arguments are those of the left.
pub proof fn matrix_product(
    c: Scope,
    name: Seq<char>,
    largs: Seq<GenericArg>,
    rargs: Seq<GenericArg>,
    errs: Seq<Problem>,
)
    requires
        const_args(largs, largs.len()).len() == 2,
        const_args(rargs, rargs.len()).len() == 2,
    ensures
        ({
            let l = const_args(largs, largs.len());
            let r = const_args(rargs, rargs.len());
            let found = operation(
                c,
                BinaryOp::Mul,
                Ty::Generic(name, largs),
                Ty::Generic(name, rargs),
                errs,
            );
            if l[1] == r[0] {
                &&& found.errs == errs
                &&& found.ty matches Ty::Generic(n, args)
                &&& n == name
                &&& args.len() == largs.len()
                &&& const_args(args, args.len()) == seq![l[0], r[1]]
                &&& forall|i: int|
                    0 <= i < args.len() && largs[i] is Type ==> #[trigger] args[i] == largs[i]
            } else {
                found.ty == Ty::Generic(name, largs) && found.errs.len() == errs.len() + 1
            }
        }),
{
    let l = const_args(largs, largs.len());
    let r = const_args(rargs, rargs.len());
    if l[1] == r[0] {
        let args = with_dimensions(largs, l[0], r[1]);
        dimensions_of_product(largs, l[0], r[1], largs.len());
        assert(const_args(args, args.len()) =~= seq![l[0], r[1]]);
    }
}

/// A name of an inner block hides the same name outside, and only as long as the block
/// lasts.
pub proof fn inner_names_hide_outer_ones(env: Locals, name: Seq<char>, t: Ty, other: Seq<char>)
    ensures
        local(bind(enter(env), name, t), name) == Some(t),
        other != name ==> local(bind(enter(env), name, t), other) == local(env, other),
        local(enter(env), other) == local(env, other),
        bind(enter(env), name, t).drop_last() == env,
{
    let inside = bind(enter(env), name, t);
    let empty = Seq::<(Seq<char>, Ty)>::empty();
    assert(inside[env.len() as int] == put(empty, name, t));
    put_then_lookup(empty, name, t, name);
    put_then_lookup(empty, name, t, other);
    assert(inside.drop_last() =~= env);
    same_locals(inside, env, other, env.len());
    same_locals(enter(env), env, other, env.len());
    assert(local_in(inside, name, inside.len()) == lookup(inside[env.len() as int], name));
}

proof fn same_locals(a: Locals, b: Locals, name: Seq<char>, n: nat)
    requires
        n <= a.len(),
        n <= b.len(),
        forall|i: int| 0 <= i < n ==> #[trigger] a[i] == b[i],
    ensures
        local_in(a, name, n) == local_in(b, name, n),
    decreases n,
{
    if n > 0 {
        same_locals(a, b, name, (n - 1) as nat);
    }
}

/// An annotation without generic arguments stands for the type that is written.
pub proof fn plain_annotations(c: Scope, t: Type, errs: Seq<Problem>)
    requires
        !(t matches Type::Named(_, args) && args.len() > 0),
    ensures
        full_type(c, t, errs) == (Found { ty: resolve(t), errs }),
{
}

/// Whether an `impl` provides what a trait requires.
pub open spec fn provides(
    required: Seq<(Seq<char>, FnSig)>,
    methods: Seq<(Seq<char>, FnSig)>,
    n: nat,
) -> bool {
    forall|i: int|
        0 <= i < n ==> (#[trigger] required[i]).1.has_default_body || lookup(
            methods,
            required[i].0,
        ) is Some
}

proof fn missing_iff(
    trait_name: Seq<char>,
    target: Seq<char>,
    required: Seq<(Seq<char>, FnSig)>,
    methods: Seq<(Seq<char>, FnSig)>,
    n: nat,
    errs: Seq<Problem>,
)
    requires
        n <= required.len(),
    ensures
        errs.is_prefix_of(missing_methods(trait_name, target, required, methods, n, errs)),
        provides(required, methods, n) <==> missing_methods(
            trait_name,
            target,
            required,
            methods,
            n,
            errs,
        ) == errs,
    decreases n,
{
    if n > 0 {
        missing_iff(trait_name, target, required, methods, (n - 1) as nat, errs);
        let before = missing_methods(
            trait_name,
            target,
            required,
            methods,
            (n - 1) as nat,
            errs,
        );
        let r = required[n - 1];
        if !r.1.has_default_body && lookup(methods, r.0) is None {
            assert(!provides(required, methods, n));
        } else {
            assert(provides(required, methods, n) <==> provides(
                required,
                methods,
                (n - 1) as nat,
            ));
        }
    }
}

/// An `impl` of a trait is without problems exactly where the trait or the type is declared
/// here and every method without a default body is provided.
pub proof fn impl_is_complete_or_a_problem(
    reg: Registry,
    trait_name: Seq<char>,
    target: Seq<char>,
    methods: Seq<(Seq<char>, FnSig)>,
    errs: Seq<Problem>,
)
    ensures
        errs.is_prefix_of(impl_problems(reg, trait_name, target, methods, errs)),
        impl_problems(reg, trait_name, target, methods, errs) == errs <==> (!is_orphan(
            reg,
            trait_name,
            target,
        ) && match get(reg.traits, trait_name) {
            Some(shape) => provides(shape.methods, methods, shape.methods.len()),
            None => true,
        }),
{
    let after = if is_orphan(reg, trait_name, target) {
        errs.push(
            Problem {
                message: orphan_message(trait_name, target),
                context: impl_title(trait_name, target),
            },
        )
    } else {
        errs
    };
    if let Some(shape) = get(reg.traits, trait_name) {
        missing_iff(trait_name, target, shape.methods, methods, shape.methods.len(), after);
    }
}

/// Whether the `i`th `impl` block is an inherent one of a type that has a method.
pub open spec fn inherent_has(reg: Registry, target: Seq<char>, name: Seq<char>, i: int) -> bool {
    &&& 0 <= i < reg.impls.len()
    &&& reg.impls[i].0 == target
    &&& reg.impls[i].1.trait_name is None
    &&& lookup(reg.impls[i].1.methods, name) is Some
}

/// A method of an inherent `impl` block goes before any that a trait provides: where some
/// inherent block of a type has the method, a call reaches that of the first that does.
pub proof fn inherent_methods_go_first(
    reg: Registry,
    target: Seq<char>,
    name: Seq<char>,
    i: int,
)
    requires
        inherent_has(reg, target, name, i),
    ensures
        exists|j: int|
            #[trigger] inherent_has(reg, target, name, j) && j <= i && method(
                reg,
                Ty::Named(target),
                name,
            ) == lookup(reg.impls[j].1.methods, name) && forall|k: int|
                0 <= k < j ==> !inherent_has(reg, target, name, k),
{
    first_inherent(reg, target, name, 0, i);
}

proof fn first_inherent(reg: Registry, target: Seq<char>, name: Seq<char>, from: nat, i: int)
    requires
        from <= i,
        inherent_has(reg, target, name, i),
        forall|k: int| 0 <= k < from ==> !inherent_has(reg, target, name, k),
    ensures
        exists|j: int|
            #[trigger] inherent_has(reg, target, name, j) && j <= i && inherent_method_from(
                reg.impls,
                target,
                name,
                from,
            ) == lookup(reg.impls[j].1.methods, name) && forall|k: int|
                0 <= k < j ==> !inherent_has(reg, target, name, k),
    decreases i - from,
{
    if !inherent_has(reg, target, name, from as int) {
        first_inherent(reg, target, name, from + 1, i);
    }
}

/// On `dyn Trait` the signature that the trait declares counts, whatever `impl` blocks
/// there are.
pub proof fn dynamic_calls_go_by_the_trait(
    reg: Registry,
    impls: Seq<(Seq<char>, ImplRecord)>,
    name: Seq<char>,
    method_name: Seq<char>,
)
    ensures
        method(reg, Ty::DynTrait(name), method_name) == method(
            Registry { impls, ..reg },
            Ty::DynTrait(name),
            method_name,
        ),
{
}

/// Every field that a struct literal without `..` leaves out is a problem, and nothing else
/// is.
pub proof fn missing_fields_are_problems(
    c: Scope,
    name: Seq<char>,
    declared: Seq<(Seq<char>, Ty)>,
    fields: Seq<(Seq<char>, Expr)>,
    n: nat,
    errs: Seq<Problem>,
)
    requires
        n <= declared.len(),
    ensures
        errs.is_prefix_of(missing_fields(c, name, declared, fields, n, errs)),
        missing_fields(c, name, declared, fields, n, errs) == errs <==> forall|i: int|
            0 <= i < n ==> gives(fields, (#[trigger] declared[i]).0),
    decreases n,
{
    if n > 0 {
        missing_fields_are_problems(c, name, declared, fields, (n - 1) as nat, errs);
        let before = missing_fields(c, name, declared, fields, (n - 1) as nat, errs);
        if !gives(fields, declared[n - 1].0) {
            assert(before.len() >= errs.len());
        }
    }
}

/// An annotation wins: the name gets the type that is written, whatever the value.
pub proof fn annotation_wins(
    c: Scope,
    env: Locals,
    mutable: bool,
    pattern: Pattern,
    t: Type,
    value: Option<Expr>,
    errs: Seq<Problem>,
)
    ensures
        stmt(c, env, Stmt::Let { mutable, pattern, ty: Some(t), value }, errs).env == bind_pattern(
            env,
            pattern,
            full_type(c, t, errs).ty,
        ),
{
}

/// Without an annotation the name gets the type of its value; without either there is a
/// problem.
pub proof fn value_gives_the_type(
    c: Scope,
    env: Locals,
    mutable: bool,
    pattern: Pattern,
    e: Expr,
    errs: Seq<Problem>,
)
    ensures
        stmt(c, env, Stmt::Let { mutable, pattern, ty: None, value: Some(e) }, errs).env
            == bind_pattern(env, pattern, expr(c, env, e, None, errs).ty),
        stmt(c, env, Stmt::Let { mutable, pattern, ty: None, value: None }, errs).errs.len()
            == errs.len() + 1,
{
}

/// The type that an annotation stands for is the same whatever was found before.
pub proof fn annotations_stand_for_one_type(
    c: Scope,
    t: Type,
    a: Seq<Problem>,
    b: Seq<Problem>,
)
    ensures
        full_type(c, t, a).ty == full_type(c, t, b).ty,
    decreases t, 0nat,
{
    if let Type::Named(name, args) = t {
        if let Some(ps) = generics_of(c.known, name) {
            if args.len() > 0 && args.len() == ps.len() {
                arguments_stand_for_one_list(c, name, ps, args, args.len(), a, b);
            }
        }
    }
}

proof fn arguments_stand_for_one_list(
    c: Scope,
    name: Seq<char>,
    ps: Seq<ParamKind>,
    args: Seq<Type>,
    n: nat,
    a: Seq<Problem>,
    b: Seq<Problem>,
)
    ensures
        generic_args(c, name, ps, args, n, a).args == generic_args(c, name, ps, args, n, b).args,
        generic_args(c, name, ps, args, n, a).bad == generic_args(c, name, ps, args, n, b).bad,
    decreases args, n,
{
    if n == 0 || n > args.len() || n > ps.len() {
    } else {
        arguments_stand_for_one_list(c, name, ps, args, (n - 1) as nat, a, b);
        if ps[n - 1] is Type && !(args[n - 1] is ConstArg) {
            annotations_stand_for_one_type(
                c,
                args[n - 1],
                generic_args(c, name, ps, args, (n - 1) as nat, a).errs,
                generic_args(c, name, ps, args, (n - 1) as nat, b).errs,
            );
        }
    }
}

/// A cast has the type that it names, whatever it is applied to. A type parameter that is
/// expected may be any type.
pub proof fn cast_has_its_target_type(
    c: Scope,
    env: Locals,
    e: Expr,
    t: Type,
    expected: Option<Ty>,
    errs: Seq<Problem>,
)
    requires
        expected matches Some(x) ==> !holds_param(x),
    ensures
        expr(
            c,
            env,
            Expr::Cast { expr: Box::new(e), ty: Box::new(t) },
            expected,
            errs,
        ).ty == full_type(c, t, errs).ty,
{
    let cast = Expr::Cast { expr: Box::new(e), ty: Box::new(t) };
    let after = part(c, env, e, None, errs).errs;
    annotations_stand_for_one_type(c, t, after, errs);
    annotations_hold_none(c, t, errs);
    without_params_there_are_none(full_type(c, t, errs).ty);
    if let Some(x) = expected {
        without_params_there_are_none(x);
    }
    assert(expr_inner(c, env, cast, expected, errs).ty == full_type(c, t, after).ty);
}

/// What comes of an `else`, which is told the type of its `if`.
pub open spec fn other_branch(
    c: Scope,
    env: Locals,
    branch: ElseBranch,
    t: Ty,
    errs: Seq<Problem>,
) -> Found {
    match branch {
        ElseBranch::Block(b) => {
            let found = block(c, env, b, told_block(b, Some(t)), errs);
            Found { ty: or_unit(found.ty), errs: found.errs }
        },
        ElseBranch::If(x) => if_expr(c, env, *x, Some(t), errs),
    }
}

/// No type is guessed across branches: an `else` of another type than its `if` is a
/// problem, and the type stays that of the `if`.
pub proof fn branches_have_to_agree(
    c: Scope,
    env: Locals,
    x: IfExpr,
    expected: Option<Ty>,
    errs: Seq<Problem>,
)
    ensures
        ({
            let cond = part(c, env, x.cond, Some(Ty::Bool), errs);
            let first = block(c, env, x.then_block, told_block(x.then_block, expected), cond.errs);
            let t = or_unit(first.ty);
            let found = if_expr(c, env, x, expected, errs);
            &&& found.ty == t
            &&& match x.else_branch {
                Some(branch) => {
                    let second = other_branch(c, env, branch, t, first.errs);
                    if second.ty == t {
                        found.errs == second.errs
                    } else {
                        found.errs.len() == second.errs.len() + 1
                    }
                },
                None => found.errs == first.errs,
            }
        }),
{
    if let Some(branch) = x.else_branch {
        let cond = part(c, env, x.cond, Some(Ty::Bool), errs);
        let first = block(c, env, x.then_block, told_block(x.then_block, expected), cond.errs);
        let second = other_branch(c, env, branch, or_unit(first.ty), first.errs);
        assert(if_expr(c, env, x, expected, errs).errs.len() <= second.errs.len() + 1);
    }
}

/// No type is guessed across arms: an arm of another type than the one expected, or else
/// than the first arm, is a problem, and the type stays.
pub proof fn arms_have_to_agree(
    c: Scope,
    env: Locals,
    all: Seq<MatchArm>,
    expected: Option<Ty>,
    n: nat,
    errs: Seq<Problem>,
)
    requires
        0 < n <= all.len(),
    ensures
        ({
            let before = arms(c, env, all, expected, (n - 1) as nat, errs);
            let found = arm(c, env, all[n - 1], before.ty, before.errs);
            let after = arms(c, env, all, expected, n, errs);
            match before.ty {
                Some(t) => {
                    &&& after.ty == Some(t)
                    &&& found.ty == t ==> after.errs == found.errs
                    &&& found.ty != t ==> after.errs.len() == found.errs.len() + 1
                },
                None => after.ty == Some(found.ty) && after.errs == found.errs,
            }
        }),
{
}

/// An `impl` of a trait for a type makes the type satisfy the trait, and takes nothing away.
pub proof fn impl_satisfies_its_trait(s: State, d: ImplDecl, t: Ty, other: Ty, name: Seq<char>)
    requires
        d.trait_ref is Some,
        lookup_name(t) == Some(d.target.name),
    ensures
        satisfies(add_impl(s, d).reg, t, d.trait_ref->0.name),
        satisfies(s.reg, other, name) ==> satisfies(add_impl(s, d).reg, other, name),
{
    let before = s.reg.impls;
    let after = add_impl(s, d).reg.impls;
    assert(after[before.len() as int].0 == d.target.name);
    if satisfies(s.reg, other, name) {
        let key = lookup_name(other)->0;
        let i = choose|i: int|
            0 <= i < before.len() && (#[trigger] before[i]).0 == key && before[i].1.trait_name
                == Some(name);
        assert(after[i] == before[i]);
    }
}

/// A type that is found for a type parameter has to satisfy every trait that is asked of
/// it, and nothing more.
pub proof fn bounds_are_checked(
    c: Scope,
    function: Seq<char>,
    param: Seq<char>,
    t: Ty,
    traits: Seq<Seq<char>>,
    n: nat,
    errs: Seq<Problem>,
)
    requires
        n <= traits.len(),
    ensures
        errs.is_prefix_of(bound_problems(c, function, param, t, traits, n, errs)),
        bound_problems(c, function, param, t, traits, n, errs) == errs <==> forall|i: int|
            0 <= i < n ==> (c.known.satisfied)(t, #[trigger] traits[i]),
    decreases n,
{
    if n > 0 {
        bounds_are_checked(c, function, param, t, traits, (n - 1) as nat, errs);
        let before = bound_problems(c, function, param, t, traits, (n - 1) as nat, errs);
        if !(c.known.satisfied)(t, traits[n - 1]) {
            assert(before.len() >= errs.len());
        }
    }
}

/// A field of a generic struct has its declared type with the arguments in place of the
/// type parameters.
pub proof fn fields_of_generic_structs(
    c: Scope,
    name: Seq<char>,
    shape: StructShape,
    args: Seq<GenericArg>,
    field: Seq<char>,
    t: Ty,
    errs: Seq<Problem>,
)
    requires
        get(c.known.structs, name) == Some(shape),
        first(shape.fields, field) == Some(t),
    ensures
        field_type(c, Ty::Generic(name, args), field, errs) == (Found {
            ty: substitute(t, all_type_args(shape.generics, args)),
            errs,
        }),
        field_type(c, Ty::Named(name), field, errs) == (Found { ty: t, errs }),
{
}

/// The field of a local name.
pub open spec fn field_of(name: Seq<char>, field: Seq<char>) -> Expr {
    Expr::Field { expr: Box::new(Expr::Ident(name)), name: field }
}

/// A field of a name whose type is told by the name of a struct alone has its declared type,
/// where that is expected, and an element of it the type of the elements.
pub proof fn fields_of_names(
    c: Scope,
    env: Locals,
    name: Seq<char>,
    struct_name: Seq<char>,
    shape: StructShape,
    field: Seq<char>,
    t: Ty,
    index: Expr,
    errs: Seq<Problem>,
)
    requires
        local(env, name) == Some(Ty::Named(struct_name)),
        get(c.known.structs, struct_name) == Some(shape),
        first(shape.fields, field) == Some(t),
    ensures
        part(c, env, field_of(name, field), None, errs) == (Found { ty: t, errs }),
        part(c, env, field_of(name, field), Some(t), errs) == (Found { ty: t, errs }),
        t matches Ty::Array(x) ==> part(
            c,
            env,
            Expr::Index { expr: Box::new(field_of(name, field)), index: Box::new(index) },
            None,
            errs,
        ) == (Found { ty: *x, errs: part(c, env, index, None, errs).errs }),
{
    let base = Expr::Ident(name);
    let access = field_of(name, field);
    assert(expr_inner(c, env, base, None, errs) == (Found { ty: Ty::Named(struct_name), errs }));
    assert(part(c, env, base, None, errs) == (Found { ty: Ty::Named(struct_name), errs }));
    assert(expr_inner(c, env, access, None, errs) == (Found { ty: t, errs }));
    assert(expr_inner(c, env, access, Some(t), errs) == (Found { ty: t, errs }));
    let element = Expr::Index { expr: Box::new(access), index: Box::new(index) };
    if let Ty::Array(x) = t {
        assert(expr_inner(c, env, element, None, errs) == (Found {
            ty: *x,
            errs: part(c, env, index, None, errs).errs,
        }));
    }
}

/// A struct can be built of its own fields, whatever its type parameters stand for: there
/// is no problem with any of them.
pub proof fn built_of_its_own_fields(
    c: Scope,
    env: Locals,
    name: Seq<char>,
    struct_name: Seq<char>,
    shape: StructShape,
    fields: Seq<(Seq<char>, Expr)>,
    n: nat,
    errs: Seq<Problem>,
)
    requires
        local(env, name) == Some(Ty::Named(struct_name)),
        get(c.known.structs, struct_name) == Some(shape),
        n <= fields.len(),
        forall|i: int|
            0 <= i < fields.len() ==> (#[trigger] fields[i]).1 == field_of(name, fields[i].0)
                && first(shape.fields, fields[i].0) is Some && lookup(shape.fields, fields[i].0)
                == first(shape.fields, fields[i].0),
    ensures
        lit_fields(c, env, struct_name, shape.fields, seq![], fields, n, errs) == errs,
    decreases n,
{
    if n > 0 {
        built_of_its_own_fields(
            c,
            env,
            name,
            struct_name,
            shape,
            fields,
            (n - 1) as nat,
            errs,
        );
        let field = fields[n - 1].0;
        let t = first(shape.fields, field)->0;
        substitute_nothing(t);
        fields_of_names(c, env, name, struct_name, shape, field, t, fields[n - 1].1, errs);
    }
}

} // verus!
