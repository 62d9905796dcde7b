//! What annotations stand for, what type parameters are inferred to be, and how types are
//! written.
use crate::ast::BinaryOp;
use crate::grammar::types::is_primitive;
use crate::text::{int_text, nat_text};
use crate::tree::{Expr, Literal, Program, Type};
use crate::types::checks::{
    check_all, checked, const_args, excused, expr_inner, full_type, generic_args, generics_of,
    inferred, is_open, known, literal, no_field, no_variant, op_name, operation, part,
    right_expected, told, Found, Known, Locals, Scope,
};
use crate::types::model::{
    arg_text, arg_texts, problem_text, ty_text, ty_texts, FnSig, GenericArg, ParamKind, Problem,
    Registry, Ty,
};
use crate::types::names::{first, first_from, found_in, get, lookup, put_then_lookup};
use crate::types::pieces::{alone, found_alike, noted, run, type_found_alike};
use crate::types::rules::{
    add_all_impls, const_value, declare_all, impl_problems, method, missing_methods, primitive,
    unify, unify_all, State,
};
use vstd::prelude::*;

verus! {

/// The generic parameters of a name are those of the struct, or else of the enum.
pub proof fn parameters_of_a_name(known: Known, name: Seq<char>)
    ensures
        get(known.structs, name) matches Some(s) ==> generics_of(known, name) == Some(s.generics),
        get(known.structs, name) is None ==> (get(known.enums, name) matches Some(e)
            ==> generics_of(known, name) == Some(e.generics)),
        get(known.structs, name) is None && get(known.enums, name) is None ==> generics_of(
            known,
            name,
        ) is None,
{
}

/// An annotation of a name that is not declared, or without arguments, stands for the name
/// alone. The wrong number of arguments is one problem, and the name alone is left.
pub proof fn annotations_by_name(c: Scope, name: Seq<char>, args: Seq<Type>, errs: Seq<Problem>)
    ensures
        ({
            let t = Type::Named(name, args);
            match generics_of(c.known, name) {
                None => full_type(c, t, errs) == (Found { ty: Ty::Named(name), errs }),
                Some(ps) => {
                    &&& args.len() == 0 ==> full_type(c, t, errs) == (Found {
                        ty: Ty::Named(name),
                        errs,
                    })
                    &&& args.len() > 0 && args.len() != ps.len()
                        ==> full_type(c, t, errs) == (Found {
                        ty: Ty::Named(name),
                        errs: noted(
                            c,
                            errs,
                            true,
                            "`"@ + name + "` expects "@ + nat_text(ps.len())
                                + " generic argument(s), found "@ + nat_text(args.len()),
                        ),
                    })
                },
            }
        }),
{
}

/// What an argument stands for in the place of a parameter: a type for a type parameter, the
/// value of an integer literal for a const parameter, and nothing where the kinds do not agree.
pub open spec fn argument(c: Scope, p: ParamKind, t: Type) -> Option<GenericArg> {
    match (p, t) {
        (ParamKind::Type { .. }, Type::ConstArg(_)) => None,
        (ParamKind::Type { .. }, _) => Some(GenericArg::Type(full_type(c, t, seq![]).ty)),
        (ParamKind::Const { .. }, Type::ConstArg(e)) => match const_value(*e) {
            Some(v) => Some(GenericArg::Const(v)),
            None => None,
        },
        (ParamKind::Const { .. }, _) => None,
    }
}

/// The problems of each argument: its own, or one where its kind is wrong.
pub open spec fn in_arguments(
    c: Scope,
    name: Seq<char>,
    ps: Seq<ParamKind>,
    args: Seq<Type>,
) -> spec_fn(int) -> Seq<Problem> {
    |i: int|
        match (ps[i], args[i]) {
            (ParamKind::Type { .. }, Type::ConstArg(_)) => noted(
                c,
                seq![],
                true,
                "`"@ + name + "`: expected a type argument, found a const value"@,
            ),
            (ParamKind::Type { .. }, t) => full_type(c, t, seq![]).errs,
            (ParamKind::Const { .. }, Type::ConstArg(e)) => noted(
                c,
                seq![],
                const_value(*e) is None,
                "`"@ + name + "`: const-generic argument must be an integer literal"@,
            ),
            (ParamKind::Const { .. }, _) => noted(
                c,
                seq![],
                true,
                "`"@ + name + "`: expected a const value argument, found a type"@,
            ),
        }
}

proof fn arguments_in_order(
    c: Scope,
    name: Seq<char>,
    ps: Seq<ParamKind>,
    args: Seq<Type>,
    n: nat,
    errs: Seq<Problem>,
)
    requires
        n <= args.len(),
        n <= ps.len(),
    ensures
        ({
            let found = generic_args(c, name, ps, args, n, errs);
            &&& found.errs == errs + run(in_arguments(c, name, ps, args), n)
            &&& found.bad <==> exists|i: int|
                0 <= i < n && #[trigger] argument(c, ps[i], args[i]) is None
            &&& !found.bad ==> found.args.len() == n && forall|i: int|
                0 <= i < n ==> #[trigger] found.args[i] == argument(c, ps[i], args[i])->0
        }),
    decreases n,
{
    let f = in_arguments(c, name, ps, args);
    if n == 0 {
        assert(errs + run(f, 0) =~= errs);
    } else {
        arguments_in_order(c, name, ps, args, (n - 1) as nat, errs);
        let before = generic_args(c, name, ps, args, (n - 1) as nat, errs);
        let found = generic_args(c, name, ps, args, n, errs);
        type_found_alike(c, args[n - 1], before.errs);
        assert(errs + run(f, n) =~= before.errs + f(n - 1));
        assert(found.errs =~= before.errs + f(n - 1));
        assert(found.bad <==> before.bad || argument(c, ps[n - 1], args[n - 1]) is None);
        if before.bad {
            let i = choose|i: int|
                0 <= i < n - 1 && #[trigger] argument(c, ps[i], args[i]) is None;
            assert(argument(c, ps[i], args[i]) is None);
        }
        if !found.bad {
            assert(found.args == before.args.push(argument(c, ps[n - 1], args[n - 1])->0));
        }
    }
}

/// As many arguments as there are parameters are each looked at in their order. Where all are
/// of the right kind, the annotation stands for the name with exactly these; else for the name
/// alone.
pub proof fn annotations_with_arguments(
    c: Scope,
    name: Seq<char>,
    args: Seq<Type>,
    ps: Seq<ParamKind>,
    errs: Seq<Problem>,
)
    requires
        generics_of(c.known, name) == Some(ps),
        args.len() == ps.len(),
        args.len() > 0,
    ensures
        ({
            let found = full_type(c, Type::Named(name, args), errs);
            let bad = exists|i: int|
                0 <= i < args.len() && #[trigger] argument(c, ps[i], args[i]) is None;
            &&& found.errs == errs + run(in_arguments(c, name, ps, args), args.len())
            &&& bad ==> found.ty == Ty::Named(name)
            &&& !bad ==> (found.ty matches Ty::Generic(n, given) && n == name && given.len()
                == args.len() && forall|i: int|
                0 <= i < args.len() ==> #[trigger] given[i] == argument(c, ps[i], args[i])->0)
        }),
{
    arguments_in_order(c, name, ps, args, args.len(), errs);
}

/// A numeric literal is excused where the type that is expected is still open, and nothing else
/// ever is.
pub proof fn who_is_excused(c: Scope, e: Expr, t: Ty, l: Literal)
    ensures
        !excused(c, e, None),
        !(e is Literal) ==> !excused(c, e, Some(t)),
        e == Expr::Literal(l) && !(l is Int || l is IntHex || l is IntOct || l is IntBin || l
            is Float) ==> !excused(c, e, Some(t)),
        e == Expr::Literal(l) && (l is Int || l is IntHex || l is IntOct || l is IntBin || l
            is Float) ==> (excused(c, e, Some(t)) <==> is_open(c.known, t)),
{
}

/// Operands of any operator are looked at one after the other, and then held against it.
pub proof fn operators_on_operands(
    c: Scope,
    env: Locals,
    op: BinaryOp,
    lhs: Expr,
    rhs: Expr,
    expected: Option<Ty>,
    errs: Seq<Problem>,
)
    ensures
        ({
            let a = alone(c, env, lhs, None);
            let b = alone(c, env, rhs, told(rhs, right_expected(a.ty)));
            expr_inner(
                c,
                env,
                Expr::Binary { op, lhs: Box::new(lhs), rhs: Box::new(rhs) },
                expected,
                errs,
            ) == operation(c, op, a.ty, b.ty, errs + a.errs + b.errs)
        }),
{
    let a = alone(c, env, lhs, None);
    found_alike(c, env, lhs, None, errs);
    found_alike(c, env, rhs, told(rhs, right_expected(a.ty)), errs + a.errs);
}

/// The values among generic arguments stand in their order; types are left out.
pub proof fn values_among_arguments(before: Seq<GenericArg>, a: GenericArg)
    ensures
        const_args(seq![], 0) == Seq::<i64>::empty(),
        ({
            let all = before.push(a);
            let first = const_args(before, before.len());
            const_args(all, all.len()) == (match a {
                GenericArg::Const(v) => first.push(v),
                GenericArg::Type(_) => first,
            })
        }),
{
    let all = before.push(a);
    values_of_a_longer_list(before, a, before.len());
    assert(all[all.len() - 1] == a);
    assert(all.len() - 1 == before.len());
}

proof fn values_of_a_longer_list(before: Seq<GenericArg>, a: GenericArg, n: nat)
    requires
        n <= before.len(),
    ensures
        const_args(before.push(a), n) == const_args(before, n),
    decreases n,
{
    if n > 0 {
        values_of_a_longer_list(before, a, (n - 1) as nat);
        assert(before.push(a)[n - 1] == before[n - 1]);
    }
}

/// A type parameter is inferred to be what stands in its place, also behind a reference, in an
/// array, and in a tuple of as many items. From anything else nothing is learned.
pub proof fn what_is_inferred(p: Ty, a: Ty, out: Seq<(Seq<char>, Ty)>, name: Seq<char>)
    ensures
        p matches Ty::TypeParam(n) ==> lookup(unify(p, a, out), name) == (if name == n && lookup(
            out,
            name,
        ) is None {
            Some(a)
        } else {
            lookup(out, name)
        }),
        p matches Ty::Array(x) ==> (a matches Ty::Array(y) ==> unify(p, a, out) == unify(
            *x,
            *y,
            out,
        )),
        p matches Ty::Ref(_, x) ==> (a matches Ty::Ref(_, y) ==> unify(p, a, out) == unify(
            *x,
            *y,
            out,
        )),
        p matches Ty::Tuple(xs) ==> (a matches Ty::Tuple(ys) ==> (if xs.len() == ys.len() {
            unify(p, a, out) == unify_all(xs, ys, xs.len(), out)
        } else {
            unify(p, a, out) == out
        })),
        p is Array && !(a is Array) ==> unify(p, a, out) == out,
        p is Ref && !(a is Ref) ==> unify(p, a, out) == out,
        p is Tuple && !(a is Tuple) ==> unify(p, a, out) == out,
        !(p is TypeParam || p is Array || p is Ref || p is Tuple) ==> unify(p, a, out) == out,
{
    if let Ty::TypeParam(n) = p {
        put_then_lookup(out, n, a, name);
    }
}

proof fn inferences_of_longer_lists(
    ps: Seq<Ty>,
    xs: Seq<Ty>,
    p: Seq<Ty>,
    x: Seq<Ty>,
    n: nat,
    out: Seq<(Seq<char>, Ty)>,
)
    requires
        n <= ps.len(),
        n <= xs.len(),
    ensures
        unify_all(ps + p, xs + x, n, out) == unify_all(ps, xs, n, out),
    decreases n,
{
    if n > 0 {
        inferences_of_longer_lists(ps, xs, p, x, (n - 1) as nat, out);
        assert((ps + p)[n - 1] == ps[n - 1]);
        assert((xs + x)[n - 1] == xs[n - 1]);
    }
}

/// Parameters and arguments are held against each other in their order, as far as there are
/// both.
pub proof fn inference_in_order(ps: Seq<Ty>, xs: Seq<Ty>, p: Ty, x: Ty, more: Seq<Ty>)
    requires
        ps.len() == xs.len(),
    ensures
        inferred(seq![], xs) == Seq::<(Seq<char>, Ty)>::empty(),
        inferred(ps, seq![]) == Seq::<(Seq<char>, Ty)>::empty(),
        inferred(ps.push(p), xs.push(x)) == unify(p, x, inferred(ps, xs)),
        inferred(ps + more, xs) == inferred(ps, xs),
        inferred(ps, xs + more) == inferred(ps, xs),
{
    let n = ps.len();
    let none = Seq::<(Seq<char>, Ty)>::empty();
    assert(ps.push(p) =~= ps + seq![p]);
    assert(xs.push(x) =~= xs + seq![x]);
    inferences_of_longer_lists(ps, xs, seq![p], seq![x], n, none);
    inferences_of_longer_lists(ps, xs, more, seq![], n, none);
    inferences_of_longer_lists(ps, xs, seq![], more, n, none);
    assert(xs + Seq::<Ty>::empty() =~= xs);
    assert(ps + Seq::<Ty>::empty() =~= ps);
    assert(ps.push(p)[n as int] == p);
    assert(xs.push(x)[n as int] == x);
}

/// How each type is written.
pub proof fn types_as_text(t: Ty)
    ensures
        t is Unit ==> ty_text(t) == "()"@,
        t is Never ==> ty_text(t) == "!"@,
        t is Null ==> ty_text(t) == "null"@,
        t matches Ty::Named(n) ==> ty_text(t) == n,
        t matches Ty::TypeParam(n) ==> ty_text(t) == n,
        t matches Ty::DynTrait(n) ==> ty_text(t) == "dyn "@ + n,
        t matches Ty::Array(e) ==> ty_text(t) == "["@ + ty_text(*e) + "]"@,
        t matches Ty::OptionTy(e) ==> ty_text(t) == "Option<"@ + ty_text(*e) + ">"@,
        t matches Ty::ResultTy(o, e) ==> ty_text(t) == "Result<"@ + ty_text(*o) + ", "@ + ty_text(
            *e,
        ) + ">"@,
        t matches Ty::Ref(true, e) ==> ty_text(t) == "&"@ + "mut "@ + ty_text(*e),
        t matches Ty::Ref(false, e) ==> ty_text(t) == "&"@ + ty_text(*e),
        t matches Ty::Tuple(ts) ==> ty_text(t) == "("@ + ty_texts(ts, ts.len()) + ")"@,
        t matches Ty::Fn(ps, r) ==> ty_text(t) == "fn("@ + ty_texts(ps, ps.len()) + ") -> "@
            + ty_text(*r),
        t matches Ty::Generic(n, args) ==> ty_text(t) == n + "<"@ + arg_texts(args, args.len())
            + ">"@,
{
    reveal_strlit("");
    if let Ty::Ref(false, e) = t {
        assert("&"@ + ""@ =~= "&"@);
    }
}

proof fn texts_of_a_longer_list(ts: Seq<Ty>, t: Ty, n: nat)
    requires
        n <= ts.len(),
    ensures
        ty_texts(ts.push(t), n) == ty_texts(ts, n),
    decreases n,
{
    if n > 0 {
        texts_of_a_longer_list(ts, t, (n - 1) as nat);
        assert(ts.push(t)[n - 1] == ts[n - 1]);
    }
}

proof fn args_of_a_longer_list(args: Seq<GenericArg>, a: GenericArg, n: nat)
    requires
        n <= args.len(),
    ensures
        arg_texts(args.push(a), n) == arg_texts(args, n),
    decreases n,
{
    if n > 0 {
        args_of_a_longer_list(args, a, (n - 1) as nat);
        assert(args.push(a)[n - 1] == args[n - 1]);
    }
}

/// Types, and generic arguments, are written in their order with commas between them.
pub proof fn lists_as_text(ts: Seq<Ty>, t: Ty, args: Seq<GenericArg>, a: GenericArg)
    ensures
        ty_texts(seq![], 0) == ""@,
        ty_texts(seq![t], 1) == ty_text(t),
        ts.len() > 0 ==> ty_texts(ts.push(t), ts.push(t).len()) == ty_texts(ts, ts.len()) + ", "@
            + ty_text(t),
        arg_texts(seq![], 0) == ""@,
        arg_texts(seq![a], 1) == arg_text(a),
        args.len() > 0 ==> arg_texts(args.push(a), args.push(a).len()) == arg_texts(
            args,
            args.len(),
        ) + ", "@ + arg_text(a),
        a matches GenericArg::Type(x) ==> arg_text(a) == ty_text(x),
        a matches GenericArg::Const(n) ==> arg_text(a) == int_text(n as int),
{
    texts_of_a_longer_list(ts, t, ts.len());
    args_of_a_longer_list(args, a, args.len());
    assert(seq![t][0] == t);
    assert(seq![a][0] == a);
    assert(ts.push(t)[ts.len() as int] == t);
    assert(args.push(a)[args.len() as int] == a);
    assert(ts.push(t).len() - 1 == ts.len());
    assert(args.push(a).len() - 1 == args.len());
}

/// How each operator is named in a message.
pub proof fn operators_in_messages()
    ensures
        op_name(BinaryOp::Add) == "Add"@,
        op_name(BinaryOp::Sub) == "Sub"@,
        op_name(BinaryOp::Mul) == "Mul"@,
        op_name(BinaryOp::Div) == "Div"@,
        op_name(BinaryOp::Mod) == "Mod"@,
        op_name(BinaryOp::Pow) == "Pow"@,
        op_name(BinaryOp::EqEq) == "EqEq"@,
        op_name(BinaryOp::NotEq) == "NotEq"@,
        op_name(BinaryOp::Lt) == "Lt"@,
        op_name(BinaryOp::Gt) == "Gt"@,
        op_name(BinaryOp::LtEq) == "LtEq"@,
        op_name(BinaryOp::GtEq) == "GtEq"@,
        op_name(BinaryOp::AndAnd) == "AndAnd"@,
        op_name(BinaryOp::OrOr) == "OrOr"@,
        op_name(BinaryOp::BitAnd) == "BitAnd"@,
        op_name(BinaryOp::BitOr) == "BitOr"@,
        op_name(BinaryOp::BitXor) == "BitXor"@,
        op_name(BinaryOp::Shl) == "Shl"@,
        op_name(BinaryOp::Shr) == "Shr"@,
        op_name(BinaryOp::Coalesce) == "Coalesce"@,
{
}

/// A problem is printed with the place where it was found.
pub proof fn problems_as_text(p: Problem)
    ensures
        problem_text(p) == "type error in `"@ + p.context + "`: "@ + p.message,
{
}

/// The first entry of a name counts in fields and variants.
pub proof fn first_entries_count<T>(d: Seq<(Seq<char>, T)>, key: Seq<char>, v: T, other: Seq<char>)
    ensures
        first(Seq::<(Seq<char>, T)>::empty(), key) is None,
        first(d.push((key, v)), other) == (if first(d, other) is None && other == key {
            Some(v)
        } else {
            first(d, other)
        }),
{
    first_of_a_longer_list(d, key, v, other, 0);
}

proof fn first_of_a_longer_list<T>(
    d: Seq<(Seq<char>, T)>,
    key: Seq<char>,
    v: T,
    other: Seq<char>,
    i: nat,
)
    requires
        i <= d.len(),
    ensures
        first_from(d.push((key, v)), other, i) == (if first_from(d, other, i) is None && other
            == key {
            Some(v)
        } else {
            first_from(d, other, i)
        }),
    decreases d.len() - i,
{
    let e = d.push((key, v));
    if i < d.len() {
        assert(e[i as int] == d[i as int]);
        if d[i as int].0 != other {
            first_of_a_longer_list(d, key, v, other, i + 1);
        }
    } else {
        assert(e[i as int] == (key, v));
        assert(first_from(e, other, i + 1) is None);
    }
}

/// A name in a map has its value, and no other name has one.
pub proof fn values_of_names<T>(m: Map<Seq<char>, T>, key: Seq<char>, v: T, other: Seq<char>)
    ensures
        get(Map::<Seq<char>, T>::empty(), key) is None,
        get(m.insert(key, v), other) == (if other == key {
            Some(v)
        } else {
            get(m, other)
        }),
{
}

/// The problems of each method of a trait: one where an `impl` has to provide it and does not.
pub open spec fn in_required(
    trait_name: Seq<char>,
    target: Seq<char>,
    required: Seq<(Seq<char>, FnSig)>,
    methods: Seq<(Seq<char>, FnSig)>,
) -> spec_fn(int) -> Seq<Problem> {
    |i: int|
        if !required[i].1.has_default_body && lookup(methods, required[i].0) is None {
            seq![
                Problem {
                    message: "`impl "@ + trait_name + " for "@ + target
                        + "` is missing required method `"@ + required[i].0
                        + "` (Document 7 §4.2/§4.3)"@,
                    context: "impl "@ + trait_name + " for "@ + target,
                },
            ]
        } else {
            seq![]
        }
}

proof fn required_in_order(
    trait_name: Seq<char>,
    target: Seq<char>,
    required: Seq<(Seq<char>, FnSig)>,
    methods: Seq<(Seq<char>, FnSig)>,
    n: nat,
    errs: Seq<Problem>,
)
    requires
        n <= required.len(),
    ensures
        missing_methods(trait_name, target, required, methods, n, errs) == errs + run(
            in_required(trait_name, target, required, methods),
            n,
        ),
    decreases n,
{
    let f = in_required(trait_name, target, required, methods);
    if n == 0 {
        assert(errs + run(f, 0) =~= errs);
    } else {
        required_in_order(trait_name, target, required, methods, (n - 1) as nat, errs);
        let before = missing_methods(trait_name, target, required, methods, (n - 1) as nat, errs);
        assert(errs + run(f, n) =~= before + f(n - 1));
        assert(missing_methods(trait_name, target, required, methods, n, errs) =~= before + f(
            n - 1,
        ));
    }
}

/// The problems of an `impl` of a trait: one where neither the trait nor the type is declared,
/// and one for each method that is missing.
pub proof fn problems_of_an_impl(
    reg: Registry,
    trait_name: Seq<char>,
    target: Seq<char>,
    methods: Seq<(Seq<char>, FnSig)>,
    errs: Seq<Problem>,
)
    ensures
        match get(reg.traits, trait_name) {
            Some(shape) => impl_problems(reg, trait_name, target, methods, errs) == errs + run(
                in_required(trait_name, target, shape.methods, methods),
                shape.methods.len(),
            ),
            None => if get(reg.structs, target) is None && get(reg.enums, target) is None {
                impl_problems(reg, trait_name, target, methods, errs) == errs.push(
                    Problem {
                        message: "orphan rule violation: `impl "@ + trait_name + " for "@ + target
                            + "` is not allowed -- neither the trait nor the type is defined in the current package (Document 7 §5)"@,
                        context: "impl "@ + trait_name + " for "@ + target,
                    },
                )
            } else {
                impl_problems(reg, trait_name, target, methods, errs) == errs
            },
        },
{
    if let Some(shape) = get(reg.traits, trait_name) {
        required_in_order(trait_name, target, shape.methods, methods, shape.methods.len(), errs);
    }
}

/// The names of the primitive types.
pub proof fn names_of_primitives()
    ensures
        is_primitive("i8"@),
        primitive("i8"@) is I8,
        ty_text(Ty::I8) == "i8"@,
        is_primitive("i16"@),
        primitive("i16"@) is I16,
        ty_text(Ty::I16) == "i16"@,
        is_primitive("i32"@),
        primitive("i32"@) is I32,
        ty_text(Ty::I32) == "i32"@,
        is_primitive("i64"@),
        primitive("i64"@) is I64,
        ty_text(Ty::I64) == "i64"@,
        is_primitive("i128"@),
        primitive("i128"@) is I128,
        ty_text(Ty::I128) == "i128"@,
        is_primitive("isize"@),
        primitive("isize"@) is Isize,
        ty_text(Ty::Isize) == "isize"@,
        is_primitive("u8"@),
        primitive("u8"@) is U8,
        ty_text(Ty::U8) == "u8"@,
        is_primitive("u16"@),
        primitive("u16"@) is U16,
        ty_text(Ty::U16) == "u16"@,
        is_primitive("u32"@),
        primitive("u32"@) is U32,
        ty_text(Ty::U32) == "u32"@,
        is_primitive("u64"@),
        primitive("u64"@) is U64,
        ty_text(Ty::U64) == "u64"@,
        is_primitive("u128"@),
        primitive("u128"@) is U128,
        ty_text(Ty::U128) == "u128"@,
        is_primitive("usize"@),
        primitive("usize"@) is Usize,
        ty_text(Ty::Usize) == "usize"@,
        is_primitive("f32"@),
        primitive("f32"@) is F32,
        ty_text(Ty::F32) == "f32"@,
        is_primitive("f64"@),
        primitive("f64"@) is F64,
        ty_text(Ty::F64) == "f64"@,
        is_primitive("bool"@),
        primitive("bool"@) is Bool,
        ty_text(Ty::Bool) == "bool"@,
        is_primitive("char"@),
        primitive("char"@) is Char,
        ty_text(Ty::Char) == "char"@,
        is_primitive("String"@),
        primitive("String"@) is StringTy,
        ty_text(Ty::StringTy) == "String"@,
        is_primitive("str"@),
        primitive("str"@) is Str,
        ty_text(Ty::Str) == "str"@,
{
    reveal_strlit("i8");
    reveal_strlit("i16");
    reveal_strlit("i32");
    reveal_strlit("i64");
    reveal_strlit("i128");
    reveal_strlit("isize");
    reveal_strlit("u8");
    reveal_strlit("u16");
    reveal_strlit("u32");
    reveal_strlit("u64");
    reveal_strlit("u128");
    reveal_strlit("usize");
    reveal_strlit("f32");
    reveal_strlit("f64");
    reveal_strlit("bool");
    reveal_strlit("char");
    reveal_strlit("String");
    reveal_strlit("str");
    assert("i8"@.len() == 2 && "u8"@.len() == 2);
    assert("i8"@[0] == 'i' && "u8"@[0] == 'u');
    assert("i16"@[0] == 'i' && "i16"@[1] == '1');
    assert("i32"@[0] == 'i' && "i32"@[1] == '3');
    assert("i64"@[0] == 'i' && "i64"@[1] == '6');
    assert("u16"@[0] == 'u' && "u16"@[1] == '1');
    assert("u32"@[0] == 'u' && "u32"@[1] == '3');
    assert("u64"@[0] == 'u' && "u64"@[1] == '6');
    assert("f32"@[0] == 'f' && "f32"@[1] == '3');
    assert("f64"@[0] == 'f' && "f64"@[1] == '6');
    assert("str"@[0] == 's');
    assert("i128"@[0] == 'i' && "u128"@[0] == 'u' && "bool"@[0] == 'b' && "char"@[0] == 'c');
    assert("isize"@[0] == 'i' && "usize"@[0] == 'u');
    assert("String"@.len() == 6);
    assert("i16"@.len() == 3 && "i32"@.len() == 3 && "i64"@.len() == 3 && "str"@.len() == 3);
    assert("u16"@.len() == 3 && "u32"@.len() == 3 && "u64"@.len() == 3);
    assert("f32"@.len() == 3 && "f64"@.len() == 3);
    assert("i128"@.len() == 4 && "u128"@.len() == 4 && "bool"@.len() == 4 && "char"@.len() == 4);
    assert("isize"@.len() == 5 && "usize"@.len() == 5);
}

/// No other name is that of a primitive type.
pub proof fn no_other_primitives(s: Seq<char>)
    ensures
        is_primitive(s) <==> !(primitive(s) is Named),
        primitive(s) is Named ==> primitive(s) == Ty::Named(s),
{
}

/// The last entry of a name counts in parameters, locals and methods.
pub proof fn last_entries_count<T>(d: Seq<(Seq<char>, T)>, key: Seq<char>, v: T, other: Seq<char>)
    ensures
        lookup(Seq::<(Seq<char>, T)>::empty(), key) is None,
        lookup(d.push((key, v)), other) == (if other == key {
            Some(v)
        } else {
            lookup(d, other)
        }),
{
    let e = d.push((key, v));
    assert(e[d.len() as int] == (key, v));
    assert(found_in(e, other, e.len()) == (if other == key {
        Some(v)
    } else {
        found_in(e, other, d.len())
    }));
    found_in_a_longer_list(d, key, v, other, d.len());
}

proof fn found_in_a_longer_list<T>(
    d: Seq<(Seq<char>, T)>,
    key: Seq<char>,
    v: T,
    other: Seq<char>,
    n: nat,
)
    requires
        n <= d.len(),
    ensures
        found_in(d.push((key, v)), other, n) == found_in(d, other, n),
    decreases n,
{
    if n > 0 {
        found_in_a_longer_list(d, key, v, other, (n - 1) as nat);
        assert(d.push((key, v))[n - 1] == d[n - 1]);
    }
}

/// What is said of a field or a variant that is not there.
pub proof fn missing_names_in_messages(name: Seq<char>, part: Seq<char>)
    ensures
        no_field(name, part) == "struct `"@ + name + "` has no field `"@ + part + "`"@,
        no_variant(name, part) == "enum `"@ + name + "` has no variant `"@ + part + "`"@,
{
}

/// Bodies are checked last, against all that the program declares and all its `impl` blocks,
/// which in their turn are held against all that it declares.
pub proof fn order_of_checking(s: State, p: Program)
    ensures
        ({
            let n = p.items.len();
            let declared = State { reg: declare_all(s.reg, p.items, n), errs: s.errs };
            let complete = add_all_impls(declared, p.items, n);
            &&& checked(s, p).reg == complete.reg
            &&& checked(s, p).errs == check_all(checked(s, p).reg, p.items, n, complete.errs)
        }),
{
}

} // verus!
