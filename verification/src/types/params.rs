//! Type parameters: substituting, marking and inferring them.
use crate::tree::{Expr, Pattern, Stmt, Type};
use crate::types::checks::{
    alike, bind, expr, expr_inner, full_type, generic_args, generics_of, part, stmt, Found, Locals,
    Scope,
};
use crate::types::laws::{first_inference_stays, has_param};
use crate::types::model::{GenericArg, ParamKind, Problem, StructShape, Ty};
use crate::types::names::{first, get, lookup, place_holds_value, place_in, put_then_lookup};
use crate::types::rules::{
    all_without_params, args_without_params, holds_param, mark, mark_all, resolve, resolve_all,
    substitute, substitute_all, unify, unify_all, without_params,
};
use vstd::prelude::*;

verus! {

/// A type that holds no type parameter does not hold this one.
proof fn no_param(t: Ty, name: Seq<char>)
    requires
        !holds_param(t),
    ensures
        !has_param(t, name),
    decreases t,
{
    match t {
        Ty::Array(e) => no_param(*e, name),
        Ty::Tuple(ts) => {
            assert forall|i: int| 0 <= i < ts.len() implies !has_param(#[trigger] ts[i], name) by {
                assert(!holds_param(ts[i]));
                no_param(ts[i], name);
            }
        },
        Ty::Ref(_, e) => no_param(*e, name),
        Ty::OptionTy(e) => no_param(*e, name),
        Ty::ResultTy(o, e) => {
            no_param(*o, name);
            no_param(*e, name);
        },
        Ty::Fn(ps, r) => {
            assert forall|i: int| 0 <= i < ps.len() implies !has_param(#[trigger] ps[i], name) by {
                assert(!holds_param(ps[i]));
                no_param(ps[i], name);
            }
            no_param(*r, name);
        },
        _ => {},
    }
}

/// Whether no type in a substitution holds a type parameter.
pub open spec fn hold_none(subst: Seq<(Seq<char>, Ty)>) -> bool {
    forall|i: int| 0 <= i < subst.len() ==> !holds_param((#[trigger] subst[i]).1)
}

spec fn any_holds(ts: Seq<Ty>) -> bool {
    exists|i: int| 0 <= i < ts.len() && holds_param(#[trigger] ts[i])
}

spec fn any_arg_holds(args: Seq<GenericArg>) -> bool {
    exists|i: int|
        0 <= i < args.len() && (#[trigger] args[i]) is Type && holds_param(args[i]->Type_0)
}

/// Where a type parameter stands in a type of several parts.
proof fn parts_that_hold(t: Ty)
    ensures
        t matches Ty::Array(e) ==> holds_param(t) == holds_param(*e),
        t matches Ty::Ref(_, e) ==> holds_param(t) == holds_param(*e),
        t matches Ty::OptionTy(e) ==> holds_param(t) == holds_param(*e),
        t matches Ty::ResultTy(o, e) ==> holds_param(t) == (holds_param(*o) || holds_param(*e)),
        t matches Ty::Tuple(ts) ==> (holds_param(t) <==> any_holds(ts)),
        t matches Ty::Generic(_, args) ==> (holds_param(t) <==> any_arg_holds(args)),
        t matches Ty::Fn(ps, r) ==> (holds_param(t) <==> holds_param(*r) || any_holds(ps)),
{
}

/// Without type parameters a type holds none, and one that holds none is left as it is.
pub proof fn without_params_there_are_none(t: Ty)
    ensures
        !holds_param(without_params(t)),
        !holds_param(t) ==> without_params(t) == t,
    decreases t,
{
    let made = without_params(t);
    parts_that_hold(t);
    parts_that_hold(made);
    match t {
        Ty::Array(e) => without_params_there_are_none(*e),
        Ty::Tuple(ts) => {
            all_without_params_hold_none(ts);
            assert(!any_holds(all_without_params(ts)));
        },
        Ty::Ref(_, e) => without_params_there_are_none(*e),
        Ty::Generic(_, args) => {
            args_without_params_hold_none(args);
            assert(!any_arg_holds(args_without_params(args)));
        },
        Ty::OptionTy(e) => without_params_there_are_none(*e),
        Ty::ResultTy(o, e) => {
            without_params_there_are_none(*o);
            without_params_there_are_none(*e);
        },
        Ty::Fn(ps, r) => {
            all_without_params_hold_none(ps);
            assert(!any_holds(all_without_params(ps)));
            without_params_there_are_none(*r);
        },
        _ => {},
    }
}

proof fn all_without_params_hold_none(ts: Seq<Ty>)
    ensures
        forall|i: int| 0 <= i < ts.len() ==> !holds_param(#[trigger] all_without_params(ts)[i]),
        (forall|i: int| 0 <= i < ts.len() ==> !holds_param(#[trigger] ts[i]))
            ==> all_without_params(ts) == ts,
    decreases ts,
{
    assert forall|i: int| 0 <= i < ts.len() implies !holds_param(
        #[trigger] all_without_params(ts)[i],
    ) by {
        without_params_there_are_none(ts[i]);
    }
    if forall|i: int| 0 <= i < ts.len() ==> !holds_param(#[trigger] ts[i]) {
        assert forall|i: int| 0 <= i < ts.len() implies #[trigger] all_without_params(ts)[i]
            == ts[i] by {
            without_params_there_are_none(ts[i]);
        }
        assert(all_without_params(ts) =~= ts);
    }
}

proof fn args_without_params_hold_none(args: Seq<GenericArg>)
    ensures
        forall|i: int|
            0 <= i < args.len() && (#[trigger] args_without_params(args)[i]) is Type
                ==> !holds_param(args_without_params(args)[i]->Type_0),
        (forall|i: int|
            0 <= i < args.len() && (#[trigger] args[i]) is Type ==> !holds_param(args[i]->Type_0))
            ==> args_without_params(args) == args,
    decreases args,
{
    assert forall|i: int|
        0 <= i < args.len() && (#[trigger] args_without_params(args)[i]) is Type implies
        !holds_param(args_without_params(args)[i]->Type_0) by {
        without_params_there_are_none(args[i]->Type_0);
    }
    if forall|i: int|
        0 <= i < args.len() && (#[trigger] args[i]) is Type ==> !holds_param(args[i]->Type_0) {
        assert forall|i: int| 0 <= i < args.len() implies #[trigger] args_without_params(args)[i]
            == args[i] by {
            if let GenericArg::Type(t) = args[i] {
                without_params_there_are_none(t);
            }
        }
        assert(args_without_params(args) =~= args);
    }
}

/// A type as it is written holds no type parameter.
pub proof fn written_types_hold_none(t: Type)
    ensures
        !holds_param(resolve(t)),
    decreases t,
{
    parts_that_hold(resolve(t));
    match t {
        Type::Array(inner, _) => written_types_hold_none(*inner),
        Type::Tuple(ts) => {
            assert forall|i: int| 0 <= i < ts.len() implies !holds_param(
                #[trigger] resolve_all(ts)[i],
            ) by {
                written_types_hold_none(ts[i]);
            }
            assert(!any_holds(resolve_all(ts)));
        },
        Type::Ref { inner, .. } => written_types_hold_none(*inner),
        Type::Fn(ps, r) => {
            assert forall|i: int| 0 <= i < ps.len() implies !holds_param(
                #[trigger] resolve_all(ps)[i],
            ) by {
                written_types_hold_none(ps[i]);
            }
            assert(!any_holds(resolve_all(ps)));
            written_types_hold_none(*r);
        },
        Type::Option(inner) => written_types_hold_none(*inner),
        Type::Result(o, e) => {
            written_types_hold_none(*o);
            written_types_hold_none(*e);
        },
        _ => {},
    }
}

/// Nor does the type that an annotation stands for.
pub proof fn annotations_hold_none(c: Scope, t: Type, errs: Seq<Problem>)
    ensures
        !holds_param(full_type(c, t, errs).ty),
    decreases t, 0nat,
{
    written_types_hold_none(t);
    parts_that_hold(full_type(c, t, errs).ty);
    if let Type::Named(name, args) = t {
        if let Some(ps) = generics_of(c.known, name) {
            if args.len() > 0 && args.len() == ps.len() {
                generic_args_hold_none(c, name, ps, args, args.len(), errs);
            }
        }
    }
}

proof fn generic_args_hold_none(
    c: Scope,
    name: Seq<char>,
    ps: Seq<ParamKind>,
    args: Seq<Type>,
    n: nat,
    errs: Seq<Problem>,
)
    ensures
        ({
            let found = generic_args(c, name, ps, args, n, errs).args;
            forall|i: int|
                0 <= i < found.len() && (#[trigger] found[i]) is Type ==> !holds_param(
                    found[i]->Type_0,
                )
        }),
    decreases args, n,
{
    if n == 0 || n > args.len() || n > ps.len() {
    } else {
        generic_args_hold_none(c, name, ps, args, (n - 1) as nat, errs);
        let before = generic_args(c, name, ps, args, (n - 1) as nat, errs);
        if ps[n - 1] is Type && !(args[n - 1] is ConstArg) {
            annotations_hold_none(c, args[n - 1], before.errs);
        }
    }
}

/// Types of which only one holds type parameters agree where they are equal with `()` for
/// each; otherwise only equal types agree.
pub proof fn types_without_params_agree_if_equal(a: Ty, b: Ty)
    ensures
        alike(a, a),
        alike(a, b) == alike(b, a),
        !holds_param(a) && !holds_param(b) ==> (alike(a, b) <==> a == b),
        holds_param(a) && holds_param(b) ==> (alike(a, b) <==> a == b),
        !holds_param(a) ==> (alike(a, b) <==> a == b || a == without_params(b)),
{
    without_params_there_are_none(a);
    without_params_there_are_none(b);
}

/// No type parameter comes out of an expression, whatever the expression, but where it is
/// expected.
pub proof fn no_type_parameter_comes_out(
    c: Scope,
    env: Locals,
    e: Expr,
    expected: Option<Ty>,
    errs: Seq<Problem>,
)
    ensures
        holds_param(expr(c, env, e, expected, errs).ty) ==> expected == Some(
            expr(c, env, e, expected, errs).ty,
        ),
{
    without_params_there_are_none(part(c, env, e, expected, errs).ty);
}

/// Nor does a name that is bound by its value have one.
pub proof fn no_type_parameter_is_bound(
    c: Scope,
    env: Locals,
    mutable: bool,
    name: Seq<char>,
    e: Expr,
    errs: Seq<Problem>,
)
    ensures
        ({
            let after = stmt(
                c,
                env,
                Stmt::Let { mutable, pattern: Pattern::Ident(name), ty: None, value: Some(e) },
                errs,
            );
            exists|t: Ty| !holds_param(t) && after.env == #[trigger] bind(env, name, t)
        }),
{
    no_type_parameter_comes_out(c, env, e, None, errs);
    let t = expr(c, env, e, None, errs).ty;
    assert(stmt(
        c,
        env,
        Stmt::Let { mutable, pattern: Pattern::Ident(name), ty: None, value: Some(e) },
        errs,
    ).env == bind(env, name, t));
}

/// A field of a type that is told by the name of a generic struct alone has its declared
/// type where that is expected, without a problem. Where nothing is expected it has the
/// declared type with `()` in place of each type parameter.
pub proof fn fields_where_arguments_are_not_known(
    c: Scope,
    env: Locals,
    e: Expr,
    struct_name: Seq<char>,
    shape: StructShape,
    field: Seq<char>,
    t: Ty,
    errs: Seq<Problem>,
)
    requires
        part(c, env, e, None, errs).ty == Ty::Named(struct_name),
        get(c.known.structs, struct_name) == Some(shape),
        first(shape.fields, field) == Some(t),
    ensures
        ({
            let access = Expr::Field { expr: Box::new(e), name: field };
            let found = part(c, env, e, None, errs).errs;
            &&& expr(c, env, access, Some(t), errs) == (Found { ty: t, errs: found })
            &&& expr(c, env, access, None, errs) == (Found { ty: without_params(t), errs: found })
        }),
{
    let access = Expr::Field { expr: Box::new(e), name: field };
    let found = part(c, env, e, None, errs).errs;
    assert(expr_inner(c, env, access, Some(t), errs) == (Found { ty: t, errs: found }));
    assert(expr_inner(c, env, access, None, errs) == (Found { ty: t, errs: found }));
}

spec fn any_has_param(ts: Seq<Ty>, name: Seq<char>) -> bool {
    exists|i: int| 0 <= i < ts.len() && has_param(#[trigger] ts[i], name)
}

spec fn any_has_name(ts: Seq<Ty>, name: Seq<char>) -> bool {
    exists|i: int| 0 <= i < ts.len() && has_name(#[trigger] ts[i], name)
}

proof fn parts_of_types(t: Ty, name: Seq<char>)
    ensures
        t matches Ty::Tuple(ts) ==> (has_param(t, name) <==> any_has_param(ts, name)),
        t matches Ty::Tuple(ts) ==> (has_name(t, name) <==> any_has_name(ts, name)),
        t matches Ty::Fn(ps, r) ==> (has_param(t, name) <==> has_param(*r, name)
            || any_has_param(ps, name)),
        t matches Ty::Fn(ps, r) ==> (has_name(t, name) <==> has_name(*r, name) || any_has_name(
            ps,
            name,
        )),
{
}

/// Substitution takes away exactly the parameters that it has a type for: where those types
/// hold no parameter, one is left if and only if it was there and nothing stands for it. A
/// parameter on its own becomes the type that stands for it.
pub proof fn substitution_takes_its_parameters(
    t: Ty,
    subst: Seq<(Seq<char>, Ty)>,
    name: Seq<char>,
)
    requires
        hold_none(subst),
    ensures
        has_param(substitute(t, subst), name) <==> has_param(t, name) && lookup(subst, name)
            is None,
        t == Ty::TypeParam(name) && lookup(subst, name) is Some ==> substitute(t, subst) == lookup(
            subst,
            name,
        )->0,
    decreases t,
{
    match t {
        Ty::TypeParam(n) => {
            place_holds_value(subst, n, subst.len());
            if let Some(i) = place_in(subst, n, subst.len()) {
                no_param(subst[i].1, name);
            }
        },
        Ty::Array(e) => substitution_takes_its_parameters(*e, subst, name),
        Ty::Tuple(ts) => {
            substitutions_take_their_parameters(ts, subst, name);
            parts_of_types(t, name);
            parts_of_types(Ty::Tuple(substitute_all(ts, subst)), name);
        },
        Ty::Ref(_, e) => substitution_takes_its_parameters(*e, subst, name),
        Ty::OptionTy(e) => substitution_takes_its_parameters(*e, subst, name),
        Ty::ResultTy(o, e) => {
            substitution_takes_its_parameters(*o, subst, name);
            substitution_takes_its_parameters(*e, subst, name);
        },
        Ty::Fn(ps, r) => {
            substitutions_take_their_parameters(ps, subst, name);
            substitution_takes_its_parameters(*r, subst, name);
            parts_of_types(t, name);
            parts_of_types(substitute(t, subst), name);
        },
        _ => {},
    }
}

proof fn substitutions_take_their_parameters(
    ts: Seq<Ty>,
    subst: Seq<(Seq<char>, Ty)>,
    name: Seq<char>,
)
    requires
        hold_none(subst),
    ensures
        any_has_param(substitute_all(ts, subst), name) <==> any_has_param(ts, name) && lookup(
            subst,
            name,
        ) is None,
    decreases ts,
{
    let all = substitute_all(ts, subst);
    assert forall|i: int|
        #![trigger ts[i]]
        #![trigger all[i]]
        0 <= i < ts.len() implies (has_param(all[i], name) <==> has_param(ts[i], name) && lookup(
        subst,
        name,
    ) is None) by {
        substitution_takes_its_parameters(ts[i], subst, name);
    }
    if any_has_param(ts, name) {
        let i = choose|i: int| 0 <= i < ts.len() && has_param(#[trigger] ts[i], name);
        assert(has_param(all[i], name) <==> lookup(subst, name) is None);
    }
}

/// Nothing changes in a type without the parameters that there is a type for.
pub proof fn substitution_changes_its_parameters_only(t: Ty, subst: Seq<(Seq<char>, Ty)>)
    requires
        forall|n: Seq<char>| lookup(subst, n) is Some ==> !#[trigger] has_param(t, n),
    ensures
        substitute(t, subst) == t,
    decreases t,
{
    match t {
        Ty::TypeParam(n) => {
            assert(has_param(t, n));
        },
        Ty::Array(e) => {
            assert forall|n: Seq<char>| lookup(subst, n) is Some implies !#[trigger] has_param(
                *e,
                n,
            ) by {
                assert(!has_param(t, n));
            }
            substitution_changes_its_parameters_only(*e, subst);
        },
        Ty::Tuple(ts) => {
            assert forall|i: int| 0 <= i < ts.len() implies substitute(#[trigger] ts[i], subst)
                == ts[i] by {
                assert forall|n: Seq<char>| lookup(subst, n) is Some implies !#[trigger] has_param(
                    ts[i],
                    n,
                ) by {
                    assert(!has_param(t, n));
                }
                substitution_changes_its_parameters_only(ts[i], subst);
            }
            assert(substitute_all(ts, subst) =~= ts);
        },
        Ty::Ref(_, e) => {
            assert forall|n: Seq<char>| lookup(subst, n) is Some implies !#[trigger] has_param(
                *e,
                n,
            ) by {
                assert(!has_param(t, n));
            }
            substitution_changes_its_parameters_only(*e, subst);
        },
        Ty::OptionTy(e) => {
            assert forall|n: Seq<char>| lookup(subst, n) is Some implies !#[trigger] has_param(
                *e,
                n,
            ) by {
                assert(!has_param(t, n));
            }
            substitution_changes_its_parameters_only(*e, subst);
        },
        Ty::ResultTy(o, e) => {
            assert forall|n: Seq<char>| lookup(subst, n) is Some implies !#[trigger] has_param(
                *o,
                n,
            ) && !has_param(*e, n) by {
                assert(!has_param(t, n));
            }
            assert forall|n: Seq<char>| lookup(subst, n) is Some implies !#[trigger] has_param(
                *e,
                n,
            ) by {
                assert(!has_param(t, n));
            }
            substitution_changes_its_parameters_only(*o, subst);
            substitution_changes_its_parameters_only(*e, subst);
        },
        Ty::Fn(ps, r) => {
            assert forall|i: int| 0 <= i < ps.len() implies substitute(#[trigger] ps[i], subst)
                == ps[i] by {
                assert forall|n: Seq<char>| lookup(subst, n) is Some implies !#[trigger] has_param(
                    ps[i],
                    n,
                ) by {
                    assert(!has_param(t, n));
                }
                substitution_changes_its_parameters_only(ps[i], subst);
            }
            assert(substitute_all(ps, subst) =~= ps);
            assert forall|n: Seq<char>| lookup(subst, n) is Some implies !#[trigger] has_param(
                *r,
                n,
            ) by {
                assert(!has_param(t, n));
            }
            substitution_changes_its_parameters_only(*r, subst);
        },
        _ => {},
    }
}

/// To substitute once more changes nothing.
pub proof fn substitution_is_done_at_once(t: Ty, subst: Seq<(Seq<char>, Ty)>)
    requires
        hold_none(subst),
    ensures
        substitute(substitute(t, subst), subst) == substitute(t, subst),
{
    let once = substitute(t, subst);
    assert forall|n: Seq<char>| lookup(subst, n) is Some implies !#[trigger] has_param(
        once,
        n,
    ) by {
        substitution_takes_its_parameters(t, subst, n);
    }
    substitution_changes_its_parameters_only(once, subst);
}

/// Whether a name stands in a type where it can be marked.
pub open spec fn has_name(t: Ty, name: Seq<char>) -> bool
    decreases t,
{
    match t {
        Ty::Named(n) => n == name,
        Ty::Array(e) => has_name(*e, name),
        Ty::Tuple(ts) => exists|i: int| 0 <= i < ts.len() && has_name(#[trigger] ts[i], name),
        Ty::Ref(_, e) => has_name(*e, name),
        Ty::OptionTy(e) => has_name(*e, name),
        Ty::ResultTy(o, e) => has_name(*o, name) || has_name(*e, name),
        Ty::Fn(ps, r) => has_name(*r, name) || exists|i: int|
            0 <= i < ps.len() && has_name(#[trigger] ps[i], name),
        _ => false,
    }
}

/// Marking turns the names that it is given into type parameters, and no others: none of
/// them is left as a name, and every parameter was one before or such a name.
pub proof fn marking_takes_its_names(t: Ty, names: Seq<Seq<char>>, name: Seq<char>)
    ensures
        has_name(mark(t, names), name) <==> has_name(t, name) && !names.contains(name),
        has_param(mark(t, names), name) <==> has_param(t, name) || (has_name(t, name)
            && names.contains(name)),
    decreases t,
{
    match t {
        Ty::Array(e) => marking_takes_its_names(*e, names, name),
        Ty::Tuple(ts) => {
            let all = mark_all(ts, names);
            markings_take_their_names(ts, names, name);
            parts_of_types(t, name);
            parts_of_types(Ty::Tuple(all), name);
        },
        Ty::Ref(_, e) => marking_takes_its_names(*e, names, name),
        Ty::OptionTy(e) => marking_takes_its_names(*e, names, name),
        Ty::ResultTy(o, e) => {
            marking_takes_its_names(*o, names, name);
            marking_takes_its_names(*e, names, name);
        },
        Ty::Fn(ps, r) => {
            let all = mark_all(ps, names);
            markings_take_their_names(ps, names, name);
            marking_takes_its_names(*r, names, name);
            parts_of_types(t, name);
            parts_of_types(mark(t, names), name);
        },
        _ => {},
    }
}

proof fn markings_take_their_names(ts: Seq<Ty>, names: Seq<Seq<char>>, name: Seq<char>)
    ensures
        any_has_name(mark_all(ts, names), name) <==> any_has_name(ts, name) && !names.contains(
            name,
        ),
        any_has_param(mark_all(ts, names), name) <==> any_has_param(ts, name) || (any_has_name(
            ts,
            name,
        ) && names.contains(name)),
    decreases ts,
{
    let all = mark_all(ts, names);
    assert forall|i: int|
        #![trigger ts[i]]
        #![trigger all[i]]
        0 <= i < ts.len() implies {
        &&& has_name(all[i], name) <==> has_name(ts[i], name) && !names.contains(name)
        &&& has_param(all[i], name) <==> has_param(ts[i], name) || (has_name(ts[i], name)
            && names.contains(name))
    } by {
        marking_takes_its_names(ts[i], names, name);
    }
    if any_has_name(ts, name) {
        let i = choose|i: int| 0 <= i < ts.len() && has_name(#[trigger] ts[i], name);
        assert(has_name(all[i], name) || has_param(all[i], name));
    }
    if any_has_param(ts, name) {
        let i = choose|i: int| 0 <= i < ts.len() && has_param(#[trigger] ts[i], name);
        assert(has_param(all[i], name));
    }
}

/// To mark once more changes nothing.
pub proof fn marking_is_done_at_once(t: Ty, names: Seq<Seq<char>>)
    ensures
        mark(mark(t, names), names) == mark(t, names),
    decreases t,
{
    match t {
        Ty::Array(e) => marking_is_done_at_once(*e, names),
        Ty::Tuple(ts) => {
            let all = mark_all(ts, names);
            assert forall|i: int| 0 <= i < ts.len() implies mark(#[trigger] all[i], names)
                == all[i] by {
                marking_is_done_at_once(ts[i], names);
            }
            assert(mark_all(all, names) =~= all);
        },
        Ty::Ref(_, e) => marking_is_done_at_once(*e, names),
        Ty::OptionTy(e) => marking_is_done_at_once(*e, names),
        Ty::ResultTy(o, e) => {
            marking_is_done_at_once(*o, names);
            marking_is_done_at_once(*e, names);
        },
        Ty::Fn(ps, r) => {
            let all = mark_all(ps, names);
            assert forall|i: int| 0 <= i < ps.len() implies mark(#[trigger] all[i], names)
                == all[i] by {
                marking_is_done_at_once(ps[i], names);
            }
            assert(mark_all(all, names) =~= all);
            marking_is_done_at_once(*r, names);
        },
        _ => {},
    }
}

/// Marking changes nothing else: with the names put back for the parameters the type is
/// what it was.
pub proof fn marking_can_be_undone(t: Ty, names: Seq<Seq<char>>, subst: Seq<(Seq<char>, Ty)>)
    requires
        !holds_param(t),
        forall|n: Seq<char>|
            names.contains(n) ==> #[trigger] lookup(subst, n) == Some(Ty::Named(n)),
    ensures
        substitute(mark(t, names), subst) == t,
    decreases t,
{
    match t {
        Ty::Array(e) => marking_can_be_undone(*e, names, subst),
        Ty::Tuple(ts) => {
            let all = mark_all(ts, names);
            assert forall|i: int| 0 <= i < ts.len() implies substitute(#[trigger] all[i], subst)
                == ts[i] by {
                assert(!holds_param(ts[i]));
                marking_can_be_undone(ts[i], names, subst);
            }
            assert(substitute_all(all, subst) =~= ts);
        },
        Ty::Ref(_, e) => marking_can_be_undone(*e, names, subst),
        Ty::OptionTy(e) => marking_can_be_undone(*e, names, subst),
        Ty::ResultTy(o, e) => {
            marking_can_be_undone(*o, names, subst);
            marking_can_be_undone(*e, names, subst);
        },
        Ty::Fn(ps, r) => {
            let all = mark_all(ps, names);
            assert forall|i: int| 0 <= i < ps.len() implies substitute(#[trigger] all[i], subst)
                == ps[i] by {
                assert(!holds_param(ps[i]));
                marking_can_be_undone(ps[i], names, subst);
            }
            assert(substitute_all(all, subst) =~= ps);
            marking_can_be_undone(*r, names, subst);
        },
        _ => {},
    }
}

/// Whether a type is another one or stands inside it.
pub open spec fn inside(x: Ty, t: Ty) -> bool
    decreases t,
{
    x == t || match t {
        Ty::Array(e) => inside(x, *e),
        Ty::Tuple(ts) => exists|i: int| 0 <= i < ts.len() && inside(x, #[trigger] ts[i]),
        Ty::Ref(_, e) => inside(x, *e),
        Ty::OptionTy(e) => inside(x, *e),
        Ty::ResultTy(o, e) => inside(x, *o) || inside(x, *e),
        Ty::Fn(ps, r) => inside(x, *r) || exists|i: int|
            0 <= i < ps.len() && inside(x, #[trigger] ps[i]),
        _ => false,
    }
}

/// Inference binds only parameters that occur, each to the argument's type or to one that
/// stands inside it.
pub proof fn inference_binds_parts(p: Ty, a: Ty, out: Seq<(Seq<char>, Ty)>, name: Seq<char>)
    requires
        lookup(out, name) is None,
        lookup(unify(p, a, out), name) is Some,
    ensures
        has_param(p, name),
        inside(lookup(unify(p, a, out), name)->0, a),
    decreases p, 0nat,
{
    match (p, a) {
        (Ty::TypeParam(n), _) => {
            put_then_lookup(out, n, a, name);
        },
        (Ty::Array(x), Ty::Array(y)) => inference_binds_parts(*x, *y, out, name),
        (Ty::Ref(_, x), Ty::Ref(_, y)) => inference_binds_parts(*x, *y, out, name),
        (Ty::Tuple(xs), Ty::Tuple(ys)) => {
            if xs.len() == ys.len() {
                let i = inferences_bind_parts(xs, ys, xs.len(), out, name);
                assert(has_param(xs[i], name));
                assert(inside(lookup(unify(p, a, out), name)->0, ys[i]));
            }
        },
        _ => {},
    }
}

proof fn inferences_bind_parts(
    ps: Seq<Ty>,
    xs: Seq<Ty>,
    n: nat,
    out: Seq<(Seq<char>, Ty)>,
    name: Seq<char>,
) -> (i: int)
    requires
        lookup(out, name) is None,
        lookup(unify_all(ps, xs, n, out), name) is Some,
    ensures
        0 <= i < n,
        n <= ps.len(),
        n <= xs.len(),
        has_param(ps[i], name),
        inside(lookup(unify_all(ps, xs, n, out), name)->0, xs[i]),
    decreases ps, n,
{
    let before = unify_all(ps, xs, (n - 1) as nat, out);
    if lookup(before, name) is Some {
        first_inference_stays(ps[n - 1], xs[n - 1], before, name);
        inferences_bind_parts(ps, xs, (n - 1) as nat, out, name)
    } else {
        inference_binds_parts(ps[n - 1], xs[n - 1], before, name);
        n - 1
    }
}

/// Where no parameter occurs, nothing is inferred.
pub proof fn nothing_to_infer(p: Ty, a: Ty, out: Seq<(Seq<char>, Ty)>)
    requires
        !holds_param(p),
    ensures
        unify(p, a, out) == out,
    decreases p, 0nat,
{
    match (p, a) {
        (Ty::Array(x), Ty::Array(y)) => nothing_to_infer(*x, *y, out),
        (Ty::Ref(_, x), Ty::Ref(_, y)) => nothing_to_infer(*x, *y, out),
        (Ty::Tuple(xs), Ty::Tuple(ys)) => {
            if xs.len() == ys.len() {
                assert forall|i: int| 0 <= i < xs.len() implies !holds_param(#[trigger] xs[i]) by {
                    assert(!holds_param(p));
                }
                nothing_to_infer_in_all(xs, ys, xs.len(), out);
            }
        },
        _ => {},
    }
}

proof fn nothing_to_infer_in_all(
    ps: Seq<Ty>,
    xs: Seq<Ty>,
    n: nat,
    out: Seq<(Seq<char>, Ty)>,
)
    requires
        forall|i: int| 0 <= i < ps.len() ==> !holds_param(#[trigger] ps[i]),
    ensures
        unify_all(ps, xs, n, out) == out,
    decreases ps, n,
{
    if n == 0 || n > ps.len() || n > xs.len() {
    } else {
        nothing_to_infer_in_all(ps, xs, (n - 1) as nat, out);
        nothing_to_infer(ps[n - 1], xs[n - 1], out);
    }
}

} // verus!
