//! What is found in a piece of a body, told by what is found in its parts.
use crate::ast::{AssignOp, BinaryOp, UnaryOp};
use crate::tree::{Block, ClosureBody, ClosureExpr, Expr, Literal, MatchArm, Type};
use crate::types::checks::{
    alike, arm, behind_ref, block, closure_locals, element_expected, enter, excused, expr,
    expr_inner, full_type, item_expected, local, op_name, or_unit, part, right_expected, told,
    told_block, told_found, unary, Found, Locals, MaybeFound, Scope,
};
use crate::types::growth::{arm_grows, block_grows, full_type_grows, part_grows};
use crate::types::model::{ty_text, Problem, Ty};
use crate::types::params::{inside, without_params_there_are_none};
use crate::types::rules::{holds_param, is_float, is_integer, is_numeric};
use vstd::prelude::*;

verus! {

/// What is found in an expression on its own, where some type may be expected of it.
pub open spec fn alone(c: Scope, env: Locals, e: Expr, expected: Option<Ty>) -> Found {
    part(c, env, e, expected, seq![])
}

/// What is found in a block on its own.
pub open spec fn block_alone(c: Scope, env: Locals, b: Block, expected: Option<Ty>) -> MaybeFound {
    block(c, env, b, expected, seq![])
}

/// What is found in an arm of a `match` on its own.
pub open spec fn arm_alone(c: Scope, env: Locals, a: MatchArm, expected: Option<Ty>) -> Found {
    arm(c, env, a, expected, seq![])
}

/// The problems, with one more where something is wrong.
pub open spec fn noted(
    c: Scope,
    errs: Seq<Problem>,
    wrong: bool,
    message: Seq<char>,
) -> Seq<Problem> {
    if wrong {
        errs.push(Problem { message, context: c.name })
    } else {
        errs
    }
}

/// The problems of the first `n` of some pieces, one piece after the other.
pub open spec fn run(f: spec_fn(int) -> Seq<Problem>, n: nat) -> Seq<Problem>
    decreases n,
{
    if n == 0 {
        seq![]
    } else {
        run(f, (n - 1) as nat) + f(n - 1)
    }
}

/// What is found in each of some pieces is found in all of them.
pub proof fn each_is_in_the_run(f: spec_fn(int) -> Seq<Problem>, n: nat, i: int, k: int)
    requires
        0 <= i < n,
        0 <= k < f(i).len(),
    ensures
        run(f, n).contains(f(i)[k]),
    decreases n,
{
    let before = run(f, (n - 1) as nat);
    if i == n - 1 {
        assert(run(f, n)[before.len() + k] == f(i)[k]);
    } else {
        each_is_in_the_run(f, (n - 1) as nat, i, k);
        let j = choose|j: int| 0 <= j < before.len() && before[j] == f(i)[k];
        assert(run(f, n)[j] == f(i)[k]);
    }
}

/// An expression is checked alike wherever it stands: what is found in it comes behind what
/// was found before. On its own it is found to have the same problems.
pub proof fn found_alike(c: Scope, env: Locals, e: Expr, expected: Option<Ty>, errs: Seq<Problem>)
    ensures
        part(c, env, e, expected, errs) == (Found {
            ty: alone(c, env, e, expected).ty,
            errs: errs + alone(c, env, e, expected).errs,
        }),
        expr(c, env, e, expected, errs).errs == errs + alone(c, env, e, expected).errs,
{
    part_grows(c, env, e, expected, seq![], errs);
    assert(errs + Seq::<Problem>::empty() =~= errs);
}

/// A block is checked alike wherever it stands.
pub proof fn block_found_alike(
    c: Scope,
    env: Locals,
    b: Block,
    expected: Option<Ty>,
    errs: Seq<Problem>,
)
    ensures
        block(c, env, b, expected, errs) == (MaybeFound {
            ty: block_alone(c, env, b, expected).ty,
            errs: errs + block_alone(c, env, b, expected).errs,
        }),
{
    block_grows(c, env, b, expected, seq![], errs);
    assert(errs + Seq::<Problem>::empty() =~= errs);
}

pub proof fn arm_found_alike(
    c: Scope,
    env: Locals,
    a: MatchArm,
    expected: Option<Ty>,
    errs: Seq<Problem>,
)
    ensures
        arm(c, env, a, expected, errs) == (Found {
            ty: arm_alone(c, env, a, expected).ty,
            errs: errs + arm_alone(c, env, a, expected).errs,
        }),
{
    arm_grows(c, env, a, expected, seq![], errs);
    assert(errs + Seq::<Problem>::empty() =~= errs);
}

pub proof fn type_found_alike(c: Scope, t: Type, errs: Seq<Problem>)
    ensures
        full_type(c, t, errs) == (Found {
            ty: full_type(c, t, seq![]).ty,
            errs: errs + full_type(c, t, seq![]).errs,
        }),
{
    full_type_grows(c, t, seq![], errs);
    assert(errs + Seq::<Problem>::empty() =~= errs);
}

/// Where nothing is expected nothing is held against it; where a type is, one problem more
/// says so, unless the types are alike. Only `null`, and a number where the type is still
/// open, are not held against it.
pub proof fn expectations_are_held(
    c: Scope,
    env: Locals,
    e: Expr,
    t: Ty,
    errs: Seq<Problem>,
)
    ensures
        part(c, env, e, None, errs) == expr_inner(c, env, e, None, errs),
        ({
            let found = expr_inner(c, env, e, Some(t), errs);
            let whole = part(c, env, e, Some(t), errs);
            let free = e == Expr::Literal(Literal::Null) || excused(c, e, Some(t));
            &&& free ==> whole == found
            &&& !free && alike(found.ty, t) ==> whole == (Found { ty: t, errs: found.errs })
            &&& !free && !alike(found.ty, t) ==> whole.ty == found.ty && whole.errs.len()
                == found.errs.len() + 1 && found.errs.is_prefix_of(whole.errs)
        }),
{
}

/// Types without type parameters are alike only where they are equal.
pub proof fn alike_types_are_equal(a: Ty, b: Ty)
    requires
        !holds_param(a),
        !holds_param(b),
    ensures
        alike(a, b) <==> a == b,
{
    without_params_there_are_none(a);
    without_params_there_are_none(b);
}

/// A whole expression is found as its parts say, with no type parameter of a declaration in
/// its type, unless that is the type expected.
pub proof fn whole_expressions(
    c: Scope,
    env: Locals,
    e: Expr,
    expected: Option<Ty>,
    errs: Seq<Problem>,
)
    ensures
        expr(c, env, e, expected, errs).errs == part(c, env, e, expected, errs).errs,
        expr(c, env, e, expected, errs).ty == part(c, env, e, expected, errs).ty || !holds_param(
            expr(c, env, e, expected, errs).ty,
        ),
        !holds_param(part(c, env, e, expected, errs).ty) ==> expr(c, env, e, expected, errs)
            == part(c, env, e, expected, errs),
{
    without_params_there_are_none(part(c, env, e, expected, errs).ty);
}

/// Only a number is ever told less than the type expected of it, and that only where it cannot
/// be of that type: a whole number is any numeric type, one with a point a floating one.
pub proof fn what_parts_are_told(e: Expr, t: Ty, b: Block, l: Literal)
    ensures
        told(e, None) is None,
        !(e is Literal) ==> told(e, Some(t)) == Some(t) && told_found(e, t) == Some(t),
        ({
            let whole = l is Int || l is IntHex || l is IntOct || l is IntBin;
            let number = Expr::Literal(l);
            &&& whole ==> told(number, Some(t)) == (if is_numeric(t) {
                Some(t)
            } else {
                None
            })
            &&& l is Float ==> told(number, Some(t)) == (if is_float(t) {
                Some(t)
            } else {
                None
            })
            &&& !whole && !(l is Float)
                ==> told(number, Some(t)) == Some(t) && told_found(number, t)
                == Some(t)
            &&& whole || l is Float ==> told_found(number, t) == (if t is Unit {
                None
            } else {
                Some(t)
            })
        }),
        b.tail is None ==> told_block(b, Some(t)) == Some(t),
        b.tail is Some ==> told_block(b, Some(t)) == told(*b.tail->0, Some(t)),
{
}

/// What is expected of a reference, an array or a tuple is expected of its parts, and of
/// anything else nothing is.
pub proof fn what_is_expected_of_parts(t: Ty, n: nat, i: int)
    ensures
        match t {
            Ty::Ref(_, inner) => behind_ref(Some(t)) == Some(*inner),
            _ => behind_ref(Some(t)) is None,
        },
        match t {
            Ty::Array(inner) => element_expected(Some(t)) == Some(*inner),
            _ => element_expected(Some(t)) is None,
        },
        match t {
            Ty::Tuple(ts) => item_expected(Some(t), n, i) == (if ts.len() == n {
                Some(ts[i])
            } else {
                None
            }),
            _ => item_expected(Some(t), n, i) is None,
        },
        behind_ref(None) is None,
        element_expected(None) is None,
        item_expected(None, n, i) is None,
        t is Generic ==> right_expected(t) is None,
        !(t is Generic) ==> right_expected(t) == Some(t),
        or_unit(Some(t)) == t,
        or_unit(None) == Ty::Unit,
{
}

/// Each literal is of the type that its spelling says; a number takes the type expected where
/// it can.
pub proof fn literals(c: Scope, env: Locals, l: Literal, t: Ty, errs: Seq<Problem>)
    ensures
        ({
            let e = Expr::Literal(l);
            let free = expr_inner(c, env, e, None, errs);
            let asked = expr_inner(c, env, e, Some(t), errs);
            let whole = l is Int || l is IntHex || l is IntOct || l is IntBin;
            &&& free.errs == errs
            &&& whole ==> free.ty is I32 && asked == (Found {
                ty: if is_numeric(t) {
                    t
                } else {
                    Ty::I32
                },
                errs,
            })
            &&& l is Float ==> free.ty is F64 && asked == (Found {
                ty: if is_float(t) {
                    t
                } else {
                    Ty::F64
                },
                errs,
            })
            &&& l is Str || l is RawStr ==> free.ty is StringTy && asked == free
            &&& l is Char ==> free.ty is Char && asked == free
            &&& l is Bool ==> free.ty is Bool && asked == free
            &&& l is Null ==> free.ty is Null && asked.ty is Null
        }),
{
}

/// The twelve integer types and the two floating ones are the numeric types.
pub proof fn numeric_types(t: Ty)
    ensures
        is_float(t) <==> t is F32 || t is F64,
        t is I8 || t is I16 || t is I32 || t is I64 || t is I128 || t is Isize ==> is_integer(t),
        t is U8 || t is U16 || t is U32 || t is U64 || t is U128 || t is Usize ==> is_integer(t),
        t is Bool || t is Char || t is StringTy || t is Str || t is Unit || t is Never || t is Null
            ==> !is_numeric(t),
        t is Array || t is Tuple || t is Ref || t is Named || t is Generic || t is TypeParam
            ==> !is_numeric(t),
        t is DynTrait || t is OptionTy || t is ResultTy || t is Fn ==> !is_numeric(t),
        is_numeric(t) <==> is_integer(t) || is_float(t),
        !(is_integer(t) && is_float(t)),
{
}

/// A name has the type that it is bound to; an unbound one is a problem.
pub proof fn names(
    c: Scope,
    env: Locals,
    name: Seq<char>,
    expected: Option<Ty>,
    errs: Seq<Problem>,
)
    ensures
        match local(env, name) {
            Some(t) => expr_inner(c, env, Expr::Ident(name), expected, errs) == (Found {
                ty: t,
                errs,
            }),
            None => expr_inner(c, env, Expr::Ident(name), expected, errs) == (Found {
                ty: or_unit(expected),
                errs: noted(c, errs, true, "undefined variable `"@ + name + "`"@),
            }),
        },
{
}

/// Parentheses change nothing.
pub proof fn parentheses(
    c: Scope,
    env: Locals,
    inner: Expr,
    expected: Option<Ty>,
    errs: Seq<Problem>,
)
    ensures
        ({
            let a = alone(c, env, inner, told(inner, expected));
            expr_inner(c, env, Expr::Paren(Box::new(inner)), expected, errs) == (Found {
                ty: a.ty,
                errs: errs + a.errs,
            })
        }),
{
    found_alike(c, env, inner, told(inner, expected), errs);
}

/// `e?` is of the type of `e`.
pub proof fn propagated(
    c: Scope,
    env: Locals,
    inner: Expr,
    expected: Option<Ty>,
    errs: Seq<Problem>,
)
    ensures
        ({
            let a = alone(c, env, inner, None);
            expr_inner(c, env, Expr::Propagate(Box::new(inner)), expected, errs) == (Found {
                ty: a.ty,
                errs: errs + a.errs,
            })
        }),
{
    found_alike(c, env, inner, None, errs);
}

/// What is awaited is looked at; the type is the one expected.
pub proof fn awaited(
    c: Scope,
    env: Locals,
    inner: Expr,
    expected: Option<Ty>,
    errs: Seq<Problem>,
)
    ensures
        ({
            let a = alone(c, env, inner, None);
            expr_inner(c, env, Expr::Await(Box::new(inner)), expected, errs) == (Found {
                ty: or_unit(expected),
                errs: errs + a.errs,
            })
        }),
{
    found_alike(c, env, inner, None, errs);
}

/// What is thrown is looked at; the type is the one expected.
pub proof fn thrown(
    c: Scope,
    env: Locals,
    inner: Expr,
    expected: Option<Ty>,
    errs: Seq<Problem>,
)
    ensures
        ({
            let a = alone(c, env, inner, None);
            expr_inner(c, env, Expr::Throw(Box::new(inner)), expected, errs) == (Found {
                ty: or_unit(expected),
                errs: errs + a.errs,
            })
        }),
{
    found_alike(c, env, inner, None, errs);
}

/// What is returned is looked at, and nothing comes of a `return`.
pub proof fn returned(
    c: Scope,
    env: Locals,
    inner: Expr,
    expected: Option<Ty>,
    errs: Seq<Problem>,
)
    ensures
        ({
            let a = alone(c, env, inner, None);
            expr_inner(c, env, Expr::Return(Some(Box::new(inner))), expected, errs) == (Found {
                ty: Ty::Never,
                errs: errs + a.errs,
            })
        }),
{
    found_alike(c, env, inner, None, errs);
}

/// What is yielded is looked at.
pub proof fn yielded(
    c: Scope,
    env: Locals,
    inner: Expr,
    expected: Option<Ty>,
    errs: Seq<Problem>,
)
    ensures
        ({
            let a = alone(c, env, inner, None);
            expr_inner(c, env, Expr::Yield(Box::new(inner)), expected, errs) == (Found {
                ty: Ty::Unit,
                errs: errs + a.errs,
            })
        }),
{
    found_alike(c, env, inner, None, errs);
}

/// A borrow of `e` is a reference to what `e` is, mutable where it says so.
pub proof fn borrowed(
    c: Scope,
    env: Locals,
    inner: Expr,
    mutable: bool,
    expected: Option<Ty>,
    errs: Seq<Problem>,
)
    ensures
        ({
            let a = alone(c, env, inner, told(inner, behind_ref(expected)));
            expr_inner(c, env, Expr::Borrow { mutable, expr: Box::new(inner) }, expected, errs)
                == (Found {
                ty: Ty::Ref(mutable, Box::new(a.ty)),
                errs: errs + a.errs,
            })
        }),
{
    found_alike(c, env, inner, told(inner, behind_ref(expected)), errs);
}

/// `!e` is a condition and takes one.
pub proof fn negated(
    c: Scope,
    env: Locals,
    inner: Expr,
    expected: Option<Ty>,
    errs: Seq<Problem>,
)
    ensures
        ({
            let a = alone(c, env, inner, told(inner, expected));
            expr_inner(
                c,
                env,
                Expr::Unary { op: UnaryOp::Not, expr: Box::new(inner) },
                expected,
                errs,
            )
                == (Found {
                ty: Ty::Bool,
                errs: noted(
                    c,
                    errs + a.errs,
                    !(a.ty is Bool),
                    "`!` requires `bool`, found `"@ + ty_text(a.ty) + "`"@,
                ),
            })
        }),
{
    found_alike(c, env, inner, told(inner, expected), errs);
}

/// `-e` is of the type of `e`, which has to be numeric.
pub proof fn negative_of(
    c: Scope,
    env: Locals,
    inner: Expr,
    expected: Option<Ty>,
    errs: Seq<Problem>,
)
    ensures
        ({
            let a = alone(c, env, inner, told(inner, expected));
            expr_inner(
                c,
                env,
                Expr::Unary { op: UnaryOp::Neg, expr: Box::new(inner) },
                expected,
                errs,
            )
                == (Found {
                ty: a.ty,
                errs: noted(
                    c,
                    errs + a.errs,
                    !is_numeric(a.ty),
                    "unary `-` requires a numeric type, found `"@ + ty_text(a.ty) + "`"@,
                ),
            })
        }),
{
    found_alike(c, env, inner, told(inner, expected), errs);
}

/// `~e` is of the type of `e`.
pub proof fn bits_turned(
    c: Scope,
    env: Locals,
    inner: Expr,
    expected: Option<Ty>,
    errs: Seq<Problem>,
)
    ensures
        ({
            let a = alone(c, env, inner, told(inner, expected));
            expr_inner(
                c,
                env,
                Expr::Unary { op: UnaryOp::BitNot, expr: Box::new(inner) },
                expected,
                errs,
            )
                == (Found {
                ty: a.ty,
                errs: errs + a.errs,
            })
        }),
{
    found_alike(c, env, inner, told(inner, expected), errs);
}

/// A `return` without a value has nothing to look at, and nothing comes of it.
pub proof fn nothing_returned(
    c: Scope,
    env: Locals,
    expected: Option<Ty>,
    errs: Seq<Problem>,
)
    ensures
        expr_inner(c, env, Expr::Return(None), expected, errs) == (Found { ty: Ty::Never, errs }),
{
}

/// `e as T` is of the type `T`, and both `e` and `T` are looked at.
pub proof fn casts(
    c: Scope,
    env: Locals,
    inner: Expr,
    ty: Type,
    expected: Option<Ty>,
    errs: Seq<Problem>,
)
    ensures
        ({
            let a = alone(c, env, inner, None);
            let b = full_type(c, ty, seq![]);
            expr_inner(
                c,
                env,
                Expr::Cast { expr: Box::new(inner), ty: Box::new(ty) },
                expected,
                errs,
            ) == (Found { ty: b.ty, errs: errs + a.errs + b.errs })
        }),
{
    found_alike(c, env, inner, None, errs);
    type_found_alike(c, ty, errs + alone(c, env, inner, None).errs);
}

/// Both sides of an assignment are looked at, and nothing comes of it.
pub proof fn assignments(
    c: Scope,
    env: Locals,
    lhs: Expr,
    rhs: Expr,
    op: AssignOp,
    expected: Option<Ty>,
    errs: Seq<Problem>,
)
    ensures
        ({
            let a = alone(c, env, lhs, None);
            let b = alone(c, env, rhs, told_found(rhs, a.ty));
            expr_inner(
                c,
                env,
                Expr::Assign { op, lhs: Box::new(lhs), rhs: Box::new(rhs) },
                expected,
                errs,
            )
                == (Found {
                ty: Ty::Unit,
                errs: errs + a.errs + b.errs,
            })
        }),
{
    let a = alone(c, env, lhs, None);
    let b = alone(c, env, rhs, told_found(rhs, a.ty));
    found_alike(c, env, lhs, None, errs);
    found_alike(c, env, rhs, told_found(rhs, a.ty), errs + a.errs);
}

/// Both ends of a range are looked at; it is of the type of its lower one.
pub proof fn ranges(
    c: Scope,
    env: Locals,
    lhs: Expr,
    rhs: Expr,
    inclusive: bool,
    expected: Option<Ty>,
    errs: Seq<Problem>,
)
    ensures
        ({
            let a = alone(c, env, lhs, None);
            let b = alone(c, env, rhs, told_found(rhs, a.ty));
            expr_inner(
                c,
                env,
                Expr::Range { lo: Box::new(lhs), hi: Box::new(rhs), inclusive },
                expected,
                errs,
            )
                == (Found {
                ty: a.ty,
                errs: errs + a.errs + b.errs,
            })
        }),
{
    let a = alone(c, env, lhs, None);
    let b = alone(c, env, rhs, told_found(rhs, a.ty));
    found_alike(c, env, lhs, None, errs);
    found_alike(c, env, rhs, told_found(rhs, a.ty), errs + a.errs);
}

/// Both operands of a comparison are looked at. They have to be of one type, and a condition
/// comes of them.
pub proof fn comparisons(
    c: Scope,
    env: Locals,
    lhs: Expr,
    rhs: Expr,
    op: BinaryOp,
    expected: Option<Ty>,
    errs: Seq<Problem>,
)
    requires
        op is EqEq || op is NotEq || op is Lt || op is Gt || op is LtEq || op is GtEq,
    ensures
        ({
            let a = alone(c, env, lhs, None);
            let b = alone(c, env, rhs, told(rhs, right_expected(a.ty)));
            expr_inner(
                c,
                env,
                Expr::Binary { op, lhs: Box::new(lhs), rhs: Box::new(rhs) },
                expected,
                errs,
            )
                == (Found {
                ty: Ty::Bool,
                errs: noted(
                    c,
                    errs + a.errs + b.errs,
                    a.ty != b.ty,
                    "comparison between mismatched types `"@ + ty_text(a.ty) + "` and `"@
                        + ty_text(b.ty) + "` (Document 5 §6)"@,
                ),
            })
        }),
{
    let a = alone(c, env, lhs, None);
    let b = alone(c, env, rhs, told(rhs, right_expected(a.ty)));
    found_alike(c, env, lhs, None, errs);
    found_alike(c, env, rhs, told(rhs, right_expected(a.ty)), errs + a.errs);
}

/// Both operands of an operator on values are looked at. They have to be of one type, which is
/// that of the whole.
pub proof fn sums_and_the_like(
    c: Scope,
    env: Locals,
    lhs: Expr,
    rhs: Expr,
    op: BinaryOp,
    expected: Option<Ty>,
    errs: Seq<Problem>,
)
    requires
        op is Add || op is Sub || op is Div || op is Mod || op is Pow || op is BitAnd || op is BitOr
            || op is BitXor || op is Shl || op is Shr || (op is Mul && !(alone(
            c,
            env,
            lhs,
            None,
        ).ty is Generic)),
    ensures
        ({
            let a = alone(c, env, lhs, None);
            let b = alone(c, env, rhs, told(rhs, right_expected(a.ty)));
            expr_inner(
                c,
                env,
                Expr::Binary { op, lhs: Box::new(lhs), rhs: Box::new(rhs) },
                expected,
                errs,
            )
                == (Found {
                ty: a.ty,
                errs: noted(
                    c,
                    errs + a.errs + b.errs,
                    a.ty != b.ty,
                    "`"@ + op_name(op) + "`: mismatched types `"@ + ty_text(a.ty) + "` and `"@
                        + ty_text(b.ty) + "` (Document 5 §6: no implicit coercion, use `as`)"@,
                ),
            })
        }),
{
    let a = alone(c, env, lhs, None);
    let b = alone(c, env, rhs, told(rhs, right_expected(a.ty)));
    found_alike(c, env, lhs, None, errs);
    found_alike(c, env, rhs, told(rhs, right_expected(a.ty)), errs + a.errs);
}

/// Both operands of `&&` and of `||` are looked at and have to be conditions; one comes of
/// them.
pub proof fn conditions_joined(
    c: Scope,
    env: Locals,
    lhs: Expr,
    rhs: Expr,
    op: BinaryOp,
    expected: Option<Ty>,
    errs: Seq<Problem>,
)
    requires
        op is AndAnd || op is OrOr,
    ensures
        ({
            let a = alone(c, env, lhs, None);
            let b = alone(c, env, rhs, told(rhs, right_expected(a.ty)));
            expr_inner(
                c,
                env,
                Expr::Binary { op, lhs: Box::new(lhs), rhs: Box::new(rhs) },
                expected,
                errs,
            )
                == (Found {
                ty: Ty::Bool,
                errs: noted(
                    c,
                    noted(
                        c,
                        errs + a.errs + b.errs,
                        !(a.ty is Bool),
                        "`&&`/`||` requires `bool`, found `"@ + ty_text(a.ty) + "`"@,
                    ),
                    !(b.ty is Bool),
                    "`&&`/`||` requires `bool`, found `"@ + ty_text(b.ty) + "`"@,
                ),
            })
        }),
{
    let a = alone(c, env, lhs, None);
    let b = alone(c, env, rhs, told(rhs, right_expected(a.ty)));
    found_alike(c, env, lhs, None, errs);
    found_alike(c, env, rhs, told(rhs, right_expected(a.ty)), errs + a.errs);
}

/// Both operands of `??` are looked at; what comes of them is what the option on the left
/// holds.
pub proof fn coalesced(
    c: Scope,
    env: Locals,
    lhs: Expr,
    rhs: Expr,
    expected: Option<Ty>,
    errs: Seq<Problem>,
)
    ensures
        ({
            let a = alone(c, env, lhs, None);
            let b = alone(c, env, rhs, told(rhs, right_expected(a.ty)));
            expr_inner(
                c,
                env,
                Expr::Binary { op: BinaryOp::Coalesce, lhs: Box::new(lhs), rhs: Box::new(rhs) },
                expected,
                errs,
            )
                == (Found {
                ty: match a.ty {
                    Ty::OptionTy(t) => *t,
                    _ => a.ty,
                },
                errs: errs + a.errs + b.errs,
            })
        }),
{
    let a = alone(c, env, lhs, None);
    let b = alone(c, env, rhs, told(rhs, right_expected(a.ty)));
    found_alike(c, env, lhs, None, errs);
    found_alike(c, env, rhs, told(rhs, right_expected(a.ty)), errs + a.errs);
}

/// Of `e[i]` both are looked at. The type is that of the elements, and only an array has any.
pub proof fn indexed(
    c: Scope,
    env: Locals,
    lhs: Expr,
    rhs: Expr,
    expected: Option<Ty>,
    errs: Seq<Problem>,
)
    ensures
        ({
            let a = alone(c, env, lhs, None);
            let b = alone(c, env, rhs, None);
            expr_inner(
                c,
                env,
                Expr::Index { expr: Box::new(lhs), index: Box::new(rhs) },
                expected,
                errs,
            )
                == (Found {
                ty: match a.ty {
                    Ty::Array(t) => *t,
                    _ => Ty::Unit,
                },
                errs: noted(
                    c,
                    errs + a.errs + b.errs,
                    !(a.ty is Array),
                    "cannot index into type `"@ + ty_text(a.ty) + "`"@,
                ),
            })
        }),
{
    let a = alone(c, env, lhs, None);
    let b = alone(c, env, rhs, None);
    found_alike(c, env, lhs, None, errs);
    found_alike(c, env, rhs, None, errs + a.errs);
}

/// A block is of the type of the expression that ends it, marked unsafe or not.
pub proof fn blocks(
    c: Scope,
    env: Locals,
    b: Block,
    expected: Option<Ty>,
    errs: Seq<Problem>,
)
    ensures
        ({
            let a = block_alone(c, env, b, told_block(b, expected));
            let whole = Found { ty: or_unit(a.ty), errs: errs + a.errs };
            &&& expr_inner(c, env, Expr::Block(Box::new(b)), expected, errs) == whole
            &&& expr_inner(c, env, Expr::Unsafe(Box::new(b)), expected, errs) == whole
        }),
{
    block_found_alike(c, env, b, told_block(b, expected), errs);
}

/// A closure is looked at with names of its own, those of its parameters. Nothing is expected
/// of its body, and the type is the one expected.
pub proof fn closures(
    c: Scope,
    env: Locals,
    x: ClosureExpr,
    expected: Option<Ty>,
    errs: Seq<Problem>,
)
    ensures
        ({
            let inside = closure_locals(enter(env), x.params, x.params.len());
            let found = expr_inner(c, env, Expr::Closure(Box::new(x)), expected, errs);
            &&& found.ty == or_unit(expected)
            &&& found.errs == (match x.body {
                ClosureBody::Expr(e) => errs + alone(c, inside, *e, None).errs,
                ClosureBody::Block(b) => errs + block_alone(c, inside, b, None).errs,
            })
        }),
{
    let inside = closure_locals(enter(env), x.params, x.params.len());
    match x.body {
        ClosureBody::Expr(e) => found_alike(c, inside, *e, None, errs),
        ClosureBody::Block(b) => block_found_alike(c, inside, b, None, errs),
    }
}

/// Loops, `spawn`, `select`, queries, `try`, and what draws a component are not looked into;
/// they are of the type expected.
pub proof fn not_looked_into(
    c: Scope,
    env: Locals,
    e: Expr,
    expected: Option<Ty>,
    errs: Seq<Problem>,
)
    requires
        e is Loop || e is Spawn || e is Select || e is Query || e is TryCatch || e is Styled || e
            is Layout || e is EventHandler || e is ComponentChildren,
    ensures
        expr_inner(c, env, e, expected, errs) == (Found { ty: or_unit(expected), errs }),
{
}

} // verus!
