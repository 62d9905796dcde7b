//! What each piece of a body is checked for, and the type that it gets.
use crate::ast::{BinaryOp, UnaryOp};
use crate::text::{int_text, nat_text};
use crate::tree::{
    Arg, Block, ClosureBody, ClosureExpr, ElseBranch, Expr, FnDecl, IfExpr, ImplItem, Item,
    ItemKind, Literal, MatchArm, MatchArmBody, MatchExpr, Param, Pattern, Program, Stmt, Type,
};
use crate::types::model::{
    ty_text, EnumShape, FnSig, FunctionShape, GenericArg, ParamKind, Problem, Registry, StructShape,
    TraitShape, Ty,
};
use crate::types::names::{first, get, lookup, put};
use crate::types::rules::{
    add_all_impls, all_type_args, concrete_method, const_value, declare_all, holds_param, is_float,
    is_numeric, lookup_name, primitive, read, resolve, satisfies, substitute, unify_all,
    without_params, Reading, State,
};
use vstd::prelude::*;

verus! {

/// What bodies are checked against: the declarations by name, the method that a type has
/// under a name, and which traits a type satisfies.
pub struct Known {
    pub structs: Map<Seq<char>, StructShape>,
    pub enums: Map<Seq<char>, EnumShape>,
    pub functions: Map<Seq<char>, FunctionShape>,
    pub traits: Map<Seq<char>, TraitShape>,
    pub methods: spec_fn(Seq<char>, Seq<char>) -> Option<FnSig>,
    pub satisfied: spec_fn(Ty, Seq<char>) -> bool,
}

pub open spec fn known(reg: Registry) -> Known {
    Known {
        structs: reg.structs,
        enums: reg.enums,
        functions: reg.functions,
        traits: reg.traits,
        methods: |target: Seq<char>, name: Seq<char>| concrete_method(reg, target, name),
        satisfied: |t: Ty, trait_name: Seq<char>| satisfies(reg, t, trait_name),
    }
}

/// What a check takes place in: what is known, the name of the function, and in a method
/// the type of the `impl`.
pub struct Scope {
    pub known: Known,
    pub name: Seq<char>,
    pub own: Option<Ty>,
}

/// The local names, from the outermost block to the innermost.
pub type Locals = Seq<Seq<(Seq<char>, Ty)>>;

/// A type, and the problems found so far.
pub struct Found {
    pub ty: Ty,
    pub errs: Seq<Problem>,
}

/// As `Found`, where there may be no type.
pub struct MaybeFound {
    pub ty: Option<Ty>,
    pub errs: Seq<Problem>,
}

/// As `Found`, for a list.
pub struct AllFound {
    pub tys: Seq<Ty>,
    pub errs: Seq<Problem>,
}

/// The problems with one more.
pub open spec fn note(c: Scope, errs: Seq<Problem>, message: Seq<char>) -> Seq<Problem> {
    errs.push(Problem { message, context: c.name })
}

/// What is expected, or the unit type.
pub open spec fn or_unit(t: Option<Ty>) -> Ty {
    match t {
        Some(t) => t,
        None => Ty::Unit,
    }
}

/// The type of a local name among the first `n` blocks, the innermost first.
pub open spec fn local_in(env: Locals, name: Seq<char>, n: nat) -> Option<Ty>
    decreases n,
{
    if n == 0 || n > env.len() {
        None
    } else if lookup(env[n - 1], name) is Some {
        lookup(env[n - 1], name)
    } else {
        local_in(env, name, (n - 1) as nat)
    }
}

pub open spec fn local(env: Locals, name: Seq<char>) -> Option<Ty> {
    local_in(env, name, env.len())
}

/// With a name in the innermost block.
pub open spec fn bind(env: Locals, name: Seq<char>, t: Ty) -> Locals {
    env.update(env.len() - 1, put(env[env.len() - 1], name, t))
}

/// With a block inside.
pub open spec fn enter(env: Locals) -> Locals {
    env.push(seq![])
}

/// The generic parameters of a struct or enum.
pub open spec fn generics_of(known: Known, name: Seq<char>) -> Option<Seq<ParamKind>> {
    match get(known.structs, name) {
        Some(shape) => Some(shape.generics),
        None => match get(known.enums, name) {
            Some(shape) => Some(shape.generics),
            None => None,
        },
    }
}

/// The generic arguments read, whether one was of the wrong kind, and the problems.
pub struct ArgsFound {
    pub args: Seq<GenericArg>,
    pub bad: bool,
    pub errs: Seq<Problem>,
}

/// The type that an annotation stands for, with its generic arguments held against the
/// declaration.
pub open spec fn full_type(c: Scope, t: Type, errs: Seq<Problem>) -> Found
    decreases t, 0nat,
{
    match t {
        Type::Named(name, args) => match generics_of(c.known, name) {
            Some(ps) => if args.len() == 0 {
                Found { ty: resolve(t), errs }
            } else if args.len() != ps.len() {
                Found {
                    ty: Ty::Named(name),
                    errs: note(
                        c,
                        errs,
                        "`"@ + name + "` expects "@ + nat_text(ps.len())
                            + " generic argument(s), found "@ + nat_text(args.len()),
                    ),
                }
            } else {
                let found = generic_args(c, name, ps, args, args.len(), errs);
                Found {
                    ty: if found.bad {
                        Ty::Named(name)
                    } else {
                        Ty::Generic(name, found.args)
                    },
                    errs: found.errs,
                }
            },
            None => Found { ty: resolve(t), errs },
        },
        _ => Found { ty: resolve(t), errs },
    }
}

/// The first `n` generic arguments, each of the kind that its parameter asks for.
pub open spec fn generic_args(
    c: Scope,
    name: Seq<char>,
    ps: Seq<ParamKind>,
    args: Seq<Type>,
    n: nat,
    errs: Seq<Problem>,
) -> ArgsFound
    decreases args, n,
{
    if n == 0 || n > args.len() || n > ps.len() {
        ArgsFound { args: seq![], bad: false, errs }
    } else {
        let before = generic_args(c, name, ps, args, (n - 1) as nat, errs);
        match (ps[n - 1], args[n - 1]) {
            (ParamKind::Type { .. }, Type::ConstArg(_)) => ArgsFound {
                args: before.args,
                bad: true,
                errs: note(
                    c,
                    before.errs,
                    "`"@ + name + "`: expected a type argument, found a const value"@,
                ),
            },
            (ParamKind::Type { .. }, t) => {
                let found = full_type(c, t, before.errs);
                ArgsFound {
                    args: before.args.push(GenericArg::Type(found.ty)),
                    bad: before.bad,
                    errs: found.errs,
                }
            },
            (ParamKind::Const { .. }, Type::ConstArg(e)) => match const_value(*e) {
                Some(v) => ArgsFound {
                    args: before.args.push(GenericArg::Const(v)),
                    bad: before.bad,
                    errs: before.errs,
                },
                None => ArgsFound {
                    args: before.args,
                    bad: true,
                    errs: note(
                        c,
                        before.errs,
                        "`"@ + name + "`: const-generic argument must be an integer literal"@,
                    ),
                },
            },
            (ParamKind::Const { .. }, _) => ArgsFound {
                args: before.args,
                bad: true,
                errs: note(
                    c,
                    before.errs,
                    "`"@ + name + "`: expected a const value argument, found a type"@,
                ),
            },
        }
    }
}

/// Whether a value of the one type can stand where the other is asked for: the types are
/// equal, or only one of them holds type parameters and they are equal with `()` for each.
pub open spec fn alike(a: Ty, b: Ty) -> bool {
    a == b || (!(holds_param(a) && holds_param(b)) && without_params(a) == without_params(b))
}

/// What was found, held against what is expected.
pub open spec fn held(c: Scope, found: Found, expected: Option<Ty>) -> Found {
    match expected {
        Some(t) => if alike(found.ty, t) {
            Found { ty: t, errs: found.errs }
        } else {
            Found {
                ty: found.ty,
                errs: note(
                    c,
                    found.errs,
                    "expected `"@ + ty_text(t) + "`, found `"@ + ty_text(found.ty)
                        + "` (Document 5 §6: no implicit coercion, use `as`)"@,
                ),
            }
        },
        None => found,
    }
}

/// With `()` in place of each type parameter, but where the type is the one expected.
pub open spec fn settled(found: Found, expected: Option<Ty>) -> Found {
    if expected == Some(found.ty) {
        found
    } else {
        Found { ty: without_params(found.ty), errs: found.errs }
    }
}

/// A numeric literal.
pub open spec fn is_number(e: Expr) -> bool {
    e matches Expr::Literal(l) && (l is Int || l is IntHex || l is IntOct || l is IntBin
        || l is Float)
}

/// Whether a numeric literal can be of a type.
pub open spec fn takes(e: Expr, t: Ty) -> bool {
    if e matches Expr::Literal(l) && l is Float {
        is_float(t)
    } else {
        is_numeric(t)
    }
}

/// What a part is told of the type expected of it, where the whole reports a mismatch: a
/// numeric literal is told only a type that it can take.
pub open spec fn told(e: Expr, expected: Option<Ty>) -> Option<Ty> {
    match expected {
        Some(t) => if is_number(e) && !takes(e, t) {
            None
        } else {
            Some(t)
        },
        None => None,
    }
}

/// As `told`, for the expression at the end of a block.
pub open spec fn told_block(b: Block, expected: Option<Ty>) -> Option<Ty> {
    match b.tail {
        Some(e) => told(*e, expected),
        None => expected,
    }
}

/// What a part is told of the type found for another one: a numeric literal nothing of `()`,
/// which also stands for a type that is not known.
pub open spec fn told_found(e: Expr, t: Ty) -> Option<Ty> {
    if is_number(e) && t is Unit {
        None
    } else {
        Some(t)
    }
}

/// Whether a type may turn out to be any type: it holds a type parameter, or it is a name
/// that no struct and no enum has, such as an alias or a parameter of an `impl`.
pub open spec fn is_open(known: Known, t: Ty) -> bool {
    holds_param(t) || (t matches Ty::Named(n) && get(known.structs, n) is None && get(
        known.enums,
        n,
    ) is None)
}

/// Whether a numeric literal is not held against what is expected, since that is open.
pub open spec fn excused(c: Scope, e: Expr, expected: Option<Ty>) -> bool {
    is_number(e) && (expected matches Some(t) && is_open(c.known, t))
}

pub open spec fn literal(c: Scope, l: Literal, expected: Option<Ty>, errs: Seq<Problem>) -> Found {
    match l {
        Literal::Int(_) | Literal::IntHex(_) | Literal::IntOct(_) | Literal::IntBin(_) => Found {
            ty: match expected {
                Some(t) => if is_numeric(t) {
                    t
                } else {
                    Ty::I32
                },
                None => Ty::I32,
            },
            errs,
        },
        Literal::Float(_) => Found {
            ty: match expected {
                Some(t) => if is_float(t) {
                    t
                } else {
                    Ty::F64
                },
                None => Ty::F64,
            },
            errs,
        },
        Literal::Str(_) | Literal::RawStr(_) => Found { ty: Ty::StringTy, errs },
        Literal::Char(_) => Found { ty: Ty::Char, errs },
        Literal::Bool(_) => Found { ty: Ty::Bool, errs },
        Literal::Null => Found {
            ty: Ty::Null,
            errs: match expected {
                Some(t) => if t is Null {
                    errs
                } else {
                    note(
                        c,
                        errs,
                        "`null` is not usable where `"@ + ty_text(t)
                            + "` is expected -- use `Option<T>` in safe code (Document 5 §2.6)"@,
                    )
                },
                None => errs,
            },
        },
    }
}

pub open spec fn name_type(
    c: Scope,
    env: Locals,
    name: Seq<char>,
    expected: Option<Ty>,
    errs: Seq<Problem>,
) -> Found {
    match local(env, name) {
        Some(t) => Found { ty: t, errs },
        None => Found {
            ty: or_unit(expected),
            errs: note(c, errs, "undefined variable `"@ + name + "`"@),
        },
    }
}

pub open spec fn no_variant(enum_name: Seq<char>, variant: Seq<char>) -> Seq<char> {
    "enum `"@ + enum_name + "` has no variant `"@ + variant + "`"@
}

/// A path on its own: a variant without data where the first of two names is an enum.
pub open spec fn path_type(
    c: Scope,
    path: Seq<Seq<char>>,
    expected: Option<Ty>,
    errs: Seq<Problem>,
) -> Found {
    if path.len() == 2 && get(c.known.enums, path[0]) is Some {
        let shape = get(c.known.enums, path[0])->0;
        Found {
            ty: Ty::Named(path[0]),
            errs: match first(shape.variants, path[1]) {
                Some(data) => if data.len() == 0 {
                    errs
                } else {
                    note(
                        c,
                        errs,
                        "enum variant `"@ + path[0] + "::"@ + path[1]
                            + "` carries data and must be called with arguments"@,
                    )
                },
                None => note(c, errs, no_variant(path[0], path[1])),
            },
        }
    } else {
        Found { ty: or_unit(expected), errs }
    }
}

/// An expression. No type parameter comes out, but where one is expected.
pub open spec fn expr(
    c: Scope,
    env: Locals,
    e: Expr,
    expected: Option<Ty>,
    errs: Seq<Problem>,
) -> Found
    decreases e, 11nat,
{
    settled(part(c, env, e, expected, errs), expected)
}

/// An expression as a part of another one: its type, held against what is expected. Only
/// `null` reports a mismatch by itself. The type may still hold a type parameter of a
/// declaration whose arguments are not known here.
pub open spec fn part(
    c: Scope,
    env: Locals,
    e: Expr,
    expected: Option<Ty>,
    errs: Seq<Problem>,
) -> Found
    decreases e, 10nat,
{
    let found = expr_inner(c, env, e, expected, errs);
    if e == Expr::Literal(Literal::Null) || excused(c, e, expected) {
        found
    } else {
        held(c, found, expected)
    }
}

pub open spec fn expr_inner(
    c: Scope,
    env: Locals,
    e: Expr,
    expected: Option<Ty>,
    errs: Seq<Problem>,
) -> Found
    decreases e, 9nat,
{
    match e {
        Expr::Literal(l) => literal(c, l, expected, errs),
        Expr::Ident(name) => name_type(c, env, name, expected, errs),
        Expr::Path(path) => path_type(c, path, expected, errs),
        Expr::Paren(inner) => part(c, env, *inner, told(*inner, expected), errs),
        Expr::Array(items) => array(c, env, items, expected, errs),
        Expr::Tuple(items) => {
            let found = tuple_items(c, env, items, expected, items.len(), errs);
            Found { ty: Ty::Tuple(found.tys), errs: found.errs }
        },
        Expr::StructLit { name, fields, spread } => struct_lit(
            c,
            env,
            name,
            fields,
            spread is Some,
            expected,
            errs,
        ),
        Expr::If(x) => if_expr(c, env, *x, expected, errs),
        Expr::Match(x) => match_expr(c, env, *x, expected, errs),
        Expr::Block(b) => {
            let found = block(c, env, *b, told_block(*b, expected), errs);
            Found { ty: or_unit(found.ty), errs: found.errs }
        },
        Expr::Unsafe(b) => {
            let found = block(c, env, *b, told_block(*b, expected), errs);
            Found { ty: or_unit(found.ty), errs: found.errs }
        },
        Expr::Unary { op, expr: inner } => {
            let found = part(c, env, *inner, told(*inner, expected), errs);
            unary(c, op, found.ty, found.errs)
        },
        Expr::Binary { op, lhs, rhs } => {
            let left = part(c, env, *lhs, None, errs);
            let right = part(c, env, *rhs, told(*rhs, right_expected(left.ty)), left.errs);
            operation(c, op, left.ty, right.ty, right.errs)
        },
        Expr::Assign { lhs, rhs, .. } => {
            let left = part(c, env, *lhs, None, errs);
            let right = part(c, env, *rhs, told_found(*rhs, left.ty), left.errs);
            Found { ty: Ty::Unit, errs: right.errs }
        },
        Expr::Cast { expr: inner, ty } => {
            let found = part(c, env, *inner, None, errs);
            full_type(c, *ty, found.errs)
        },
        Expr::Range { lo, hi, .. } => {
            let low = part(c, env, *lo, None, errs);
            let high = part(c, env, *hi, told_found(*hi, low.ty), low.errs);
            Found { ty: low.ty, errs: high.errs }
        },
        Expr::Propagate(inner) => part(c, env, *inner, None, errs),
        Expr::Field { expr: inner, name } => {
            let found = part(c, env, *inner, None, errs);
            field_type(c, found.ty, name, found.errs)
        },
        Expr::Index { expr: inner, index } => {
            let base = part(c, env, *inner, None, errs);
            let at = part(c, env, *index, None, base.errs);
            element_type(c, base.ty, at.errs)
        },
        Expr::Call { callee, args } => call(c, env, *callee, args, expected, errs),
        Expr::MethodCall { receiver, name, args } => {
            let base = part(c, env, *receiver, None, errs);
            method_call(c, env, base.ty, name, args, expected, base.errs)
        },
        Expr::Borrow { expr: inner, mutable } => {
            let found = part(c, env, *inner, told(*inner, behind_ref(expected)), errs);
            Found { ty: Ty::Ref(mutable, Box::new(found.ty)), errs: found.errs }
        },
        Expr::Await(inner) => {
            let found = part(c, env, *inner, None, errs);
            Found { ty: or_unit(expected), errs: found.errs }
        },
        Expr::Throw(inner) => {
            let found = part(c, env, *inner, None, errs);
            Found { ty: or_unit(expected), errs: found.errs }
        },
        Expr::Return(inner) => match inner {
            Some(v) => {
                let found = part(c, env, *v, None, errs);
                Found { ty: Ty::Never, errs: found.errs }
            },
            None => Found { ty: Ty::Never, errs },
        },
        Expr::Yield(inner) => {
            let found = part(c, env, *inner, None, errs);
            Found { ty: Ty::Unit, errs: found.errs }
        },
        Expr::Closure(x) => {
            let after = closure(c, env, *x, errs);
            Found { ty: or_unit(expected), errs: after }
        },
        _ => Found { ty: or_unit(expected), errs },
    }
}

/// What is expected behind a reference.
pub open spec fn behind_ref(expected: Option<Ty>) -> Option<Ty> {
    match expected {
        Some(Ty::Ref(_, t)) => Some(*t),
        _ => None,
    }
}

/// What is expected of the elements of an array.
pub open spec fn element_expected(expected: Option<Ty>) -> Option<Ty> {
    match expected {
        Some(Ty::Array(t)) => Some(*t),
        _ => None,
    }
}

/// An array literal: all elements of the type of the first; an empty one needs to be told.
pub open spec fn array(
    c: Scope,
    env: Locals,
    items: Seq<Expr>,
    expected: Option<Ty>,
    errs: Seq<Problem>,
) -> Found
    decreases items, items.len() + 1,
{
    if items.len() == 0 {
        match element_expected(expected) {
            Some(t) => Found { ty: Ty::Array(Box::new(t)), errs },
            None => Found {
                ty: Ty::Array(Box::new(Ty::Unit)),
                errs: note(
                    c,
                    errs,
                    "cannot infer type of empty array literal `[]` -- add an explicit type annotation"@,
                ),
            },
        }
    } else {
        let head = part(c, env, items[0], told(items[0], element_expected(expected)), errs);
        Found {
            ty: Ty::Array(Box::new(head.ty)),
            errs: array_items(c, env, items, head.ty, items.len(), head.errs),
        }
    }
}

/// The elements from the second to the `n`th.
pub open spec fn array_items(
    c: Scope,
    env: Locals,
    items: Seq<Expr>,
    head: Ty,
    n: nat,
    errs: Seq<Problem>,
) -> Seq<Problem>
    decreases items, n,
{
    if n <= 1 || n > items.len() {
        errs
    } else {
        let before = array_items(c, env, items, head, (n - 1) as nat, errs);
        let found = part(c, env, items[n - 1], told(items[n - 1], Some(head)), before);
        if found.ty == head {
            found.errs
        } else {
            note(
                c,
                found.errs,
                "array element type mismatch: expected `"@ + ty_text(head) + "`, found `"@
                    + ty_text(found.ty) + "`"@,
            )
        }
    }
}

/// What is expected of one item of a tuple of `n`.
pub open spec fn item_expected(expected: Option<Ty>, n: nat, i: int) -> Option<Ty> {
    match expected {
        Some(Ty::Tuple(ts)) => if ts.len() == n {
            Some(ts[i])
        } else {
            None
        },
        _ => None,
    }
}

/// The first `n` items of a tuple.
pub open spec fn tuple_items(
    c: Scope,
    env: Locals,
    items: Seq<Expr>,
    expected: Option<Ty>,
    n: nat,
    errs: Seq<Problem>,
) -> AllFound
    decreases items, n,
{
    if n == 0 || n > items.len() {
        AllFound { tys: seq![], errs }
    } else {
        let before = tuple_items(c, env, items, expected, (n - 1) as nat, errs);
        let found = part(
            c,
            env,
            items[n - 1],
            told(items[n - 1], item_expected(expected, items.len(), n - 1)),
            before.errs,
        );
        AllFound { tys: before.tys.push(found.ty), errs: found.errs }
    }
}

pub open spec fn unary(c: Scope, op: UnaryOp, t: Ty, errs: Seq<Problem>) -> Found {
    match op {
        UnaryOp::Not => Found {
            ty: Ty::Bool,
            errs: if t is Bool {
                errs
            } else {
                note(c, errs, "`!` requires `bool`, found `"@ + ty_text(t) + "`"@)
            },
        },
        UnaryOp::Neg => Found {
            ty: t,
            errs: if is_numeric(t) {
                errs
            } else {
                note(
                    c,
                    errs,
                    "unary `-` requires a numeric type, found `"@ + ty_text(t) + "`"@,
                )
            },
        },
        UnaryOp::BitNot => Found { ty: t, errs },
    }
}

/// The name of a binary operator.
pub open spec fn op_name(op: BinaryOp) -> Seq<char> {
    match op {
        BinaryOp::Add => "Add"@,
        BinaryOp::Sub => "Sub"@,
        BinaryOp::Mul => "Mul"@,
        BinaryOp::Div => "Div"@,
        BinaryOp::Mod => "Mod"@,
        BinaryOp::Pow => "Pow"@,
        BinaryOp::EqEq => "EqEq"@,
        BinaryOp::NotEq => "NotEq"@,
        BinaryOp::Lt => "Lt"@,
        BinaryOp::Gt => "Gt"@,
        BinaryOp::LtEq => "LtEq"@,
        BinaryOp::GtEq => "GtEq"@,
        BinaryOp::AndAnd => "AndAnd"@,
        BinaryOp::OrOr => "OrOr"@,
        BinaryOp::BitAnd => "BitAnd"@,
        BinaryOp::BitOr => "BitOr"@,
        BinaryOp::BitXor => "BitXor"@,
        BinaryOp::Shl => "Shl"@,
        BinaryOp::Shr => "Shr"@,
        BinaryOp::Coalesce => "Coalesce"@,
    }
}

/// What the right operand is told of the left one's type: nothing where that is generic.
pub open spec fn right_expected(left: Ty) -> Option<Ty> {
    if left is Generic {
        None
    } else {
        Some(left)
    }
}

pub open spec fn bool_operand(c: Scope, t: Ty, errs: Seq<Problem>) -> Seq<Problem> {
    if t is Bool {
        errs
    } else {
        note(c, errs, "`&&`/`||` requires `bool`, found `"@ + ty_text(t) + "`"@)
    }
}

/// A binary operator on operands of two types.
pub open spec fn operation(c: Scope, op: BinaryOp, lt: Ty, rt: Ty, errs: Seq<Problem>) -> Found {
    match op {
        BinaryOp::Mul => match (lt, rt) {
            (Ty::Generic(ln, largs), Ty::Generic(rn, rargs)) => if ln == rn {
                matrix_multiply(c, ln, largs, rargs, errs)
            } else {
                arithmetic(c, op, lt, rt, errs)
            },
            _ => arithmetic(c, op, lt, rt, errs),
        },
        BinaryOp::Add | BinaryOp::Sub | BinaryOp::Div | BinaryOp::Mod | BinaryOp::Pow
        | BinaryOp::BitAnd | BinaryOp::BitOr | BinaryOp::BitXor | BinaryOp::Shl
        | BinaryOp::Shr => arithmetic(c, op, lt, rt, errs),
        BinaryOp::EqEq | BinaryOp::NotEq | BinaryOp::Lt | BinaryOp::Gt | BinaryOp::LtEq
        | BinaryOp::GtEq => Found {
            ty: Ty::Bool,
            errs: if lt == rt {
                errs
            } else {
                note(
                    c,
                    errs,
                    "comparison between mismatched types `"@ + ty_text(lt) + "` and `"@ + ty_text(
                        rt,
                    ) + "` (Document 5 §6)"@,
                )
            },
        },
        BinaryOp::AndAnd | BinaryOp::OrOr => Found {
            ty: Ty::Bool,
            errs: bool_operand(c, rt, bool_operand(c, lt, errs)),
        },
        BinaryOp::Coalesce => Found {
            ty: match lt {
                Ty::OptionTy(t) => *t,
                _ => lt,
            },
            errs,
        },
    }
}

/// An operator whose operands have to be of one type, which is the result's too.
pub open spec fn arithmetic(c: Scope, op: BinaryOp, lt: Ty, rt: Ty, errs: Seq<Problem>) -> Found {
    Found {
        ty: lt,
        errs: if lt == rt {
            errs
        } else {
            note(
                c,
                errs,
                "`"@ + op_name(op) + "`: mismatched types `"@ + ty_text(lt) + "` and `"@ + ty_text(
                    rt,
                ) + "` (Document 5 §6: no implicit coercion, use `as`)"@,
            )
        },
    }
}

/// The values among the first `n` generic arguments.
pub open spec fn const_args(args: Seq<GenericArg>, n: nat) -> Seq<i64>
    decreases n,
{
    if n == 0 || n > args.len() {
        seq![]
    } else {
        match args[n - 1] {
            GenericArg::Const(v) => const_args(args, (n - 1) as nat).push(v),
            GenericArg::Type(_) => const_args(args, (n - 1) as nat),
        }
    }
}

/// The arguments with `rows` in the place of the first value and `cols` in that of the
/// others.
pub open spec fn with_dimensions(args: Seq<GenericArg>, rows: i64, cols: i64) -> Seq<GenericArg> {
    Seq::new(
        args.len(),
        |i: int|
            match args[i] {
                GenericArg::Const(_) => GenericArg::Const(
                    if const_args(args, i as nat).len() == 0 {
                        rows
                    } else {
                        cols
                    },
                ),
                GenericArg::Type(t) => GenericArg::Type(t),
            },
    )
}

/// `*` on two values of one generic struct. With two values each among the arguments they
/// are rows and columns, and the columns of the left have to be the rows of the right.
pub open spec fn matrix_multiply(
    c: Scope,
    name: Seq<char>,
    largs: Seq<GenericArg>,
    rargs: Seq<GenericArg>,
    errs: Seq<Problem>,
) -> Found {
    let l = const_args(largs, largs.len());
    let r = const_args(rargs, rargs.len());
    if l.len() == 2 && r.len() == 2 {
        if l[1] != r[0] {
            Found {
                ty: Ty::Generic(name, largs),
                errs: note(
                    c,
                    errs,
                    "cannot multiply `"@ + name + "` with column count "@ + int_text(l[1] as int)
                        + " by `"@ + name + "` with row count "@ + int_text(r[0] as int)
                        + ": dimension mismatch (Document 8 §9)"@,
                ),
            }
        } else {
            Found { ty: Ty::Generic(name, with_dimensions(largs, l[0], r[1])), errs }
        }
    } else {
        Found {
            ty: Ty::Generic(name, largs),
            errs: if largs == rargs {
                errs
            } else {
                note(c, errs, "`*`: mismatched generic arguments for `"@ + name + "`"@)
            },
        }
    }
}

pub open spec fn no_field(name: Seq<char>, field: Seq<char>) -> Seq<char> {
    "struct `"@ + name + "` has no field `"@ + field + "`"@
}

/// The type of a field. Of what is not a known struct nothing is said.
pub open spec fn field_type(c: Scope, base: Ty, field: Seq<char>, errs: Seq<Problem>) -> Found {
    match base {
        Ty::Named(n) => match get(c.known.structs, n) {
            Some(shape) => match first(shape.fields, field) {
                Some(t) => Found { ty: t, errs },
                None => Found { ty: Ty::Unit, errs: note(c, errs, no_field(n, field)) },
            },
            None => Found { ty: Ty::Unit, errs },
        },
        Ty::Generic(n, args) => match get(c.known.structs, n) {
            Some(shape) => match first(shape.fields, field) {
                Some(t) => Found { ty: substitute(t, all_type_args(shape.generics, args)), errs },
                None => Found { ty: Ty::Unit, errs: note(c, errs, no_field(n, field)) },
            },
            None => Found { ty: Ty::Unit, errs },
        },
        _ => Found { ty: Ty::Unit, errs },
    }
}

/// The type of an element.
pub open spec fn element_type(c: Scope, base: Ty, errs: Seq<Problem>) -> Found {
    match base {
        Ty::Array(t) => Found { ty: *t, errs },
        _ => Found {
            ty: Ty::Unit,
            errs: note(c, errs, "cannot index into type `"@ + ty_text(base) + "`"@),
        },
    }
}

/// The first `n` arguments, each held against the parameter in its place.
pub open spec fn args_against(
    c: Scope,
    env: Locals,
    args: Seq<Arg>,
    params: Seq<Ty>,
    n: nat,
    errs: Seq<Problem>,
) -> Seq<Problem>
    decreases args, n,
{
    if n == 0 || n > args.len() {
        errs
    } else {
        let before = args_against(c, env, args, params, (n - 1) as nat, errs);
        part(
            c,
            env,
            args[n - 1].value,
            if n <= params.len() {
                Some(params[n - 1])
            } else {
                None
            },
            before,
        ).errs
    }
}

/// The types of the first `n` arguments.
pub open spec fn arg_types(
    c: Scope,
    env: Locals,
    args: Seq<Arg>,
    n: nat,
    errs: Seq<Problem>,
) -> AllFound
    decreases args, n,
{
    if n == 0 || n > args.len() {
        AllFound { tys: seq![], errs }
    } else {
        let before = arg_types(c, env, args, (n - 1) as nat, errs);
        let found = part(c, env, args[n - 1].value, None, before.errs);
        AllFound { tys: before.tys.push(found.ty), errs: found.errs }
    }
}

/// The first `n` traits that a type parameter asks of the type found for it.
pub open spec fn bound_problems(
    c: Scope,
    function: Seq<char>,
    param: Seq<char>,
    t: Ty,
    traits: Seq<Seq<char>>,
    n: nat,
    errs: Seq<Problem>,
) -> Seq<Problem>
    decreases n,
{
    if n == 0 || n > traits.len() {
        errs
    } else {
        let before = bound_problems(c, function, param, t, traits, (n - 1) as nat, errs);
        if (c.known.satisfied)(t, traits[n - 1]) {
            before
        } else {
            note(
                c,
                before,
                "type `"@ + ty_text(t) + "` does not satisfy bound `"@ + traits[n - 1]
                    + "` required for generic parameter `"@ + param + "` of `"@ + function
                    + "` (Document 8 §2/§3)"@,
            )
        }
    }
}

/// The first `n` bounds of a generic function.
pub open spec fn bounds_problems(
    c: Scope,
    function: Seq<char>,
    bounds: Seq<(Seq<char>, Seq<Seq<char>>)>,
    subst: Seq<(Seq<char>, Ty)>,
    n: nat,
    errs: Seq<Problem>,
) -> Seq<Problem>
    decreases n,
{
    if n == 0 || n > bounds.len() {
        errs
    } else {
        let before = bounds_problems(c, function, bounds, subst, (n - 1) as nat, errs);
        let (param, traits) = bounds[n - 1];
        match lookup(subst, param) {
            Some(t) => bound_problems(c, function, param, t, traits, traits.len(), before),
            None => before,
        }
    }
}

/// What the type parameters of a function are for arguments of some types.
pub open spec fn inferred(params: Seq<Ty>, tys: Seq<Ty>) -> Seq<(Seq<char>, Ty)> {
    unify_all(
        params,
        tys,
        if params.len() <= tys.len() {
            params.len()
        } else {
            tys.len()
        },
        seq![],
    )
}

/// A call of a generic function, given the types of the arguments.
pub open spec fn generic_result(
    c: Scope,
    name: Seq<char>,
    shape: FunctionShape,
    args: AllFound,
) -> Found {
    let subst = inferred(shape.params, args.tys);
    Found {
        ty: substitute(shape.ret, subst),
        errs: bounds_problems(c, name, shape.bounds, subst, shape.bounds.len(), args.errs),
    }
}

pub open spec fn count_message(
    what: Seq<char>,
    expected: nat,
    found: nat,
) -> Seq<char> {
    what + " expects "@ + nat_text(expected) + " argument(s), found "@ + nat_text(found)
}

/// A variant with arguments.
pub open spec fn variant_call(
    c: Scope,
    env: Locals,
    enum_name: Seq<char>,
    variant: Seq<char>,
    shape: EnumShape,
    args: Seq<Arg>,
    errs: Seq<Problem>,
) -> Found
    decreases args, args.len() + 1,
{
    Found {
        ty: Ty::Named(enum_name),
        errs: match first(shape.variants, variant) {
            Some(data) => {
                let after = args_against(c, env, args, data, args.len(), errs);
                if args.len() == data.len() {
                    after
                } else {
                    note(
                        c,
                        after,
                        count_message(
                            "`"@ + enum_name + "::"@ + variant + "`"@,
                            data.len(),
                            args.len(),
                        ),
                    )
                }
            },
            None => note(c, errs, no_variant(enum_name, variant)),
        },
    }
}

/// A call: of a declared function, of a variant, or of something unknown.
pub open spec fn call(
    c: Scope,
    env: Locals,
    callee: Expr,
    args: Seq<Arg>,
    expected: Option<Ty>,
    errs: Seq<Problem>,
) -> Found
    decreases args, args.len() + 2,
{
    match callee {
        Expr::Ident(name) => match get(c.known.functions, name) {
            Some(shape) => if shape.generics.len() == 0 {
                Found {
                    ty: shape.ret,
                    errs: args_against(c, env, args, shape.params, args.len(), errs),
                }
            } else {
                generic_result(c, name, shape, arg_types(c, env, args, args.len(), errs))
            },
            None => unknown_call(c, env, args, expected, errs),
        },
        Expr::Path(path) => if path.len() == 2 && get(c.known.enums, path[0]) is Some {
            variant_call(
                c,
                env,
                path[0],
                path[1],
                get(c.known.enums, path[0])->0,
                args,
                errs,
            )
        } else {
            unknown_call(c, env, args, expected, errs)
        },
        _ => unknown_call(c, env, args, expected, errs),
    }
}

/// A call of something that is not declared: the arguments are looked at on their own.
pub open spec fn unknown_call(
    c: Scope,
    env: Locals,
    args: Seq<Arg>,
    expected: Option<Ty>,
    errs: Seq<Problem>,
) -> Found
    decreases args, args.len() + 1,
{
    Found {
        ty: or_unit(expected),
        errs: args_against(c, env, args, seq![], args.len(), errs),
    }
}

/// Whether enough is known of a type to say that it lacks a method.
pub open spec fn is_known(known: Known, t: Ty) -> bool {
    match t {
        Ty::Named(n) => get(known.structs, n) is Some || get(known.enums, n) is Some,
        Ty::Generic(n, _) => get(known.structs, n) is Some || get(known.enums, n) is Some,
        Ty::DynTrait(n) => get(known.traits, n) is Some,
        _ => false,
    }
}

/// The method that a call on a type reaches.
pub open spec fn known_method(known: Known, t: Ty, name: Seq<char>) -> Option<FnSig> {
    match t {
        Ty::Named(n) => (known.methods)(n, name),
        Ty::Generic(n, _) => (known.methods)(n, name),
        Ty::DynTrait(n) => match get(known.traits, n) {
            Some(shape) => lookup(shape.methods, name),
            None => None,
        },
        _ => None,
    }
}

/// The type by which a call on a value finds its method. In a method the type of the `impl`
/// goes by its name, though it be a primitive.
pub open spec fn receiver(c: Scope, t: Ty) -> Ty {
    if c.own == Some(t) {
        match lookup_name(t) {
            Some(n) => Ty::Named(n),
            None => t,
        }
    } else {
        t
    }
}

/// A call of a method on a value of a type.
pub open spec fn method_call(
    c: Scope,
    env: Locals,
    base: Ty,
    name: Seq<char>,
    args: Seq<Arg>,
    expected: Option<Ty>,
    errs: Seq<Problem>,
) -> Found
    decreases args, args.len() + 1,
{
    match known_method(c.known, receiver(c, base), name) {
        Some(sig) => {
            let after = args_against(c, env, args, sig.params, args.len(), errs);
            Found {
                ty: sig.ret,
                errs: if args.len() == sig.params.len() {
                    after
                } else {
                    note(
                        c,
                        after,
                        count_message(
                            "method `"@ + name + "` on `"@ + ty_text(base) + "`"@,
                            sig.params.len(),
                            args.len(),
                        ),
                    )
                },
            }
        },
        None => {
            let after = args_against(c, env, args, seq![], args.len(), errs);
            Found {
                ty: or_unit(expected),
                errs: if is_known(c.known, receiver(c, base)) {
                    note(
                        c,
                        after,
                        "no method named `"@ + name + "` found for type `"@ + ty_text(base)
                            + "`"@,
                    )
                } else {
                    after
                },
            }
        },
    }
}

/// The arguments that an annotation gives a struct literal of a generic struct.
pub open spec fn annotated_args(
    name: Seq<char>,
    shape: StructShape,
    expected: Option<Ty>,
) -> Option<Seq<GenericArg>> {
    match expected {
        Some(Ty::Generic(n, args)) => if shape.generics.len() > 0 && n == name && args.len()
            == shape.generics.len() {
            Some(args)
        } else {
            None
        },
        _ => None,
    }
}

/// The first `n` fields of a struct literal, each held against its declaration.
pub open spec fn lit_fields(
    c: Scope,
    env: Locals,
    name: Seq<char>,
    declared: Seq<(Seq<char>, Ty)>,
    subst: Seq<(Seq<char>, Ty)>,
    fields: Seq<(Seq<char>, Expr)>,
    n: nat,
    errs: Seq<Problem>,
) -> Seq<Problem>
    decreases fields, n,
{
    if n == 0 || n > fields.len() {
        errs
    } else {
        let before = lit_fields(c, env, name, declared, subst, fields, (n - 1) as nat, errs);
        match lookup(declared, fields[n - 1].0) {
            Some(t) => part(
                c,
                env,
                fields[n - 1].1,
                Some(substitute(t, subst)),
                before,
            ).errs,
            None => note(c, before, no_field(name, fields[n - 1].0)),
        }
    }
}

/// Whether a struct literal gives a field a value.
pub open spec fn gives(fields: Seq<(Seq<char>, Expr)>, name: Seq<char>) -> bool {
    exists|i: int| 0 <= i < fields.len() && (#[trigger] fields[i]).0 == name
}

/// The first `n` declared fields: those that a struct literal leaves out.
pub open spec fn missing_fields(
    c: Scope,
    name: Seq<char>,
    declared: Seq<(Seq<char>, Ty)>,
    fields: Seq<(Seq<char>, Expr)>,
    n: nat,
    errs: Seq<Problem>,
) -> Seq<Problem>
    decreases n,
{
    if n == 0 || n > declared.len() {
        errs
    } else {
        let before = missing_fields(c, name, declared, fields, (n - 1) as nat, errs);
        if gives(fields, declared[n - 1].0) {
            before
        } else {
            note(
                c,
                before,
                "missing field `"@ + declared[n - 1].0 + "` in struct literal for `"@ + name
                    + "`"@,
            )
        }
    }
}

pub open spec fn struct_lit(
    c: Scope,
    env: Locals,
    name: Seq<char>,
    fields: Seq<(Seq<char>, Expr)>,
    has_spread: bool,
    expected: Option<Ty>,
    errs: Seq<Problem>,
) -> Found
    decreases fields, fields.len() + 1,
{
    match get(c.known.structs, name) {
        Some(shape) => {
            let args = annotated_args(name, shape, expected);
            let subst = match args {
                Some(args) => all_type_args(shape.generics, args),
                None => seq![],
            };
            let after = lit_fields(c, env, name, shape.fields, subst, fields, fields.len(), errs);
            Found {
                ty: match args {
                    Some(args) => Ty::Generic(name, args),
                    None => Ty::Named(name),
                },
                errs: if has_spread {
                    after
                } else {
                    missing_fields(c, name, shape.fields, fields, shape.fields.len(), after)
                },
            }
        },
        None => Found {
            ty: Ty::Named(name),
            errs: note(c, errs, "undefined struct `"@ + name + "`"@),
        },
    }
}

/// `if`: the branches have to agree.
pub open spec fn if_expr(
    c: Scope,
    env: Locals,
    x: IfExpr,
    expected: Option<Ty>,
    errs: Seq<Problem>,
) -> Found
    decreases x, 0nat,
{
    let cond = part(c, env, x.cond, Some(Ty::Bool), errs);
    let first = block(c, env, x.then_block, told_block(x.then_block, expected), cond.errs);
    let t = or_unit(first.ty);
    match x.else_branch {
        Some(ElseBranch::Block(b)) => {
            let second = block(c, env, b, told_block(b, Some(t)), first.errs);
            Found {
                ty: t,
                errs: if or_unit(second.ty) == t {
                    second.errs
                } else {
                    note(
                        c,
                        second.errs,
                        "`if`/`else` branches have incompatible types: `"@ + ty_text(t)
                            + "` and `"@ + ty_text(or_unit(second.ty))
                            + "` (Document 5 rule 5: no cross-branch guessing)"@,
                    )
                },
            }
        },
        Some(ElseBranch::If(inner)) => {
            let second = if_expr(c, env, *inner, Some(t), first.errs);
            Found {
                ty: t,
                errs: if second.ty == t {
                    second.errs
                } else {
                    note(
                        c,
                        second.errs,
                        "`if`/`else if` branches have incompatible types: `"@ + ty_text(t)
                            + "` and `"@ + ty_text(second.ty) + "` (Document 5 rule 5)"@,
                    )
                },
            }
        },
        None => Found { ty: t, errs: first.errs },
    }
}

/// One arm of a `match`.
pub open spec fn arm(
    c: Scope,
    env: Locals,
    a: MatchArm,
    expected: Option<Ty>,
    errs: Seq<Problem>,
) -> Found
    decreases a, 0nat,
{
    let inside = enter(env);
    let errs = match a.guard {
        Some(g) => part(c, inside, g, Some(Ty::Bool), errs).errs,
        None => errs,
    };
    match a.body {
        MatchArmBody::Expr(e) => part(c, inside, *e, told(*e, expected), errs),
        MatchArmBody::Block(b) => {
            let found = block(c, inside, b, told_block(b, expected), errs);
            Found { ty: or_unit(found.ty), errs: found.errs }
        },
    }
}

/// The first `n` arms of a `match`: all of the type expected, or else of the first arm's.
pub open spec fn arms(
    c: Scope,
    env: Locals,
    all: Seq<MatchArm>,
    expected: Option<Ty>,
    n: nat,
    errs: Seq<Problem>,
) -> MaybeFound
    decreases all, n,
{
    if n == 0 || n > all.len() {
        MaybeFound { ty: expected, errs }
    } else {
        let before = arms(c, env, all, expected, (n - 1) as nat, errs);
        let found = arm(c, env, all[n - 1], before.ty, before.errs);
        match before.ty {
            Some(t) => MaybeFound {
                ty: Some(t),
                errs: if t == found.ty {
                    found.errs
                } else {
                    note(
                        c,
                        found.errs,
                        "`match` arms have incompatible types: `"@ + ty_text(t) + "` and `"@
                            + ty_text(found.ty)
                            + "` (Document 5 rule 5: no cross-branch guessing)"@,
                    )
                },
            },
            None => MaybeFound { ty: Some(found.ty), errs: found.errs },
        }
    }
}

pub open spec fn match_expr(
    c: Scope,
    env: Locals,
    x: MatchExpr,
    expected: Option<Ty>,
    errs: Seq<Problem>,
) -> Found
    decreases x, 0nat,
{
    let scrutinee = part(c, env, x.scrutinee, None, errs);
    let found = arms(c, env, x.arms, expected, x.arms.len(), scrutinee.errs);
    Found { ty: or_unit(found.ty), errs: found.errs }
}

/// The names that the first `n` parameters of a closure bind.
pub open spec fn closure_locals(
    env: Locals,
    params: Seq<(Pattern, Option<Type>)>,
    n: nat,
) -> Locals
    decreases n,
{
    if n == 0 || n > params.len() {
        env
    } else {
        let before = closure_locals(env, params, (n - 1) as nat);
        match params[n - 1].0 {
            Pattern::Ident(name) => bind(
                before,
                name,
                match params[n - 1].1 {
                    Some(t) => resolve(t),
                    None => Ty::Unit,
                },
            ),
            _ => before,
        }
    }
}

/// The body of a closure.
pub open spec fn closure(c: Scope, env: Locals, x: ClosureExpr, errs: Seq<Problem>) -> Seq<Problem>
    decreases x, 0nat,
{
    let inside = closure_locals(enter(env), x.params, x.params.len());
    match x.body {
        ClosureBody::Expr(e) => part(c, inside, *e, None, errs).errs,
        ClosureBody::Block(b) => block(c, inside, b, None, errs).errs,
    }
}

/// A block, with names of its own; the type is that of its last expression.
pub open spec fn block(
    c: Scope,
    env: Locals,
    b: Block,
    expected: Option<Ty>,
    errs: Seq<Problem>,
) -> MaybeFound
    decreases b, 0nat,
{
    let after = stmts(c, enter(env), b.stmts, b.stmts.len(), errs);
    match b.tail {
        Some(e) => {
            let found = part(c, after.env, *e, expected, after.errs);
            MaybeFound { ty: Some(found.ty), errs: found.errs }
        },
        None => MaybeFound { ty: None, errs: after.errs },
    }
}

/// The local names after a statement, and the problems.
pub struct Bound {
    pub env: Locals,
    pub errs: Seq<Problem>,
}

/// The first `n` statements of a block.
pub open spec fn stmts(
    c: Scope,
    env: Locals,
    all: Seq<Stmt>,
    n: nat,
    errs: Seq<Problem>,
) -> Bound
    decreases all, n,
{
    if n == 0 || n > all.len() {
        Bound { env, errs }
    } else {
        let before = stmts(c, env, all, (n - 1) as nat, errs);
        stmt(c, before.env, all[n - 1], before.errs)
    }
}

/// With the name that a pattern binds, where it binds a single one.
pub open spec fn bind_pattern(env: Locals, p: Pattern, t: Ty) -> Locals {
    match p {
        Pattern::Ident(name) => bind(env, name, t),
        Pattern::Mut(name) => bind(env, name, t),
        _ => env,
    }
}

/// The type of a new name, by its annotation, or else by its value.
pub open spec fn let_type(
    c: Scope,
    annotated: Option<Ty>,
    value: Option<Ty>,
    errs: Seq<Problem>,
) -> Found {
    match (annotated, value) {
        (Some(t), _) => Found { ty: t, errs },
        (None, Some(t)) => Found { ty: t, errs },
        (None, None) => Found {
            ty: Ty::Unit,
            errs: note(c, errs, "cannot infer type: no annotation and no initializer"@),
        },
    }
}

/// The type that an annotation stands for, where there is one.
pub open spec fn annotation(c: Scope, t: Option<Type>, errs: Seq<Problem>) -> MaybeFound {
    match t {
        Some(t) => {
            let found = full_type(c, t, errs);
            MaybeFound { ty: Some(found.ty), errs: found.errs }
        },
        None => MaybeFound { ty: None, errs },
    }
}

/// A statement.
pub open spec fn stmt(c: Scope, env: Locals, s: Stmt, errs: Seq<Problem>) -> Bound
    decreases s, 0nat,
{
    match s {
        Stmt::Let { pattern, ty, value, .. } => {
            let annotated = annotation(c, ty, errs);
            let given = match value {
                Some(e) => {
                    let found = expr(c, env, e, annotated.ty, annotated.errs);
                    MaybeFound { ty: Some(found.ty), errs: found.errs }
                },
                None => MaybeFound { ty: None, errs: annotated.errs },
            };
            let found = let_type(c, annotated.ty, given.ty, given.errs);
            Bound { env: bind_pattern(env, pattern, found.ty), errs: found.errs }
        },
        Stmt::Expr(e) => Bound { env, errs: expr(c, env, e, None, errs).errs },
        _ => Bound { env, errs },
    }
}

/// The names that the first `n` parameters of a function bind; `own` is the type of the
/// receiver.
pub open spec fn param_locals(params: Seq<Param>, own: Option<Ty>, n: nat) -> Locals
    decreases n,
{
    if n == 0 || n > params.len() {
        enter(seq![])
    } else {
        let before = param_locals(params, own, (n - 1) as nat);
        let p = params[n - 1];
        if p.name == "self"@ {
            match own {
                Some(t) => bind(before, p.name, t),
                None => before,
            }
        } else {
            bind(before, p.name, read(p.ty, own_reading(own)))
        }
    }
}

/// How the types of a function are read.
pub open spec fn own_reading(own: Option<Ty>) -> Reading {
    match own {
        Some(t) => Reading::Within(t),
        None => Reading::Plain,
    }
}

/// A function with a body.
pub open spec fn function(reg: Registry, f: FnDecl, own: Option<Ty>, errs: Seq<Problem>) -> Seq<
    Problem,
> {
    match f.body {
        Some(body) => block(
            Scope { known: known(reg), name: f.name, own },
            param_locals(f.params, own, f.params.len()),
            body,
            match f.return_type {
                Some(t) => Some(read(t, own_reading(own))),
                None => None,
            },
            errs,
        ).errs,
        None => errs,
    }
}

/// The functions among the first `n` items of an `impl` block.
pub open spec fn impl_functions(
    reg: Registry,
    items: Seq<ImplItem>,
    own: Ty,
    n: nat,
    errs: Seq<Problem>,
) -> Seq<Problem>
    decreases n,
{
    if n == 0 || n > items.len() {
        errs
    } else {
        let before = impl_functions(reg, items, own, (n - 1) as nat, errs);
        match items[n - 1] {
            ImplItem::Fn(f) => function(reg, f, Some(own), before),
            ImplItem::AssocType(..) => before,
        }
    }
}

/// The function bodies of an item.
pub open spec fn check(reg: Registry, item: Item, errs: Seq<Problem>) -> Seq<Problem>
    decreases item, 0nat,
{
    match item.kind {
        ItemKind::Fn(f) => function(reg, f, None, errs),
        ItemKind::Impl(d) => impl_functions(
            reg,
            d.items,
            primitive(d.target.name),
            d.items.len(),
            errs,
        ),
        ItemKind::Mod(m) => check_all(reg, m.items, m.items.len(), errs),
        _ => errs,
    }
}

pub open spec fn check_all(reg: Registry, items: Seq<Item>, n: nat, errs: Seq<Problem>) -> Seq<
    Problem,
>
    decreases items, n,
{
    if n == 0 || n > items.len() {
        errs
    } else {
        check(reg, items[n - 1], check_all(reg, items, (n - 1) as nat, errs))
    }
}

/// A whole program: first everything is declared, then the `impl` blocks are added, then
/// the bodies are checked.
pub open spec fn checked(s: State, p: Program) -> State {
    let declared = State { reg: declare_all(s.reg, p.items, p.items.len()), errs: s.errs };
    let complete = add_all_impls(declared, p.items, p.items.len());
    State {
        reg: complete.reg,
        errs: check_all(complete.reg, p.items, p.items.len(), complete.errs),
    }
}

} // verus!
