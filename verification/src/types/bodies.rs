//! Checking bodies.
use crate::ast::{
    Arg, BinaryOp, Block, ClosureBody, ClosureExpr, ElseBranch, Expr, IfExpr, Literal, MatchArm,
    MatchArmBody, MatchExpr, Pattern, Stmt, Type, UnaryOp,
};
use crate::ast_tree::{opt_tree, trees, Syntax};
use crate::text::{same_text, show_i64, show_usize};
use crate::types::checks::{
    alike, annotation, arg_types, args_against, arithmetic, arm, arms, array, array_items, block,
    bool_operand, bound_problems, bounds_problems, call, closure, closure_locals, const_args,
    count_message, element_type, expr, expr_inner, field_type, full_type, generic_args,
    generic_result, generics_of, gives, held, if_expr, is_known, is_open, item_expected, known,
    known_method, lit_fields, literal, match_expr, matrix_multiply, method_call, missing_fields,
    name_type, op_name, operation, or_unit, part, path_type, receiver, stmt, stmts, struct_lit,
    told, told_block, told_found, tuple_items, unary, variant_call, with_dimensions, AllFound,
    ArgsFound, Bound, Found, Known, MaybeFound, Scope,
};
use crate::types::env::Env;
use crate::types::model::Registry;
use crate::types::names::{entries, first_of, last_of, Names};
use crate::types::registry::{note, subst_of_args, Declared};
use crate::types::resolve::{
    const_int_value, holds_type_param, resolve_type, substitute_type_params, ty_is_float,
    ty_is_numeric, ty_lookup_name, unify_types, without_type_params,
};
use crate::types::rules::method;
use crate::types::shapes::{EnumShape, FunctionShape, ParamKind, StructShape};
use crate::types::ty::{copy_args, opt_ty, same_args, GenericArg, Ty, TypeError};
use vstd::prelude::*;
use vstd::string::StringExecFns;

verus! {

/// Where a check takes place: the name of the function, and in a method the type of the
/// `impl`.
pub struct Ctx {
    pub name: String,
    pub own: Option<Ty>,
}

impl Ctx {
    /// What bodies are checked against there, with what is declared.
    pub open spec fn scope(self, reg: Registry) -> Scope {
        Scope { known: known(reg), name: self.name@, own: opt_tree(self.own) }
    }
}

/// What a part is told of the type expected of it, where the whole reports a mismatch.
fn tell<'a>(e: &Expr, expected: Option<&'a Ty>) -> (r: Option<&'a Ty>)
    ensures
        opt_ty(r) == told(e.tree(), opt_ty(expected)),
{
    proof {
        e.unfold();
    }
    if let Some(t) = expected {
        if let Expr::Literal(l) = e {
            proof {
                l.unfold();
            }
            let takes = match l {
                Literal::Int(_) | Literal::IntHex(_) | Literal::IntOct(_)
                | Literal::IntBin(_) => ty_is_numeric(t),
                Literal::Float(_) => ty_is_float(t),
                _ => true,
            };
            if !takes {
                return None;
            }
        }
    }
    expected
}

/// As `tell`, for the expression at the end of a block.
fn tell_block<'a>(b: &Block, expected: Option<&'a Ty>) -> (r: Option<&'a Ty>)
    ensures
        opt_ty(r) == told_block(b.tree(), opt_ty(expected)),
{
    proof {
        b.unfold();
    }
    match &b.tail {
        Some(e) => tell(e, expected),
        None => expected,
    }
}

/// What a part is told of the type found for another one.
fn tell_found<'a>(e: &Expr, t: &'a Ty) -> (r: Option<&'a Ty>)
    ensures
        opt_ty(r) == told_found(e.tree(), t.tree()),
{
    proof {
        e.unfold();
        t.unfold();
    }
    if let Expr::Literal(l) = e {
        proof {
            l.unfold();
        }
        if matches!(l, Literal::Int(_) | Literal::IntHex(_) | Literal::IntOct(_)
            | Literal::IntBin(_) | Literal::Float(_)) && matches!(t, Ty::Unit) {
            return None;
        }
    }
    Some(t)
}

/// Whether a value of the one type can stand where the other is asked for.
fn types_alike(a: &Ty, b: &Ty) -> (r: bool)
    ensures
        r == alike(a.tree(), b.tree()),
{
    if a.same(b) {
        return true;
    }
    if holds_type_param(a) && holds_type_param(b) {
        return false;
    }
    without_type_params(a).same(&without_type_params(b))
}

/// What is expected, or the unit type.
fn expected_or_unit(expected: Option<&Ty>) -> (r: Ty)
    ensures
        r.tree() == or_unit(opt_ty(expected)),
{
    match expected {
        Some(t) => t.copy(),
        None => {
            let made = Ty::Unit;
            proof {
                made.unfold();
            }
            made
        },
    }
}

fn ty_or_unit(t: Option<Ty>) -> (r: Ty)
    ensures
        r.tree() == or_unit(opt_tree(t)),
{
    match t {
        Some(t) => t,
        None => {
            let made = Ty::Unit;
            proof {
                made.unfold();
            }
            made
        },
    }
}

/// The name of a binary operator.
fn name_of_op(op: BinaryOp) -> (r: &'static str)
    ensures
        r@ == op_name(op),
{
    match op {
        BinaryOp::Add => "Add",
        BinaryOp::Sub => "Sub",
        BinaryOp::Mul => "Mul",
        BinaryOp::Div => "Div",
        BinaryOp::Mod => "Mod",
        BinaryOp::Pow => "Pow",
        BinaryOp::EqEq => "EqEq",
        BinaryOp::NotEq => "NotEq",
        BinaryOp::Lt => "Lt",
        BinaryOp::Gt => "Gt",
        BinaryOp::LtEq => "LtEq",
        BinaryOp::GtEq => "GtEq",
        BinaryOp::AndAnd => "AndAnd",
        BinaryOp::OrOr => "OrOr",
        BinaryOp::BitAnd => "BitAnd",
        BinaryOp::BitOr => "BitOr",
        BinaryOp::BitXor => "BitXor",
        BinaryOp::Shl => "Shl",
        BinaryOp::Shr => "Shr",
        BinaryOp::Coalesce => "Coalesce",
    }
}

/// The values among generic arguments.
fn values_of(args: &Vec<GenericArg>) -> (r: Vec<i64>)
    ensures
        r@ == const_args(trees(args@), args@.len()),
{
    let mut r: Vec<i64> = Vec::new();
    let mut i: usize = 0;
    while i < args.len()
        invariant
            i <= args@.len(),
            r@ == const_args(trees(args@), i as nat),
        decreases args@.len() - i,
    {
        proof {
            args@[i as int].unfold();
        }
        if let GenericArg::Const(v) = &args[i] {
            r.push(*v);
        }
        i = i + 1;
    }
    r
}

/// The arguments with `rows` in the place of the first value and `cols` in that of the
/// others.
fn redimension(args: &Vec<GenericArg>, rows: i64, cols: i64) -> (r: Vec<GenericArg>)
    ensures
        trees(r@) == with_dimensions(trees(args@), rows, cols),
{
    let mut r: Vec<GenericArg> = Vec::new();
    let mut none_yet = true;
    let mut i: usize = 0;
    while i < args.len()
        invariant
            i <= args@.len(),
            r@.len() == i,
            none_yet == (const_args(trees(args@), i as nat).len() == 0),
            forall|k: int|
                0 <= k < i ==> (#[trigger] trees(r@)[k]) == with_dimensions(
                    trees(args@),
                    rows,
                    cols,
                )[k],
        decreases args@.len() - i,
    {
        let ghost before = r@;
        proof {
            args@[i as int].unfold();
        }
        let made = match &args[i] {
            GenericArg::Const(_) => {
                let v = if none_yet {
                    rows
                } else {
                    cols
                };
                none_yet = false;
                GenericArg::Const(v)
            },
            GenericArg::Type(t) => GenericArg::Type(t.copy()),
        };
        proof {
            made.unfold();
        }
        r.push(made);
        assert(forall|k: int| 0 <= k < i ==> (#[trigger] trees(r@)[k]) == trees(before)[k]);
        i = i + 1;
    }
    assert(trees(r@) =~= with_dimensions(trees(args@), rows, cols));
    r
}

/// Whether a struct literal gives a field a value.
fn gives_field(fields: &Vec<(String, Expr)>, name: &str) -> (r: bool)
    ensures
        r == gives(trees(fields@), name@),
{
    let mut i: usize = 0;
    while i < fields.len()
        invariant
            i <= fields@.len(),
            forall|k: int| 0 <= k < i ==> (#[trigger] trees(fields@)[k]).0 != name@,
        decreases fields@.len() - i,
    {
        if same_text(fields[i].0.as_str(), name) {
            assert(trees(fields@)[i as int].0 == name@);
            return true;
        }
        i = i + 1;
    }
    false
}

impl Declared {
    pub open spec fn scope(self, ctx: Ctx) -> Scope {
        ctx.scope(self.reg())
    }

    /// The generic parameters of a struct or enum.
    fn generics(&self, name: &str) -> (r: Option<&Vec<ParamKind>>)
        ensures
            match r {
                Some(ps) => generics_of(known(self.reg()), name@) == Some(trees(ps@)),
                None => generics_of(known(self.reg()), name@) is None,
            },
    {
        match self.structs.get(name) {
            Some(shape) => Some(&shape.generics),
            None => match self.enums.get(name) {
                Some(shape) => Some(&shape.generics),
                None => None,
            },
        }
    }

    /// The type that an annotation stands for, with its generic arguments held against the
    /// declaration.
    fn resolve_type_full(
        &self,
        t: &Type,
        ctx: &Ctx,
        errors: &mut Vec<TypeError>,
    ) -> (r: Ty)
        ensures
            (Found { ty: r.tree(), errs: trees(final(errors)@) }) == full_type(
                self.scope(*ctx),
                t.tree(),
                trees(old(errors)@),
            ),
        decreases t, 1nat,
    {
        proof {
            t.unfold();
        }
        if let Type::Named(name, args) = t {
            if args.len() > 0 {
                if let Some(ps) = self.generics(name.as_str()) {
                    if args.len() != ps.len() {
                        let message = "`".to_owned()
                            .concat(name.as_str())
                            .concat("` expects ")
                            .concat(show_usize(ps.len()).as_str())
                            .concat(" generic argument(s), found ")
                            .concat(show_usize(args.len()).as_str());
                        note(errors, message, ctx.name.clone());
                        let made = Ty::Named(name.clone());
                        proof {
                            made.unfold();
                        }
                        made
                    } else {
                        let (found, bad) = self.resolve_generic_args(
                            name.as_str(),
                            ps,
                            args,
                            ctx,
                            errors,
                        );
                        let made = if bad {
                            Ty::Named(name.clone())
                        } else {
                            Ty::Generic(name.clone(), found)
                        };
                        proof {
                            made.unfold();
                        }
                        made
                    }
                } else {
                    resolve_type(t)
                }
            } else {
                resolve_type(t)
            }
        } else {
            resolve_type(t)
        }
    }

    /// The generic arguments, each of the kind that its parameter asks for, and whether one
    /// was of the wrong kind.
    #[verifier::rlimit(40)]
    fn resolve_generic_args(
        &self,
        name: &str, ps: &Vec<ParamKind>, args: &Vec<Type>,
        ctx: &Ctx,
        errors: &mut Vec<TypeError>,
    ) -> (r: (Vec<GenericArg>, bool))
        requires
            args@.len() == ps@.len(),
        ensures
            (ArgsFound { args: trees(r.0@), bad: r.1, errs: trees(final(errors)@) }) == generic_args(
                self.scope(*ctx),
                name@,
                trees(ps@),
                trees(args@),
                args@.len(),
                trees(old(errors)@),
            ),
        decreases args, 0nat,
    {
        let ghost start = trees(errors@);
        let mut found: Vec<GenericArg> = Vec::new();
        let mut bad = false;
        let mut i: usize = 0;
        assert(trees(found@) =~= seq![]);
        while i < args.len()
            invariant
                i <= args@.len(),
                args@.len() == ps@.len(),
                (ArgsFound { args: trees(found@), bad, errs: trees(errors@) }) == generic_args(
                    self.scope(*ctx),
                    name@,
                    trees(ps@),
                    trees(args@),
                    i as nat,
                    start,
                ),
            decreases args@.len() - i,
        {
            let arg = &args[i];
            proof {
                arg.unfold();
            }
            let ghost before = found@;
            match &ps[i] {
                ParamKind::Type { .. } => match arg {
                    Type::ConstArg(_) => {
                        let message = "`".to_owned()
                            .concat(name)
                            .concat("`: expected a type argument, found a const value");
                        note(errors, message, ctx.name.clone());
                        bad = true;
                    },
                    _ => {
                        let t = self.resolve_type_full(arg, ctx, errors);
                        let made = GenericArg::Type(t);
                        proof {
                            made.unfold();
                        }
                        found.push(made);
                        assert(trees(found@) =~= trees(before).push(made.tree()));
                    },
                },
                ParamKind::Const { .. } => match arg {
                    Type::ConstArg(e) => match const_int_value(e) {
                        Some(v) => {
                            let made = GenericArg::Const(v);
                            proof {
                                made.unfold();
                            }
                            found.push(made);
                            assert(trees(found@) =~= trees(before).push(made.tree()));
                        },
                        None => {
                            let message = "`".to_owned()
                                .concat(name)
                                .concat("`: const-generic argument must be an integer literal");
                            note(errors, message, ctx.name.clone());
                            bad = true;
                        },
                    },
                    _ => {
                        let message = "`".to_owned()
                            .concat(name)
                            .concat("`: expected a const value argument, found a type");
                        note(errors, message, ctx.name.clone());
                        bad = true;
                    },
                },
            }
            i = i + 1;
        }
        (found, bad)
    }

    /// Whether a type may turn out to be any type.
    fn is_open_type(&self, t: &Ty) -> (r: bool)
        ensures
            r == is_open(known(self.reg()), t.tree()),
    {
        proof {
            t.unfold();
        }
        if holds_type_param(t) {
            return true;
        }
        match t {
            Ty::Named(n) => !self.structs.contains_key(n.as_str()) && !self.enums.contains_key(
                n.as_str(),
            ),
            _ => false,
        }
    }

    /// Holds a type against what is expected.
    fn check_compatible(
        &self,
        actual: Ty,
        expected: Option<&Ty>,
        ctx: &Ctx,
        errors: &mut Vec<TypeError>,
    ) -> (r: Ty)
        ensures
            (Found { ty: r.tree(), errs: trees(final(errors)@) }) == held(
                self.scope(*ctx),
                Found { ty: actual.tree(), errs: trees(old(errors)@) },
                opt_ty(expected),
            ),
    {
        if let Some(t) = expected {
            if types_alike(&actual, t) {
                return t.copy();
            }
            let message = "expected `".to_owned()
                .concat(t.show().as_str())
                .concat("`, found `")
                .concat(actual.show().as_str())
                .concat("` (Document 5 §6: no implicit coercion, use `as`)");
            note(errors, message, ctx.name.clone());
        }
        actual
    }

    /// The type of an expression, held against what is expected. A problem is noted, and
    /// checking goes on. No type parameter comes out, but where one is expected.
    pub fn check_expr(
        &self,
        e: &Expr,
        expected: Option<&Ty>,
        env: &mut Env,
        ctx: &Ctx,
        errors: &mut Vec<TypeError>,
    ) -> (r: Ty)
        ensures
            final(env).locals() == old(env).locals(),
            (Found { ty: r.tree(), errs: trees(final(errors)@) }) == expr(
                self.scope(*ctx),
                old(env).locals(),
                e.tree(),
                opt_ty(expected),
                trees(old(errors)@),
            ),
        decreases e, 11nat,
    {
        let t = self.check_part(e, expected, env, ctx, errors);
        if let Some(x) = expected {
            if t.same(x) {
                return t;
            }
        }
        without_type_params(&t)
    }

    /// As `check_expr`, for a part of another expression: its type may still hold a type
    /// parameter.
    fn check_part(
        &self,
        e: &Expr,
        expected: Option<&Ty>,
        env: &mut Env,
        ctx: &Ctx,
        errors: &mut Vec<TypeError>,
    ) -> (r: Ty)
        ensures
            final(env).locals() == old(env).locals(),
            (Found { ty: r.tree(), errs: trees(final(errors)@) }) == part(
                self.scope(*ctx),
                old(env).locals(),
                e.tree(),
                opt_ty(expected),
                trees(old(errors)@),
            ),
        decreases e, 10nat,
    {
        let actual = self.check_expr_inner(e, expected, env, ctx, errors);
        proof {
            e.unfold();
        }
        let self_checking = match e {
            Expr::Literal(l) => {
                proof {
                    l.unfold();
                }
                match l {
                    Literal::Null => true,
                    Literal::Int(_) | Literal::IntHex(_) | Literal::IntOct(_) | Literal::IntBin(_)
                    | Literal::Float(_) => match expected {
                        Some(t) => self.is_open_type(t),
                        None => false,
                    },
                    _ => false,
                }
            },
            _ => false,
        };
        if self_checking {
            actual
        } else {
            self.check_compatible(actual, expected, ctx, errors)
        }
    }

    #[verifier::rlimit(60)]
    fn check_expr_inner(
        &self,
        e: &Expr,
        expected: Option<&Ty>,
        env: &mut Env,
        ctx: &Ctx,
        errors: &mut Vec<TypeError>,
    ) -> (r: Ty)
        ensures
            final(env).locals() == old(env).locals(),
            (Found { ty: r.tree(), errs: trees(final(errors)@) }) == expr_inner(
                self.scope(*ctx),
                old(env).locals(),
                e.tree(),
                opt_ty(expected),
                trees(old(errors)@),
            ),
        decreases e, 9nat,
    {
        proof {
            e.unfold();
        }
        match e {
            Expr::Literal(l) => self.check_literal(l, expected, ctx, errors),
            Expr::Ident(name) => self.check_name(name, expected, env, ctx, errors),
            Expr::Path(path) => self.check_path(path, expected, ctx, errors),
            Expr::Paren(inner) => self.check_part(
                inner,
                tell(inner, expected),
                env,
                ctx,
                errors,
            ),
            Expr::Array(items) => self.check_array(items, expected, env, ctx, errors),
            Expr::Tuple(items) => {
                let tys = self.check_tuple_items(items, expected, env, ctx, errors);
                let made = Ty::Tuple(tys);
                proof {
                    made.unfold();
                }
                made
            },
            Expr::StructLit { name, fields, spread } => self.check_struct_lit(
                name,
                fields,
                spread.is_some(),
                expected,
                env,
                ctx,
                errors,
            ),
            Expr::If(x) => self.check_if(x, expected, env, ctx, errors),
            Expr::Match(x) => self.check_match(x, expected, env, ctx, errors),
            Expr::Block(b) => {
                let t = self.check_block(b, tell_block(b, expected), env, ctx, errors);
                ty_or_unit(t)
            },
            Expr::Unsafe(b) => {
                let t = self.check_block(b, tell_block(b, expected), env, ctx, errors);
                ty_or_unit(t)
            },
            Expr::Unary { op, expr: inner } => {
                let t = self.check_part(inner, tell(inner, expected), env, ctx, errors);
                self.check_unary(*op, t, ctx, errors)
            },
            Expr::Binary { op, lhs, rhs } => {
                let lt = self.check_part(lhs, None, env, ctx, errors);
                proof {
                    lt.unfold();
                }
                let hint = match &lt {
                    Ty::Generic(..) => None,
                    _ => Some(&lt),
                };
                let rt = self.check_part(rhs, tell(rhs, hint), env, ctx, errors);
                self.check_operation(*op, lt, rt, ctx, errors)
            },
            Expr::Assign { lhs, rhs, .. } => {
                let lt = self.check_part(lhs, None, env, ctx, errors);
                self.check_part(rhs, tell_found(rhs, &lt), env, ctx, errors);
                let made = Ty::Unit;
                proof {
                    made.unfold();
                }
                made
            },
            Expr::Cast { expr: inner, ty } => {
                self.check_part(inner, None, env, ctx, errors);
                self.resolve_type_full(ty, ctx, errors)
            },
            Expr::Range { lo, hi, .. } => {
                let lt = self.check_part(lo, None, env, ctx, errors);
                self.check_part(hi, tell_found(hi, &lt), env, ctx, errors);
                lt
            },
            Expr::Propagate(inner) => self.check_part(inner, None, env, ctx, errors),
            Expr::Field { expr: inner, name } => {
                let t = self.check_part(inner, None, env, ctx, errors);
                self.field_type(&t, name.as_str(), ctx, errors)
            },
            Expr::Index { expr: inner, index } => {
                let t = self.check_part(inner, None, env, ctx, errors);
                self.check_part(index, None, env, ctx, errors);
                self.element_type(t, ctx, errors)
            },
            Expr::Call { callee, args } => self.check_call(
                callee,
                args,
                expected,
                env,
                ctx,
                errors,
            ),
            Expr::MethodCall { receiver, name, args } => {
                let t = self.check_part(receiver, None, env, ctx, errors);
                self.check_method_call(&t, name.as_str(), args, expected, env, ctx, errors)
            },
            Expr::Borrow { expr: inner, mutable } => {
                let mut hint: Option<&Ty> = None;
                if let Some(t) = expected {
                    proof {
                        t.unfold();
                    }
                    if let Ty::Ref(_, inside) = t {
                        hint = Some(&**inside);
                    }
                }
                let t = self.check_part(inner, tell(inner, hint), env, ctx, errors);
                let made = Ty::Ref(*mutable, Box::new(t));
                proof {
                    made.unfold();
                }
                made
            },
            Expr::Await(inner) => {
                self.check_part(inner, None, env, ctx, errors);
                expected_or_unit(expected)
            },
            Expr::Throw(inner) => {
                self.check_part(inner, None, env, ctx, errors);
                expected_or_unit(expected)
            },
            Expr::Return(inner) => {
                if let Some(v) = inner {
                    self.check_part(v, None, env, ctx, errors);
                }
                let made = Ty::Never;
                proof {
                    made.unfold();
                }
                made
            },
            Expr::Yield(inner) => {
                self.check_part(inner, None, env, ctx, errors);
                let made = Ty::Unit;
                proof {
                    made.unfold();
                }
                made
            },
            Expr::Closure(x) => {
                self.check_closure(x, env, ctx, errors);
                expected_or_unit(expected)
            },
            _ => expected_or_unit(expected),
        }
    }

    fn check_literal(
        &self,
        l: &Literal,
        expected: Option<&Ty>,
        ctx: &Ctx,
        errors: &mut Vec<TypeError>,
    ) -> (r: Ty)
        ensures
            (Found { ty: r.tree(), errs: trees(final(errors)@) }) == literal(
                self.scope(*ctx),
                l.tree(),
                opt_ty(expected),
                trees(old(errors)@),
            ),
    {
        proof {
            l.unfold();
        }
        match l {
            Literal::Int(_) | Literal::IntHex(_) | Literal::IntOct(_) | Literal::IntBin(_) => {
                if let Some(t) = expected {
                    if ty_is_numeric(t) {
                        return t.copy();
                    }
                }
                let made = Ty::I32;
                proof {
                    made.unfold();
                }
                made
            },
            Literal::Float(_) => {
                if let Some(t) = expected {
                    if ty_is_float(t) {
                        return t.copy();
                    }
                }
                let made = Ty::F64;
                proof {
                    made.unfold();
                }
                made
            },
            Literal::Str(_) | Literal::RawStr(_) => {
                let made = Ty::StringTy;
                proof {
                    made.unfold();
                }
                made
            },
            Literal::Char(_) => {
                let made = Ty::Char;
                proof {
                    made.unfold();
                }
                made
            },
            Literal::Bool(_) => {
                let made = Ty::Bool;
                proof {
                    made.unfold();
                }
                made
            },
            Literal::Null => {
                if let Some(t) = expected {
                    proof {
                        t.unfold();
                    }
                    if !matches!(t, Ty::Null) {
                        let message = "`null` is not usable where `".to_owned()
                            .concat(t.show().as_str())
                            .concat("` is expected -- use `Option<T>` in safe code (Document 5 §2.6)");
                        note(errors, message, ctx.name.clone());
                    }
                }
                let made = Ty::Null;
                proof {
                    made.unfold();
                }
                made
            },
        }
    }

    fn check_name(
        &self,
        name: &String,
        expected: Option<&Ty>,
        env: &mut Env,
        ctx: &Ctx,
        errors: &mut Vec<TypeError>,
    ) -> (r: Ty)
        ensures
            final(env).locals() == old(env).locals(),
            (Found { ty: r.tree(), errs: trees(final(errors)@) }) == name_type(
                self.scope(*ctx),
                old(env).locals(),
                name@,
                opt_ty(expected),
                trees(old(errors)@),
            ),
    {
        if let Some(t) = env.get(name.as_str()) {
            return t.copy();
        }
        let message = "undefined variable `".to_owned().concat(name.as_str()).concat("`");
        note(errors, message, ctx.name.clone());
        expected_or_unit(expected)
    }

    /// A path on its own: a variant without data where the first of two names is an enum.
    fn check_path(
        &self,
        path: &Vec<String>,
        expected: Option<&Ty>,
        ctx: &Ctx,
        errors: &mut Vec<TypeError>,
    ) -> (r: Ty)
        ensures
            (Found { ty: r.tree(), errs: trees(final(errors)@) }) == path_type(
                self.scope(*ctx),
                trees(path@),
                opt_ty(expected),
                trees(old(errors)@),
            ),
    {
        assert(trees(path@).len() == path@.len());
        if path.len() == 2 {
            let enum_name = &path[0];
            let variant = &path[1];
            assert(trees(path@)[0] == enum_name@ && trees(path@)[1] == variant@);
            if let Some(shape) = self.enums.get(enum_name.as_str()) {
                match first_of(&shape.variants, variant.as_str()) {
                    Some(data) => {
                        if data.len() > 0 {
                            let message = "enum variant `".to_owned()
                                .concat(enum_name.as_str())
                                .concat("::")
                                .concat(variant.as_str())
                                .concat("` carries data and must be called with arguments");
                            note(errors, message, ctx.name.clone());
                        }
                    },
                    None => {
                        let message = "enum `".to_owned()
                            .concat(enum_name.as_str())
                            .concat("` has no variant `")
                            .concat(variant.as_str())
                            .concat("`");
                        note(errors, message, ctx.name.clone());
                    },
                }
                let made = Ty::Named(enum_name.clone());
                proof {
                    made.unfold();
                }
                return made;
            }
        }
        expected_or_unit(expected)
    }

    /// An array literal: all elements of the type of the first; an empty one needs to be
    /// told.
    fn check_array(
        &self,
        items: &Vec<Expr>,
        expected: Option<&Ty>,
        env: &mut Env,
        ctx: &Ctx,
        errors: &mut Vec<TypeError>,
    ) -> (r: Ty)
        ensures
            final(env).locals() == old(env).locals(),
            (Found { ty: r.tree(), errs: trees(final(errors)@) }) == array(
                self.scope(*ctx),
                old(env).locals(),
                trees(items@),
                opt_ty(expected),
                trees(old(errors)@),
            ),
        decreases items, 1nat,
    {
        assert(trees(items@).len() == items@.len());
        let mut hint: Option<&Ty> = None;
        if let Some(t) = expected {
            proof {
                t.unfold();
            }
            if let Ty::Array(inside) = t {
                hint = Some(&**inside);
            }
        }
        if items.len() == 0 {
            let inside = match hint {
                Some(t) => t.copy(),
                None => {
                    let message = "cannot infer type of empty array literal `[]` -- add an explicit type annotation".to_owned();
                    note(errors, message, ctx.name.clone());
                    let made = Ty::Unit;
                    proof {
                        made.unfold();
                    }
                    made
                },
            };
            let made = Ty::Array(Box::new(inside));
            proof {
                made.unfold();
            }
            made
        } else {
            let head = self.check_part(&items[0], tell(&items[0], hint), env, ctx, errors);
            self.check_array_items(items, &head, env, ctx, errors);
            let made = Ty::Array(Box::new(head));
            proof {
                made.unfold();
            }
            made
        }
    }

    /// The elements from the second on.
    fn check_array_items(
        &self,
        items: &Vec<Expr>, head: &Ty,
        env: &mut Env,
        ctx: &Ctx,
        errors: &mut Vec<TypeError>,
    )
        ensures
            final(env).locals() == old(env).locals(),
            trees(final(errors)@) == array_items(
                self.scope(*ctx),
                old(env).locals(),
                trees(items@),
                head.tree(),
                items@.len(),
                trees(old(errors)@),
            ),
        decreases items, 0nat,
    {
        let ghost start = trees(errors@);
        let ghost outer = env.locals();
        let mut i: usize = 1;
        while i < items.len()
            invariant
                items@.len() > 0 ==> i <= items@.len(),
                i >= 1,
                env.locals() == outer,
                trees(errors@) == array_items(
                    self.scope(*ctx),
                    outer,
                    trees(items@),
                    head.tree(),
                    i as nat,
                    start,
                ),
            decreases items@.len() - i,
        {
            let t = self.check_part(&items[i], tell(&items[i], Some(head)), env, ctx, errors);
            if !t.same(head) {
                let message = "array element type mismatch: expected `".to_owned()
                    .concat(head.show().as_str())
                    .concat("`, found `")
                    .concat(t.show().as_str())
                    .concat("`");
                note(errors, message, ctx.name.clone());
            }
            i = i + 1;
        }
    }

    fn check_tuple_items(
        &self,
        items: &Vec<Expr>,
        expected: Option<&Ty>,
        env: &mut Env,
        ctx: &Ctx,
        errors: &mut Vec<TypeError>,
    ) -> (r: Vec<Ty>)
        ensures
            final(env).locals() == old(env).locals(),
            (AllFound { tys: trees(r@), errs: trees(final(errors)@) }) == tuple_items(
                self.scope(*ctx),
                old(env).locals(),
                trees(items@),
                opt_ty(expected),
                items@.len(),
                trees(old(errors)@),
            ),
        decreases items, 0nat,
    {
        assert(trees(items@).len() == items@.len());
        let ghost start = trees(errors@);
        let ghost outer = env.locals();
        let mut hints: Option<&Vec<Ty>> = None;
        if let Some(t) = expected {
            proof {
                t.unfold();
            }
            if let Ty::Tuple(ts) = t {
                assert(trees(ts@).len() == ts@.len());
                if ts.len() == items.len() {
                    hints = Some(ts);
                }
            }
        }
        let mut found: Vec<Ty> = Vec::new();
        let mut i: usize = 0;
        assert(trees(found@) =~= seq![]);
        while i < items.len()
            invariant
                i <= items@.len(),
                trees(items@).len() == items@.len(),
                env.locals() == outer,
                match hints {
                    Some(ts) => ts@.len() == items@.len() && forall|k: int|
                        0 <= k < ts@.len() ==> #[trigger] item_expected(
                            opt_ty(expected),
                            items@.len(),
                            k,
                        ) == Some(ts@[k].tree()),
                    None => forall|k: int|
                        0 <= k < items@.len() ==> #[trigger] item_expected(
                            opt_ty(expected),
                            items@.len(),
                            k,
                        ) is None,
                },
                (AllFound { tys: trees(found@), errs: trees(errors@) }) == tuple_items(
                    self.scope(*ctx),
                    outer,
                    trees(items@),
                    opt_ty(expected),
                    i as nat,
                    start,
                ),
            decreases items@.len() - i,
        {
            let hint = match hints {
                Some(ts) => Some(&ts[i]),
                None => None,
            };
            assert(opt_ty(hint) == item_expected(opt_ty(expected), items@.len(), i as int));
            let ghost before = found@;
            let t = self.check_part(&items[i], tell(&items[i], hint), env, ctx, errors);
            found.push(t);
            assert(trees(found@) =~= trees(before).push(t.tree()));
            i = i + 1;
        }
        found
    }

    fn check_unary(
        &self,
        op: UnaryOp, t: Ty,
        ctx: &Ctx,
        errors: &mut Vec<TypeError>,
    ) -> (r: Ty)
        ensures
            (Found { ty: r.tree(), errs: trees(final(errors)@) }) == unary(
                self.scope(*ctx),
                op,
                t.tree(),
                trees(old(errors)@),
            ),
    {
        proof {
            t.unfold();
        }
        match op {
            UnaryOp::Not => {
                if !matches!(t, Ty::Bool) {
                    let message = "`!` requires `bool`, found `".to_owned()
                        .concat(t.show().as_str())
                        .concat("`");
                    note(errors, message, ctx.name.clone());
                }
                let made = Ty::Bool;
                proof {
                    made.unfold();
                }
                made
            },
            UnaryOp::Neg => {
                if !ty_is_numeric(&t) {
                    let message = "unary `-` requires a numeric type, found `".to_owned()
                        .concat(t.show().as_str())
                        .concat("`");
                    note(errors, message, ctx.name.clone());
                }
                t
            },
            UnaryOp::BitNot => t,
        }
    }

    /// A binary operator on operands of two types.
    fn check_operation(
        &self,
        op: BinaryOp, lt: Ty, rt: Ty,
        ctx: &Ctx,
        errors: &mut Vec<TypeError>,
    ) -> (r: Ty)
        ensures
            (Found { ty: r.tree(), errs: trees(final(errors)@) }) == operation(
                self.scope(*ctx),
                op,
                lt.tree(),
                rt.tree(),
                trees(old(errors)@),
            ),
    {
        proof {
            lt.unfold();
            rt.unfold();
        }
        match op {
            BinaryOp::Mul => {
                if let (Ty::Generic(ln, largs), Ty::Generic(rn, rargs)) = (&lt, &rt) {
                    if same_text(ln.as_str(), rn.as_str()) {
                        return self.check_matrix_multiply(ln, largs, rargs, ctx, errors);
                    }
                }
                self.check_arithmetic(op, lt, rt, ctx, errors)
            },
            BinaryOp::Add | BinaryOp::Sub | BinaryOp::Div | BinaryOp::Mod | BinaryOp::Pow
            | BinaryOp::BitAnd | BinaryOp::BitOr | BinaryOp::BitXor | BinaryOp::Shl
            | BinaryOp::Shr => self.check_arithmetic(op, lt, rt, ctx, errors),
            BinaryOp::EqEq | BinaryOp::NotEq | BinaryOp::Lt | BinaryOp::Gt | BinaryOp::LtEq
            | BinaryOp::GtEq => {
                if !lt.same(&rt) {
                    let message = "comparison between mismatched types `".to_owned()
                        .concat(lt.show().as_str())
                        .concat("` and `")
                        .concat(rt.show().as_str())
                        .concat("` (Document 5 §6)");
                    note(errors, message, ctx.name.clone());
                }
                let made = Ty::Bool;
                proof {
                    made.unfold();
                }
                made
            },
            BinaryOp::AndAnd | BinaryOp::OrOr => {
                self.check_bool_operand(&lt, ctx, errors);
                self.check_bool_operand(&rt, ctx, errors);
                let made = Ty::Bool;
                proof {
                    made.unfold();
                }
                made
            },
            BinaryOp::Coalesce => match lt {
                Ty::OptionTy(t) => *t,
                _ => lt,
            },
        }
    }

    fn check_bool_operand(
        &self,
        t: &Ty,
        ctx: &Ctx,
        errors: &mut Vec<TypeError>,
    )
        ensures
            trees(final(errors)@) == bool_operand(self.scope(*ctx), t.tree(), trees(old(errors)@)),
    {
        proof {
            t.unfold();
        }
        if !matches!(t, Ty::Bool) {
            let message = "`&&`/`||` requires `bool`, found `".to_owned()
                .concat(t.show().as_str())
                .concat("`");
            note(errors, message, ctx.name.clone());
        }
    }

    /// An operator whose operands have to be of one type, which is the result's too.
    fn check_arithmetic(
        &self,
        op: BinaryOp, lt: Ty, rt: Ty,
        ctx: &Ctx,
        errors: &mut Vec<TypeError>,
    ) -> (r: Ty)
        ensures
            (Found { ty: r.tree(), errs: trees(final(errors)@) }) == arithmetic(
                self.scope(*ctx),
                op,
                lt.tree(),
                rt.tree(),
                trees(old(errors)@),
            ),
    {
        if !lt.same(&rt) {
            let message = "`".to_owned()
                .concat(name_of_op(op))
                .concat("`: mismatched types `")
                .concat(lt.show().as_str())
                .concat("` and `")
                .concat(rt.show().as_str())
                .concat("` (Document 5 §6: no implicit coercion, use `as`)");
            note(errors, message, ctx.name.clone());
        }
        lt
    }

    /// `*` on two values of one generic struct. With two values each among the arguments
    /// they are rows and columns, and the columns of the left have to be the rows of the
    /// right.
    fn check_matrix_multiply(
        &self,
        name: &String, largs: &Vec<GenericArg>, rargs: &Vec<GenericArg>,
        ctx: &Ctx,
        errors: &mut Vec<TypeError>,
    ) -> (r: Ty)
        ensures
            (Found { ty: r.tree(), errs: trees(final(errors)@) }) == matrix_multiply(
                self.scope(*ctx),
                name@,
                trees(largs@),
                trees(rargs@),
                trees(old(errors)@),
            ),
    {
        assert(trees(largs@).len() == largs@.len() && trees(rargs@).len() == rargs@.len());
        let l = values_of(largs);
        let r = values_of(rargs);
        if l.len() == 2 && r.len() == 2 {
            if l[1] != r[0] {
                let message = "cannot multiply `".to_owned()
                    .concat(name.as_str())
                    .concat("` with column count ")
                    .concat(show_i64(l[1]).as_str())
                    .concat(" by `")
                    .concat(name.as_str())
                    .concat("` with row count ")
                    .concat(show_i64(r[0]).as_str())
                    .concat(": dimension mismatch (Document 8 §9)");
                note(errors, message, ctx.name.clone());
                let made = Ty::Generic(name.clone(), copy_args(largs));
                proof {
                    made.unfold();
                }
                made
            } else {
                let made = Ty::Generic(name.clone(), redimension(largs, l[0], r[1]));
                proof {
                    made.unfold();
                }
                made
            }
        } else {
            if !same_args(largs, rargs) {
                let message = "`*`: mismatched generic arguments for `".to_owned()
                    .concat(name.as_str())
                    .concat("`");
                note(errors, message, ctx.name.clone());
            }
            let made = Ty::Generic(name.clone(), copy_args(largs));
            proof {
                made.unfold();
            }
            made
        }
    }

    /// The type of a field. Of what is not a known struct nothing is said.
    fn field_type(
        &self,
        base: &Ty, field: &str,
        ctx: &Ctx,
        errors: &mut Vec<TypeError>,
    ) -> (r: Ty)
        ensures
            (Found { ty: r.tree(), errs: trees(final(errors)@) }) == field_type(
                self.scope(*ctx),
                base.tree(),
                field@,
                trees(old(errors)@),
            ),
    {
        proof {
            base.unfold();
        }
        match base {
            Ty::Named(n) => {
                if let Some(shape) = self.structs.get(n.as_str()) {
                    if let Some(t) = first_of(&shape.fields, field) {
                        return t.copy();
                    }
                    let message = "struct `".to_owned()
                        .concat(n.as_str())
                        .concat("` has no field `")
                        .concat(field)
                        .concat("`");
                    note(errors, message, ctx.name.clone());
                }
            },
            Ty::Generic(n, args) => {
                if let Some(shape) = self.structs.get(n.as_str()) {
                    if let Some(t) = first_of(&shape.fields, field) {
                        assert(trees(args@).len() == args@.len());
                        assert(trees(shape.generics@).len() == shape.generics@.len());
                        let count = if shape.generics.len() <= args.len() {
                            shape.generics.len()
                        } else {
                            args.len()
                        };
                        let subst = subst_of_args(&shape.generics, args, count);
                        return substitute_type_params(t, &subst);
                    }
                    let message = "struct `".to_owned()
                        .concat(n.as_str())
                        .concat("` has no field `")
                        .concat(field)
                        .concat("`");
                    note(errors, message, ctx.name.clone());
                }
            },
            _ => {},
        }
        let made = Ty::Unit;
        proof {
            made.unfold();
        }
        made
    }

    /// The type of an element.
    fn element_type(
        &self,
        base: Ty,
        ctx: &Ctx,
        errors: &mut Vec<TypeError>,
    ) -> (r: Ty)
        ensures
            (Found { ty: r.tree(), errs: trees(final(errors)@) }) == element_type(
                self.scope(*ctx),
                base.tree(),
                trees(old(errors)@),
            ),
    {
        proof {
            base.unfold();
        }
        match base {
            Ty::Array(t) => *t,
            _ => {
                let message = "cannot index into type `".to_owned()
                    .concat(base.show().as_str())
                    .concat("`");
                note(errors, message, ctx.name.clone());
                let made = Ty::Unit;
                proof {
                    made.unfold();
                }
                made
            },
        }
    }

    /// The arguments, each held against the parameter in its place.
    fn check_args(
        &self,
        args: &Vec<Arg>, params: &Vec<Ty>,
        env: &mut Env,
        ctx: &Ctx,
        errors: &mut Vec<TypeError>,
    )
        ensures
            final(env).locals() == old(env).locals(),
            trees(final(errors)@) == args_against(
                self.scope(*ctx),
                old(env).locals(),
                trees(args@),
                trees(params@),
                args@.len(),
                trees(old(errors)@),
            ),
        decreases args, 0nat,
    {
        assert(trees(params@).len() == params@.len());
        let ghost start = trees(errors@);
        let ghost outer = env.locals();
        let mut i: usize = 0;
        while i < args.len()
            invariant
                i <= args@.len(),
                trees(params@).len() == params@.len(),
                env.locals() == outer,
                trees(errors@) == args_against(
                    self.scope(*ctx),
                    outer,
                    trees(args@),
                    trees(params@),
                    i as nat,
                    start,
                ),
            decreases args@.len() - i,
        {
            let arg = &args[i];
            proof {
                arg.unfold();
            }
            let hint = if i < params.len() {
                Some(&params[i])
            } else {
                None
            };
            self.check_part(&arg.value, hint, env, ctx, errors);
            i = i + 1;
        }
    }

    /// The arguments on their own.
    fn check_loose_args(
        &self,
        args: &Vec<Arg>,
        env: &mut Env,
        ctx: &Ctx,
        errors: &mut Vec<TypeError>,
    )
        ensures
            final(env).locals() == old(env).locals(),
            trees(final(errors)@) == args_against(
                self.scope(*ctx),
                old(env).locals(),
                trees(args@),
                seq![],
                args@.len(),
                trees(old(errors)@),
            ),
        decreases args, 1nat,
    {
        let params: Vec<Ty> = Vec::new();
        assert(trees(params@) =~= seq![]);
        self.check_args(args, &params, env, ctx, errors);
    }

    /// The types of the arguments.
    fn types_of_args(
        &self,
        args: &Vec<Arg>,
        env: &mut Env,
        ctx: &Ctx,
        errors: &mut Vec<TypeError>,
    ) -> (r: Vec<Ty>)
        ensures
            final(env).locals() == old(env).locals(),
            (AllFound { tys: trees(r@), errs: trees(final(errors)@) }) == arg_types(
                self.scope(*ctx),
                old(env).locals(),
                trees(args@),
                args@.len(),
                trees(old(errors)@),
            ),
        decreases args, 0nat,
    {
        let ghost start = trees(errors@);
        let ghost outer = env.locals();
        let mut found: Vec<Ty> = Vec::new();
        let mut i: usize = 0;
        assert(trees(found@) =~= seq![]);
        while i < args.len()
            invariant
                i <= args@.len(),
                env.locals() == outer,
                (AllFound { tys: trees(found@), errs: trees(errors@) }) == arg_types(
                    self.scope(*ctx),
                    outer,
                    trees(args@),
                    i as nat,
                    start,
                ),
            decreases args@.len() - i,
        {
            let arg = &args[i];
            proof {
                arg.unfold();
            }
            let ghost before = found@;
            let t = self.check_part(&arg.value, None, env, ctx, errors);
            found.push(t);
            assert(trees(found@) =~= trees(before).push(t.tree()));
            i = i + 1;
        }
        found
    }

    /// The traits that a type parameter asks of the type found for it.
    fn check_bound(
        &self,
        function: &str, param: &str, t: &Ty, traits: &Vec<String>,
        ctx: &Ctx,
        errors: &mut Vec<TypeError>,
    )
        ensures
            trees(final(errors)@) == bound_problems(
                self.scope(*ctx),
                function@,
                param@,
                t.tree(),
                trees(traits@),
                traits@.len(),
                trees(old(errors)@),
            ),
    {
        let ghost start = trees(errors@);
        let mut i: usize = 0;
        while i < traits.len()
            invariant
                i <= traits@.len(),
                trees(errors@) == bound_problems(
                    self.scope(*ctx),
                    function@,
                    param@,
                    t.tree(),
                    trees(traits@),
                    i as nat,
                    start,
                ),
            decreases traits@.len() - i,
        {
            let name = traits[i].as_str();
            if !self.satisfies_bound(t, name) {
                let message = "type `".to_owned()
                    .concat(t.show().as_str())
                    .concat("` does not satisfy bound `")
                    .concat(name)
                    .concat("` required for generic parameter `")
                    .concat(param)
                    .concat("` of `")
                    .concat(function)
                    .concat("` (Document 8 §2/§3)");
                note(errors, message, ctx.name.clone());
            }
            i = i + 1;
        }
    }

    /// The bounds of a generic function.
    fn check_bounds(
        &self,
        function: &str, bounds: &Vec<(String, Vec<String>)>, subst: &Names<Ty>,
        ctx: &Ctx,
        errors: &mut Vec<TypeError>,
    )
        ensures
            trees(final(errors)@) == bounds_problems(
                self.scope(*ctx),
                function@,
                entries(bounds@),
                subst.tree(),
                bounds@.len(),
                trees(old(errors)@),
            ),
    {
        let ghost start = trees(errors@);
        let mut i: usize = 0;
        while i < bounds.len()
            invariant
                i <= bounds@.len(),
                trees(errors@) == bounds_problems(
                    self.scope(*ctx),
                    function@,
                    entries(bounds@),
                    subst.tree(),
                    i as nat,
                    start,
                ),
            decreases bounds@.len() - i,
        {
            let bound = &bounds[i];
            assert(entries(bounds@)[i as int] == (bound.0@, trees(bound.1@)));
            assert(trees(bound.1@).len() == bound.1@.len());
            if let Some(t) = subst.get(bound.0.as_str()) {
                self.check_bound(function, bound.0.as_str(), t, &bound.1, ctx, errors);
            }
            i = i + 1;
        }
    }

    /// A call of a generic function, given the types of the arguments.
    fn check_generic_result(
        &self,
        name: &str, shape: &FunctionShape, tys: &Vec<Ty>,
        ctx: &Ctx,
        errors: &mut Vec<TypeError>,
    ) -> (r: Ty)
        ensures
            (Found { ty: r.tree(), errs: trees(final(errors)@) }) == generic_result(
                self.scope(*ctx),
                name@,
                shape.tree(),
                AllFound { tys: trees(tys@), errs: trees(old(errors)@) },
            ),
    {
        assert(trees(tys@).len() == tys@.len());
        assert(trees(shape.params@).len() == shape.params@.len());
        assert(entries(shape.bounds@).len() == shape.bounds@.len());
        let count = if shape.params.len() <= tys.len() {
            shape.params.len()
        } else {
            tys.len()
        };
        let mut subst: Names<Ty> = Names::new();
        unify_types(&shape.params, tys, count, &mut subst);
        self.check_bounds(name, &shape.bounds, &subst, ctx, errors);
        substitute_type_params(&shape.ret, &subst)
    }

    /// A variant with arguments.
    fn check_variant_call(
        &self,
        enum_name: &String, variant: &String, shape: &EnumShape, args: &Vec<Arg>,
        env: &mut Env,
        ctx: &Ctx,
        errors: &mut Vec<TypeError>,
    ) -> (r: Ty)
        ensures
            final(env).locals() == old(env).locals(),
            (Found { ty: r.tree(), errs: trees(final(errors)@) }) == variant_call(
                self.scope(*ctx),
                old(env).locals(),
                enum_name@,
                variant@,
                shape.tree(),
                trees(args@),
                trees(old(errors)@),
            ),
        decreases args, 1nat,
    {
        assert(trees(args@).len() == args@.len());
        match first_of(&shape.variants, variant.as_str()) {
            Some(data) => {
                assert(trees(data@).len() == data@.len());
                self.check_args(args, data, env, ctx, errors);
                if args.len() != data.len() {
                    let what = "`".to_owned().concat(enum_name.as_str()).concat("::").concat(
                        variant.as_str(),
                    ).concat("`");
                    note(errors, wrong_count(what, data.len(), args.len()), ctx.name.clone());
                }
            },
            None => {
                let message = "enum `".to_owned()
                    .concat(enum_name.as_str())
                    .concat("` has no variant `")
                    .concat(variant.as_str())
                    .concat("`");
                note(errors, message, ctx.name.clone());
            },
        }
        let made = Ty::Named(enum_name.clone());
        proof {
            made.unfold();
        }
        made
    }

    /// A call: of a declared function, of a variant, or of something unknown.
    fn check_call(
        &self,
        callee: &Expr, args: &Vec<Arg>,
        expected: Option<&Ty>,
        env: &mut Env,
        ctx: &Ctx,
        errors: &mut Vec<TypeError>,
    ) -> (r: Ty)
        ensures
            final(env).locals() == old(env).locals(),
            (Found { ty: r.tree(), errs: trees(final(errors)@) }) == call(
                self.scope(*ctx),
                old(env).locals(),
                callee.tree(),
                trees(args@),
                opt_ty(expected),
                trees(old(errors)@),
            ),
        decreases args, 2nat,
    {
        proof {
            callee.unfold();
        }
        assert(trees(args@).len() == args@.len());
        match callee {
            Expr::Ident(name) => {
                if let Some(shape) = self.functions.get(name.as_str()) {
                    assert(trees(shape.generics@).len() == shape.generics@.len());
                    if shape.generics.len() == 0 {
                        self.check_args(args, &shape.params, env, ctx, errors);
                        return shape.ret.copy();
                    }
                    let tys = self.types_of_args(args, env, ctx, errors);
                    return self.check_generic_result(name.as_str(), shape, &tys, ctx, errors);
                }
            },
            Expr::Path(path) => {
                assert(trees(path@).len() == path@.len());
                if path.len() == 2 {
                    assert(trees(path@)[0] == path@[0]@ && trees(path@)[1] == path@[1]@);
                    if let Some(shape) = self.enums.get(path[0].as_str()) {
                        return self.check_variant_call(
                            &path[0],
                            &path[1],
                            shape,
                            args,
                            env,
                            ctx,
                            errors,
                        );
                    }
                }
            },
            _ => {},
        }
        self.check_loose_args(args, env, ctx, errors);
        expected_or_unit(expected)
    }

    /// Whether enough is known of a type to say that it lacks a method.
    fn is_known_base(&self, t: &Ty) -> (r: bool)
        ensures
            r == is_known(known(self.reg()), t.tree()),
    {
        proof {
            t.unfold();
        }
        match t {
            Ty::Named(n) => self.structs.contains_key(n.as_str()) || self.enums.contains_key(
                n.as_str(),
            ),
            Ty::Generic(n, _) => self.structs.contains_key(n.as_str())
                || self.enums.contains_key(n.as_str()),
            Ty::DynTrait(n) => self.traits.contains_key(n.as_str()),
            _ => false,
        }
    }

    /// A call of a method on a value of a type.
    fn check_method_call(
        &self,
        base: &Ty, name: &str, args: &Vec<Arg>,
        expected: Option<&Ty>,
        env: &mut Env,
        ctx: &Ctx,
        errors: &mut Vec<TypeError>,
    ) -> (r: Ty)
        ensures
            final(env).locals() == old(env).locals(),
            (Found { ty: r.tree(), errs: trees(final(errors)@) }) == method_call(
                self.scope(*ctx),
                old(env).locals(),
                base.tree(),
                name@,
                trees(args@),
                opt_ty(expected),
                trees(old(errors)@),
            ),
        decreases args, 2nat,
    {
        assert(trees(args@).len() == args@.len());
        let by = receiver_of(base, ctx);
        assert(known_method(known(self.reg()), by.tree(), name@) == method(
            self.reg(),
            by.tree(),
            name@,
        ));
        match self.resolve_method(&by, name) {
            Some(sig) => {
                assert(trees(sig.params@).len() == sig.params@.len());
                self.check_args(args, &sig.params, env, ctx, errors);
                if args.len() != sig.params.len() {
                    let what = "method `".to_owned().concat(name).concat("` on `").concat(
                        base.show().as_str(),
                    ).concat("`");
                    note(errors, wrong_count(what, sig.params.len(), args.len()), ctx.name.clone());
                }
                sig.ret.copy()
            },
            None => {
                self.check_loose_args(args, env, ctx, errors);
                if self.is_known_base(&by) {
                    let message = "no method named `".to_owned()
                        .concat(name)
                        .concat("` found for type `")
                        .concat(base.show().as_str())
                        .concat("`");
                    note(errors, message, ctx.name.clone());
                }
                expected_or_unit(expected)
            },
        }
    }

    /// The fields of a struct literal, each held against its declaration.
    fn check_lit_fields(
        &self,
        name: &str, shape: &StructShape, subst: &Names<Ty>, fields: &Vec<(String, Expr)>,
        env: &mut Env,
        ctx: &Ctx,
        errors: &mut Vec<TypeError>,
    )
        ensures
            final(env).locals() == old(env).locals(),
            trees(final(errors)@) == lit_fields(
                self.scope(*ctx),
                old(env).locals(),
                name@,
                entries(shape.fields@),
                subst.tree(),
                trees(fields@),
                fields@.len(),
                trees(old(errors)@),
            ),
        decreases fields, 0nat,
    {
        let ghost start = trees(errors@);
        let ghost outer = env.locals();
        let mut i: usize = 0;
        while i < fields.len()
            invariant
                i <= fields@.len(),
                env.locals() == outer,
                trees(errors@) == lit_fields(
                    self.scope(*ctx),
                    outer,
                    name@,
                    entries(shape.fields@),
                    subst.tree(),
                    trees(fields@),
                    i as nat,
                    start,
                ),
            decreases fields@.len() - i,
        {
            let field = &fields[i];
            assert(trees(fields@)[i as int] == (field.0@, field.1.tree()));
            match last_of(&shape.fields, field.0.as_str()) {
                Some(t) => {
                    let t = substitute_type_params(t, subst);
                    self.check_part(&field.1, Some(&t), env, ctx, errors);
                },
                None => {
                    let message = "struct `".to_owned()
                        .concat(name)
                        .concat("` has no field `")
                        .concat(field.0.as_str())
                        .concat("`");
                    note(errors, message, ctx.name.clone());
                },
            }
            i = i + 1;
        }
    }

    /// The declared fields that a struct literal leaves out.
    fn check_missing_fields(
        &self,
        name: &str, shape: &StructShape, fields: &Vec<(String, Expr)>,
        ctx: &Ctx,
        errors: &mut Vec<TypeError>,
    )
        ensures
            trees(final(errors)@) == missing_fields(
                self.scope(*ctx),
                name@,
                entries(shape.fields@),
                trees(fields@),
                shape.fields@.len(),
                trees(old(errors)@),
            ),
    {
        let ghost start = trees(errors@);
        let mut i: usize = 0;
        while i < shape.fields.len()
            invariant
                i <= shape.fields@.len(),
                trees(errors@) == missing_fields(
                    self.scope(*ctx),
                    name@,
                    entries(shape.fields@),
                    trees(fields@),
                    i as nat,
                    start,
                ),
            decreases shape.fields@.len() - i,
        {
            let field = shape.fields[i].0.as_str();
            assert(entries(shape.fields@)[i as int].0 == field@);
            if !gives_field(fields, field) {
                let message = "missing field `".to_owned()
                    .concat(field)
                    .concat("` in struct literal for `")
                    .concat(name)
                    .concat("`");
                note(errors, message, ctx.name.clone());
            }
            i = i + 1;
        }
    }

    #[verifier::rlimit(40)]
    fn check_struct_lit(
        &self,
        name: &String, fields: &Vec<(String, Expr)>, has_spread: bool,
        expected: Option<&Ty>,
        env: &mut Env,
        ctx: &Ctx,
        errors: &mut Vec<TypeError>,
    ) -> (r: Ty)
        ensures
            final(env).locals() == old(env).locals(),
            (Found { ty: r.tree(), errs: trees(final(errors)@) }) == struct_lit(
                self.scope(*ctx),
                old(env).locals(),
                name@,
                trees(fields@),
                has_spread,
                opt_ty(expected),
                trees(old(errors)@),
            ),
        decreases fields, 1nat,
    {
        assert(trees(fields@).len() == fields@.len());
        let shape = match self.structs.get(name.as_str()) {
            Some(shape) => shape,
            None => {
                let message = "undefined struct `".to_owned().concat(name.as_str()).concat("`");
                note(errors, message, ctx.name.clone());
                let made = Ty::Named(name.clone());
                proof {
                    made.unfold();
                }
                return made;
            },
        };
        assert(trees(shape.generics@).len() == shape.generics@.len());
        assert(entries(shape.fields@).len() == shape.fields@.len());
        let mut annotated: Option<&Vec<GenericArg>> = None;
        if let Some(t) = expected {
            proof {
                t.unfold();
            }
            if let Ty::Generic(n, args) = t {
                assert(trees(args@).len() == args@.len());
                if shape.generics.len() > 0 && same_text(n.as_str(), name.as_str()) && args.len()
                    == shape.generics.len() {
                    annotated = Some(args);
                }
            }
        }
        let subst = match annotated {
            Some(args) => subst_of_args(&shape.generics, args, args.len()),
            None => Names::new(),
        };
        self.check_lit_fields(name.as_str(), shape, &subst, fields, env, ctx, errors);
        if !has_spread {
            self.check_missing_fields(name.as_str(), shape, fields, ctx, errors);
        }
        let made = match annotated {
            Some(args) => Ty::Generic(name.clone(), copy_args(args)),
            None => Ty::Named(name.clone()),
        };
        proof {
            made.unfold();
        }
        made
    }

    /// `if`: the branches have to agree.
    fn check_if(
        &self,
        x: &IfExpr,
        expected: Option<&Ty>,
        env: &mut Env,
        ctx: &Ctx,
        errors: &mut Vec<TypeError>,
    ) -> (r: Ty)
        ensures
            final(env).locals() == old(env).locals(),
            (Found { ty: r.tree(), errs: trees(final(errors)@) }) == if_expr(
                self.scope(*ctx),
                old(env).locals(),
                x.tree(),
                opt_ty(expected),
                trees(old(errors)@),
            ),
        decreases x, 0nat,
    {
        proof {
            x.unfold();
        }
        let condition = Ty::Bool;
        proof {
            condition.unfold();
        }
        self.check_part(&x.cond, Some(&condition), env, ctx, errors);
        let hint = tell_block(&x.then_block, expected);
        let then_ty = self.check_block(&x.then_block, hint, env, ctx, errors);
        let then_ty = ty_or_unit(then_ty);
        match &x.else_branch {
            Some(branch) => {
                proof {
                    branch.unfold();
                }
                match branch {
                    ElseBranch::Block(b) => {
                        let hint = tell_block(b, Some(&then_ty));
                        let else_ty = self.check_block(b, hint, env, ctx, errors);
                        let else_ty = ty_or_unit(else_ty);
                        if !else_ty.same(&then_ty) {
                            let message = "`if`/`else` branches have incompatible types: `".to_owned()
                                .concat(then_ty.show().as_str())
                                .concat("` and `")
                                .concat(else_ty.show().as_str())
                                .concat("` (Document 5 rule 5: no cross-branch guessing)");
                            note(errors, message, ctx.name.clone());
                        }
                    },
                    ElseBranch::If(inner) => {
                        let else_ty = self.check_if(inner, Some(&then_ty), env, ctx, errors);
                        if !else_ty.same(&then_ty) {
                            let message = "`if`/`else if` branches have incompatible types: `".to_owned()
                                .concat(then_ty.show().as_str())
                                .concat("` and `")
                                .concat(else_ty.show().as_str())
                                .concat("` (Document 5 rule 5)");
                            note(errors, message, ctx.name.clone());
                        }
                    },
                }
            },
            None => {},
        }
        then_ty
    }

    /// One arm of a `match`.
    fn check_arm(
        &self,
        a: &MatchArm,
        expected: Option<&Ty>,
        env: &mut Env,
        ctx: &Ctx,
        errors: &mut Vec<TypeError>,
    ) -> (r: Ty)
        ensures
            final(env).locals() == old(env).locals(),
            (Found { ty: r.tree(), errs: trees(final(errors)@) }) == arm(
                self.scope(*ctx),
                old(env).locals(),
                a.tree(),
                opt_ty(expected),
                trees(old(errors)@),
            ),
        decreases a, 0nat,
    {
        proof {
            a.unfold();
        }
        let ghost outer = env.locals();
        env.push();
        if let Some(guard) = &a.guard {
            let condition = Ty::Bool;
            proof {
                condition.unfold();
            }
            self.check_part(guard, Some(&condition), env, ctx, errors);
        }
        proof {
            a.body.unfold();
        }
        let t = match &a.body {
            MatchArmBody::Expr(e) => self.check_part(e, tell(e, expected), env, ctx, errors),
            MatchArmBody::Block(b) => {
                let t = self.check_block(b, tell_block(b, expected), env, ctx, errors);
                ty_or_unit(t)
            },
        };
        env.pop();
        assert(env.locals() =~= outer);
        t
    }

    /// The arms of a `match`: all of the type expected, or else of the first arm's.
    fn check_arms(
        &self,
        all: &Vec<MatchArm>,
        expected: Option<&Ty>,
        env: &mut Env,
        ctx: &Ctx,
        errors: &mut Vec<TypeError>,
    ) -> (r: Option<Ty>)
        ensures
            final(env).locals() == old(env).locals(),
            (MaybeFound { ty: opt_tree(r), errs: trees(final(errors)@) }) == arms(
                self.scope(*ctx),
                old(env).locals(),
                trees(all@),
                opt_ty(expected),
                all@.len(),
                trees(old(errors)@),
            ),
        decreases all, 0nat,
    {
        let ghost start = trees(errors@);
        let ghost outer = env.locals();
        let mut common: Option<Ty> = match expected {
            Some(t) => Some(t.copy()),
            None => None,
        };
        let mut i: usize = 0;
        while i < all.len()
            invariant
                i <= all@.len(),
                env.locals() == outer,
                (MaybeFound { ty: opt_tree(common), errs: trees(errors@) }) == arms(
                    self.scope(*ctx),
                    outer,
                    trees(all@),
                    opt_ty(expected),
                    i as nat,
                    start,
                ),
            decreases all@.len() - i,
        {
            let t = self.check_arm(&all[i], common.as_ref(), env, ctx, errors);
            match &common {
                Some(c) => {
                    if !c.same(&t) {
                        let message = "`match` arms have incompatible types: `".to_owned()
                            .concat(c.show().as_str())
                            .concat("` and `")
                            .concat(t.show().as_str())
                            .concat("` (Document 5 rule 5: no cross-branch guessing)");
                        note(errors, message, ctx.name.clone());
                    }
                },
                None => {
                    common = Some(t);
                },
            }
            i = i + 1;
        }
        common
    }

    fn check_match(
        &self,
        x: &MatchExpr,
        expected: Option<&Ty>,
        env: &mut Env,
        ctx: &Ctx,
        errors: &mut Vec<TypeError>,
    ) -> (r: Ty)
        ensures
            final(env).locals() == old(env).locals(),
            (Found { ty: r.tree(), errs: trees(final(errors)@) }) == match_expr(
                self.scope(*ctx),
                old(env).locals(),
                x.tree(),
                opt_ty(expected),
                trees(old(errors)@),
            ),
        decreases x, 0nat,
    {
        proof {
            x.unfold();
        }
        assert(trees(x.arms@).len() == x.arms@.len());
        self.check_part(&x.scrutinee, None, env, ctx, errors);
        let t = self.check_arms(&x.arms, expected, env, ctx, errors);
        ty_or_unit(t)
    }

    /// The body of a closure.
    fn check_closure(
        &self,
        x: &ClosureExpr,
        env: &mut Env,
        ctx: &Ctx,
        errors: &mut Vec<TypeError>,
    )
        ensures
            final(env).locals() == old(env).locals(),
            trees(final(errors)@) == closure(
                self.scope(*ctx),
                old(env).locals(),
                x.tree(),
                trees(old(errors)@),
            ),
        decreases x, 0nat,
    {
        proof {
            x.unfold();
        }
        assert(trees(x.params@).len() == x.params@.len());
        let ghost outer = env.locals();
        env.push();
        assert(env.locals().drop_last() =~= outer);
        bind_params(&x.params, env);
        proof {
            x.body.unfold();
        }
        match &x.body {
            ClosureBody::Expr(e) => {
                self.check_part(e, None, env, ctx, errors);
            },
            ClosureBody::Block(b) => {
                self.check_block(b, None, env, ctx, errors);
            },
        }
        env.pop();
    }

    /// A block, with names of its own; the type is that of its last expression.
    pub fn check_block(
        &self,
        b: &Block,
        expected: Option<&Ty>,
        env: &mut Env,
        ctx: &Ctx,
        errors: &mut Vec<TypeError>,
    ) -> (r: Option<Ty>)
        ensures
            final(env).locals() == old(env).locals(),
            (MaybeFound { ty: opt_tree(r), errs: trees(final(errors)@) }) == block(
                self.scope(*ctx),
                old(env).locals(),
                b.tree(),
                opt_ty(expected),
                trees(old(errors)@),
            ),
        decreases b, 0nat,
    {
        proof {
            b.unfold();
        }
        assert(trees(b.stmts@).len() == b.stmts@.len());
        let ghost outer = env.locals();
        env.push();
        assert(env.locals().drop_last() =~= outer);
        self.check_stmts(&b.stmts, env, ctx, errors);
        let t = match &b.tail {
            Some(e) => Some(self.check_part(e, expected, env, ctx, errors)),
            None => None,
        };
        env.pop();
        t
    }

    fn check_stmts(
        &self,
        all: &Vec<Stmt>,
        env: &mut Env,
        ctx: &Ctx,
        errors: &mut Vec<TypeError>,
    )
        requires
            old(env).locals().len() > 0,
        ensures
            final(env).locals().len() == old(env).locals().len(),
            final(env).locals().drop_last() == old(env).locals().drop_last(),
            (Bound { env: final(env).locals(), errs: trees(final(errors)@) }) == stmts(
                self.scope(*ctx),
                old(env).locals(),
                trees(all@),
                all@.len(),
                trees(old(errors)@),
            ),
        decreases all, 0nat,
    {
        let ghost start = trees(errors@);
        let ghost outer = env.locals();
        let mut i: usize = 0;
        while i < all.len()
            invariant
                i <= all@.len(),
                outer.len() > 0,
                env.locals().len() == outer.len(),
                env.locals().drop_last() == outer.drop_last(),
                (Bound { env: env.locals(), errs: trees(errors@) }) == stmts(
                    self.scope(*ctx),
                    outer,
                    trees(all@),
                    i as nat,
                    start,
                ),
            decreases all@.len() - i,
        {
            self.check_stmt(&all[i], env, ctx, errors);
            i = i + 1;
        }
    }

    fn check_stmt(
        &self,
        s: &Stmt,
        env: &mut Env,
        ctx: &Ctx,
        errors: &mut Vec<TypeError>,
    )
        requires
            old(env).locals().len() > 0,
        ensures
            final(env).locals().len() == old(env).locals().len(),
            final(env).locals().drop_last() == old(env).locals().drop_last(),
            (Bound { env: final(env).locals(), errs: trees(final(errors)@) }) == stmt(
                self.scope(*ctx),
                old(env).locals(),
                s.tree(),
                trees(old(errors)@),
            ),
        decreases s, 0nat,
    {
        proof {
            s.unfold();
        }
        match s {
            Stmt::Let { pattern, ty, value, .. } => {
                let annotated = match ty {
                    Some(t) => Some(self.resolve_type_full(t, ctx, errors)),
                    None => None,
                };
                let given = match value {
                    Some(e) => Some(self.check_expr(e, annotated.as_ref(), env, ctx, errors)),
                    None => None,
                };
                let t = match annotated {
                    Some(t) => t,
                    None => match given {
                        Some(t) => t,
                        None => {
                            let message = "cannot infer type: no annotation and no initializer".to_owned();
                            note(errors, message, ctx.name.clone());
                            let made = Ty::Unit;
                            proof {
                                made.unfold();
                            }
                            made
                        },
                    },
                };
                proof {
                    pattern.unfold();
                }
                match pattern {
                    Pattern::Ident(name) => env.insert(name.clone(), t),
                    Pattern::Mut(name) => env.insert(name.clone(), t),
                    _ => {},
                }
            },
            Stmt::Expr(e) => {
                self.check_expr(e, None, env, ctx, errors);
            },
            _ => {},
        }
    }
}

/// Binds the parameters of a closure that are plain names.
fn bind_params(params: &Vec<(Pattern, Option<Type>)>, env: &mut Env)
    requires
        old(env).locals().len() > 0,
    ensures
        final(env).locals().len() == old(env).locals().len(),
        final(env).locals().drop_last() == old(env).locals().drop_last(),
        final(env).locals() == closure_locals(old(env).locals(), trees(params@), params@.len()),
{
    let ghost outer = env.locals();
    let mut i: usize = 0;
    while i < params.len()
        invariant
            i <= params@.len(),
            outer.len() > 0,
            env.locals().len() == outer.len(),
            env.locals().drop_last() == outer.drop_last(),
            env.locals() == closure_locals(outer, trees(params@), i as nat),
        decreases params@.len() - i,
    {
        let p = &params[i];
        assert(trees(params@)[i as int] == (p.0.tree(), opt_tree(p.1)));
        proof {
            p.0.unfold();
        }
        if let Pattern::Ident(name) = &p.0 {
            let t = match &p.1 {
                Some(t) => resolve_type(t),
                None => {
                    let made = Ty::Unit;
                    proof {
                        made.unfold();
                    }
                    made
                },
            };
            env.insert(name.clone(), t);
        }
        i = i + 1;
    }
}

/// The type by which a call on a value finds its method.
fn receiver_of(t: &Ty, ctx: &Ctx) -> (r: Ty)
    ensures
        forall|known: Known, name: Seq<char>|
            r.tree() == #[trigger] receiver(
                Scope { known, name, own: opt_tree(ctx.own) },
                t.tree(),
            ),
{
    if let Some(own) = &ctx.own {
        if own.same(t) {
            if let Some(name) = ty_lookup_name(t) {
                let made = Ty::Named(name);
                proof {
                    made.unfold();
                }
                return made;
            }
        }
    }
    t.copy()
}

fn wrong_count(what: String, expected: usize, found: usize) -> (r: String)
    ensures
        r@ == count_message(what@, expected as nat, found as nat),
{
    what.concat(" expects ").concat(show_usize(expected).as_str()).concat(
        " argument(s), found ",
    ).concat(show_usize(found).as_str())
}

} // verus!
